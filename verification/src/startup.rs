//! Values fixed when the service starts.

use vstd::prelude::*;

verus! {

/// The address under which the service is reachable from outside, without a
/// trailing slash. Confirmation links begin with it.
pub struct ApplicationBaseUrl(pub String);

} // verus!
