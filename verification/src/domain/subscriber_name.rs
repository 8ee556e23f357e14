//! Display names that passed validation.

use vstd::prelude::*;
use vstd::string::StrSliceExecFns;
use vstd::string::StringExecFns;

verus! {

/// The longest display name accepted, in characters.
pub const MAX_NAME_LENGTH: usize = 256;

/// A display name is valid when it is not empty and not longer than
/// [`MAX_NAME_LENGTH`] characters.
pub open spec fn name_accepted(text: Seq<char>) -> bool {
    0 < text.len() <= MAX_NAME_LENGTH
}

/// The message that [`SubscriberName::parse`] rejects `text` with.
pub open spec fn invalid_name_message(text: Seq<char>) -> Seq<char> {
    text + " is not a valid subscriber name."@
}

/// A display name that is neither empty nor over-long.
#[derive(Debug)]
pub struct SubscriberName(String);

impl View for SubscriberName {
    type V = Seq<char>;

    closed spec fn view(&self) -> Seq<char> {
        self.0@
    }
}

impl SubscriberName {
    #[verifier::type_invariant]
    closed spec fn accepted(self) -> bool {
        name_accepted(self.0@)
    }

    /// Accepts `s` if and only if it is a valid display name.
    pub fn parse(s: String) -> (parsed: Result<SubscriberName, String>)
        ensures
            parsed is Ok <==> name_accepted(s@),
            parsed matches Ok(name) ==> name@ == s@,
            parsed matches Err(message) ==> message@ == invalid_name_message(s@),
    {
        let length: usize = s.as_str().unicode_len();
        if length == 0 || length > MAX_NAME_LENGTH {
            Err(s.concat(" is not a valid subscriber name."))
        } else {
            Ok(SubscriberName(s))
        }
    }

    /// The name as text. Every value of this type holds a valid name.
    pub fn as_ref(&self) -> (text: &str)
        ensures
            text@ == self@,
            name_accepted(self@),
    {
        proof {
            use_type_invariant(self);
        }
        self.0.as_str()
    }
}

impl Clone for SubscriberName {
    fn clone(&self) -> (copy: Self)
        ensures
            copy@ == self@,
    {
        proof {
            use_type_invariant(self);
        }
        SubscriberName(self.0.clone())
    }
}

} // verus!
