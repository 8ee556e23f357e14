//! Email addresses that passed validation.

use vstd::prelude::*;
use vstd::string::StringExecFns;

verus! {

/// Whether `validator::validate_email` accepts `text`.
pub uninterp spec fn email_accepted(text: Seq<char>) -> bool;

/// Texts that cannot be an address whatever else they hold: the empty text,
/// a text without `@`, and a text that begins with `@`.
pub open spec fn lacks_address_shape(text: Seq<char>) -> bool {
    text.len() == 0 || !text.contains('@') || text[0] == '@'
}

/// `validator::validate_email`: the HTML5 address check. It rejects the
/// empty text and a text without `@` outright; the part before the last `@`
/// must be one or more characters out of a class that does not hold `@`, so a
/// text that begins with `@` is rejected too.
#[verifier::external_body]
fn validate_email(text: &str) -> (accepted: bool)
    ensures
        accepted == email_accepted(text@),
        lacks_address_shape(text@) ==> !accepted,
{
    validator::validate_email(text)
}

/// An email address that the validator accepted.
#[derive(Debug)]
pub struct SubscriberEmail(String);

impl View for SubscriberEmail {
    type V = Seq<char>;

    closed spec fn view(&self) -> Seq<char> {
        self.0@
    }
}

/// The message that [`SubscriberEmail::parse`] rejects `text` with.
pub open spec fn invalid_email_message(text: Seq<char>) -> Seq<char> {
    text + " is not a valid subscriber email."@
}

impl SubscriberEmail {
    #[verifier::type_invariant]
    closed spec fn accepted(self) -> bool {
        email_accepted(self.0@)
    }

    /// Accepts `s` if and only if the validator does.
    pub fn parse(s: String) -> (parsed: Result<SubscriberEmail, String>)
        ensures
            parsed is Ok <==> email_accepted(s@),
            lacks_address_shape(s@) ==> parsed is Err,
            parsed matches Ok(email) ==> email@ == s@,
            parsed matches Err(message) ==> message@ == invalid_email_message(s@),
    {
        if validate_email(s.as_str()) {
            Ok(SubscriberEmail(s))
        } else {
            Err(s.concat(" is not a valid subscriber email."))
        }
    }

    /// The address as text. Every value of this type holds an accepted
    /// address.
    pub fn as_ref(&self) -> (text: &str)
        ensures
            text@ == self@,
            email_accepted(self@),
    {
        proof {
            use_type_invariant(self);
        }
        self.0.as_str()
    }
}

impl Clone for SubscriberEmail {
    fn clone(&self) -> (copy: Self)
        ensures
            copy@ == self@,
    {
        proof {
            use_type_invariant(self);
        }
        SubscriberEmail(self.0.clone())
    }
}

} // verus!
