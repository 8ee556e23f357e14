//! Requests to the mail service, and what its answers mean.

use crate::decimal::{parse_unsigned, unsigned};
use crate::domain::SubscriberEmail;
use crate::secret::SecretString;
use vstd::prelude::*;
use vstd::string::StrSliceExecFns;
use vstd::string::StringExecFns;

verus! {

/// The body of a request to the mail service. The service reads the fields
/// under the keys `From`, `To`, `Subject`, `HtmlBody` and `TextBody`.
pub struct SendEmailRequest {
    pub from: String,
    pub to: String,
    pub subject: String,
    pub html_body: String,
    pub text_body: String,
}

/// The header under which a request to the mail service carries its token.
pub const TOKEN_HEADER: &'static str = "X-Postmark-Server-Token";

/// One email on its way out: a `POST` to `url`, with the token in the header
/// [`TOKEN_HEADER`], `body` as JSON, and `timeout_millis` to answer.
pub struct OutboundEmail {
    pub url: String,
    pub authorization_token: SecretString,
    pub timeout_millis: u64,
    pub body: SendEmailRequest,
}

/// Why an email did not go out.
#[derive(Clone, Copy, Debug, PartialEq, Eq, Structural)]
pub enum TransportError {
    /// No answer came: the request timed out or could not be sent.
    NoResponse,
    /// The service answered with a status outside 200..=299.
    Status(u16),
}

/// Whether an email went out, given the status the mail service answered
/// with, or `None` where no answer came: only a status in 200..=299 is a
/// success.
pub open spec fn delivery_result(status: Option<u16>) -> Result<(), TransportError> {
    match status {
        None => Err(TransportError::NoResponse),
        Some(code) => if 200 <= code <= 299 {
            Ok(())
        } else {
            Err(TransportError::Status(code))
        },
    }
}

/// Reads the answer of the mail service.
pub fn delivery_outcome(status: Option<u16>) -> (outcome: Result<(), TransportError>)
    ensures
        outcome == delivery_result(status),
{
    match status {
        None => Err(TransportError::NoResponse),
        Some(code) => if 200 <= code && code <= 299 {
            Ok(())
        } else {
            Err(TransportError::Status(code))
        },
    }
}

/// What is needed to address the mail service.
pub struct EmailClient {
    base_url: String,
    sender: SubscriberEmail,
    authorization_token: SecretString,
    timeout_millis: u64,
}

impl EmailClient {
    pub closed spec fn base_url(&self) -> Seq<char> {
        self.base_url@
    }

    pub closed spec fn sender(&self) -> Seq<char> {
        self.sender@
    }

    pub closed spec fn authorization_token(&self) -> Seq<char> {
        self.authorization_token@
    }

    pub closed spec fn timeout_millis(&self) -> u64 {
        self.timeout_millis
    }

    /// A client for the service at `base_url`, sending as `sender`.
    pub fn new(
        base_url: String,
        sender: SubscriberEmail,
        authorization_token: SecretString,
        timeout_millis: u64,
    ) -> (client: Self)
        ensures
            client.base_url() == base_url@,
            client.sender() == sender@,
            client.authorization_token() == authorization_token@,
            client.timeout_millis() == timeout_millis,
    {
        EmailClient { base_url, sender, authorization_token, timeout_millis }
    }

    /// Whether `email` is the request by which this client sends the given
    /// subject and bodies to `recipient`: a `POST` to `/email` under the base
    /// address, from the client's sender, under the client's token and
    /// timeout.
    pub open spec fn composes(
        &self,
        email: OutboundEmail,
        recipient: Seq<char>,
        subject: Seq<char>,
        html_content: Seq<char>,
        text_content: Seq<char>,
    ) -> bool {
        &&& email.url@ == self.base_url() + "/email"@
        &&& email.authorization_token@ == self.authorization_token()
        &&& email.timeout_millis == self.timeout_millis()
        &&& email.body.from@ == self.sender()
        &&& email.body.to@ == recipient
        &&& email.body.subject@ == subject
        &&& email.body.html_body@ == html_content
        &&& email.body.text_body@ == text_content
    }

    /// The request that sends one email to `recipient`.
    pub fn send_email(
        &self,
        recipient: &SubscriberEmail,
        subject: &str,
        html_content: &str,
        text_content: &str,
    ) -> (email: OutboundEmail)
        ensures
            self.composes(email, recipient@, subject@, html_content@, text_content@),
    {
        OutboundEmail {
            url: self.base_url.clone().concat("/email"),
            authorization_token: self.authorization_token.duplicate(),
            timeout_millis: self.timeout_millis,
            body: SendEmailRequest {
                from: self.sender.as_ref().to_owned(),
                to: recipient.as_ref().to_owned(),
                subject: subject.to_owned(),
                html_body: html_content.to_owned(),
                text_body: text_content.to_owned(),
            },
        }
    }
}

/// The timeout that a setting asks for, in milliseconds: a number in
/// decimal digits, which a `+` may precede.
pub open spec fn timeout_setting(text: Seq<char>) -> Option<u64> {
    if text.len() > 0 && text[0] == '+' {
        unsigned(text.skip(1))
    } else {
        unsigned(text)
    }
}

impl EmailClient {
    /// Reads the timeout for requests to the mail service out of its
    /// setting, in milliseconds.
    pub fn timeout(setting: &str) -> (millis: Option<u64>)
        ensures
            millis == timeout_setting(setting@),
    {
        let length: usize = setting.unicode_len();
        if length > 0 && setting.get_char(0) == '+' {
            parse_unsigned(setting.substring_char(1, length))
        } else {
            parse_unsigned(setting)
        }
    }
}

} // verus!
