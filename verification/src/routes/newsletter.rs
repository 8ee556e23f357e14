//! Publishing an issue: who may publish, and to whom it goes.

use crate::authentication::{
    credentials_verdict, validate_credentials, AuthError, AuthFault, Credentials,
    CredentialsFault, StoredCredentials,
};
use crate::domain::subscriber_email::{email_accepted, invalid_email_message};
use crate::domain::SubscriberEmail;
use crate::email_client::{EmailClient, OutboundEmail, TransportError};
use crate::secret::SecretString;
use crate::storage::StorageError;
use vstd::prelude::*;
use vstd::string::StrSliceExecFns;
use vstd::utf8::{decode_utf8, valid_utf8};

verus! {

/// `base64::DecodeError`, carried as it comes.
#[verifier::external_type_specification]
#[verifier::external_body]
pub struct ExDecodeError(base64::DecodeError);

/// `std::string::FromUtf8Error`, carried as it comes.
#[verifier::external_type_specification]
#[verifier::external_body]
pub struct ExFromUtf8Error(std::string::FromUtf8Error);

/// What `base64::decode_config` with `base64::STANDARD` makes of `encoded`:
/// the decoded bytes, or nothing where it reports an error.
pub uninterp spec fn base64_decoding(encoded: Seq<u8>) -> Option<Seq<u8>>;

/// `base64::decode_config` with the standard alphabet and padding. It sums
/// the length of the input with three and with seven, and panics where a sum
/// overflows.
#[verifier::external_body]
fn base64_decode(encoded: &[u8]) -> (decoded: Result<Vec<u8>, base64::DecodeError>)
    requires
        encoded@.len() + 7 <= usize::MAX,
    ensures
        match decoded {
            Ok(bytes) => base64_decoding(encoded@) == Some(bytes@),
            Err(_) => base64_decoding(encoded@) is None,
        },
{
    base64::decode_config(encoded, base64::STANDARD)
}

/// `String::from_utf8`: the bytes as a string, if and only if they are
/// UTF-8; the string then holds the characters that the bytes encode.
pub assume_specification[ String::from_utf8 ](bytes: Vec<u8>) -> (text: Result<
    String,
    std::string::FromUtf8Error,
>)
    ensures
        text is Ok <==> valid_utf8(bytes@),
        text matches Ok(s) ==> s@ == decode_utf8(bytes@),
;

/// Why a request carries no usable `Basic` credentials.
#[derive(Clone, Copy, Debug, PartialEq, Eq, Structural)]
pub enum BasicAuthError {
    /// There is no `Authorization` header.
    MissingHeader,
    /// The header holds a byte that is not visible ASCII.
    NotText,
    /// The header does not begin with `Basic `.
    NotBasic,
    /// What follows `Basic ` is not base64.
    NotBase64,
    /// The decoded bytes are not UTF-8.
    NotUtf8,
    /// The decoded text holds no colon, so no password.
    MissingPassword,
}

/// The bytes that a header value may hold to count as text: the printable
/// ASCII characters, the space and the tab.
pub open spec fn is_visible_ascii(byte: u8) -> bool {
    (32 <= byte < 127) || byte == 9
}

/// The bytes of `Basic `, the scheme's name and one space.
pub open spec fn basic_prefix() -> Seq<u8> {
    seq![66u8, 97u8, 115u8, 105u8, 99u8, 32u8]
}

/// User name and password out of the decoded bytes: the text before the
/// first colon and the text after it.
pub open spec fn decoded_credentials(decoded: Seq<u8>) -> Result<
    (Seq<char>, Seq<char>),
    BasicAuthError,
> {
    if !valid_utf8(decoded) {
        Err(BasicAuthError::NotUtf8)
    } else {
        let text = decode_utf8(decoded);
        match text.index_of_first(':') {
            None => Err(BasicAuthError::MissingPassword),
            Some(colon) => Ok((text.subrange(0, colon), text.subrange(colon + 1, text.len() as int))),
        }
    }
}

/// User name and password out of the value of the `Authorization` header.
/// A value of the greatest length that the machine can count is not
/// decoded.
pub open spec fn basic_credentials(authorization: Option<Seq<u8>>) -> Result<
    (Seq<char>, Seq<char>),
    BasicAuthError,
> {
    match authorization {
        None => Err(BasicAuthError::MissingHeader),
        Some(value) => if exists|i: int| 0 <= i < value.len() && !is_visible_ascii(#[trigger] value[i]) {
            Err(BasicAuthError::NotText)
        } else if !basic_prefix().is_prefix_of(value) {
            Err(BasicAuthError::NotBasic)
        } else if value.len() >= usize::MAX {
            Err(BasicAuthError::NotBase64)
        } else {
            match base64_decoding(value.skip(6)) {
                None => Err(BasicAuthError::NotBase64),
                Some(decoded) => decoded_credentials(decoded),
            }
        },
    }
}

/// Whether `credentials` holds the given user name and password.
pub open spec fn holds(credentials: Credentials, pair: (Seq<char>, Seq<char>)) -> bool {
    credentials.username@ == pair.0 && credentials.password@ == pair.1
}

/// The position of the first colon in `text`.
fn first_colon(text: &str) -> (position: Option<usize>)
    ensures
        match position {
            Some(i) => text@.index_of_first(':') == Some(i as int),
            None => text@.index_of_first(':') is None,
        },
{
    let length: usize = text.unicode_len();
    let mut i: usize = 0;
    for c in it: text.chars()
        invariant
            i == it.index(),
            it.seq() == text@,
            length == text@.len(),
            forall|j: int| 0 <= j < i ==> text@[j] != ':',
    {
        if c == ':' {
            proof {
                text@.index_of_first_ensures(':');
                assert(text@[i as int] == ':');
                assert(text@.contains(':'));
            }
            return Some(i);
        }
        i = i + 1;
    }
    proof {
        text@.index_of_first_ensures(':');
    }
    None
}

/// Splits the decoded credentials at the first colon.
pub fn credentials_from_decoded(decoded: Vec<u8>) -> (parsed: Result<Credentials, BasicAuthError>)
    ensures
        match decoded_credentials(decoded@) {
            Ok(pair) => parsed matches Ok(credentials) && holds(credentials, pair),
            Err(error) => parsed matches Err(e) && e == error,
        },
{
    match String::from_utf8(decoded) {
        Err(_) => Err(BasicAuthError::NotUtf8),
        Ok(text) => {
            match first_colon(text.as_str()) {
                None => Err(BasicAuthError::MissingPassword),
                Some(colon) => {
                    let length: usize = text.as_str().unicode_len();
                    proof {
                        text@.index_of_first_ensures(':');
                    }
                    let username = text.as_str().substring_char(0, colon).to_owned();
                    let password = text.as_str().substring_char(colon + 1, length).to_owned();
                    Ok(Credentials { username, password: SecretString::new(password) })
                },
            }
        },
    }
}

/// Whether `value` begins with `Basic `.
fn has_basic_prefix(value: &[u8]) -> (begins: bool)
    ensures
        begins == basic_prefix().is_prefix_of(value@),
{
    if value.len() < 6 {
        return false;
    }
    let begins = value[0] == 66 && value[1] == 97 && value[2] == 115 && value[3] == 105 && value[4]
        == 99 && value[5] == 32;
    proof {
        let prefix = basic_prefix();
        if begins {
            assert(prefix =~= value@.subrange(0, 6));
        } else {
            if prefix.is_prefix_of(value@) {
                assert(forall|k: int| 0 <= k < 6 ==> prefix[k] == value@.subrange(0, 6)[k]);
                assert(prefix[0] == value@[0]);
                assert(prefix[1] == value@[1]);
                assert(prefix[2] == value@[2]);
                assert(prefix[3] == value@[3]);
                assert(prefix[4] == value@[4]);
                assert(prefix[5] == value@[5]);
            }
        }
    }
    begins
}

/// Whether every byte of `value` is visible ASCII.
fn is_text(value: &[u8]) -> (visible: bool)
    ensures
        visible <==> forall|i: int| 0 <= i < value@.len() ==> is_visible_ascii(#[trigger] value@[i]),
{
    let mut i: usize = 0;
    while i < value.len()
        invariant
            i <= value@.len(),
            forall|j: int| 0 <= j < i ==> is_visible_ascii(#[trigger] value@[j]),
        decreases value@.len() - i,
    {
        let byte: u8 = value[i];
        if !((32 <= byte && byte < 127) || byte == 9) {
            return false;
        }
        i = i + 1;
    }
    true
}

/// Reads user name and password out of the `Authorization` header of a
/// request, given the header's value as bytes, or `None` where the request
/// has no such header.
pub fn basic_authentication(authorization: Option<&[u8]>) -> (parsed: Result<
    Credentials,
    BasicAuthError,
>)
    ensures
        match basic_credentials(
            match authorization {
                Some(value) => Some(value@),
                None => None,
            },
        ) {
            Ok(pair) => parsed matches Ok(credentials) && holds(credentials, pair),
            Err(error) => parsed matches Err(e) && e == error,
        },
{
    match authorization {
        None => Err(BasicAuthError::MissingHeader),
        Some(value) => {
            if !is_text(value) {
                return Err(BasicAuthError::NotText);
            }
            if !has_basic_prefix(value) {
                return Err(BasicAuthError::NotBasic);
            }
            if value.len() == usize::MAX {
                return Err(BasicAuthError::NotBase64);
            }
            let encoded = &value[6..value.len()];
            assert(encoded@ == value@.skip(6));
            match base64_decode(encoded) {
                Err(_) => Err(BasicAuthError::NotBase64),
                Ok(decoded) => credentials_from_decoded(decoded),
            }
        },
    }
}

/// A newsletter issue, as a publisher hands it in.
pub struct BodyData {
    pub title: String,
    pub content: Content,
}

/// The two renderings of an issue.
pub struct Content {
    pub html: String,
    pub text: String,
}

/// A subscriber who confirmed, under an address that is still valid.
#[derive(Debug)]
pub struct ConfirmedSubscriber {
    pub email: SubscriberEmail,
}

/// Why a publisher was not let in.
#[derive(Clone, Copy, Debug, PartialEq, Eq, Structural)]
pub enum AuthenticationFailure {
    /// The request carries no usable credentials.
    Header(BasicAuthError),
    /// The credentials are not those of a user.
    Credentials(CredentialsFault),
}

/// Why publishing failed on the service's side.
#[derive(Clone, Copy, Debug, PartialEq, Eq, Structural)]
pub enum PublishFault {
    /// The credentials could not be checked.
    Authentication(AuthFault),
    /// The audience could not be loaded.
    Storage(StorageError),
    /// An email did not go out.
    Delivery(TransportError),
}

/// The two ways in which publishing fails.
#[derive(Clone, Copy, Debug, PartialEq, Eq, Structural)]
pub enum PublishError {
    AuthError(AuthenticationFailure),
    UnexpectedError(PublishFault),
}

/// The answer to a request that failed: a status, and for a failed
/// authentication the challenge that goes out in `WWW-Authenticate`.
pub struct ErrorResponse {
    pub status: u16,
    pub www_authenticate: Option<String>,
}

impl PublishError {
    /// The status that answers this error: 401 where authentication
    /// failed, 500 otherwise.
    pub open spec fn status(self) -> u16 {
        match self {
            PublishError::AuthError(_) => 401,
            PublishError::UnexpectedError(_) => 500,
        }
    }

    /// The answer to a request that ended in this error. A failed
    /// authentication is answered with the challenge `Basic realm="publish"`,
    /// whatever its cause.
    pub fn error_response(&self) -> (response: ErrorResponse)
        ensures
            response.status == self.status(),
            match *self {
                PublishError::AuthError(_) => response.www_authenticate matches Some(challenge)
                    && challenge@ == "Basic realm=\"publish\""@,
                PublishError::UnexpectedError(_) => response.www_authenticate is None,
            },
    {
        match self {
            PublishError::UnexpectedError(_) => ErrorResponse { status: 500, www_authenticate: None },
            PublishError::AuthError(_) => ErrorResponse {
                status: 401,
                www_authenticate: Some("Basic realm=\"publish\"".to_owned()),
            },
        }
    }
}

/// How a failed check of credentials is reported to a publisher.
pub open spec fn publish_failure(error: AuthError) -> PublishError {
    match error {
        AuthError::InvalidCredentials(fault) => PublishError::AuthError(
            AuthenticationFailure::Credentials(fault),
        ),
        AuthError::UnexpectedError(fault) => PublishError::UnexpectedError(
            PublishFault::Authentication(fault),
        ),
    }
}

/// First step of publishing: the credentials that the request carries.
pub fn authenticate_publisher(authorization: Option<&[u8]>) -> (parsed: Result<
    Credentials,
    PublishError,
>)
    ensures
        match basic_credentials(
            match authorization {
                Some(value) => Some(value@),
                None => None,
            },
        ) {
            Ok(pair) => parsed matches Ok(credentials) && holds(credentials, pair),
            Err(error) => parsed matches Err(e) && e == PublishError::AuthError(
                AuthenticationFailure::Header(error),
            ),
        },
{
    match basic_authentication(authorization) {
        Ok(credentials) => Ok(credentials),
        Err(error) => Err(PublishError::AuthError(AuthenticationFailure::Header(error))),
    }
}

/// Second step of publishing: whether the credentials are those of a user,
/// given what the lookup of the user name found.
pub fn authorize_publisher(
    credentials: Credentials,
    lookup: Result<Option<StoredCredentials>, StorageError>,
) -> (verdict: Result<u128, PublishError>)
    ensures
        verdict == match credentials_verdict(credentials.password@, lookup) {
            Ok(user_id) => Ok::<u128, PublishError>(user_id),
            Err(error) => Err(publish_failure(error)),
        },
{
    match validate_credentials(credentials, lookup) {
        Ok(user_id) => Ok(user_id),
        Err(AuthError::InvalidCredentials(fault)) => Err(
            PublishError::AuthError(AuthenticationFailure::Credentials(fault)),
        ),
        Err(AuthError::UnexpectedError(fault)) => Err(
            PublishError::UnexpectedError(PublishFault::Authentication(fault)),
        ),
    }
}

/// Whether `entry` is what the stored address `row` makes: the subscriber
/// under that address where it is still valid, the rejection otherwise.
pub open spec fn audience_entry(row: Seq<char>, entry: Result<ConfirmedSubscriber, String>) -> bool {
    match entry {
        Ok(subscriber) => email_accepted(row) && subscriber.email@ == row,
        Err(message) => !email_accepted(row) && message@ == invalid_email_message(row),
    }
}

/// Third step of publishing: the audience out of the stored addresses of
/// the confirmed subscribers. Each address is validated again; one that
/// does not pass stays in the list as a rejection.
pub fn get_confirmed_subscribers(loaded: Result<Vec<String>, StorageError>) -> (audience: Result<
    Vec<Result<ConfirmedSubscriber, String>>,
    StorageError,
>)
    ensures
        match loaded {
            Err(error) => audience matches Err(e) && e == error,
            Ok(rows) => audience matches Ok(entries) && entries@.len() == rows@.len() && forall|
                i: int,
            |
                0 <= i < rows@.len() ==> audience_entry(rows@[i]@, #[trigger] entries@[i]),
        },
{
    match loaded {
        Err(error) => Err(error),
        Ok(rows) => {
            let mut entries: Vec<Result<ConfirmedSubscriber, String>> = Vec::new();
            let mut i: usize = 0;
            while i < rows.len()
                invariant
                    i <= rows@.len(),
                    entries@.len() == i,
                    forall|j: int| 0 <= j < i ==> audience_entry(rows@[j]@, #[trigger] entries@[j]),
                decreases rows@.len() - i,
            {
                let entry = match SubscriberEmail::parse(rows[i].clone()) {
                    Ok(email) => Ok(ConfirmedSubscriber { email }),
                    Err(message) => Err(message),
                };
                entries.push(entry);
                i = i + 1;
            }
            Ok(entries)
        },
    }
}

/// The position of the first valid subscriber at or after `from`, or the
/// length of the audience where there is none.
pub open spec fn next_recipient(
    audience: Seq<Result<ConfirmedSubscriber, String>>,
    from: int,
) -> int
    decreases audience.len() - from,
{
    if from < 0 || from >= audience.len() {
        audience.len() as int
    } else if audience[from] is Ok {
        from
    } else {
        next_recipient(audience, from + 1)
    }
}

/// The fan-out of one issue: who published it, what it says, to whom it
/// goes, and how far the sending has come.
pub struct Publication {
    user_id: u128,
    issue: BodyData,
    audience: Vec<Result<ConfirmedSubscriber, String>>,
    cursor: usize,
    failure: Option<TransportError>,
}

/// What the caller reports to the fan-out.
#[derive(Clone, Copy, Debug)]
pub enum PublishEvent {
    /// Nothing has been sent yet.
    Started,
    /// The email last asked for went out, or did not.
    Delivered(Result<(), TransportError>),
}

/// What the fan-out asks of the caller next.
pub enum PublishAction {
    /// Send this email and report how it went.
    Send(OutboundEmail),
    /// Answer the publisher; nothing more is sent.
    Respond(Result<u128, PublishError>),
}

/// One step of the fan-out: the rejections of the stored addresses that
/// were passed over on the way, each worth a warning, and what to do next.
pub struct PublishStep {
    pub warnings: Vec<String>,
    pub action: PublishAction,
}

impl Publication {
    #[verifier::type_invariant]
    closed spec fn within_audience(self) -> bool {
        self.cursor <= self.audience@.len()
    }

    pub closed spec fn user_id(self) -> u128 {
        self.user_id
    }

    pub closed spec fn issue(self) -> BodyData {
        self.issue
    }

    pub closed spec fn audience(self) -> Seq<Result<ConfirmedSubscriber, String>> {
        self.audience@
    }

    /// The position up to which the audience has been dealt with.
    pub closed spec fn cursor(self) -> int {
        self.cursor as int
    }

    /// The delivery failure that ended the fan-out, if one did.
    pub closed spec fn failure(self) -> Option<TransportError> {
        self.failure
    }

    /// A fan-out that has not begun.
    pub fn new(
        user_id: u128,
        issue: BodyData,
        audience: Vec<Result<ConfirmedSubscriber, String>>,
    ) -> (publication: Self)
        ensures
            publication.user_id() == user_id,
            publication.issue() == issue,
            publication.audience() == audience@,
            publication.cursor() == 0,
            publication.failure() is None,
    {
        Publication { user_id, issue, audience, cursor: 0, failure: None }
    }

    /// Whether `email` carries this issue to `recipient`.
    pub open spec fn carries_issue(
        self,
        email_client: EmailClient,
        email: OutboundEmail,
        recipient: Seq<char>,
    ) -> bool {
        email_client.composes(
            email,
            recipient,
            self.issue().title@,
            self.issue().content.html@,
            self.issue().content.text@,
        )
    }
}

/// Whether `warnings` are the rejections that stand in the audience
/// from `from` up to `to`, in order.
pub open spec fn rejections_between(
    audience: Seq<Result<ConfirmedSubscriber, String>>,
    from: int,
    to: int,
    warnings: Seq<String>,
) -> bool {
    &&& warnings.len() == to - from
    &&& forall|k: int|
        from <= k < to ==> (#[trigger] audience[k]) is Err && warnings[k - from]@
            == audience[k]->Err_0@
}

/// What one step of the fan-out comes to.
///
/// After a failed delivery the publisher is answered with that failure, at
/// once and ever after. Otherwise the first valid subscriber from the cursor
/// on is sent the issue, the rejections before it are handed out as
/// warnings, and the cursor moves past it; where no valid subscriber is
/// left, the publisher is answered with the user's id.
pub open spec fn publish_step(
    state: Publication,
    event: PublishEvent,
    email_client: EmailClient,
    next: Publication,
    step: PublishStep,
) -> bool {
    let failure = match state.failure() {
        Some(error) => Some(error),
        None => match event {
            PublishEvent::Delivered(Err(error)) => Some(error),
            _ => None,
        },
    };
    let recipient = next_recipient(state.audience(), state.cursor());
    &&& next.user_id() == state.user_id()
    &&& next.issue() == state.issue()
    &&& next.audience() == state.audience()
    &&& next.failure() == failure
    &&& match failure {
        Some(error) => {
            &&& next.cursor() == state.cursor()
            &&& step.warnings@.len() == 0
            &&& step.action matches PublishAction::Respond(answer)
            &&& answer == Err::<u128, PublishError>(
                PublishError::UnexpectedError(PublishFault::Delivery(error)),
            )
        },
        None => {
            &&& rejections_between(state.audience(), state.cursor(), recipient, step.warnings@)
            &&& if recipient < state.audience().len() {
                &&& next.cursor() == recipient + 1
                &&& step.action matches PublishAction::Send(email)
                &&& state.audience()[recipient] matches Ok(subscriber)
                &&& state.carries_issue(email_client, email, subscriber.email@)
            } else {
                &&& next.cursor() == state.audience().len()
                &&& step.action matches PublishAction::Respond(answer)
                &&& answer == Ok::<u128, PublishError>(state.user_id())
            }
        },
    }
}

/// Fourth step of publishing, taken once at the start and once after each
/// delivery: the fan-out, one email at a time.
pub fn publish_newsletter(
    state: Publication,
    event: PublishEvent,
    email_client: &EmailClient,
) -> (result: (Publication, PublishStep))
    ensures
        publish_step(state, event, *email_client, result.0, result.1),
{
    proof {
        use_type_invariant(&state);
    }
    let mut current = state;
    if current.failure.is_none() {
        if let PublishEvent::Delivered(Err(error)) = event {
            current.failure = Some(error);
        }
    }
    if let Some(error) = current.failure {
        let answer = Err(PublishError::UnexpectedError(PublishFault::Delivery(error)));
        return (
            current,
            PublishStep { warnings: Vec::new(), action: PublishAction::Respond(answer) },
        );
    }
    let mut warnings: Vec<String> = Vec::new();
    let mut i: usize = current.cursor;
    while i < current.audience.len()
        invariant
            current.user_id == state.user_id,
            current.issue == state.issue,
            current.audience == state.audience,
            current.cursor == state.cursor,
            current.failure is None,
            state.failure is None,
            !(event matches PublishEvent::Delivered(Err(_))),
            current.cursor <= i <= current.audience@.len(),
            next_recipient(current.audience@, current.cursor as int) == next_recipient(
                current.audience@,
                i as int,
            ),
            rejections_between(current.audience@, current.cursor as int, i as int, warnings@),
        decreases current.audience@.len() - i,
    {
        match &current.audience[i] {
            Ok(subscriber) => {
                let email = email_client.send_email(
                    &subscriber.email,
                    current.issue.title.as_str(),
                    current.issue.content.html.as_str(),
                    current.issue.content.text.as_str(),
                );
                current.cursor = i + 1;
                return (current, PublishStep { warnings, action: PublishAction::Send(email) });
            },
            Err(message) => {
                warnings.push(message.clone());
                i = i + 1;
            },
        }
    }
    current.cursor = i;
    let answer = Ok(current.user_id);
    (current, PublishStep { warnings, action: PublishAction::Respond(answer) })
}

/// What a fan-out comes to, seen from outside: the positions in the
/// audience that an email was sent to, in order, and the answer to the
/// publisher, or none while the last delivery is still awaited.
pub struct FanOut {
    pub recipients: Seq<int>,
    pub answer: Option<Result<(), TransportError>>,
}

/// What the fan-out over `audience` from `cursor` on comes to, where
/// `deliveries` tells how the emails fare, one after the other.
pub open spec fn fan_out(
    audience: Seq<Result<ConfirmedSubscriber, String>>,
    cursor: int,
    deliveries: Seq<Result<(), TransportError>>,
) -> FanOut
    decreases audience.len() - cursor,
{
    if cursor < 0 || cursor >= audience.len() {
        FanOut { recipients: Seq::empty(), answer: Some(Ok(())) }
    } else if audience[cursor] is Err {
        fan_out(audience, cursor + 1, deliveries)
    } else if deliveries.len() == 0 {
        FanOut { recipients: seq![cursor], answer: None }
    } else if deliveries[0] is Err {
        FanOut { recipients: seq![cursor], answer: Some(deliveries[0]) }
    } else {
        let rest = fan_out(audience, cursor + 1, deliveries.drop_first());
        FanOut { recipients: seq![cursor] + rest.recipients, answer: rest.answer }
    }
}

/// The fan-out passes over rejections: it comes to the same from the
/// cursor as from the next valid subscriber.
pub proof fn lemma_fan_out_skips_rejections(
    audience: Seq<Result<ConfirmedSubscriber, String>>,
    cursor: int,
    deliveries: Seq<Result<(), TransportError>>,
)
    requires
        0 <= cursor,
    ensures
        cursor <= next_recipient(audience, cursor) <= audience.len() || cursor > audience.len(),
        fan_out(audience, cursor, deliveries) == fan_out(
            audience,
            next_recipient(audience, cursor),
            deliveries,
        ),
    decreases audience.len() - cursor,
{
    if cursor < audience.len() && audience[cursor] is Err {
        lemma_fan_out_skips_rejections(audience, cursor + 1, deliveries);
    }
}

/// One step of the fan-out that is taken while no delivery has failed is
/// one unfolding of [`fan_out`]: an answer ends it in success with no one
/// left to send to, and an email goes to the recipient that `fan_out` names
/// first, after which the fan-out goes on from the new cursor.
pub proof fn lemma_step_follows_fan_out(
    state: Publication,
    event: PublishEvent,
    email_client: EmailClient,
    next: Publication,
    step: PublishStep,
    deliveries: Seq<Result<(), TransportError>>,
)
    requires
        publish_step(state, event, email_client, next, step),
        state.failure() is None,
        !(event matches PublishEvent::Delivered(Err(_))),
    ensures
        step.action is Respond ==> fan_out(state.audience(), state.cursor(), deliveries) == (FanOut {
            recipients: Seq::empty(),
            answer: Some(Ok(())),
        }),
        step.action is Send ==> fan_out(state.audience(), state.cursor(), deliveries) == fan_out(
            state.audience(),
            next.cursor() - 1,
            deliveries,
        ) && state.audience()[next.cursor() - 1] is Ok && state.cursor() < next.cursor()
            <= state.audience().len(),
{
    lemma_fan_out_skips_rejections(state.audience(), state.cursor(), deliveries);
}

/// A fan-out that ends in success has sent to every valid subscriber from
/// the cursor on, to no one else, and every one of its deliveries went
/// well.
pub proof fn lemma_success_reaches_every_subscriber(
    audience: Seq<Result<ConfirmedSubscriber, String>>,
    cursor: int,
    deliveries: Seq<Result<(), TransportError>>,
)
    requires
        0 <= cursor,
        fan_out(audience, cursor, deliveries).answer == Some(Ok::<(), TransportError>(())),
    ensures
        forall|i: int|
            cursor <= i < audience.len() && (#[trigger] audience[i]) is Ok ==> fan_out(
                audience,
                cursor,
                deliveries,
            ).recipients.contains(i),
        forall|j: int|
            0 <= j < fan_out(audience, cursor, deliveries).recipients.len() ==> {
                let i = #[trigger] fan_out(audience, cursor, deliveries).recipients[j];
                cursor <= i < audience.len() && audience[i] is Ok
            },
        fan_out(audience, cursor, deliveries).recipients.len() <= deliveries.len(),
        forall|j: int|
            0 <= j < fan_out(audience, cursor, deliveries).recipients.len() ==> (
            #[trigger] deliveries[j]) is Ok,
    decreases audience.len() - cursor,
{
    let whole = fan_out(audience, cursor, deliveries);
    if cursor >= audience.len() {
    } else if audience[cursor] is Err {
        lemma_success_reaches_every_subscriber(audience, cursor + 1, deliveries);
    } else {
        let later = deliveries.drop_first();
        let rest = fan_out(audience, cursor + 1, later);
        lemma_success_reaches_every_subscriber(audience, cursor + 1, later);
        assert(whole.recipients == seq![cursor] + rest.recipients);
        assert forall|i: int|
            cursor <= i < audience.len() && (#[trigger] audience[i]) is Ok implies whole.recipients.contains(
            i,
        ) by {
            if i == cursor {
                assert(whole.recipients[0] == cursor);
            } else {
                let j = choose|j: int| 0 <= j < rest.recipients.len() && rest.recipients[j] == i;
                assert(whole.recipients[j + 1] == i);
            }
        }
        assert forall|j: int| 0 <= j < whole.recipients.len() implies {
            let i = #[trigger] whole.recipients[j];
            cursor <= i < audience.len() && audience[i] is Ok
        } by {
            if j > 0 {
                assert(whole.recipients[j] == rest.recipients[j - 1]);
            }
        }
        assert forall|j: int| 0 <= j < whole.recipients.len() implies (#[trigger] deliveries[j])
            is Ok by {
            if j > 0 {
                assert(deliveries[j] == later[j - 1]);
            }
        }
    }
}

} // verus!
