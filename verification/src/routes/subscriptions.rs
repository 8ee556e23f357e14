//! Subscribing: validation, the rows to store, and the confirmation email.

use crate::domain::subscriber_email::{email_accepted, lacks_address_shape, invalid_email_message};
use crate::domain::subscriber_name::{invalid_name_message, name_accepted};
use crate::domain::{NewSubscriber, SubscriberEmail, SubscriberName};
use crate::email_client::{EmailClient, OutboundEmail, TransportError};
use crate::startup::ApplicationBaseUrl;
use crate::storage::{
    find_subscriber, lemma_find_after_insert, lemma_find_subscriber_none, lemma_persist_wf,
    lemma_tokens_of_stranger, persist_outcome, resolve_token, tokens_of, StorageError, StoreState,
    SubscriptionStatus, SubscriptionToken, Timestamp,
};
use vstd::prelude::*;
use vstd::string::StringExecFns;

verus! {

/// `String::push`: appends one character.
pub assume_specification[ String::push ](text: &mut String, c: char)
    ensures
        final(text)@ == old(text)@.push(c),
;

/// The bytes of the ASCII letters and digits.
pub open spec fn is_alphanumeric_byte(byte: u8) -> bool {
    (48 <= byte <= 57) || (65 <= byte <= 90) || (97 <= byte <= 122)
}

/// `rand::Rng::sample` with `rand::distributions::Alphanumeric`: one byte
/// drawn from the upper-case letters, the lower-case letters and the digits.
#[verifier::external_body]
fn sample_alphanumeric(rng: &mut rand::rngs::ThreadRng) -> (byte: u8)
    ensures
        is_alphanumeric_byte(byte),
{
    rand::Rng::sample(rng, rand::distributions::Alphanumeric)
}

/// `uuid::Uuid::new_v4`, as the 128-bit number that `as_u128` gives. Nothing
/// is promised of its value.
#[verifier::external_body]
fn random_id() -> (id: u128) {
    uuid::Uuid::new_v4().as_u128()
}

/// `chrono::Utc::now`, as seconds and nanoseconds. Nothing is promised of
/// its value.
#[verifier::external_body]
fn current_time() -> (now: Timestamp) {
    let now = chrono::Utc::now();
    Timestamp { seconds: now.timestamp(), nanos: now.timestamp_subsec_nanos() }
}

/// The fields of a subscription form.
pub struct FormData {
    pub email: String,
    pub name: String,
}

/// The row of a subscription.
#[derive(Debug)]
pub struct NewSubscription {
    pub id: u128,
    pub email: String,
    pub name: String,
    pub subscribed_at: Timestamp,
    pub status: SubscriptionStatus,
}

/// A storage failure met while storing a confirmation token.
#[derive(Clone, Copy, Debug, PartialEq, Eq, Structural)]
pub struct StoreTokenError(pub StorageError);

/// Where the storing of a new subscription failed.
#[derive(Clone, Copy, Debug, PartialEq, Eq, Structural)]
pub enum PersistFailure {
    /// No connection to storage could be had.
    Connection,
    /// The subscriber's row could not be inserted.
    Subscriber(StorageError),
    /// The token's row could not be inserted.
    Token(StoreTokenError),
}

/// Why subscribing failed on the service's side.
#[derive(Clone, Copy, Debug, PartialEq, Eq, Structural)]
pub enum SubscribeFault {
    /// The subscription could not be stored.
    Persist(PersistFailure),
    /// The confirmation email did not go out.
    SendEmail(TransportError),
}

/// The two ways in which subscribing fails.
#[derive(Debug)]
pub enum SubscribeError {
    /// The form is not valid; the text says which field.
    ValidationError(String),
    UnexpectedError(SubscribeFault),
}

impl SubscribeError {
    /// The status that answers this error: 400 for an invalid form, 500
    /// otherwise.
    pub fn status_code(&self) -> (status: u16)
        ensures
            status == match *self {
                SubscribeError::ValidationError(_) => 400u16,
                SubscribeError::UnexpectedError(_) => 500u16,
            },
    {
        match self {
            SubscribeError::ValidationError(_) => 400,
            SubscribeError::UnexpectedError(_) => 500,
        }
    }
}

/// The length of a confirmation token, in characters.
pub const TOKEN_LENGTH: usize = 25;

/// A confirmation token is [`TOKEN_LENGTH`] ASCII letters and digits.
pub open spec fn is_token(text: Seq<char>) -> bool {
    &&& text.len() == TOKEN_LENGTH
    &&& forall|i: int|
        0 <= i < text.len() ==> (#[trigger] text[i]) as u32 <= 127 && is_alphanumeric_byte(
            text[i] as u8,
        )
}

/// A fresh confirmation token, drawn from this thread's random generator.
pub fn generate_subscription_token() -> (token: String)
    ensures
        is_token(token@),
{
    let mut rng = rand::thread_rng();
    let mut token = String::new();
    let mut drawn: usize = 0;
    while drawn < TOKEN_LENGTH
        invariant
            drawn <= TOKEN_LENGTH,
            token@.len() == drawn,
            forall|i: int|
                0 <= i < token@.len() ==> (#[trigger] token@[i]) as u32 <= 127
                    && is_alphanumeric_byte(token@[i] as u8),
        decreases TOKEN_LENGTH - drawn,
    {
        let byte: u8 = sample_alphanumeric(&mut rng);
        token.push(byte as char);
        drawn = drawn + 1;
    }
    token
}

impl NewSubscriber {
    /// What a form comes to: the validated subscriber, or the rejection of
    /// the name, or, where the name passes, the rejection of the address.
    pub open spec fn accepts(form: FormData) -> bool {
        name_accepted(form.name@) && email_accepted(form.email@)
    }

    /// The rejection that a form which does not pass is answered with.
    pub open spec fn rejection(form: FormData) -> Seq<char> {
        if !name_accepted(form.name@) {
            invalid_name_message(form.name@)
        } else {
            invalid_email_message(form.email@)
        }
    }

    /// Validates a form: the name first, then the address.
    pub fn try_from(value: FormData) -> (parsed: Result<NewSubscriber, String>)
        ensures
            parsed is Ok <==> Self::accepts(value),
            lacks_address_shape(value.email@) ==> parsed is Err,
            parsed matches Ok(subscriber) ==> subscriber.name@ == value.name@ && subscriber.email@
                == value.email@,
            parsed matches Err(message) ==> message@ == Self::rejection(value),
    {
        let valid_name = match SubscriberName::parse(value.name) {
            Ok(name) => name,
            Err(message) => {
                return Err(message);
            },
        };
        let valid_email = match SubscriberEmail::parse(value.email) {
            Ok(email) => email,
            Err(message) => {
                return Err(message);
            },
        };
        Ok(NewSubscriber { email: valid_email, name: valid_name })
    }
}

/// The row under which a new subscriber is stored: pending confirmation,
/// under the given id, subscribed at the given time.
pub open spec fn pending_row(
    subscriber: NewSubscriber,
    id: u128,
    now: Timestamp,
    row: NewSubscription,
) -> bool {
    &&& row.id == id
    &&& row.email@ == subscriber.email@
    &&& row.name@ == subscriber.name@
    &&& row.subscribed_at == now
    &&& row.status == SubscriptionStatus::PendingConfirmation
}

/// The row of a new subscriber, under the given id and time.
pub fn new_subscription(new_subscriber: &NewSubscriber, id: u128, now: Timestamp) -> (row:
    NewSubscription)
    ensures
        pending_row(*new_subscriber, id, now, row),
{
    NewSubscription {
        id,
        email: new_subscriber.email.as_ref().to_owned(),
        name: new_subscriber.name.as_ref().to_owned(),
        subscribed_at: now,
        status: SubscriptionStatus::PendingConfirmation,
    }
}

/// The row to insert for a new subscriber: pending confirmation, under a
/// fresh random id, subscribed now.
pub fn insert_subscriber(new_subscriber: &NewSubscriber) -> (row: NewSubscription)
    ensures
        pending_row(*new_subscriber, row.id, row.subscribed_at, row),
{
    new_subscription(new_subscriber, random_id(), current_time())
}

/// The row to insert for a confirmation token.
pub fn store_token(subscriber_id: &u128, subscription_token: &str) -> (row: SubscriptionToken)
    ensures
        row.subscriber_id == *subscriber_id,
        row.subscription_token@ == subscription_token@,
{
    SubscriptionToken {
        subscription_token: subscription_token.to_owned(),
        subscriber_id: *subscriber_id,
    }
}

/// The link that confirms the subscription behind `token`.
pub open spec fn confirmation_link(base_url: Seq<char>, token: Seq<char>) -> Seq<char> {
    base_url + "/subscriptions/confirm?subscription_token="@ + token
}

/// The plain-text body of the confirmation email.
pub open spec fn confirmation_text(link: Seq<char>) -> Seq<char> {
    "Welcome to our newsletter!\nVisit "@ + link + " to confirm your subscription."@
}

/// The HTML body of the confirmation email.
pub open spec fn confirmation_html(link: Seq<char>) -> Seq<char> {
    "Welcome to our newsletter!<br />Click <a href=\""@ + link
        + "\">here</a> to confirm your subscription."@
}

/// The email that asks a new subscriber to confirm: subject `Welcome!`,
/// and both bodies hold the link that carries the token.
pub fn send_confirmation_email(
    email_client: &EmailClient,
    new_subscriber: &NewSubscriber,
    application_base_url: &str,
    subscription_token: &str,
) -> (email: OutboundEmail)
    ensures
        email_client.composes(
            email,
            new_subscriber.email@,
            "Welcome!"@,
            confirmation_html(confirmation_link(application_base_url@, subscription_token@)),
            confirmation_text(confirmation_link(application_base_url@, subscription_token@)),
        ),
{
    let confirmation_link = application_base_url.to_owned().concat(
        "/subscriptions/confirm?subscription_token=",
    ).concat(subscription_token);
    let plain_body = "Welcome to our newsletter!\nVisit ".to_owned().concat(
        confirmation_link.as_str(),
    ).concat(" to confirm your subscription.");
    let html_body = "Welcome to our newsletter!<br />Click <a href=\"".to_owned().concat(
        confirmation_link.as_str(),
    ).concat("\">here</a> to confirm your subscription.");
    email_client.send_email(
        &new_subscriber.email,
        "Welcome!",
        html_body.as_str(),
        plain_body.as_str(),
    )
}

/// A subscription that passed validation and waits to be stored: the
/// subscriber, and the two rows that go into storage in one transaction.
#[derive(Debug)]
pub struct PendingSubscription {
    pub subscriber: NewSubscriber,
    pub subscription: NewSubscription,
    pub token: SubscriptionToken,
}

/// Whether `pending` is what the valid form `form` comes to under the given
/// id, time and token.
pub open spec fn plans(
    form: FormData,
    id: u128,
    now: Timestamp,
    token: Seq<char>,
    pending: PendingSubscription,
) -> bool {
    &&& pending.subscriber.name@ == form.name@
    &&& pending.subscriber.email@ == form.email@
    &&& pending_row(pending.subscriber, id, now, pending.subscription)
    &&& pending.token.subscriber_id == id
    &&& pending.token.subscription_token@ == token
}

/// First step of subscribing, with id, time and token given: validates the
/// form and lays out the rows to store. An invalid form is turned down with
/// the rejection of its first invalid field, and nothing is laid out.
pub fn plan_subscription(form: FormData, id: u128, now: Timestamp, token: String) -> (planned:
    Result<PendingSubscription, SubscribeError>)
    ensures
        planned is Ok <==> NewSubscriber::accepts(form),
        lacks_address_shape(form.email@) ==> planned is Err,
        planned matches Ok(pending) ==> plans(form, id, now, token@, pending),
        planned matches Err(error) ==> error matches SubscribeError::ValidationError(message)
            && message@ == NewSubscriber::rejection(form),
{
    match NewSubscriber::try_from(form) {
        Err(message) => Err(SubscribeError::ValidationError(message)),
        Ok(subscriber) => {
            let subscription = new_subscription(&subscriber, id, now);
            let token = store_token(&id, token.as_str());
            Ok(PendingSubscription { subscriber, subscription, token })
        },
    }
}

/// First step of subscribing: validates the form and lays out the rows to
/// store, under a fresh id, the current time and a fresh token.
pub fn subscribe(form: FormData) -> (planned: Result<PendingSubscription, SubscribeError>)
    ensures
        planned is Ok <==> NewSubscriber::accepts(form),
        lacks_address_shape(form.email@) ==> planned is Err,
        planned matches Ok(pending) ==> is_token(pending.token.subscription_token@) && plans(
            form,
            pending.subscription.id,
            pending.subscription.subscribed_at,
            pending.token.subscription_token@,
            pending,
        ),
        planned matches Err(error) ==> error matches SubscribeError::ValidationError(message)
            && message@ == NewSubscriber::rejection(form),
{
    match NewSubscriber::try_from(form) {
        Err(message) => Err(SubscribeError::ValidationError(message)),
        Ok(subscriber) => {
            let subscription = insert_subscriber(&subscriber);
            let subscription_token = generate_subscription_token();
            let token = store_token(&subscription.id, subscription_token.as_str());
            Ok(PendingSubscription { subscriber, subscription, token })
        },
    }
}

/// How a failure to store a subscription is reported.
pub open spec fn persist_failure(failure: PersistFailure) -> SubscribeError {
    SubscribeError::UnexpectedError(SubscribeFault::Persist(failure))
}

/// Whether `notice` is what follows the storing of `pending`: where the
/// rows are stored, the confirmation email, which goes to the subscriber
/// under the subject `Welcome!` and holds in both bodies the link that
/// carries the token; where storing failed, that failure, and no email.
pub open spec fn notice_for(
    pending: PendingSubscription,
    persisted: Result<(), PersistFailure>,
    email_client: EmailClient,
    application_base_url: ApplicationBaseUrl,
    notice: Result<OutboundEmail, SubscribeError>,
) -> bool {
    match persisted {
        Ok(()) => notice matches Ok(email) && email_client.composes(
            email,
            pending.subscriber.email@,
            "Welcome!"@,
            confirmation_html(
                confirmation_link(application_base_url.0@, pending.token.subscription_token@),
            ),
            confirmation_text(
                confirmation_link(application_base_url.0@, pending.token.subscription_token@),
            ),
        ),
        Err(failure) => notice matches Err(error) && error == persist_failure(failure),
    }
}

/// Second step of subscribing, once the rows are stored or the transaction
/// is rolled back: the confirmation email to send. Where storing failed,
/// nothing is sent.
pub fn notify_subscriber(
    pending: &PendingSubscription,
    persisted: Result<(), PersistFailure>,
    email_client: &EmailClient,
    application_base_url: &ApplicationBaseUrl,
) -> (notice: Result<OutboundEmail, SubscribeError>)
    ensures
        notice_for(*pending, persisted, *email_client, *application_base_url, notice),
{
    match persisted {
        Err(failure) => Err(SubscribeError::UnexpectedError(SubscribeFault::Persist(failure))),
        Ok(()) => Ok(
            send_confirmation_email(
                email_client,
                &pending.subscriber,
                application_base_url.0.as_str(),
                pending.token.subscription_token.as_str(),
            ),
        ),
    }
}

/// Last step of subscribing, once the confirmation email went out or did
/// not: the status that answers the request, 200, or the error. The
/// subscription stays stored either way.
pub fn finish_subscription(delivered: Result<(), TransportError>) -> (answer: Result<
    u16,
    SubscribeError,
>)
    ensures
        match delivered {
            Ok(()) => answer matches Ok(status) && status == 200,
            Err(failure) => answer matches Err(error) && error == SubscribeError::UnexpectedError(
                SubscribeFault::SendEmail(failure),
            ),
        },
{
    match delivered {
        Ok(()) => Ok(200),
        Err(failure) => Err(SubscribeError::UnexpectedError(SubscribeFault::SendEmail(failure))),
    }
}

/// A subscription laid out for a form and stored, in one transaction, in a
/// state that holds neither its id nor its token, is read back pending,
/// under the name and the address of the form, with exactly one token: the
/// one laid out, which resolves to it.
pub proof fn lemma_subscription_is_pending_with_one_token(
    state: StoreState,
    form: FormData,
    id: u128,
    now: Timestamp,
    token: Seq<char>,
    pending: PendingSubscription,
)
    requires
        state.wf(),
        plans(form, id, now, token, pending),
        find_subscriber(state.subscriptions, id) is None,
        resolve_token(state.tokens, token) is None,
    ensures
        persist_outcome(state, pending.subscription@, pending.token@) is Ok,
        ({
            let after = state.insert_subscriber(pending.subscription@).store_token(pending.token@);
            &&& after.wf()
            &&& find_subscriber(after.subscriptions, id) matches Some(row) && row.email
                == form.email@ && row.name == form.name@ && row.status
                == SubscriptionStatus::PendingConfirmation
            &&& tokens_of(after.tokens, id) == seq![token]
            &&& resolve_token(after.tokens, token) == Some(id)
        }),
{
    let row = pending.subscription@;
    let after = state.insert_subscriber(row).store_token(pending.token@);
    lemma_persist_wf(state, row, pending.token@);
    lemma_find_after_insert(state, row, id);
    lemma_find_subscriber_none(state.subscriptions, id);
    assert forall|k: int| 0 <= k < state.tokens.len() implies (#[trigger] state.tokens[k]).subscriber_id
        != id by {
        assert(find_subscriber(state.subscriptions, state.tokens[k].subscriber_id) is Some);
    }
    lemma_tokens_of_stranger(state.tokens, id);
    assert(after.tokens.drop_last() =~= state.tokens);
    assert(tokens_of(after.tokens, id) =~= seq![token]);
}

/// The confirmation email of a subscription that was laid out for a form
/// and stored, in a state that held neither its id nor its token: it is one
/// email, to the address of the form, and both of its bodies hold one and
/// the same link, made of the base address, the path of confirmations and
/// the one token that is stored for the subscriber.
pub proof fn lemma_confirmation_links_the_stored_token(
    state: StoreState,
    form: FormData,
    id: u128,
    now: Timestamp,
    token: Seq<char>,
    pending: PendingSubscription,
    email_client: EmailClient,
    application_base_url: ApplicationBaseUrl,
    notice: Result<OutboundEmail, SubscribeError>,
)
    requires
        state.wf(),
        plans(form, id, now, token, pending),
        find_subscriber(state.subscriptions, id) is None,
        resolve_token(state.tokens, token) is None,
        notice_for(
            pending,
            persist_outcome(state, pending.subscription@, pending.token@),
            email_client,
            application_base_url,
            notice,
        ),
    ensures
        ({
            let after = state.insert_subscriber(pending.subscription@).store_token(pending.token@);
            let stored = tokens_of(after.tokens, id);
            let link = confirmation_link(application_base_url.0@, stored[0]);
            &&& stored.len() == 1
            &&& notice matches Ok(email)
            &&& email.url@ == email_client.base_url() + "/email"@
            &&& email.body.to@ == form.email@
            &&& email.body.subject@ == "Welcome!"@
            &&& email.body.html_body@ == confirmation_html(link)
            &&& email.body.text_body@ == confirmation_text(link)
        }),
{
    lemma_subscription_is_pending_with_one_token(state, form, id, now, token, pending);
}

} // verus!
