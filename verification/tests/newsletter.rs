use newsletter::authentication::{
    compute_password_hash, get_stored_credentials, AuthFault, Credentials, CredentialsFault,
};
use newsletter::domain::SubscriberEmail;
use newsletter::email_client::{delivery_outcome, EmailClient, OutboundEmail, TransportError};
use newsletter::routes::newsletter::{
    authenticate_publisher, authorize_publisher, get_confirmed_subscribers, publish_newsletter,
    AuthenticationFailure, BodyData, ConfirmedSubscriber, Content, PublishAction, PublishError,
    PublishEvent, PublishFault, Publication,
};
use newsletter::secret::SecretString;
use newsletter::storage::StorageError;

fn email_client() -> EmailClient {
    EmailClient::new(
        "http://127.0.0.1:4000".to_string(),
        SubscriberEmail::parse("newsletter@example.com".to_string()).unwrap(),
        SecretString::new("my-secret-token".to_string()),
        200,
    )
}

fn issue() -> BodyData {
    BodyData {
        title: "Newsletter title".to_string(),
        content: Content {
            html: "<p>Newsletter body as HTML</p>".to_string(),
            text: "Newsletter body as plain text".to_string(),
        },
    }
}

fn audience(rows: &[&str]) -> Vec<Result<ConfirmedSubscriber, String>> {
    get_confirmed_subscribers(Ok(rows.iter().map(|row| row.to_string()).collect())).unwrap()
}

fn sent(action: PublishAction) -> OutboundEmail {
    match action {
        PublishAction::Send(email) => email,
        PublishAction::Respond(_) => panic!("the fan-out answered instead of sending"),
    }
}

fn answer(action: PublishAction) -> Result<u128, PublishError> {
    match action {
        PublishAction::Respond(answer) => answer,
        PublishAction::Send(_) => panic!("the fan-out sent instead of answering"),
    }
}

#[test]
fn send_email_sends_the_expected_request() {
    let recipient = SubscriberEmail::parse("kashishh@gmail.com".to_string()).unwrap();
    let email = email_client().send_email(&recipient, "subject", "<p>html</p>", "text");
    assert_eq!(email.url, "http://127.0.0.1:4000/email");
    assert_eq!(email.authorization_token.expose_secret(), "my-secret-token");
    assert_eq!(email.timeout_millis, 200);
    assert_eq!(email.body.from, "newsletter@example.com");
    assert_eq!(email.body.to, "kashishh@gmail.com");
    assert_eq!(email.body.subject, "subject");
    assert_eq!(email.body.html_body, "<p>html</p>");
    assert_eq!(email.body.text_body, "text");
}

#[test]
fn send_email_succeeds_if_the_server_returns_200() {
    assert_eq!(delivery_outcome(Some(200)), Ok(()));
    assert_eq!(delivery_outcome(Some(204)), Ok(()));
    assert_eq!(delivery_outcome(Some(299)), Ok(()));
}

#[test]
fn send_email_fails_if_the_server_returns_500() {
    assert_eq!(delivery_outcome(Some(500)), Err(TransportError::Status(500)));
    assert_eq!(delivery_outcome(Some(404)), Err(TransportError::Status(404)));
    assert_eq!(delivery_outcome(Some(300)), Err(TransportError::Status(300)));
    assert_eq!(delivery_outcome(Some(199)), Err(TransportError::Status(199)));
}

#[test]
fn send_email_times_out_if_the_server_takes_too_long() {
    assert_eq!(delivery_outcome(None), Err(TransportError::NoResponse));
}

#[test]
fn a_failed_authentication_is_answered_with_401_and_a_challenge() {
    let error = PublishError::AuthError(AuthenticationFailure::Credentials(
        CredentialsFault::InvalidPassword,
    ));
    let response = error.error_response();
    assert_eq!(response.status, 401);
    assert_eq!(response.www_authenticate.as_deref(), Some("Basic realm=\"publish\""));
}

#[test]
fn an_unexpected_failure_is_answered_with_500_and_no_challenge() {
    let error = PublishError::UnexpectedError(PublishFault::Storage(StorageError::Unavailable));
    let response = error.error_response();
    assert_eq!(response.status, 500);
    assert_eq!(response.www_authenticate, None);
}

#[test]
fn publishing_with_a_wrong_password_is_unauthorized() {
    let hash = compute_password_hash(&SecretString::new("right".to_string())).unwrap();
    let header = format!("Basic {}", base64::encode("admin:wrong")).into_bytes();
    let credentials = authenticate_publisher(Some(&header)).ok().unwrap();
    let lookup = get_stored_credentials(Ok(vec![(1u128, hash.expose_secret().clone())]));
    let error = authorize_publisher(credentials, lookup).unwrap_err();
    assert_eq!(
        error,
        PublishError::AuthError(AuthenticationFailure::Credentials(
            CredentialsFault::InvalidPassword
        ))
    );
    let response = error.error_response();
    assert_eq!(response.status, 401);
    assert_eq!(response.www_authenticate.as_deref(), Some("Basic realm=\"publish\""));
}

#[test]
fn publishing_with_the_right_password_names_the_publisher() {
    let hash = compute_password_hash(&SecretString::new("right".to_string())).unwrap();
    let header = format!("Basic {}", base64::encode("admin:right")).into_bytes();
    let credentials = authenticate_publisher(Some(&header)).ok().unwrap();
    let lookup = get_stored_credentials(Ok(vec![(1u128, hash.expose_secret().clone())]));
    assert_eq!(authorize_publisher(credentials, lookup), Ok(1));
}

#[test]
fn publishing_as_an_unknown_user_is_unauthorized() {
    let credentials = Credentials {
        username: "nobody".to_string(),
        password: SecretString::new("whatever".to_string()),
    };
    let error = authorize_publisher(credentials, Ok(None)).unwrap_err();
    assert!(matches!(
        error,
        PublishError::AuthError(AuthenticationFailure::Credentials(_))
    ));
    assert_eq!(error.error_response().status, 401);
}

#[test]
fn a_failed_lookup_of_the_publisher_is_a_server_error() {
    let credentials = Credentials {
        username: "admin".to_string(),
        password: SecretString::new("whatever".to_string()),
    };
    let error = authorize_publisher(credentials, Err(StorageError::Unavailable)).unwrap_err();
    assert_eq!(
        error,
        PublishError::UnexpectedError(PublishFault::Authentication(AuthFault::Storage(
            StorageError::Unavailable
        )))
    );
    assert_eq!(error.error_response().status, 500);
}

#[test]
fn stored_addresses_are_validated_again() {
    let entries = audience(&["a@example.com", "corrupted", "b@example.com"]);
    assert_eq!(entries.len(), 3);
    assert_eq!(entries[0].as_ref().unwrap().email.as_ref(), "a@example.com");
    assert_eq!(
        entries[1].as_ref().unwrap_err(),
        "corrupted is not a valid subscriber email."
    );
    assert_eq!(entries[2].as_ref().unwrap().email.as_ref(), "b@example.com");
}

#[test]
fn a_failed_load_of_the_audience_is_handed_on() {
    assert!(matches!(
        get_confirmed_subscribers(Err(StorageError::Unavailable)),
        Err(StorageError::Unavailable)
    ));
}

#[test]
fn a_corrupted_address_is_skipped_and_the_others_receive_the_issue() {
    let client = email_client();
    let state = Publication::new(
        7,
        issue(),
        audience(&["first@example.com", "corrupted", "third@example.com"]),
    );

    let (state, step) = publish_newsletter(state, PublishEvent::Started, &client);
    assert!(step.warnings.is_empty());
    let first = sent(step.action);
    assert_eq!(first.body.to, "first@example.com");
    assert_eq!(first.body.from, "newsletter@example.com");
    assert_eq!(first.body.subject, "Newsletter title");
    assert_eq!(first.body.html_body, "<p>Newsletter body as HTML</p>");
    assert_eq!(first.body.text_body, "Newsletter body as plain text");
    assert_eq!(first.url, "http://127.0.0.1:4000/email");

    let (state, step) = publish_newsletter(state, PublishEvent::Delivered(Ok(())), &client);
    assert_eq!(step.warnings, vec!["corrupted is not a valid subscriber email.".to_string()]);
    assert_eq!(sent(step.action).body.to, "third@example.com");

    let (_, step) = publish_newsletter(state, PublishEvent::Delivered(Ok(())), &client);
    assert!(step.warnings.is_empty());
    assert_eq!(answer(step.action), Ok(7));
}

#[test]
fn a_failed_delivery_ends_the_fan_out() {
    let client = email_client();
    let state =
        Publication::new(7, issue(), audience(&["first@example.com", "second@example.com"]));
    let (state, step) = publish_newsletter(state, PublishEvent::Started, &client);
    assert_eq!(sent(step.action).body.to, "first@example.com");

    let failure = TransportError::Status(500);
    let (state, step) = publish_newsletter(state, PublishEvent::Delivered(Err(failure)), &client);
    assert!(step.warnings.is_empty());
    assert_eq!(
        answer(step.action),
        Err(PublishError::UnexpectedError(PublishFault::Delivery(failure)))
    );

    let (_, step) = publish_newsletter(state, PublishEvent::Delivered(Ok(())), &client);
    assert_eq!(
        answer(step.action),
        Err(PublishError::UnexpectedError(PublishFault::Delivery(failure)))
    );
}

#[test]
fn an_empty_audience_is_answered_at_once() {
    let (_, step) =
        publish_newsletter(Publication::new(3, issue(), Vec::new()), PublishEvent::Started, &email_client());
    assert!(step.warnings.is_empty());
    assert_eq!(answer(step.action), Ok(3));
}

#[test]
fn an_audience_of_corrupted_addresses_only_gets_nothing() {
    let state = Publication::new(3, issue(), audience(&["one", "two"]));
    let (_, step) = publish_newsletter(state, PublishEvent::Started, &email_client());
    assert_eq!(
        step.warnings,
        vec![
            "one is not a valid subscriber email.".to_string(),
            "two is not a valid subscriber email.".to_string()
        ]
    );
    assert_eq!(answer(step.action), Ok(3));
}
