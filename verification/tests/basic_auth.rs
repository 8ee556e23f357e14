use newsletter::routes::newsletter::{
    authenticate_publisher, basic_authentication, credentials_from_decoded, AuthenticationFailure,
    BasicAuthError, PublishError,
};

fn header(credentials: &str) -> Vec<u8> {
    format!("Basic {}", base64::encode(credentials)).into_bytes()
}

fn rejection(value: Option<&[u8]>) -> BasicAuthError {
    match basic_authentication(value) {
        Ok(_) => panic!("the header was accepted"),
        Err(error) => error,
    }
}

#[test]
fn user_name_and_password_are_read_from_the_header() {
    let value = header("admin:everythinghastostartsomewhere");
    let credentials = basic_authentication(Some(&value)).ok().unwrap();
    assert_eq!(credentials.username, "admin");
    assert_eq!(credentials.password.expose_secret(), "everythinghastostartsomewhere");
}

#[test]
fn a_literal_header_is_decoded() {
    let credentials = basic_authentication(Some(b"Basic YWxhZGRpbjpvcGVuc2VzYW1l")).ok().unwrap();
    assert_eq!(credentials.username, "aladdin");
    assert_eq!(credentials.password.expose_secret(), "opensesame");
}

#[test]
fn the_password_begins_after_the_first_colon() {
    let value = header("a:b:c");
    let credentials = basic_authentication(Some(&value)).ok().unwrap();
    assert_eq!(credentials.username, "a");
    assert_eq!(credentials.password.expose_secret(), "b:c");
}

#[test]
fn user_name_and_password_may_be_empty() {
    let value = header(":");
    let credentials = basic_authentication(Some(&value)).ok().unwrap();
    assert_eq!(credentials.username, "");
    assert_eq!(credentials.password.expose_secret(), "");
}

#[test]
fn characters_beyond_ascii_are_kept_whole() {
    let value = header("jürgen:pässwörd:ß");
    let credentials = basic_authentication(Some(&value)).ok().unwrap();
    assert_eq!(credentials.username, "jürgen");
    assert_eq!(credentials.password.expose_secret(), "pässwörd:ß");
}

#[test]
fn a_missing_header_is_rejected() {
    assert_eq!(rejection(None), BasicAuthError::MissingHeader);
}

#[test]
fn a_header_with_a_byte_that_is_not_visible_ascii_is_rejected() {
    assert_eq!(rejection(Some(b"Basic YWxhZGRpbjpvcGVuc2VzYW1l\x7f")), BasicAuthError::NotText);
    assert_eq!(rejection(Some("Basic é".as_bytes())), BasicAuthError::NotText);
    assert_eq!(rejection(Some(b"\x00")), BasicAuthError::NotText);
}

#[test]
fn another_scheme_is_rejected() {
    assert_eq!(rejection(Some(b"Bearer YWxhZGRpbjpvcGVuc2VzYW1l")), BasicAuthError::NotBasic);
    assert_eq!(rejection(Some(b"basic YWxhZGRpbjpvcGVuc2VzYW1l")), BasicAuthError::NotBasic);
    assert_eq!(rejection(Some(b"Basic")), BasicAuthError::NotBasic);
    assert_eq!(rejection(Some(b"")), BasicAuthError::NotBasic);
}

#[test]
fn a_segment_that_is_not_base64_is_rejected() {
    assert_eq!(rejection(Some(b"Basic !!!!")), BasicAuthError::NotBase64);
    assert_eq!(rejection(Some(b"Basic YWxhZGRpbjpvcGVuc2VzYW1")), BasicAuthError::NotBase64);
    assert_eq!(rejection(Some(b"Basic \tYWxhZGRpbjpvcGVuc2VzYW1l")), BasicAuthError::NotBase64);
}

#[test]
fn decoded_bytes_that_are_not_utf8_are_rejected() {
    let value = format!("Basic {}", base64::encode([0xffu8, 0x3a, 0x61])).into_bytes();
    assert_eq!(rejection(Some(&value)), BasicAuthError::NotUtf8);
    assert!(matches!(credentials_from_decoded(vec![0xc3, 0x28]), Err(BasicAuthError::NotUtf8)));
}

#[test]
fn credentials_without_a_colon_are_rejected() {
    let value = header("admin");
    assert_eq!(rejection(Some(&value)), BasicAuthError::MissingPassword);
    assert_eq!(rejection(Some(b"Basic ")), BasicAuthError::MissingPassword);
    assert!(matches!(
        credentials_from_decoded(b"admin".to_vec()),
        Err(BasicAuthError::MissingPassword)
    ));
}

#[test]
fn decoded_credentials_are_split_at_the_first_colon() {
    let credentials = credentials_from_decoded(b"kk:s3:cret".to_vec()).ok().unwrap();
    assert_eq!(credentials.username, "kk");
    assert_eq!(credentials.password.expose_secret(), "s3:cret");
}

#[test]
fn a_publisher_without_credentials_fails_authentication() {
    match authenticate_publisher(None) {
        Err(error) => assert_eq!(
            error,
            PublishError::AuthError(AuthenticationFailure::Header(BasicAuthError::MissingHeader))
        ),
        Ok(_) => panic!("a request without a header was let in"),
    }
    let value = header("admin:pass");
    assert_eq!(authenticate_publisher(Some(&value)).ok().unwrap().username, "admin");
}
