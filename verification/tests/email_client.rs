use newsletter::email_client::{EmailClient, TOKEN_HEADER};

#[test]
fn a_timeout_in_digits_is_read() {
    assert_eq!(EmailClient::timeout("200"), Some(200));
    assert_eq!(EmailClient::timeout("0"), Some(0));
    assert_eq!(EmailClient::timeout("007"), Some(7));
    assert_eq!(EmailClient::timeout("+15"), Some(15));
}

#[test]
fn the_largest_timeout_fits_and_the_next_does_not() {
    assert_eq!(EmailClient::timeout("18446744073709551615"), Some(u64::MAX));
    assert_eq!(EmailClient::timeout("18446744073709551616"), None);
    assert_eq!(EmailClient::timeout("99999999999999999999999"), None);
}

#[test]
fn a_timeout_that_is_no_number_is_not_read() {
    assert_eq!(EmailClient::timeout(""), None);
    assert_eq!(EmailClient::timeout("+"), None);
    assert_eq!(EmailClient::timeout("-1"), None);
    assert_eq!(EmailClient::timeout("12a"), None);
    assert_eq!(EmailClient::timeout("1+2"), None);
    assert_eq!(EmailClient::timeout(" 10"), None);
    assert_eq!(EmailClient::timeout("１０"), None);
}

#[test]
fn the_token_travels_in_the_postmark_header() {
    assert_eq!(TOKEN_HEADER, "X-Postmark-Server-Token");
}
