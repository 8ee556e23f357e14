use newsletter::authentication::{
    change_password, compute_password_hash, get_stored_credentials,
    has_parallelism_within_limit, hash_with_salt, identify, password_changed,
    validate_credentials, verify_password_hash, AuthError, AuthFault, Credentials,
    CredentialsFault, StoredCredentials, DUMMY_PASSWORD_HASH, HASH_ALGORITHM, HASH_ITERATIONS,
    HASH_MEMORY_KIB, HASH_PARALLELISM, HASH_VERSION, MAX_PARALLELISM,
};
use newsletter::secret::SecretString;
use newsletter::storage::StorageError;

fn secret(text: &str) -> SecretString {
    SecretString::new(text.to_string())
}

fn credentials(username: &str, password: &str) -> Credentials {
    Credentials { username: username.to_string(), password: secret(password) }
}

#[test]
fn a_secret_exposes_the_text_it_was_made_from() {
    let sealed = secret("everythinghastostartsomewhere");
    assert_eq!(sealed.expose_secret(), "everythinghastostartsomewhere");
    assert_eq!(sealed.duplicate().expose_secret(), "everythinghastostartsomewhere");
}

#[test]
fn a_password_verifies_against_its_own_hash() {
    let password = secret("correct horse battery staple");
    let hash = compute_password_hash(&password).unwrap();
    assert!(hash.expose_secret().starts_with("$argon2id$v=19$"));
    assert_eq!(verify_password_hash(&hash, &password), Ok(()));
}

#[test]
fn another_password_is_rejected_by_the_hash() {
    let hash = compute_password_hash(&secret("correct horse battery staple")).unwrap();
    assert_eq!(
        verify_password_hash(&hash, &secret("Tr0ub4dor&3")),
        Err(AuthError::InvalidCredentials(CredentialsFault::InvalidPassword))
    );
}

#[test]
fn two_hashes_of_one_password_differ_by_their_salt() {
    let password = secret("correct horse battery staple");
    let first = compute_password_hash(&password).unwrap();
    let second = compute_password_hash(&password).unwrap();
    assert_ne!(first.expose_secret(), second.expose_secret());
}

#[test]
fn a_stored_hash_that_is_no_phc_string_is_an_unexpected_error() {
    assert_eq!(
        verify_password_hash(&secret("not a hash"), &secret("anything")),
        Err(AuthError::UnexpectedError(AuthFault::MalformedHash))
    );
    assert_eq!(
        verify_password_hash(&secret(""), &secret("anything")),
        Err(AuthError::UnexpectedError(AuthFault::MalformedHash))
    );
}

#[test]
fn the_dummy_hash_is_a_phc_string_that_rejects_a_password() {
    assert_eq!(
        verify_password_hash(&secret(DUMMY_PASSWORD_HASH), &secret("random-password")),
        Err(AuthError::InvalidCredentials(CredentialsFault::InvalidPassword))
    );
}

#[test]
fn valid_credentials_name_the_user() {
    let hash = compute_password_hash(&secret("s3cret")).unwrap();
    let stored = StoredCredentials { user_id: 42, password_hash: hash };
    assert_eq!(validate_credentials(credentials("admin", "s3cret"), Ok(Some(stored))), Ok(42));
}

#[test]
fn a_wrong_password_gives_invalid_credentials() {
    let hash = compute_password_hash(&secret("s3cret")).unwrap();
    let stored = StoredCredentials { user_id: 42, password_hash: hash };
    assert_eq!(
        validate_credentials(credentials("admin", "guess"), Ok(Some(stored))),
        Err(AuthError::InvalidCredentials(CredentialsFault::InvalidPassword))
    );
}

#[test]
fn an_unknown_user_gives_invalid_credentials() {
    let verdict = validate_credentials(credentials("random-username", "random-password"), Ok(None));
    assert!(matches!(verdict, Err(AuthError::InvalidCredentials(_))));
}

#[test]
fn a_storage_failure_during_the_lookup_is_an_unexpected_error() {
    assert_eq!(
        validate_credentials(credentials("admin", "s3cret"), Err(StorageError::Unavailable)),
        Err(AuthError::UnexpectedError(AuthFault::Storage(StorageError::Unavailable)))
    );
}

#[test]
fn a_malformed_stored_hash_is_an_unexpected_error() {
    let stored = StoredCredentials { user_id: 42, password_hash: secret("garbage") };
    assert_eq!(
        validate_credentials(credentials("admin", "s3cret"), Ok(Some(stored))),
        Err(AuthError::UnexpectedError(AuthFault::MalformedHash))
    );
}

#[test]
fn a_passed_check_without_a_user_is_an_unknown_username() {
    assert_eq!(
        identify(None, Ok(())),
        Err(AuthError::InvalidCredentials(CredentialsFault::UnknownUsername))
    );
    assert_eq!(identify(Some(7), Ok(())), Ok(7));
    assert_eq!(
        identify(Some(7), Err(AuthError::UnexpectedError(AuthFault::MalformedHash))),
        Err(AuthError::UnexpectedError(AuthFault::MalformedHash))
    );
}

#[test]
fn the_first_loaded_row_gives_the_stored_credentials() {
    let rows = vec![(7u128, "first".to_string()), (8u128, "second".to_string())];
    let stored = get_stored_credentials(Ok(rows)).unwrap().unwrap();
    assert_eq!(stored.user_id, 7);
    assert_eq!(stored.password_hash.expose_secret(), "first");
}

#[test]
fn no_loaded_row_gives_no_stored_credentials() {
    assert!(get_stored_credentials(Ok(Vec::new())).unwrap().is_none());
}

#[test]
fn a_failed_load_is_handed_on() {
    assert!(matches!(
        get_stored_credentials(Err(StorageError::Unavailable)),
        Err(StorageError::Unavailable)
    ));
}

#[test]
fn a_changed_password_verifies_against_the_new_hash() {
    let password = secret("new-password");
    let update = change_password(9, &password).unwrap();
    assert_eq!(update.user_id, 9);
    assert_eq!(verify_password_hash(&update.password_hash, &password), Ok(()));
    assert_eq!(password_changed(Ok(1)), Ok(()));
    assert_eq!(password_changed(Ok(0)), Ok(()));
    assert_eq!(
        password_changed(Err(StorageError::Unavailable)),
        Err(AuthFault::Storage(StorageError::Unavailable))
    );
}

#[test]
fn a_password_hashed_under_a_given_salt_gives_a_known_hash() {
    let hash = hash_with_salt(&secret("hunter42"), "c29tZXNhbHRzYWx0").unwrap();
    assert_eq!(
        hash.expose_secret(),
        "$argon2id$v=19$m=15000,t=2,p=1$c29tZXNhbHRzYWx0$RBt1yJqraYo521kWb7Lr5/p7qsoHr6olfL8nmpVKh2g"
    );
    assert_eq!(verify_password_hash(&hash, &secret("hunter42")), Ok(()));
    assert_eq!(
        verify_password_hash(&hash, &secret("hunter43")),
        Err(AuthError::InvalidCredentials(CredentialsFault::InvalidPassword))
    );
}

#[test]
fn hashing_under_one_salt_twice_gives_one_hash() {
    let first = hash_with_salt(&secret("s3cret"), "gZiV/M1gPc22ElAH/Jh1Hw").unwrap();
    let second = hash_with_salt(&secret("s3cret"), "gZiV/M1gPc22ElAH/Jh1Hw").unwrap();
    assert_eq!(first.expose_secret(), second.expose_secret());
    let other = hash_with_salt(&secret("s3cret"), "AZiV/M1gPc22ElAH/Jh1Hw").unwrap();
    assert_ne!(first.expose_secret(), other.expose_secret());
}

#[test]
fn a_salt_that_is_refused_is_a_hashing_failure() {
    assert!(matches!(hash_with_salt(&secret("s3cret"), "abc"), Err(AuthFault::HashingFailed)));
    assert!(matches!(hash_with_salt(&secret("s3cret"), ""), Err(AuthFault::HashingFailed)));
    assert!(matches!(
        hash_with_salt(&secret("s3cret"), "not base64 at all!"),
        Err(AuthFault::HashingFailed)
    ));
    assert!(matches!(
        hash_with_salt(&secret("s3cret"), &"a".repeat(65)),
        Err(AuthFault::HashingFailed)
    ));
}

#[test]
fn every_hash_carries_the_costs_of_the_dummy_hash() {
    assert_eq!((HASH_ALGORITHM, HASH_VERSION), ("argon2id", 19));
    assert_eq!((HASH_MEMORY_KIB, HASH_ITERATIONS, HASH_PARALLELISM), (15000, 2, 1));
    let costs = "$argon2id$v=19$m=15000,t=2,p=1$";
    assert!(DUMMY_PASSWORD_HASH.starts_with(costs));
    let hash = compute_password_hash(&secret("s3cret")).unwrap();
    assert!(hash.expose_secret().starts_with(costs));
    let update = change_password(3, &secret("s3cret")).unwrap();
    assert!(update.password_hash.expose_secret().starts_with(costs));
    assert_eq!(hash.expose_secret().split('$').count(), DUMMY_PASSWORD_HASH.split('$').count());
}

#[test]
fn an_empty_password_is_hashed_too() {
    let hash = compute_password_hash(&secret("")).unwrap();
    assert_eq!(verify_password_hash(&hash, &secret("")), Ok(()));
    assert!(verify_password_hash(&hash, &secret(" ")).is_err());
}

fn pairs(params: &[(&str, &str)]) -> Vec<(String, String)> {
    params.iter().map(|(name, value)| (name.to_string(), value.to_string())).collect()
}

#[test]
fn a_parallelism_up_to_the_limit_is_within_it() {
    assert_eq!(MAX_PARALLELISM, 16_777_215);
    assert!(has_parallelism_within_limit(&pairs(&[("m", "15000"), ("t", "2"), ("p", "1")])));
    assert!(has_parallelism_within_limit(&pairs(&[("p", "16777215")])));
    assert!(has_parallelism_within_limit(&pairs(&[("m", "99999999999")])));
    assert!(has_parallelism_within_limit(&pairs(&[])));
    assert!(has_parallelism_within_limit(&pairs(&[("p", "007")])));
}

#[test]
fn a_parallelism_beyond_the_limit_or_no_number_is_not_within_it() {
    assert!(!has_parallelism_within_limit(&pairs(&[("p", "16777216")])));
    assert!(!has_parallelism_within_limit(&pairs(&[("p", "536870912")])));
    assert!(!has_parallelism_within_limit(&pairs(&[("p", "1"), ("p", "536870912")])));
    assert!(!has_parallelism_within_limit(&pairs(&[("p", "99999999999999999999999")])));
    assert!(!has_parallelism_within_limit(&pairs(&[("p", "x")])));
    assert!(!has_parallelism_within_limit(&pairs(&[("p", "")])));
}

#[test]
fn a_stored_hash_that_asks_for_too_many_lanes_verifies_no_password() {
    let password = secret("hunter42");
    let hash = hash_with_salt(&password, "c29tZXNhbHRzYWx0").unwrap();
    assert_eq!(verify_password_hash(&hash, &password), Ok(()));
    let rejected = Err(AuthError::InvalidCredentials(CredentialsFault::InvalidPassword));
    for lanes in ["p=536870912", "p=16777216", "p=4294967295", "p=1,p=536870912", "p=536870912,p=1"] {
        let stored = secret(&hash.expose_secret().replace("p=1", lanes));
        assert_eq!(verify_password_hash(&stored, &password), rejected);
    }
    let stored = StoredCredentials {
        user_id: 1,
        password_hash: secret(&hash.expose_secret().replace("m=15000,t=2,p=1", "m=8,t=1,p=536870912")),
    };
    assert_eq!(
        validate_credentials(credentials("admin", "hunter42"), Ok(Some(stored))),
        Err(AuthError::InvalidCredentials(CredentialsFault::InvalidPassword))
    );
}

#[test]
fn a_stored_hash_with_other_costs_is_put_to_the_verifier() {
    let password = secret("hunter42");
    let hash = hash_with_salt(&password, "c29tZXNhbHRzYWx0").unwrap();
    let rejected = Err(AuthError::InvalidCredentials(CredentialsFault::InvalidPassword));
    for costs in ["m=15000,t=2,p=2", "m=15000,t=3,p=1", "m=16,t=2,p=16777215", "m=15000,t=2,p=01"] {
        let stored = secret(&hash.expose_secret().replace("m=15000,t=2,p=1", costs));
        assert_eq!(verify_password_hash(&stored, &password), rejected);
    }
}
