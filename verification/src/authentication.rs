//! Password hashing and the verdict on a pair of credentials.

use crate::decimal::{parse_unsigned, unsigned};
use crate::secret::SecretString;
use crate::storage::StorageError;
use vstd::prelude::*;
use vstd::utf8::encode_utf8;

verus! {

/// `argon2::password_hash::Error`, carried as it comes.
#[verifier::external_type_specification]
#[verifier::external_body]
pub struct ExPasswordHashError(argon2::password_hash::Error);

/// `rand::rngs::ThreadRng`, carried as it comes.
#[verifier::external_type_specification]
#[verifier::external_body]
pub struct ExThreadRng(rand::rngs::ThreadRng);

/// Whether `argon2::PasswordHash::new` accepts `text` as a PHC string.
pub uninterp spec fn phc_parses(text: Seq<char>) -> bool;

/// The parameters that `argon2::PasswordHash::new` reads out of the PHC
/// string `text`: names and values, in the order in which
/// `ParamsString::iter` hands them out.
pub uninterp spec fn phc_params(text: Seq<char>) -> Seq<(Seq<char>, Seq<char>)>;

/// Whether `Argon2::default().verify_password` accepts `password` against
/// the hash that `argon2::PasswordHash::new` reads out of the PHC string
/// `hash`.
pub uninterp spec fn argon2_verifies(hash: Seq<char>, password: Seq<u8>) -> bool;

/// The bytes that `Salt::from_b64` and `Salt::decode_b64` read out of
/// `salt`, or nothing where either refuses it.
pub uninterp spec fn salt_decoding(salt: Seq<char>) -> Option<Seq<u8>>;

/// What `argon2::PasswordHasher::hash_password` makes of `password` under
/// the salt `salt`, on an `Argon2` of the given algorithm and version with
/// the given memory, time and parallelism costs: the hash as a PHC string,
/// or nothing where one of them is refused.
pub uninterp spec fn argon2_hashing(
    password: Seq<u8>,
    salt: Seq<char>,
    algorithm: Seq<char>,
    version: u32,
    m_cost: u32,
    t_cost: u32,
    p_cost: u32,
) -> Option<Seq<char>>;

/// The largest parallelism that Argon2 takes. `argon2::Params::new`
/// multiplies the parallelism by eight in 32 bits before it tests this
/// limit; the product overflows for a parallelism of 2^29 or more.
pub const MAX_PARALLELISM: u32 = 0xFF_FFFF;

/// The texts that the strings of `pairs` hold.
pub open spec fn pair_texts(pairs: Seq<(String, String)>) -> Seq<(Seq<char>, Seq<char>)> {
    pairs.map_values(|pair: (String, String)| (pair.0@, pair.1@))
}

/// Whether `value` writes a parallelism that Argon2 takes: a number in
/// decimal digits of at most [`MAX_PARALLELISM`].
pub open spec fn is_lane_count(value: Seq<char>) -> bool {
    unsigned(value) matches Some(lanes) && lanes <= MAX_PARALLELISM
}

/// Whether every parameter `p` among `params` writes a parallelism that
/// Argon2 takes.
pub open spec fn parallelism_within_limit(params: Seq<(Seq<char>, Seq<char>)>) -> bool {
    forall|i: int|
        0 <= i < params.len() && (#[trigger] params[i]).0 == "p"@ ==> is_lane_count(params[i].1)
}

/// The inputs on which hashing succeeds: a password of less than 2^32
/// bytes, a salt of eight bytes or more, one of the three algorithms, one
/// of the two versions, and costs within Argon2's limits.
pub open spec fn hashing_is_owed(
    password: Seq<u8>,
    salt: Seq<char>,
    algorithm: Seq<char>,
    version: u32,
    m_cost: u32,
    t_cost: u32,
    p_cost: u32,
) -> bool {
    &&& password.len() <= u32::MAX
    &&& salt_decoding(salt) matches Some(bytes) && bytes.len() >= 8
    &&& algorithm == "argon2d"@ || algorithm == "argon2i"@ || algorithm == "argon2id"@
    &&& version == 16 || version == 19
    &&& 1 <= p_cost <= MAX_PARALLELISM
    &&& 1 <= t_cost
    &&& 8 * p_cost <= m_cost
}

/// `rand::thread_rng`: the handle of this thread's generator. Nothing is
/// known of what it will yield.
pub assume_specification[ rand::thread_rng ]() -> (rng: rand::rngs::ThreadRng);

/// `argon2::PasswordHash::new`: whether `text` parses as a PHC string, and
/// the parameters that it carries, each as name and value.
#[verifier::external_body]
fn parse_phc(text: &str) -> (parsed: Result<Vec<(String, String)>, argon2::password_hash::Error>)
    ensures
        parsed is Ok <==> phc_parses(text@),
        parsed matches Ok(params) ==> pair_texts(params@) == phc_params(text@),
{
    let hash = argon2::PasswordHash::new(text)?;
    let pairs = hash.params.iter();
    Ok(pairs.map(|(name, value)| (name.as_str().to_owned(), value.as_str().to_owned())).collect())
}

/// `argon2::PasswordVerifier::verify_password` on `Argon2::default()`,
/// against the hash parsed from the PHC string `hash`: it recomputes the
/// hash of `password` with the salt and the parameters that `hash` carries
/// and compares the outcome with the output that `hash` carries.
///
/// It builds the parameters with `argon2::Params::new`, which multiplies the
/// parallelism by eight in 32 bits before it tests it: a parallelism beyond
/// [`MAX_PARALLELISM`] is left out.
#[verifier::external_body]
fn argon2_verify(password: &[u8], hash: &str) -> (verified: Result<
    (),
    argon2::password_hash::Error,
>)
    requires
        phc_parses(hash@),
        parallelism_within_limit(phc_params(hash@)),
    ensures
        verified is Ok <==> argon2_verifies(hash@, password@),
{
    let parsed = argon2::PasswordHash::new(hash)?;
    argon2::PasswordVerifier::verify_password(&argon2::Argon2::default(), password, &parsed)
}

/// `argon2::password_hash::SaltString::generate`, as the text that
/// `as_str` gives: sixteen random bytes drawn from `rng`, in the salt's
/// encoding, which reads back as those sixteen bytes. Nothing is promised of
/// their value.
#[verifier::external_body]
fn generate_salt(rng: &mut rand::rngs::ThreadRng) -> (salt: String)
    ensures
        salt_decoding(salt@) is Some,
        salt_decoding(salt@)->Some_0.len() == 16,
{
    argon2::password_hash::SaltString::generate(rng).as_str().to_owned()
}

/// `argon2::PasswordHasher::hash_password`, written out as a PHC string.
/// The salt is read with `Salt::from_b64`, the algorithm with
/// `Algorithm::new`, the version with `Version::try_from`, the costs with
/// `Params::new`, and the hasher is `Argon2::new` of these.
///
/// It succeeds on the inputs of [`hashing_is_owed`]: the source refuses
/// nothing else. The string that comes back carries the three costs as its
/// only parameters; as the crate's documentation shows, it parses again and
/// the same password verifies against it, with the costs that it carries.
/// `Params::new` multiplies the parallelism by eight in 32 bits before it
/// tests it: a parallelism beyond [`MAX_PARALLELISM`] is left out.
#[verifier::external_body]
fn argon2_hash(
    password: &[u8],
    salt: &str,
    algorithm: &str,
    version: u32,
    m_cost: u32,
    t_cost: u32,
    p_cost: u32,
) -> (hashed: Result<String, argon2::password_hash::Error>)
    requires
        p_cost <= MAX_PARALLELISM,
    ensures
        match hashed {
            Ok(text) => argon2_hashing(
                password@,
                salt@,
                algorithm@,
                version,
                m_cost,
                t_cost,
                p_cost,
            ) == Some(text@),
            Err(_) => argon2_hashing(password@, salt@, algorithm@, version, m_cost, t_cost, p_cost)
                is None,
        },
        hashing_is_owed(password@, salt@, algorithm@, version, m_cost, t_cost, p_cost)
            ==> hashed is Ok,
        hashed matches Ok(text) ==> phc_parses(text@) && parallelism_within_limit(
            phc_params(text@),
        ) && argon2_verifies(text@, password@),
{
    let salt = argon2::password_hash::Salt::from_b64(salt)?;
    let algorithm = argon2::Algorithm::new(algorithm)?;
    let version = argon2::Version::try_from(version)?;
    let params = argon2::Params::new(m_cost, t_cost, p_cost, None)?;
    let hasher = argon2::Argon2::new(algorithm, version, params);
    let hash = argon2::PasswordHasher::hash_password(&hasher, password, salt)?;
    Ok(hash.to_string())
}

/// Why a pair of credentials was turned down.
#[derive(Clone, Copy, Debug, PartialEq, Eq, Structural)]
pub enum CredentialsFault {
    /// No user has the given name.
    UnknownUsername,
    /// The password does not match the stored hash.
    InvalidPassword,
}

/// Why a credential operation could not be carried out.
#[derive(Clone, Copy, Debug, PartialEq, Eq, Structural)]
pub enum AuthFault {
    /// The stored hash is not a PHC string.
    MalformedHash,
    /// The password could not be hashed.
    HashingFailed,
    /// Storage failed.
    Storage(StorageError),
}

/// The two ways in which authentication fails. Callers report
/// `InvalidCredentials` in the same words whatever its cause.
#[derive(Clone, Copy, Debug, PartialEq, Eq, Structural)]
pub enum AuthError {
    InvalidCredentials(CredentialsFault),
    UnexpectedError(AuthFault),
}

/// A user name and a password, as presented by a caller.
pub struct Credentials {
    pub username: String,
    pub password: SecretString,
}

/// What storage holds for one user name.
pub struct StoredCredentials {
    pub user_id: u128,
    pub password_hash: SecretString,
}

/// The algorithm that passwords are hashed with.
pub const HASH_ALGORITHM: &'static str = "argon2id";

/// The version of the algorithm that passwords are hashed with.
pub const HASH_VERSION: u32 = 19;

/// The memory that hashing a password takes, in KiB.
pub const HASH_MEMORY_KIB: u32 = 15000;

/// The number of passes that hashing a password makes.
pub const HASH_ITERATIONS: u32 = 2;

/// The number of lanes that hashing a password uses.
pub const HASH_PARALLELISM: u32 = 1;

/// The hash that a password is checked against when no user has the given
/// name, so that a check is made whether or not the user exists. It is a
/// hash of [`HASH_ALGORITHM`] in version [`HASH_VERSION`] that carries the
/// costs [`HASH_MEMORY_KIB`], [`HASH_ITERATIONS`] and [`HASH_PARALLELISM`],
/// those of every hash that [`compute_password_hash`] makes.
pub const DUMMY_PASSWORD_HASH: &'static str =
    "$argon2id$v=19$m=15000,t=2,p=1$gZiV/M1gPc22ElAH/Jh1Hw$CWOrkoo7oJBQ/iyh7uJ0LO2aLEfrHwTWllSAxT0zRno";

/// The outcome of checking the password `candidate` against the PHC string
/// `expected_hash`: a string that does not parse is a malformed hash; one
/// that asks for a parallelism beyond Argon2's limit verifies no password;
/// any other is put to the verifier.
pub open spec fn password_verdict(expected_hash: Seq<char>, candidate: Seq<char>) -> Result<
    (),
    AuthError,
> {
    if !phc_parses(expected_hash) {
        Err(AuthError::UnexpectedError(AuthFault::MalformedHash))
    } else if !parallelism_within_limit(phc_params(expected_hash)) || !argon2_verifies(
        expected_hash,
        encode_utf8(candidate),
    ) {
        Err(AuthError::InvalidCredentials(CredentialsFault::InvalidPassword))
    } else {
        Ok(())
    }
}

/// The hash that the password is checked against: the stored one, or the
/// dummy where the user is unknown.
pub open spec fn hash_to_check(found: Option<StoredCredentials>) -> Seq<char> {
    match found {
        Some(stored) => stored.password_hash@,
        None => DUMMY_PASSWORD_HASH@,
    }
}

/// The verdict once the password check has been made: a failed check stands
/// as it is; a passed one names the user, if there is one.
pub open spec fn identity_verdict(user_id: Option<u128>, check: Result<(), AuthError>) -> Result<
    u128,
    AuthError,
> {
    match check {
        Err(error) => Err(error),
        Ok(()) => match user_id {
            Some(id) => Ok(id),
            None => Err(AuthError::InvalidCredentials(CredentialsFault::UnknownUsername)),
        },
    }
}

/// The verdict on a password, given what the lookup of the user name found.
pub open spec fn credentials_verdict(
    password: Seq<char>,
    lookup: Result<Option<StoredCredentials>, StorageError>,
) -> Result<u128, AuthError> {
    match lookup {
        Err(error) => Err(AuthError::UnexpectedError(AuthFault::Storage(error))),
        Ok(found) => identity_verdict(
            match found {
                Some(stored) => Some(stored.user_id),
                None => None,
            },
            password_verdict(hash_to_check(found), password),
        ),
    }
}

/// The first of the rows that a lookup by user name loaded, if any.
pub open spec fn first_credentials(rows: Seq<(u128, String)>) -> Option<(u128, Seq<char>)> {
    if rows.len() == 0 {
        None
    } else {
        Some((rows[0].0, rows[0].1@))
    }
}

/// Picks the stored credentials out of the rows that a lookup by user name
/// loaded: the first row, or none. A storage failure is handed on.
pub fn get_stored_credentials(loaded: Result<Vec<(u128, String)>, StorageError>) -> (found: Result<
    Option<StoredCredentials>,
    StorageError,
>)
    ensures
        match loaded {
            Err(error) => found == Err::<Option<StoredCredentials>, StorageError>(error),
            Ok(rows) => found is Ok && match first_credentials(rows@) {
                None => found->Ok_0 is None,
                Some((id, hash)) => found->Ok_0 matches Some(stored) && stored.user_id == id
                    && stored.password_hash@ == hash,
            },
        },
{
    match loaded {
        Err(error) => Err(error),
        Ok(rows) => {
            let mut rows = rows;
            if rows.len() == 0 {
                Ok(None)
            } else {
                let (user_id, password_hash) = rows.remove(0);
                Ok(Some(StoredCredentials { user_id, password_hash: SecretString::new(password_hash) }))
            }
        },
    }
}

/// Whether every parameter `p` among `params` writes a parallelism that
/// Argon2 takes.
pub fn has_parallelism_within_limit(params: &Vec<(String, String)>) -> (within: bool)
    ensures
        within == parallelism_within_limit(pair_texts(params@)),
{
    let lanes = "p".to_owned();
    let mut i: usize = 0;
    while i < params.len()
        invariant
            i <= params@.len(),
            lanes@ == "p"@,
            forall|j: int|
                0 <= j < i && (#[trigger] pair_texts(params@)[j]).0 == "p"@ ==> is_lane_count(
                    pair_texts(params@)[j].1,
                ),
        decreases params@.len() - i,
    {
        assert(pair_texts(params@)[i as int] == (params@[i as int].0@, params@[i as int].1@));
        if params[i].0 == lanes {
            match parse_unsigned(params[i].1.as_str()) {
                Some(count) => if count > MAX_PARALLELISM as u64 {
                    return false;
                },
                None => {
                    return false;
                },
            }
        }
        i = i + 1;
    }
    true
}

/// Checks a password against a PHC string.
pub fn verify_password_hash(
    expected_password_hash: &SecretString,
    password_candidate: &SecretString,
) -> (checked: Result<(), AuthError>)
    ensures
        checked == password_verdict(expected_password_hash@, password_candidate@),
{
    let expected = expected_password_hash.expose_secret().as_str();
    match parse_phc(expected) {
        Err(_) => Err(AuthError::UnexpectedError(AuthFault::MalformedHash)),
        Ok(params) => {
            if !has_parallelism_within_limit(&params) {
                return Err(AuthError::InvalidCredentials(CredentialsFault::InvalidPassword));
            }
            match argon2_verify(password_candidate.expose_secret().as_str().as_bytes(), expected) {
                Ok(()) => Ok(()),
                Err(_) => Err(AuthError::InvalidCredentials(CredentialsFault::InvalidPassword)),
            }
        },
    }
}

/// Decides who the caller is, once the password check has been made.
pub fn identify(user_id: Option<u128>, check: Result<(), AuthError>) -> (verdict: Result<
    u128,
    AuthError,
>)
    ensures
        verdict == identity_verdict(user_id, check),
{
    match check {
        Err(error) => Err(error),
        Ok(()) => match user_id {
            Some(id) => Ok(id),
            None => Err(AuthError::InvalidCredentials(CredentialsFault::UnknownUsername)),
        },
    }
}

/// Validates credentials against what the lookup of the user name found.
///
/// The password is checked in every case in which storage answered: against
/// the stored hash, or against [`DUMMY_PASSWORD_HASH`] where the user is
/// unknown. Only then is an unknown user turned down.
pub fn validate_credentials(
    credentials: Credentials,
    lookup: Result<Option<StoredCredentials>, StorageError>,
) -> (verdict: Result<u128, AuthError>)
    ensures
        verdict == credentials_verdict(credentials.password@, lookup),
        lookup matches Ok(None) ==> verdict is Err,
{
    match lookup {
        Err(error) => Err(AuthError::UnexpectedError(AuthFault::Storage(error))),
        Ok(None) => {
            let dummy = SecretString::new(DUMMY_PASSWORD_HASH.to_owned());
            identify(None, verify_password_hash(&dummy, &credentials.password))
        },
        Ok(Some(stored)) => identify(
            Some(stored.user_id),
            verify_password_hash(&stored.password_hash, &credentials.password),
        ),
    }
}

/// What hashing `password` under `salt` comes to, with [`HASH_ALGORITHM`]
/// in version [`HASH_VERSION`] at the costs [`HASH_MEMORY_KIB`],
/// [`HASH_ITERATIONS`] and [`HASH_PARALLELISM`].
pub open spec fn salted_hash(password: Seq<char>, salt: Seq<char>) -> Option<Seq<char>> {
    argon2_hashing(
        encode_utf8(password),
        salt,
        HASH_ALGORITHM@,
        HASH_VERSION,
        HASH_MEMORY_KIB,
        HASH_ITERATIONS,
        HASH_PARALLELISM,
    )
}

/// Whether `hashed` is the outcome of hashing `password` under `salt`: the
/// hash where there is one, a hashing failure where there is none.
pub open spec fn hash_outcome(
    password: Seq<char>,
    salt: Seq<char>,
    hashed: Result<SecretString, AuthFault>,
) -> bool {
    match salted_hash(password, salt) {
        Some(text) => hashed matches Ok(hash) && hash@ == text,
        None => hashed matches Err(fault) && fault == AuthFault::HashingFailed,
    }
}

/// The salts under which a password of less than 2^32 bytes is hashed
/// without fail: those that read as eight bytes or more.
pub open spec fn is_usable_salt(salt: Seq<char>) -> bool {
    salt_decoding(salt) matches Some(bytes) && bytes.len() >= 8
}

/// The salts that are drawn for a new hash: those that read as sixteen
/// bytes.
pub open spec fn is_drawn_salt(salt: Seq<char>) -> bool {
    salt_decoding(salt) matches Some(bytes) && bytes.len() == 16
}

/// Hashes a password under the given salt, with the fixed algorithm,
/// version and costs.
///
/// Under a usable salt a password of less than 2^32 bytes is hashed without
/// fail, and the password verifies against the hash that comes back.
pub fn hash_with_salt(password: &SecretString, salt: &str) -> (hashed: Result<
    SecretString,
    AuthFault,
>)
    ensures
        hash_outcome(password@, salt@, hashed),
        is_usable_salt(salt@) && encode_utf8(password@).len() <= u32::MAX ==> hashed is Ok,
        hashed matches Ok(hash) ==> password_verdict(hash@, password@) is Ok,
{
    match argon2_hash(
        password.expose_secret().as_str().as_bytes(),
        salt,
        HASH_ALGORITHM,
        HASH_VERSION,
        HASH_MEMORY_KIB,
        HASH_ITERATIONS,
        HASH_PARALLELISM,
    ) {
        Ok(text) => Ok(SecretString::new(text)),
        Err(_) => Err(AuthFault::HashingFailed),
    }
}

/// Hashes a password under a fresh random salt, with the fixed algorithm,
/// version and costs.
///
/// A password of less than 2^32 bytes is hashed without fail. Whatever salt
/// is drawn, it reads as sixteen bytes, the outcome is that of hashing
/// under it, and the password verifies against the hash that comes back.
pub fn compute_password_hash(password: &SecretString) -> (hashed: Result<SecretString, AuthFault>)
    ensures
        exists|salt: Seq<char>| is_drawn_salt(salt) && hash_outcome(password@, salt, hashed),
        encode_utf8(password@).len() <= u32::MAX ==> hashed is Ok,
        hashed matches Ok(hash) ==> password_verdict(hash@, password@) is Ok,
{
    let mut rng = rand::thread_rng();
    let salt = generate_salt(&mut rng);
    let hashed = hash_with_salt(password, salt.as_str());
    assert(is_drawn_salt(salt@) && hash_outcome(password@, salt@, hashed));
    hashed
}

/// The change that storage is asked to make for a new password.
pub struct PasswordUpdate {
    pub user_id: u128,
    pub password_hash: SecretString,
}

/// Whether `update` is the outcome of a password change for the user
/// `id_user` where the new password is hashed under `salt`: the change of
/// that user's hash to the new one, or a hashing failure.
pub open spec fn change_outcome(
    id_user: u128,
    password: Seq<char>,
    salt: Seq<char>,
    update: Result<PasswordUpdate, AuthFault>,
) -> bool {
    match salted_hash(password, salt) {
        Some(text) => update matches Ok(change) && change.user_id == id_user
            && change.password_hash@ == text,
        None => update matches Err(fault) && fault == AuthFault::HashingFailed,
    }
}

/// Prepares a password change: hashes the new password for the given user
/// under a fresh random salt. A password of less than 2^32 bytes is hashed
/// without fail.
pub fn change_password(id_user: u128, password: &SecretString) -> (update: Result<
    PasswordUpdate,
    AuthFault,
>)
    ensures
        exists|salt: Seq<char>|
            is_drawn_salt(salt) && change_outcome(id_user, password@, salt, update),
        encode_utf8(password@).len() <= u32::MAX ==> update is Ok,
        update matches Ok(change) ==> password_verdict(change.password_hash@, password@) is Ok,
{
    let hashed = compute_password_hash(password);
    let ghost salt = choose|salt: Seq<char>|
        is_drawn_salt(salt) && hash_outcome(password@, salt, hashed);
    let update = match hashed {
        Ok(password_hash) => Ok(PasswordUpdate { user_id: id_user, password_hash }),
        Err(fault) => Err(fault),
    };
    assert(is_drawn_salt(salt) && change_outcome(id_user, password@, salt, update));
    update
}

/// Reports how a password change ended, given what storage answered to the
/// update.
pub fn password_changed(outcome: Result<usize, StorageError>) -> (done: Result<(), AuthFault>)
    ensures
        done == match outcome {
            Ok(_) => Ok::<(), AuthFault>(()),
            Err(error) => Err(AuthFault::Storage(error)),
        },
{
    match outcome {
        Ok(_) => Ok(()),
        Err(error) => Err(AuthFault::Storage(error)),
    }
}

} // verus!
