//! Credential verification: look a username's stored password hash up and
//! verify a candidate password against it.
//!
//! When the username is unknown, verification still runs against a fixed
//! fallback hash and then always fails: the hashing work is done either
//! way, so response timing does not reveal whether a username exists. The
//! hash comparison itself is CPU-bound; the surrounding process runs it
//! off the I/O-handling execution context.

use vstd::prelude::*;
use vstd::utf8::decode_utf8;
use vstd::utf8::valid_utf8;
use argon2::PasswordVerifier;
use base64::Engine;

verus! {

/// The verdict of argon2 password verification, as a function of the
/// stored PHC string and the candidate password alone: `Some(true)` is a
/// match, `Some(false)` a failed verification of a parsed hash, `None` a
/// hash string the verifier could not parse.
pub uninterp spec fn password_match(phc: Seq<char>, candidate: Seq<char>) -> Option<bool>;

/// Relies on argon2's `Argon2::verify_password` (the `PasswordVerifier`
/// impl for `str`, which parses the PHC string and recomputes the hash
/// from the salt and parameters stored in it): deterministic in its two
/// arguments. A computed hash that does not match — or a parsed hash
/// without usable salt and output — is reported as
/// `Error::PasswordInvalid`; any other error means the string could not
/// be parsed as a PHC hash.
#[verifier::external_body]
fn run_argon2_verification(expected_password_hash: &str, password_candidate: &str) -> (r: Option<
    bool,
>)
    ensures
        r == password_match(expected_password_hash@, password_candidate@),
{
    match argon2::Argon2::default().verify_password(
        password_candidate.as_bytes(),
        expected_password_hash,
    ) {
        Ok(()) => Some(true),
        Err(argon2::password_hash::Error::PasswordInvalid) => Some(false),
        Err(_) => None,
    }
}

/// A username with the password a caller is trying to authenticate with.
pub struct Credentials {
    pub username: String,
    pub password: String,
}

/// Why credential verification failed: the credentials were wrong, or the
/// verification machinery itself could not run.
#[derive(Debug)]
pub enum AuthError {
    InvalidCredentials(String),
    UnexpectedError(String),
}

impl AuthError {
    /// The diagnostic message carried by this error.
    pub fn message(&self) -> (r: &String)
        ensures
            self matches AuthError::InvalidCredentials(m) ==> r@ == m@,
            self matches AuthError::UnexpectedError(m) ==> r@ == m@,
    {
        match self {
            AuthError::InvalidCredentials(m) => m,
            AuthError::UnexpectedError(m) => m,
        }
    }
}

/// Mathematical view of one stored user row.
pub struct CredentialView {
    pub user_id: u128,
    pub username: Seq<char>,
    pub password_hash: Seq<char>,
}

/// One stored user row: identifier, username, PHC password hash string.
pub struct StoredCredential {
    pub user_id: u128,
    pub username: String,
    pub password_hash: String,
}

impl View for StoredCredential {
    type V = CredentialView;

    open spec fn view(&self) -> CredentialView {
        CredentialView {
            user_id: self.user_id,
            username: self.username@,
            password_hash: self.password_hash@,
        }
    }
}

/// The stored row for a username, if any.
pub open spec fn credential_for(s: Seq<CredentialView>, username: Seq<char>) -> Option<
    CredentialView,
>
    decreases s.len(),
{
    if s.len() == 0 {
        None
    } else if s[0].username == username {
        Some(s[0])
    } else {
        credential_for(s.drop_first(), username)
    }
}

/// If no row carries the username, nothing is found.
proof fn lemma_credential_none(s: Seq<CredentialView>, username: Seq<char>)
    requires
        forall|i: int| 0 <= i < s.len() ==> s[i].username != username,
    ensures
        credential_for(s, username) is None,
    decreases s.len(),
{
    if s.len() > 0 {
        lemma_credential_none(s.drop_first(), username);
    }
}

/// With distinct usernames, the row found is the row at the matching
/// index.
proof fn lemma_credential_at_match(s: Seq<CredentialView>, username: Seq<char>, i: int)
    requires
        forall|p: int, q: int| 0 <= p < q < s.len() ==> s[p].username != s[q].username,
        0 <= i < s.len(),
        s[i].username == username,
    ensures
        credential_for(s, username) == Some(s[i]),
    decreases s.len(),
{
    if i > 0 {
        assert(forall|p: int, q: int|
            0 <= p < q < s.drop_first().len() ==> s.drop_first()[p] == s[p + 1]
                && s.drop_first()[q] == s[q + 1]);
        lemma_credential_at_match(s.drop_first(), username, i - 1);
    }
}

/// The credential store: the users and their stored password hashes.
pub struct CredentialStore {
    users: Vec<StoredCredential>,
}

impl View for CredentialStore {
    type V = Seq<CredentialView>;

    closed spec fn view(&self) -> Seq<CredentialView> {
        self.users@.map_values(|u: StoredCredential| u@)
    }
}

impl CredentialStore {
    /// Usernames unique across rows.
    pub open spec fn wf(&self) -> bool {
        forall|i: int, j: int| 0 <= i < j < self@.len() ==> self@[i].username != self@[j].username
    }

    /// An empty store.
    pub fn new() -> (r: CredentialStore)
        ensures
            r@ =~= Seq::<CredentialView>::empty(),
            r.wf(),
    {
        CredentialStore { users: Vec::new() }
    }

    /// Adds a user row. Fails — changing nothing — exactly when the
    /// username is already taken.
    pub fn add_user(&mut self, user: StoredCredential) -> (r: Result<(), String>)
        requires
            old(self).wf(),
        ensures
            final(self).wf(),
            r is Ok <==> credential_for(old(self)@, user.username@) is None,
            r is Ok ==> final(self)@ == old(self)@.push(user@),
            r is Err ==> final(self)@ == old(self)@,
    {
        let ghost pre = self@;
        let n = self.users.len();
        for i in 0..n
            invariant
                n == self@.len(),
                self@ == pre,
                self.wf(),
                forall|j: int| 0 <= j < i ==> self@[j].username != user.username@,
        {
            if self.users[i].username == user.username {
                proof {
                    lemma_credential_at_match(pre, user.username@, i as int);
                }
                return Err(String::from_str("a user with this username already exists"));
            }
        }
        proof {
            lemma_credential_none(pre, user.username@);
        }
        self.users.push(user);
        proof {
            assert(self@ =~= pre.push(user@));
        }
        Ok(())
    }

    /// The stored identifier and password hash for a username, if any.
    pub fn get_stored_credentials(&self, username: &String) -> (r: Option<(u128, String)>)
        requires
            self.wf(),
        ensures
            match credential_for(self@, username@) {
                Option::Some(c) => r matches Some((user_id, hash)) && user_id == c.user_id
                    && hash@ == c.password_hash,
                Option::None => r is None,
            },
    {
        let n = self.users.len();
        for i in 0..n
            invariant
                n == self@.len(),
                self.wf(),
                forall|j: int| 0 <= j < i ==> self@[j].username != username@,
        {
            if self.users[i].username == *username {
                proof {
                    lemma_credential_at_match(self@, username@, i as int);
                }
                return Some((self.users[i].user_id, self.users[i].password_hash.clone()));
            }
        }
        proof {
            lemma_credential_none(self@, username@);
        }
        None
    }
}

/// The fixed PHC string verification falls back to for unknown usernames.
pub fn fallback_password_hash() -> &'static str {
    "$argon2id$v=19$m=15000,t=2,p=1$gZiV/M1gPc22ElAH/Jh1Hw$CWOrkoo7oJBQ/iyh7uJ0LO2aLEfrHwTWllSAxT0zRno"
}

/// Verifies a candidate password against a stored PHC hash string: a match
/// succeeds, a mismatch is invalid credentials, and a hash the verifier
/// cannot use is an unexpected failure.
pub fn verify_password_hash(expected_password_hash: &String, password_candidate: &String) -> (r:
    Result<(), AuthError>)
    ensures
        r is Ok <==> password_match(expected_password_hash@, password_candidate@) == Some(true),
        (r matches Err(AuthError::InvalidCredentials(_))) <==> password_match(
            expected_password_hash@,
            password_candidate@,
        ) == Some(false),
        (r matches Err(AuthError::UnexpectedError(_))) <==> password_match(
            expected_password_hash@,
            password_candidate@,
        ) is None,
{
    match run_argon2_verification(expected_password_hash.as_str(), password_candidate.as_str()) {
        Some(true) => Ok(()),
        Some(false) => Err(AuthError::InvalidCredentials(String::from_str("Invalid password."))),
        None => Err(
            AuthError::UnexpectedError(
                String::from_str("Failed to parse hash in PHC string format."),
            ),
        ),
    }
}

/// Verifies credentials against the store. An unknown username still runs
/// the hash verification, against the fallback hash, and then always fails
/// with invalid credentials — never with success, whatever the fallback
/// verification returned.
pub fn validate_credentials(store: &CredentialStore, credentials: &Credentials) -> (r: Result<
    u128,
    AuthError,
>)
    requires
        store.wf(),
    ensures
        match credential_for(store@, credentials.username@) {
            Option::None => r matches Err(AuthError::InvalidCredentials(_)),
            Option::Some(c) => match password_match(c.password_hash, credentials.password@) {
                Option::Some(true) => r matches Ok(user_id) && user_id == c.user_id,
                Option::Some(false) => r matches Err(AuthError::InvalidCredentials(_)),
                Option::None => r matches Err(AuthError::UnexpectedError(_)),
            },
        },
{
    match store.get_stored_credentials(&credentials.username) {
        None => {
            let fallback = String::from_str(fallback_password_hash());
            let _ = run_argon2_verification(fallback.as_str(), credentials.password.as_str());
            Err(AuthError::InvalidCredentials(String::from_str("Unknown username.")))
        },
        Some((user_id, expected_password_hash)) => {
            verify_password_hash(&expected_password_hash, &credentials.password)?;
            Ok(user_id)
        },
    }
}

/// The result a caller of basic-authentication decoding observes, as a
/// function of the header value alone.
pub uninterp spec fn base64_decoded(s: Seq<char>) -> Option<Seq<u8>>;

/// Relies on base64's `Engine::decode` with the standard padded alphabet:
/// deterministic in its input; invalid input is rejected.
#[verifier::external_body]
fn base64_decode_standard(s: &str) -> (r: Option<Vec<u8>>)
    ensures
        match r {
            Some(v) => base64_decoded(s@) == Some(v@),
            None => base64_decoded(s@) is None,
        },
{
    match base64::engine::general_purpose::STANDARD.decode(s) {
        Ok(v) => Some(v),
        Err(_) => None,
    }
}

/// Relies on std's `String::from_utf8`: it accepts exactly valid UTF-8 and
/// decodes it, as vstd's UTF-8 specification states.
#[verifier::external_body]
fn string_from_utf8(bytes: Vec<u8>) -> (r: Option<String>)
    ensures
        r is Some <==> valid_utf8(bytes@),
        r matches Some(s) ==> s@ == decode_utf8(bytes@),
{
    match String::from_utf8(bytes) {
        Ok(s) => Some(s),
        Err(_) => None,
    }
}

/// Why a 'Basic' authorization header yielded no credentials.
#[derive(Clone, Copy, Debug, PartialEq, Eq, Structural)]
pub enum BasicAuthError {
    /// The 'Authorization' header was missing.
    MissingHeader,
    /// The authorization scheme was not 'Basic'.
    NotBasic,
    /// The credentials were not valid base64.
    InvalidBase64,
    /// The decoded credential bytes were not valid UTF-8.
    InvalidUtf8,
    /// No colon, so no password, in the decoded credentials.
    MissingPassword,
}

impl BasicAuthError {
    /// The diagnostic message for this failure.
    pub fn message(&self) -> (r: String)
        ensures
            self is MissingHeader ==> r@ == "The 'Authorization' header was missing"@,
            self is NotBasic ==> r@ == "The authorization scheme was not 'Basic'."@,
            self is InvalidBase64 ==> r@ == "Failed to base64-decode 'Basic' credentials."@,
            self is InvalidUtf8 ==> r@ == "The decoded credential string is not valid UTF8."@,
            self is MissingPassword ==> r@ == "A password must be provided in 'Basic' auth."@,
    {
        match self {
            BasicAuthError::MissingHeader => String::from_str(
                "The 'Authorization' header was missing",
            ),
            BasicAuthError::NotBasic => String::from_str(
                "The authorization scheme was not 'Basic'.",
            ),
            BasicAuthError::InvalidBase64 => String::from_str(
                "Failed to base64-decode 'Basic' credentials.",
            ),
            BasicAuthError::InvalidUtf8 => String::from_str(
                "The decoded credential string is not valid UTF8.",
            ),
            BasicAuthError::MissingPassword => String::from_str(
                "A password must be provided in 'Basic' auth.",
            ),
        }
    }
}

/// Whether the header value starts with the 'Basic ' scheme marker.
pub open spec fn has_basic_prefix(s: Seq<char>) -> bool {
    s.len() >= 6 && s[0] == 'B' && s[1] == 'a' && s[2] == 's' && s[3] == 'i' && s[4] == 'c' && s[5]
        == ' '
}

/// The header value a caller handed in, seen mathematically.
pub open spec fn header_view(authorization: Option<&String>) -> Option<Seq<char>> {
    match authorization {
        Some(h) => Some(h@),
        None => None,
    }
}

/// What decoding a 'Basic' authorization header yields, as a function of
/// the header alone: scheme marker, base64 payload, UTF-8 text, and a
/// username and password split at the first colon — each step's failure
/// reported distinctly.
pub open spec fn basic_auth_spec(authorization: Option<Seq<char>>) -> Result<
    (Seq<char>, Seq<char>),
    BasicAuthError,
> {
    match authorization {
        None => Err(BasicAuthError::MissingHeader),
        Some(h) => if !has_basic_prefix(h) {
            Err(BasicAuthError::NotBasic)
        } else {
            match base64_decoded(h.subrange(6, h.len() as int)) {
                None => Err(BasicAuthError::InvalidBase64),
                Some(bytes) => if !valid_utf8(bytes) {
                    Err(BasicAuthError::InvalidUtf8)
                } else {
                    let d = decode_utf8(bytes);
                    if forall|i: int| 0 <= i < d.len() ==> d[i] != ':' {
                        Err(BasicAuthError::MissingPassword)
                    } else {
                        let i = choose|i: int|
                            0 <= i < d.len() && d[i] == ':' && (forall|j: int|
                                0 <= j < i ==> d[j] != ':');
                        Ok((d.subrange(0, i), d.subrange(i + 1, d.len() as int)))
                    }
                },
            }
        },
    }
}

/// Decodes a 'Basic' authorization header into credentials, exactly as
/// [`basic_auth_spec`] says.
pub fn basic_authentication(authorization: Option<&String>) -> (r: Result<
    Credentials,
    BasicAuthError,
>)
    ensures
        match r {
            Ok(c) => basic_auth_spec(header_view(authorization)) == Ok::<
                (Seq<char>, Seq<char>),
                BasicAuthError,
            >((c.username@, c.password@)),
            Err(e) => basic_auth_spec(header_view(authorization)) == Err::<
                (Seq<char>, Seq<char>),
                BasicAuthError,
            >(e),
        },
{
    let header = match authorization {
        None => {
            return Err(BasicAuthError::MissingHeader);
        },
        Some(h) => h.as_str(),
    };
    let n = header.unicode_len();
    if n < 6 || header.get_char(0) != 'B' || header.get_char(1) != 'a' || header.get_char(2) != 's'
        || header.get_char(3) != 'i' || header.get_char(4) != 'c' || header.get_char(5) != ' ' {
        return Err(BasicAuthError::NotBasic);
    }
    let encoded = header.substring_char(6, n);
    proof {
        assert(encoded@ == header@.subrange(6, header@.len() as int));
    }
    let bytes = match base64_decode_standard(encoded) {
        None => {
            return Err(BasicAuthError::InvalidBase64);
        },
        Some(b) => b,
    };
    let ghost byte_view = bytes@;
    let decoded = match string_from_utf8(bytes) {
        None => {
            return Err(BasicAuthError::InvalidUtf8);
        },
        Some(d) => d,
    };
    let d = decoded.as_str();
    let m = d.unicode_len();
    let mut colon: Option<usize> = None;
    for i in 0..m
        invariant
            m == d@.len(),
            d@ == decode_utf8(byte_view),
            colon is None ==> forall|j: int| 0 <= j < i ==> d@[j] != ':',
            colon matches Some(c) ==> c < i && d@[c as int] == ':' && (forall|j: int|
                0 <= j < c ==> d@[j] != ':'),
    {
        if colon.is_none() && d.get_char(i) == ':' {
            colon = Some(i);
        }
    }
    match colon {
        None => Err(BasicAuthError::MissingPassword),
        Some(c) => {
            let username = String::from_str(d.substring_char(0, c));
            let password = String::from_str(d.substring_char(c + 1, m));
            let creds = Credentials { username, password };
            proof {
                let dv = d@;
                assert(exists|i: int|
                    0 <= i < dv.len() && dv[i] == ':' && (forall|j: int|
                        0 <= j < i ==> dv[j] != ':')) by {
                    assert(dv[c as int] == ':' && (forall|j: int| 0 <= j < c ==> dv[j] != ':'));
                };
                let i = choose|i: int|
                    0 <= i < dv.len() && dv[i] == ':' && (forall|j: int|
                        0 <= j < i ==> dv[j] != ':');
                assert(i == c as int) by {
                    if i < c as int {
                        assert(dv[i] != ':');
                    } else {
                        if (c as int) < i {
                            assert(dv[c as int] != ':');
                        }
                    }
                };
            }
            Ok(creds)
        },
    }
}

} // verus!
