//! The login endpoint's decisions: verifying credentials into a session
//! redirect, and authenticating the error message a login failure carries
//! through the query string with an HMAC tag.

use vstd::prelude::*;
use vstd::utf8::encode_utf8;
use crate::authentication::CredentialStore;
use crate::authentication::CredentialView;
use crate::authentication::AuthError;
use crate::authentication::credential_for;
use crate::authentication::password_match;
use crate::authentication::validate_credentials;
use crate::response::SavedHttpResponse;
use crate::response::see_other;
use crate::response::see_other_view;
use crate::response::see_other_with_flash;
use crate::response::see_other_with_flash_view;

verus! {

/// The secret the login flow signs its query strings with.
pub struct HmacSecret(pub String);

/// The HMAC-SHA-256 tag, a function of key and message alone.
pub uninterp spec fn hmac_sha256(key: Seq<u8>, message: Seq<u8>) -> Seq<u8>;

/// Relies on hmac's `Hmac<sha2::Sha256>`: `new_from_slice` accepts keys of
/// any length, and `finalize` yields the 32-byte tag, a function of key
/// and message alone.
#[verifier::external_body]
fn compute_hmac_sha256(key: &[u8], message: &[u8]) -> (r: Vec<u8>)
    ensures
        r@ == hmac_sha256(key@, message@),
        r@.len() == 32,
{
    let mut mac = <hmac::Hmac<sha2::Sha256> as hmac::KeyInit>::new_from_slice(key).expect(
        "HMAC accepts keys of any length",
    );
    hmac::Mac::update(&mut mac, message);
    hmac::Mac::finalize(mac).into_bytes().to_vec()
}

/// The percent-encoding of a string, a function of the string alone.
pub uninterp spec fn url_encoded(s: Seq<char>) -> Seq<char>;

/// Relies on urlencoding's `encode`: percent-encodes every byte except
/// ASCII alphanumerics and `-`, `_`, `.`, `~`.
#[verifier::external_body]
fn url_encode(s: &str) -> (r: String)
    ensures
        r@ == url_encoded(s@),
{
    urlencoding::encode(s).into_owned()
}

/// The value of one hexadecimal digit.
pub open spec fn hex_digit_value(c: char) -> Option<u8> {
    if '0' <= c && c <= '9' {
        Some((c as int - '0' as int) as u8)
    } else if 'a' <= c && c <= 'f' {
        Some((c as int - 'a' as int + 10) as u8)
    } else if 'A' <= c && c <= 'F' {
        Some((c as int - 'A' as int + 10) as u8)
    } else {
        None
    }
}

/// The bytes a hexadecimal string denotes: two digits per byte, upper or
/// lower case; anything else — an odd length included — is rejected.
pub open spec fn spec_hex_decode(s: Seq<char>) -> Option<Seq<u8>>
    decreases s.len(),
{
    if s.len() % 2 != 0 {
        None
    } else if s.len() == 0 {
        Some(Seq::empty())
    } else {
        match (hex_digit_value(s[0]), hex_digit_value(s[1])) {
            (Some(hi), Some(lo)) => match spec_hex_decode(s.subrange(2, s.len() as int)) {
                Some(rest) => Some(seq![(hi * 16 + lo) as u8] + rest),
                None => None,
            },
            _ => None,
        }
    }
}

/// The value of one hexadecimal digit, or nothing.
fn hex_digit(c: char) -> (r: Option<u8>)
    ensures
        r == hex_digit_value(c),
{
    if '0' <= c && c <= '9' {
        Some((c as u32 - '0' as u32) as u8)
    } else if 'a' <= c && c <= 'f' {
        Some((c as u32 - 'a' as u32 + 10) as u8)
    } else if 'A' <= c && c <= 'F' {
        Some((c as u32 - 'A' as u32 + 10) as u8)
    } else {
        None
    }
}

/// Decodes a hexadecimal string, exactly as [`spec_hex_decode`] says.
pub fn hex_decode(s: &str) -> (r: Option<Vec<u8>>)
    ensures
        match r {
            Some(v) => spec_hex_decode(s@) == Some(v@),
            None => spec_hex_decode(s@) is None,
        },
{
    let n = s.unicode_len();
    if n % 2 != 0 {
        return None;
    }
    let mut out: Vec<u8> = Vec::new();
    let mut i: usize = 0;
    proof {
        assert(s@.subrange(0, n as int) =~= s@);
        match spec_hex_decode(s@) {
            Some(rest) => {
                assert(out@ + rest =~= rest);
            },
            None => {},
        }
    }
    while i < n
        invariant
            n == s@.len(),
            n % 2 == 0,
            i % 2 == 0,
            i <= n,
            match spec_hex_decode(s@.subrange(i as int, n as int)) {
                Some(rest) => spec_hex_decode(s@) == Some(out@ + rest),
                None => spec_hex_decode(s@) is None,
            },
        decreases n - i,
    {
        let ghost remaining = s@.subrange(i as int, n as int);
        let hi = match hex_digit(s.get_char(i)) {
            None => {
                return None;
            },
            Some(d) => d,
        };
        let lo = match hex_digit(s.get_char(i + 1)) {
            None => {
                return None;
            },
            Some(d) => d,
        };
        out.push(hi * 16 + lo);
        i = i + 2;
        proof {
            assert(remaining.subrange(2, remaining.len() as int) =~= s@.subrange(
                i as int,
                n as int,
            ));
            match spec_hex_decode(s@.subrange(i as int, n as int)) {
                Some(rest) => {
                    assert(out@ + rest =~= out@.subrange(0, out@.len() - 1) + (seq![
                        (hi * 16 + lo) as u8,
                    ] + rest));
                },
                None => {},
            }
        }
    }
    proof {
        assert(s@.subrange(n as int, n as int) =~= Seq::<char>::empty());
        assert(spec_hex_decode(s@.subrange(n as int, n as int)) == Some(Seq::<u8>::empty()));
        assert(out@ + Seq::<u8>::empty() =~= out@);
    }
    Some(out)
}

/// Two byte vectors hold the same bytes.
fn bytes_equal(a: &Vec<u8>, b: &Vec<u8>) -> (r: bool)
    ensures
        r == (a@ == b@),
{
    if a.len() != b.len() {
        return false;
    }
    let n = a.len();
    for i in 0..n
        invariant
            n == a@.len(),
            n == b@.len(),
            forall|j: int| 0 <= j < i ==> a@[j] == b@[j],
    {
        if a[i] != b[i] {
            return false;
        }
    }
    proof {
        assert(a@ =~= b@);
    }
    true
}

/// The query string whose tag the login flow signs: the percent-encoded
/// error message behind `error=`.
pub open spec fn login_error_query(error: Seq<char>) -> Seq<char> {
    "error="@ + url_encoded(error)
}

/// Why a tagged query string was rejected.
#[derive(Clone, Copy, Debug, PartialEq, Eq, Structural)]
pub enum TagError {
    /// The tag was not a hexadecimal string.
    InvalidHex,
    /// The tag does not authenticate this error message.
    TagMismatch,
}

/// The query parameters of the login page: an error message and the
/// hexadecimal HMAC tag authenticating it.
pub struct QueryParams {
    pub error: String,
    pub tag: String,
}

impl QueryParams {
    /// Accepts the error message exactly when the tag is the HMAC-SHA-256
    /// of the canonical query string under the secret.
    pub fn verify(self, secret: &HmacSecret) -> (r: Result<String, TagError>)
        ensures
            match spec_hex_decode(self.tag@) {
                Option::None => r == Err::<String, TagError>(TagError::InvalidHex),
                Option::Some(tag) => if tag == hmac_sha256(
                    encode_utf8(secret.0@),
                    encode_utf8(login_error_query(self.error@)),
                ) {
                    r matches Ok(e) && e@ == self.error@
                } else {
                    r == Err::<String, TagError>(TagError::TagMismatch)
                },
            },
    {
        let tag = match hex_decode(self.tag.as_str()) {
            None => {
                return Err(TagError::InvalidHex);
            },
            Some(t) => t,
        };
        let mut query_string = String::from_str("error=");
        let encoded = url_encode(self.error.as_str());
        query_string.append(encoded.as_str());
        let expected = compute_hmac_sha256(
            secret.0.as_str().as_bytes(),
            query_string.as_str().as_bytes(),
        );
        if bytes_equal(&tag, &expected) {
            Ok(self.error)
        } else {
            Err(TagError::TagMismatch)
        }
    }
}

/// The two fields of the login form, as the HTTP layer hands them over.
pub struct FormData {
    pub username: String,
    pub password: String,
}

/// Why a login failed: the credentials were wrong, or the verification
/// machinery itself could not run.
#[derive(Debug)]
pub enum LoginError {
    AuthError(String),
    UnexpectedError(String),
}

impl LoginError {
    /// The user-visible message of this failure.
    pub fn message(&self) -> (r: String)
        ensures
            self is AuthError ==> r@ == "Authentication failed"@,
            self is UnexpectedError ==> r@ == "Something went wrong"@,
    {
        match self {
            LoginError::AuthError(_) => String::from_str("Authentication failed"),
            LoginError::UnexpectedError(_) => String::from_str("Something went wrong"),
        }
    }

    /// Every login failure answers with a redirect.
    pub fn status_code(&self) -> (r: u16)
        ensures
            r == 303,
    {
        303
    }
}

/// The redirect a failed login answers with: back to the login page, with
/// the failure's message as a one-shot notification.
pub fn login_redirect(e: &LoginError) -> (r: SavedHttpResponse)
    ensures
        e is AuthError ==> r@ == see_other_with_flash_view("/login"@, "Authentication failed"@),
        e is UnexpectedError ==> r@ == see_other_with_flash_view(
            "/login"@,
            "Something went wrong"@,
        ),
{
    let msg = e.message();
    see_other_with_flash("/login", msg.as_str())
}

/// Decides a login: verified credentials yield the user's identifier —
/// the session layer renews the session and stores it — and a redirect to
/// the dashboard; anything else yields the failure and its redirect.
pub fn login(store: &CredentialStore, form: FormData) -> (r: Result<
    (u128, SavedHttpResponse),
    (LoginError, SavedHttpResponse),
>)
    requires
        store.wf(),
    ensures
        match credential_for(store@, form.username@) {
            Option::<CredentialView>::None => (r matches Err((e, resp)) && e is AuthError && resp@
                == see_other_with_flash_view("/login"@, "Authentication failed"@)),
            Option::<CredentialView>::Some(c) => match password_match(
                c.password_hash,
                form.password@,
            ) {
                Option::<bool>::Some(true) => r matches Ok((user_id, resp)) && user_id
                    == c.user_id && resp@ == see_other_view("/admin/dashboard"@),
                Option::<bool>::Some(false) => r matches Err((e, resp)) && e is AuthError && resp@
                    == see_other_with_flash_view("/login"@, "Authentication failed"@),
                Option::<bool>::None => r matches Err((e, resp)) && e is UnexpectedError && resp@
                    == see_other_with_flash_view("/login"@, "Something went wrong"@),
            },
        },
{
    let credentials = crate::authentication::Credentials {
        username: form.username,
        password: form.password,
    };
    match validate_credentials(store, &credentials) {
        Ok(user_id) => Ok((user_id, see_other("/admin/dashboard"))),
        Err(AuthError::InvalidCredentials(m)) => {
            let e = LoginError::AuthError(m);
            let resp = login_redirect(&e);
            Err((e, resp))
        },
        Err(AuthError::UnexpectedError(m)) => {
            let e = LoginError::UnexpectedError(m);
            let resp = login_redirect(&e);
            Err((e, resp))
        },
    }
}

/// The one-shot notifications rendered at the top of the login page, in
/// order, each inside an emphasized paragraph.
pub open spec fn flash_html(messages: Seq<Seq<char>>) -> Seq<char>
    decreases messages.len(),
{
    if messages.len() == 0 {
        Seq::empty()
    } else {
        flash_html(messages.drop_last()) + "<p><i>"@ + messages.last() + "</i></p>\n"@
    }
}

/// Everything of the login page before the notifications.
pub open spec fn login_page_head() -> Seq<char> {
    "<!DOCTYPE html><html lang=\"en\"><head><meta charset=\"utf-8\"><title>Login</title></head><body>"@
}

/// Everything of the login page after the notifications: the form itself.
pub open spec fn login_page_tail() -> Seq<char> {
    "<form action=\"/login\" method=\"post\"><label>Username<input type=\"text\" placeholder=\"Enter Username\" name=\"username\"></label><label>Password<input type=\"password\" placeholder=\"Enter Password\" name=\"password\"></label><button type=\"submit\">Login</button></form></body></html>"@
}

/// Renders the login page with the pending one-shot notifications.
pub fn login_form(flash_messages: &Vec<String>) -> (r: String)
    ensures
        r@ == login_page_head() + flash_html(
            flash_messages@.map_values(|m: String| m@),
        ) + login_page_tail(),
{
    let ghost msgs = flash_messages@.map_values(|m: String| m@);
    let mut error_html = String::new();
    let n = flash_messages.len();
    proof {
        assert(msgs.subrange(0, 0) =~= Seq::<Seq<char>>::empty());
        assert(error_html@ =~= flash_html(msgs.subrange(0, 0)));
    }
    for i in 0..n
        invariant
            n == flash_messages@.len(),
            msgs == flash_messages@.map_values(|m: String| m@),
            error_html@ == flash_html(msgs.subrange(0, i as int)),
    {
        error_html.append("<p><i>");
        error_html.append(flash_messages[i].as_str());
        error_html.append("</i></p>\n");
        proof {
            let next = msgs.subrange(0, i as int + 1);
            assert(next.drop_last() =~= msgs.subrange(0, i as int));
            assert(next.last() == msgs[i as int]);
            assert(error_html@ =~= flash_html(next));
        }
    }
    proof {
        assert(msgs.subrange(0, n as int) =~= msgs);
    }
    let mut page = String::from_str(
        "<!DOCTYPE html><html lang=\"en\"><head><meta charset=\"utf-8\"><title>Login</title></head><body>",
    );
    page.append(error_html.as_str());
    page.append(
        "<form action=\"/login\" method=\"post\"><label>Username<input type=\"text\" placeholder=\"Enter Username\" name=\"username\"></label><label>Password<input type=\"password\" placeholder=\"Enter Password\" name=\"password\"></label><button type=\"submit\">Login</button></form></body></html>",
    );
    page
}

} // verus!
