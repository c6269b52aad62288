//! The settings the process starts with, as far as the handlers read
//! them; loading them from files and environment variables is the
//! surrounding process's work.

use vstd::prelude::*;

verus! {

/// The web server's own settings.
pub struct ApplicationSettings {
    pub port: u16,
    pub host: String,
}

/// The base URL confirmation links are built against, wrapped so the
/// request handlers can retrieve it by type.
pub struct ApplicationBaseUrl(pub String);

/// The lowercasing of a string, a function of its characters alone.
pub uninterp spec fn lower_of(s: Seq<char>) -> Seq<char>;

/// Relies on std's `str::to_lowercase`: the result depends on the
/// characters alone, and an empty string stays empty.
#[verifier::external_body]
fn to_lowercase(s: &str) -> (r: String)
    ensures
        r@ == lower_of(s@),
        s@.len() == 0 ==> r@.len() == 0,
{
    s.to_lowercase()
}

/// The possible runtime environments of the application.
#[derive(Clone, Copy, Debug, PartialEq, Eq, Structural)]
pub enum Environment {
    Local,
    Production,
}

impl Environment {
    /// The canonical name of this environment.
    pub fn as_str(&self) -> (r: &'static str)
        ensures
            self is Local ==> r@ == "local"@,
            self is Production ==> r@ == "production"@,
    {
        match self {
            Environment::Local => "local",
            Environment::Production => "production",
        }
    }

    /// Reads an environment name, case-insensitively: exactly the strings
    /// whose lowercasing is `local` or `production` are accepted.
    pub fn parse(s: &str) -> (r: Result<Environment, String>)
        ensures
            lower_of(s@) == "local"@ ==> r == Ok::<Environment, String>(Environment::Local),
            lower_of(s@) == "production"@ ==> r == Ok::<Environment, String>(
                Environment::Production,
            ),
            !(lower_of(s@) == "local"@) && !(lower_of(s@) == "production"@) ==> r is Err,
            r matches Err(e) ==> e@ == s@,
    {
        proof {
            reveal_strlit("local");
            reveal_strlit("production");
            assert("local"@.len() != "production"@.len());
        }
        let lowered = to_lowercase(s);
        if lowered == String::from_str("local") {
            Ok(Environment::Local)
        } else if lowered == String::from_str("production") {
            Ok(Environment::Production)
        } else {
            Err(String::from_str(s))
        }
    }
}

} // verus!
