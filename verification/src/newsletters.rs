//! The 'Basic'-authenticated publish endpoint's data and error shapes, and
//! its authorization step.

use vstd::prelude::*;
use crate::authentication::AuthError;
use crate::authentication::BasicAuthError;
use crate::authentication::CredentialStore;
use crate::authentication::CredentialView;
use crate::authentication::basic_auth_spec;
use crate::authentication::basic_authentication;
use crate::authentication::credential_for;
use crate::authentication::header_view;
use crate::authentication::password_match;
use crate::authentication::validate_credentials;
use crate::domain::SubscriberEmail;
use crate::email::EmailRequest;
use crate::response::SavedHttpResponse;

verus! {

/// The JSON payload of a publish request: a title and both content
/// renderings.
pub struct BodyData {
    pub title: String,
    pub content: Content,
}

/// The two renderings of an issue's content.
pub struct Content {
    pub html: String,
    pub text: String,
}

/// Why a publish request failed: the caller could not be authenticated,
/// or something else went wrong.
#[derive(Debug)]
pub enum PublishError {
    AuthError(String),
    UnexpectedError(String),
}

impl PublishError {
    /// The diagnostic message carried by this error.
    pub fn message(&self) -> (r: &String)
        ensures
            self matches PublishError::AuthError(m) ==> r@ == m@,
            self matches PublishError::UnexpectedError(m) ==> r@ == m@,
    {
        match self {
            PublishError::AuthError(m) => m,
            PublishError::UnexpectedError(m) => m,
        }
    }

    /// The response the HTTP layer answers with: an authentication failure
    /// is a 401 challenging the caller for 'Basic' credentials; anything
    /// else is a bare 500.
    pub fn error_response(&self) -> (r: SavedHttpResponse)
        ensures
            self is UnexpectedError ==> r@.status == 500 && r@.headers == Seq::<
                (Seq<char>, Seq<char>),
            >::empty() && r@.body == Seq::<u8>::empty(),
            self is AuthError ==> r@.status == 401 && r@.headers == seq![
                ("WWW-Authenticate"@, "Basic realm=\"publish\""@),
            ] && r@.body == Seq::<u8>::empty(),
    {
        match self {
            PublishError::UnexpectedError(_) => {
                let r = SavedHttpResponse { status: 500, headers: Vec::new(), body: Vec::new() };
                proof {
                    assert(r@.headers =~= Seq::<(Seq<char>, Seq<char>)>::empty());
                    assert(r@.body =~= Seq::<u8>::empty());
                }
                r
            },
            PublishError::AuthError(_) => {
                let headers: Vec<(String, String)> = vec![
                    (
                        String::from_str("WWW-Authenticate"),
                        String::from_str("Basic realm=\"publish\""),
                    ),
                ];
                let r = SavedHttpResponse { status: 401, headers, body: Vec::new() };
                proof {
                    assert(r@.headers =~= seq![("WWW-Authenticate"@, "Basic realm=\"publish\""@)]);
                    assert(r@.body =~= Seq::<u8>::empty());
                }
                r
            },
        }
    }
}

/// Builds the email that delivers a publish payload to one recipient, as
/// the inline send loop of the 'Basic'-authenticated endpoint does: the
/// payload's title is the subject, its renderings the bodies, verbatim.
pub fn issue_email_from_body(body: &BodyData, recipient: &SubscriberEmail) -> (r: EmailRequest)
    ensures
        r@.to == recipient@,
        r@.subject == body.title@,
        r@.html_body == body.content.html@,
        r@.text_body == body.content.text@,
{
    EmailRequest {
        to: recipient.as_string().clone(),
        subject: body.title.clone(),
        html_body: body.content.html.clone(),
        text_body: body.content.text.clone(),
    }
}

/// Authorizes a publish request from its 'Basic' authorization header:
/// decodes the credentials and verifies them against the store. A header
/// that yields no credentials, an unknown username and a wrong password
/// are all authentication failures; only verification machinery trouble
/// is an unexpected failure.
pub fn authorize_publish(store: &CredentialStore, authorization: Option<&String>) -> (r: Result<
    u128,
    PublishError,
>)
    requires
        store.wf(),
    ensures
        match basic_auth_spec(header_view(authorization)) {
            Result::<(Seq<char>, Seq<char>), BasicAuthError>::Err(_) => r matches Err(
                PublishError::AuthError(_),
            ),
            Result::<(Seq<char>, Seq<char>), BasicAuthError>::Ok(creds) => match credential_for(
                store@,
                creds.0,
            ) {
                Option::<CredentialView>::None => r matches Err(PublishError::AuthError(_)),
                Option::<CredentialView>::Some(c) => match password_match(
                    c.password_hash,
                    creds.1,
                ) {
                    Option::<bool>::Some(true) => r matches Ok(user_id) && user_id == c.user_id,
                    Option::<bool>::Some(false) => r matches Err(PublishError::AuthError(_)),
                    Option::<bool>::None => r matches Err(PublishError::UnexpectedError(_)),
                },
            },
        },
{
    let credentials = match basic_authentication(authorization) {
        Err(e) => {
            return Err(PublishError::AuthError(e.message()));
        },
        Ok(c) => c,
    };
    match validate_credentials(store, &credentials) {
        Ok(user_id) => Ok(user_id),
        Err(AuthError::InvalidCredentials(m)) => Err(PublishError::AuthError(m)),
        Err(AuthError::UnexpectedError(m)) => Err(PublishError::UnexpectedError(m)),
    }
}

} // verus!
