//! The one request shape handed to the email transport collaborator.
//!
//! The transport itself (`send(request) -> Result<(), TransientError>`)
//! lives outside this crate: the delivery worker and the subscription flow
//! build these values with exact contracts, and the surrounding process
//! performs the send with its own timeout.

use vstd::prelude::*;

verus! {

/// Mathematical view of an outgoing email request.
pub struct EmailRequestView {
    pub to: Seq<char>,
    pub subject: Seq<char>,
    pub html_body: Seq<char>,
    pub text_body: Seq<char>,
}

/// An outgoing email: recipient, subject, and both body renderings.
#[derive(Debug)]
pub struct EmailRequest {
    pub to: String,
    pub subject: String,
    pub html_body: String,
    pub text_body: String,
}

impl View for EmailRequest {
    type V = EmailRequestView;

    open spec fn view(&self) -> EmailRequestView {
        EmailRequestView {
            to: self.to@,
            subject: self.subject@,
            html_body: self.html_body@,
            text_body: self.text_body@,
        }
    }
}

} // verus!
