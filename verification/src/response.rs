//! A persisted snapshot of a completed HTTP response: status code, an
//! ordered sequence of header pairs (insertion order preserved, repeated
//! names legal), and a body byte sequence.
//!
//! The handlers in this crate return such snapshots; the HTTP layer
//! transmits them verbatim, and the idempotency store replays them
//! byte-identically.

use vstd::prelude::*;

verus! {

/// Mathematical view of a response: the status, the header pairs in order,
/// and the body bytes.
pub struct ResponseView {
    pub status: u16,
    pub headers: Seq<(Seq<char>, Seq<char>)>,
    pub body: Seq<u8>,
}

/// A completed response, created exactly once and never mutated afterwards.
#[derive(Debug)]
pub struct SavedHttpResponse {
    pub status: u16,
    pub headers: Vec<(String, String)>,
    pub body: Vec<u8>,
}

impl View for SavedHttpResponse {
    type V = ResponseView;

    open spec fn view(&self) -> ResponseView {
        ResponseView {
            status: self.status,
            headers: self.headers@.map_values(|h: (String, String)| (h.0@, h.1@)),
            body: self.body@,
        }
    }
}

/// The view of a redirect ("see other") response to `location`.
pub open spec fn see_other_view(location: Seq<char>) -> ResponseView {
    ResponseView {
        status: 303,
        headers: seq![("Location"@, location)],
        body: Seq::empty(),
    }
}

/// The view of a redirect that also carries a one-shot notification for the
/// next page view, encoded as a header so that a replayed response carries
/// the very same notification and nothing is emitted twice.
pub open spec fn see_other_with_flash_view(location: Seq<char>, flash: Seq<char>) -> ResponseView {
    ResponseView {
        status: 303,
        headers: seq![("Location"@, location), ("X-Flash"@, flash)],
        body: Seq::empty(),
    }
}

/// The view of an empty success response.
pub open spec fn ok_empty_view() -> ResponseView {
    ResponseView { status: 200, headers: Seq::empty(), body: Seq::empty() }
}

/// An empty success response.
pub fn ok_empty() -> (r: SavedHttpResponse)
    ensures
        r@ == ok_empty_view(),
{
    let r = SavedHttpResponse { status: 200, headers: Vec::new(), body: Vec::new() };
    proof {
        assert(r@.headers =~= ok_empty_view().headers);
        assert(r@.body =~= ok_empty_view().body);
        assert(r@ =~= ok_empty_view());
    }
    r
}

/// A redirect-to-`location` response.
pub fn see_other(location: &str) -> (r: SavedHttpResponse)
    ensures
        r@ == see_other_view(location@),
{
    let headers: Vec<(String, String)> = vec![
        (String::from_str("Location"), String::from_str(location)),
    ];
    let r = SavedHttpResponse { status: 303, headers, body: Vec::new() };
    proof {
        assert(r@.headers =~= see_other_view(location@).headers);
        assert(r@.body =~= see_other_view(location@).body);
        assert(r@ =~= see_other_view(location@));
    }
    r
}

/// A redirect-to-`location` response carrying a one-shot notification.
pub fn see_other_with_flash(location: &str, flash: &str) -> (r: SavedHttpResponse)
    ensures
        r@ == see_other_with_flash_view(location@, flash@),
{
    let headers: Vec<(String, String)> = vec![
        (String::from_str("Location"), String::from_str(location)),
        (String::from_str("X-Flash"), String::from_str(flash)),
    ];
    let r = SavedHttpResponse { status: 303, headers, body: Vec::new() };
    proof {
        assert(r@.headers =~= see_other_with_flash_view(location@, flash@).headers);
        assert(r@.body =~= see_other_with_flash_view(location@, flash@).body);
        assert(r@ =~= see_other_with_flash_view(location@, flash@));
    }
    r
}

impl SavedHttpResponse {
    /// An identical copy of this response, for replaying it while the
    /// stored original stays in place.
    pub fn duplicate(&self) -> (r: SavedHttpResponse)
        ensures
            r@ == self@,
    {
        let mut headers: Vec<(String, String)> = Vec::new();
        let n = self.headers.len();
        for i in 0..n
            invariant
                n == self.headers.len(),
                headers@.len() == i,
                forall|j: int| 0 <= j < i ==> headers@[j].0@ == self.headers@[j].0@
                    && headers@[j].1@ == self.headers@[j].1@,
        {
            let name = self.headers[i].0.clone();
            let value = self.headers[i].1.clone();
            headers.push((name, value));
        }
        let mut body: Vec<u8> = Vec::new();
        let m = self.body.len();
        for i in 0..m
            invariant
                m == self.body.len(),
                body@ =~= self.body@.subrange(0, i as int),
        {
            body.push(self.body[i]);
        }
        let r = SavedHttpResponse { status: self.status, headers, body };
        proof {
            assert(body@ =~= self.body@);
            assert(r@.headers =~= self@.headers);
            assert(r@ =~= self@);
        }
        r
    }
}

/// An error a request handler reports to the HTTP layer, carrying the
/// status class the layer must answer with.
#[derive(Debug)]
pub enum HandlerError {
    /// The request itself was unacceptable; rejected before any side effect.
    BadRequest(String),
    /// The handler could not complete; nothing was committed.
    Internal(String),
}

impl HandlerError {
    /// The status code of the response the HTTP layer answers with.
    pub fn status_code(&self) -> (r: u16)
        ensures
            self is BadRequest ==> r == 400,
            self is Internal ==> r == 500,
    {
        match self {
            HandlerError::BadRequest(_) => 400,
            HandlerError::Internal(_) => 500,
        }
    }

    /// The diagnostic message carried by this error.
    pub fn message(&self) -> (r: &String)
        ensures
            self matches HandlerError::BadRequest(m) ==> r@ == m@,
            self matches HandlerError::Internal(m) ==> r@ == m@,
    {
        match self {
            HandlerError::BadRequest(m) => m,
            HandlerError::Internal(m) => m,
        }
    }
}

} // verus!
