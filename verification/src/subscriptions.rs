//! The subscriber directory: sign-up, confirmation tokens, double opt-in
//! confirmation, and the confirmed-subscriber listing that delivery and
//! publishing read.

use vstd::prelude::*;
use vstd::pervasive::VecAdditionalExecFns;
use crate::domain::NewSubscriber;
use crate::domain::SubscriberEmail;
use crate::domain::spec_valid_email;
use crate::domain::spec_valid_name;
use crate::configuration::ApplicationBaseUrl;
use crate::email::EmailRequest;
use crate::response::SavedHttpResponse;
use crate::response::ok_empty;
use crate::response::ok_empty_view;
use crate::runtime::fresh_id;
use crate::runtime::now_timestamp;

verus! {

/// The two fields of the subscription form, as the HTTP layer hands them
/// over.
pub struct FormData {
    pub email: String,
    pub name: String,
}

/// Where a subscriber stands in the double opt-in flow. Only confirmed
/// subscribers are eligible for newsletter delivery.
#[derive(Clone, Copy, Debug, PartialEq, Eq, Structural)]
pub enum SubscriberStatus {
    PendingConfirmation,
    Confirmed,
}

/// Mathematical view of one subscriber row.
pub struct SubscriberView {
    pub id: u128,
    pub email: Seq<char>,
    pub name: Seq<char>,
    pub subscribed_at: i64,
    pub status: SubscriberStatus,
}

/// One subscriber row.
pub struct Subscriber {
    pub id: u128,
    pub email: String,
    pub name: String,
    pub subscribed_at: i64,
    pub status: SubscriberStatus,
}

impl View for Subscriber {
    type V = SubscriberView;

    open spec fn view(&self) -> SubscriberView {
        SubscriberView {
            id: self.id,
            email: self.email@,
            name: self.name@,
            subscribed_at: self.subscribed_at,
            status: self.status,
        }
    }
}

/// Mathematical view of one confirmation-token row.
pub struct TokenView {
    pub token: Seq<char>,
    pub subscriber_id: u128,
}

/// One confirmation-token row, linking a mailed-out token to a subscriber.
pub struct SubscriptionToken {
    pub token: String,
    pub subscriber_id: u128,
}

impl View for SubscriptionToken {
    type V = TokenView;

    open spec fn view(&self) -> TokenView {
        TokenView { token: self.token@, subscriber_id: self.subscriber_id }
    }
}

/// Mathematical view of the whole directory.
#[verifier::ext_equal]
pub struct DirectoryView {
    pub subscribers: Seq<SubscriberView>,
    pub tokens: Seq<TokenView>,
}

/// Whether some subscriber row already carries this identifier.
pub open spec fn id_taken(s: Seq<SubscriberView>, id: u128) -> bool {
    exists|i: int| 0 <= i < s.len() && s[i].id == id
}

/// Whether some subscriber row already carries this email address.
pub open spec fn email_taken(s: Seq<SubscriberView>, email: Seq<char>) -> bool {
    exists|i: int| 0 <= i < s.len() && s[i].email == email
}

/// Whether some row already carries this confirmation token.
pub open spec fn token_taken(t: Seq<TokenView>, token: Seq<char>) -> bool {
    exists|i: int| 0 <= i < t.len() && t[i].token == token
}

/// The emails of the confirmed subscribers, in row order.
pub open spec fn confirmed_emails(s: Seq<SubscriberView>) -> Seq<Seq<char>>
    decreases s.len(),
{
    if s.len() == 0 {
        Seq::empty()
    } else {
        let prefix = confirmed_emails(s.drop_last());
        if s.last().status is Confirmed {
            prefix.push(s.last().email)
        } else {
            prefix
        }
    }
}

/// A new pending row as [`SubscriberStore::insert_subscriber`] creates it.
pub open spec fn pending_row(id: u128, email: Seq<char>, name: Seq<char>, subscribed_at: i64) -> SubscriberView {
    SubscriberView {
        id,
        email,
        name,
        subscribed_at,
        status: SubscriberStatus::PendingConfirmation,
    }
}

/// The directory failed to store a confirmation token: the token value
/// collided with one already stored.
#[derive(Debug)]
pub struct StoreTokenError {
    pub token: String,
}

impl StoreTokenError {
    /// The fixed description of this failure.
    pub fn message(&self) -> (r: String)
        ensures
            r@ == "a conflicting row prevented storing a subscription token"@,
    {
        String::from_str("a conflicting row prevented storing a subscription token")
    }
}

/// The subscriber directory: subscriber rows plus confirmation tokens.
pub struct SubscriberStore {
    subscribers: Vec<Subscriber>,
    tokens: Vec<SubscriptionToken>,
}

impl View for SubscriberStore {
    type V = DirectoryView;

    closed spec fn view(&self) -> DirectoryView {
        DirectoryView {
            subscribers: self.subscribers@.map_values(|s: Subscriber| s@),
            tokens: self.tokens@.map_values(|t: SubscriptionToken| t@),
        }
    }
}

impl SubscriberStore {
    /// Identifiers and emails unique across subscriber rows, token values
    /// unique, and every token pointing at an existing subscriber.
    pub open spec fn wf(&self) -> bool {
        let v = self@;
        &&& forall|i: int, j: int|
            0 <= i < j < v.subscribers.len() ==> v.subscribers[i].id != v.subscribers[j].id
                && v.subscribers[i].email != v.subscribers[j].email
        &&& forall|i: int, j: int|
            0 <= i < j < v.tokens.len() ==> v.tokens[i].token != v.tokens[j].token
        &&& forall|i: int|
            0 <= i < v.tokens.len() ==> #[trigger] id_taken(v.subscribers, v.tokens[i].subscriber_id)
    }

    /// An empty directory.
    pub fn new() -> (r: SubscriberStore)
        ensures
            r@.subscribers =~= Seq::<SubscriberView>::empty(),
            r@.tokens =~= Seq::<TokenView>::empty(),
            r.wf(),
    {
        SubscriberStore { subscribers: Vec::new(), tokens: Vec::new() }
    }

    /// The number of subscriber rows.
    pub fn count(&self) -> (r: usize)
        ensures
            r == self@.subscribers.len(),
    {
        self.subscribers.len()
    }

    /// The subscriber row at `i`.
    pub fn get(&self, i: usize) -> (r: &Subscriber)
        requires
            i < self@.subscribers.len(),
        ensures
            r@ == self@.subscribers[i as int],
    {
        &self.subscribers[i]
    }

    /// Saves a new subscriber row in the pending state. Fails — changing
    /// nothing — exactly when the identifier or the email address is
    /// already taken, as the directory's uniqueness rules demand.
    pub fn insert_subscriber(
        &mut self,
        new_subscriber: &NewSubscriber,
        id: u128,
        subscribed_at: i64,
    ) -> (r: Result<(), String>)
        requires
            old(self).wf(),
        ensures
            final(self).wf(),
            r is Ok <==> !id_taken(old(self)@.subscribers, id) && !email_taken(
                old(self)@.subscribers,
                new_subscriber.email@,
            ),
            r is Ok ==> final(self)@.subscribers == old(self)@.subscribers.push(
                pending_row(id, new_subscriber.email@, new_subscriber.name@, subscribed_at),
            ) && final(self)@.tokens == old(self)@.tokens,
            r is Err ==> final(self)@ == old(self)@,
    {
        let ghost pre = self@;
        let n = self.subscribers.len();
        for i in 0..n
            invariant
                n == self@.subscribers.len(),
                self@ == pre,
                self.wf(),
                forall|j: int|
                    0 <= j < i ==> self@.subscribers[j].id != id && self@.subscribers[j].email
                        != new_subscriber.email@,
        {
            if self.subscribers[i].id == id {
                proof {
                    assert(id_taken(self@.subscribers, id)) by {
                        assert(self@.subscribers[i as int].id == id);
                    }
                }
                return Err(String::from_str("a subscriber with this identifier already exists"));
            }
            if self.subscribers[i].email == *new_subscriber.email.as_string() {
                proof {
                    assert(email_taken(self@.subscribers, new_subscriber.email@)) by {
                        assert(self@.subscribers[i as int].email == new_subscriber.email@);
                    }
                }
                return Err(String::from_str("a subscriber with this email already exists"));
            }
        }
        let row = Subscriber {
            id,
            email: new_subscriber.email.as_string().clone(),
            name: new_subscriber.name.as_string().clone(),
            subscribed_at,
            status: SubscriberStatus::PendingConfirmation,
        };
        self.subscribers.push(row);
        proof {
            assert(self@.subscribers =~= pre.subscribers.push(
                pending_row(id, new_subscriber.email@, new_subscriber.name@, subscribed_at),
            ));
            assert(self@.tokens =~= pre.tokens);
            assert(forall|p: int|
                0 <= p < pre.subscribers.len() ==> #[trigger] pre.subscribers[p].id != id
                    && pre.subscribers[p].email != new_subscriber.email@);
            assert forall|p: int|
                0 <= p < self@.tokens.len() implies id_taken(
                self@.subscribers,
                #[trigger] self@.tokens[p].subscriber_id,
            ) by {
                assert(id_taken(pre.subscribers, pre.tokens[p].subscriber_id));
                let q = choose|q: int|
                    0 <= q < pre.subscribers.len() && pre.subscribers[q].id
                        == pre.tokens[p].subscriber_id;
                assert(self@.subscribers[q].id == pre.tokens[p].subscriber_id);
            };
        }
        Ok(())
    }

    /// Stores the confirmation token for a subscriber. Fails — changing
    /// nothing — exactly when the token value is already stored or the
    /// subscriber does not exist.
    pub fn store_token(&mut self, subscriber_id: u128, token: &String) -> (r: Result<
        (),
        StoreTokenError,
    >)
        requires
            old(self).wf(),
        ensures
            final(self).wf(),
            r is Ok <==> !token_taken(old(self)@.tokens, token@) && id_taken(
                old(self)@.subscribers,
                subscriber_id,
            ),
            r is Ok ==> final(self)@.tokens == old(self)@.tokens.push(
                (TokenView { token: token@, subscriber_id }),
            ) && final(self)@.subscribers == old(self)@.subscribers,
            r is Err ==> final(self)@ == old(self)@,
    {
        let ghost pre = self@;
        let n = self.tokens.len();
        for i in 0..n
            invariant
                n == self@.tokens.len(),
                self@ == pre,
                self.wf(),
                forall|j: int| 0 <= j < i ==> self@.tokens[j].token != token@,
        {
            if self.tokens[i].token == *token {
                proof {
                    assert(token_taken(self@.tokens, token@)) by {
                        assert(self@.tokens[i as int].token == token@);
                    }
                }
                return Err(StoreTokenError { token: token.clone() });
            }
        }
        let mut subscriber_exists = false;
        let m = self.subscribers.len();
        for i in 0..m
            invariant
                m == self@.subscribers.len(),
                self@ == pre,
                self.wf(),
                !subscriber_exists ==> forall|j: int|
                    0 <= j < i ==> self@.subscribers[j].id != subscriber_id,
                subscriber_exists ==> id_taken(self@.subscribers, subscriber_id),
        {
            if self.subscribers[i].id == subscriber_id {
                subscriber_exists = true;
                proof {
                    assert(id_taken(self@.subscribers, subscriber_id)) by {
                        assert(self@.subscribers[i as int].id == subscriber_id);
                    }
                }
            }
        }
        if !subscriber_exists {
            proof {
                assert(!id_taken(self@.subscribers, subscriber_id));
            }
            return Err(StoreTokenError { token: token.clone() });
        }
        self.tokens.push(SubscriptionToken { token: token.clone(), subscriber_id });
        proof {
            assert(self@.tokens =~= pre.tokens.push(TokenView { token: token@, subscriber_id }));
            assert(self@.subscribers =~= pre.subscribers);
        }
        Ok(())
    }

    /// Completes double opt-in: marks the subscriber the token was mailed
    /// to as confirmed. Fails — changing nothing — exactly when the token
    /// is unknown.
    pub fn confirm_subscriber(&mut self, token: &String) -> (r: Result<u128, String>)
        requires
            old(self).wf(),
        ensures
            final(self).wf(),
            r is Ok <==> token_taken(old(self)@.tokens, token@),
            r matches Ok(id) ==> exists|i: int|
                0 <= i < old(self)@.subscribers.len() && old(self)@.subscribers[i].id == id
                    && final(self)@.subscribers == old(self)@.subscribers.update(
                    i,
                    (SubscriberView {
                        status: SubscriberStatus::Confirmed,
                        ..old(self)@.subscribers[i]
                    }),
                ),
            r is Ok ==> final(self)@.tokens == old(self)@.tokens,
            r is Err ==> final(self)@ == old(self)@,
    {
        let ghost pre = self@;
        let n = self.tokens.len();
        let mut subscriber_id: Option<u128> = None;
        for i in 0..n
            invariant
                n == self@.tokens.len(),
                self@ == pre,
                self.wf(),
                subscriber_id is None ==> forall|j: int|
                    0 <= j < i ==> self@.tokens[j].token != token@,
                subscriber_id matches Some(id) ==> token_taken(self@.tokens, token@) && id_taken(
                    self@.subscribers,
                    id,
                ),
        {
            if self.tokens[i].token == *token {
                subscriber_id = Some(self.tokens[i].subscriber_id);
                proof {
                    assert(token_taken(self@.tokens, token@)) by {
                        assert(self@.tokens[i as int].token == token@);
                    }
                    assert(id_taken(self@.subscribers, self@.tokens[i as int].subscriber_id));
                }
            }
        }
        match subscriber_id {
            None => Err(String::from_str("unknown subscription token")),
            Some(id) => {
                let m = self.subscribers.len();
                for i in 0..m
                    invariant
                        m == self@.subscribers.len(),
                        pre == old(self)@,
                        self@ == pre,
                        self.wf(),
                        id_taken(self@.subscribers, id),
                        token_taken(pre.tokens, token@),
                        forall|j: int| 0 <= j < i ==> self@.subscribers[j].id != id,
                {
                    if self.subscribers[i].id == id {
                        let confirmed = Subscriber {
                            id: self.subscribers[i].id,
                            email: self.subscribers[i].email.clone(),
                            name: self.subscribers[i].name.clone(),
                            subscribed_at: self.subscribers[i].subscribed_at,
                            status: SubscriberStatus::Confirmed,
                        };
                        self.subscribers.set(i, confirmed);
                        proof {
                            let post = self@;
                            assert(post.subscribers =~= pre.subscribers.update(
                                i as int,
                                (SubscriberView {
                                    status: SubscriberStatus::Confirmed,
                                    ..pre.subscribers[i as int]
                                }),
                            ));
                            assert(post.tokens =~= pre.tokens);
                            assert(forall|p: int|
                                0 <= p < post.subscribers.len()
                                    ==> #[trigger] post.subscribers[p].id == pre.subscribers[p].id
                                    && post.subscribers[p].email == pre.subscribers[p].email);
                            assert forall|p: int|
                                0 <= p < post.tokens.len() implies id_taken(
                                post.subscribers,
                                #[trigger] post.tokens[p].subscriber_id,
                            ) by {
                                assert(id_taken(pre.subscribers, pre.tokens[p].subscriber_id));
                                let q = choose|q: int|
                                    0 <= q < pre.subscribers.len() && pre.subscribers[q].id
                                        == pre.tokens[p].subscriber_id;
                                assert(post.subscribers[q].id == pre.tokens[p].subscriber_id);
                            };
                            assert(exists|p: int|
                                0 <= p < pre.subscribers.len() && pre.subscribers[p].id == id
                                    && post.subscribers == pre.subscribers.update(
                                    p,
                                    (SubscriberView {
                                        status: SubscriberStatus::Confirmed,
                                        ..pre.subscribers[p]
                                    }),
                                )) by {
                                assert(pre.subscribers[i as int].id == id);
                            };
                        }
                        return Ok(id);
                    }
                }
                proof {
                    assert(false) by {
                        assert(id_taken(self@.subscribers, id));
                        let q = choose|q: int|
                            0 <= q < self@.subscribers.len() && self@.subscribers[q].id == id;
                        assert(self@.subscribers[q].id != id);
                    };
                }
                Err(String::from_str("unknown subscription token"))
            },
        }
    }

    /// Whether this token value is already stored.
    pub fn token_exists(&self, token: &String) -> (r: bool)
        ensures
            r == token_taken(self@.tokens, token@),
    {
        let n = self.tokens.len();
        let mut found = false;
        for i in 0..n
            invariant
                n == self@.tokens.len(),
                found == (exists|j: int| 0 <= j < i && self@.tokens[j].token == token@),
        {
            if self.tokens[i].token == *token {
                found = true;
                proof {
                    assert(exists|j: int| 0 <= j < i + 1 && self@.tokens[j].token == token@) by {
                        assert(self@.tokens[i as int].token == token@);
                    }
                }
            }
        }
        found
    }

    /// The confirmed subscribers, each stored email revalidated: a row with
    /// a malformed stored email surfaces as a per-row error, never as a
    /// directory-wide failure.
    pub fn get_confirmed_subscribers(&self) -> (r: Vec<Result<SubscriberEmail, String>>)
        ensures
            r@.len() == confirmed_emails(self@.subscribers).len(),
            forall|i: int| #![trigger r@[i]]
                0 <= i < r@.len() ==> match r@[i] {
                    Ok(email) => spec_valid_email(confirmed_emails(self@.subscribers)[i])
                        && email@ == confirmed_emails(self@.subscribers)[i],
                    Err(raw) => !spec_valid_email(confirmed_emails(self@.subscribers)[i]) && raw@
                        == confirmed_emails(self@.subscribers)[i],
                },
    {
        let mut r: Vec<Result<SubscriberEmail, String>> = Vec::new();
        let n = self.subscribers.len();
        for i in 0..n
            invariant
                n == self@.subscribers.len(),
                r@.len() == confirmed_emails(self@.subscribers.subrange(0, i as int)).len(),
                forall|k: int| #![trigger r@[k]]
                    0 <= k < r@.len() ==> match r@[k] {
                        Ok(email) => spec_valid_email(
                            confirmed_emails(self@.subscribers.subrange(0, i as int))[k],
                        ) && email@ == confirmed_emails(
                            self@.subscribers.subrange(0, i as int),
                        )[k],
                        Err(raw) => !spec_valid_email(
                            confirmed_emails(self@.subscribers.subrange(0, i as int))[k],
                        ) && raw@ == confirmed_emails(self@.subscribers.subrange(0, i as int))[k],
                    },
        {
            let ghost prefix = self@.subscribers.subrange(0, i as int);
            let ghost next = self@.subscribers.subrange(0, i as int + 1);
            proof {
                assert(next.drop_last() =~= prefix);
                assert(next.last() == self@.subscribers[i as int]);
            }
            if matches!(self.subscribers[i].status, SubscriberStatus::Confirmed) {
                r.push(SubscriberEmail::parse(self.subscribers[i].email.clone()));
            }
        }
        proof {
            assert(self@.subscribers.subrange(0, n as int) =~= self@.subscribers);
        }
        r
    }
}

/// The number of characters in a freshly drawn subscription token.
pub const SUBSCRIPTION_TOKEN_LEN: usize = 25;

/// Whether a character may appear in a subscription token.
pub open spec fn token_char(c: char) -> bool {
    ('a' <= c && c <= 'z') || ('A' <= c && c <= 'Z') || ('0' <= c && c <= '9')
}

/// Relies on rand's `Alphanumeric` distribution sampled through
/// `SampleString`: a string of exactly the requested number of characters,
/// each drawn from a-z, A-Z, 0-9. The value is random: callers check
/// freshness against the store themselves.
#[verifier::external_body]
fn generate_subscription_token() -> (r: String)
    ensures
        r@.len() == SUBSCRIPTION_TOKEN_LEN,
        forall|i: int| 0 <= i < r@.len() ==> token_char(r@[i]),
{
    rand::distr::SampleString::sample_string(
        &rand::distr::Alphanumeric,
        &mut rand::rng(),
        SUBSCRIPTION_TOKEN_LEN,
    )
}

/// The confirmation link mailed to a new subscriber.
pub open spec fn confirmation_link(base_url: Seq<char>, token: Seq<char>) -> Seq<char> {
    base_url + "/subscriptions/confirm?subscription_token="@ + token
}

/// The plain-text body of the confirmation email.
pub open spec fn confirmation_text_body(link: Seq<char>) -> Seq<char> {
    "Welcome to the newsletter!\nVisit "@ + link + " to confirm your subscription."@
}

/// The HTML body of the confirmation email.
pub open spec fn confirmation_html_body(link: Seq<char>) -> Seq<char> {
    "Welcome to the newsletter! <br />Click <a href=\""@ + link
        + "\">here</a> to confirm your subscription."@
}

/// Builds the confirmation email for a new subscriber: subject, link, and
/// both body renderings are pinned down exactly.
pub fn build_confirmation_email(base_url: &str, token: &str, recipient: &SubscriberEmail) -> (r:
    EmailRequest)
    ensures
        r@.to == recipient@,
        r@.subject == "Welcome!"@,
        r@.text_body == confirmation_text_body(confirmation_link(base_url@, token@)),
        r@.html_body == confirmation_html_body(confirmation_link(base_url@, token@)),
{
    let mut link = String::from_str(base_url);
    link.append("/subscriptions/confirm?subscription_token=");
    link.append(token);
    let mut text_body = String::from_str("Welcome to the newsletter!\nVisit ");
    text_body.append(link.as_str());
    text_body.append(" to confirm your subscription.");
    let mut html_body = String::from_str("Welcome to the newsletter! <br />Click <a href=\"");
    html_body.append(link.as_str());
    html_body.append("\">here</a> to confirm your subscription.");
    EmailRequest {
        to: recipient.as_string().clone(),
        subject: String::from_str("Welcome!"),
        html_body,
        text_body,
    }
}

/// What the sign-up form handler reports: a rejected form is a
/// user-visible 400-class failure attempted before any side effect; an
/// unexpected failure is a 500-class one with nothing committed.
#[derive(Debug)]
pub enum SubscribeError {
    ValidationError(String),
    UnexpectedError(String),
}

impl SubscribeError {
    /// The status code of the response the HTTP layer answers with.
    pub fn status_code(&self) -> (r: u16)
        ensures
            self is ValidationError ==> r == 400,
            self is UnexpectedError ==> r == 500,
    {
        match self {
            SubscribeError::ValidationError(_) => 400,
            SubscribeError::UnexpectedError(_) => 500,
        }
    }

    /// The diagnostic message carried by this error.
    pub fn message(&self) -> (r: &String)
        ensures
            self matches SubscribeError::ValidationError(m) ==> r@ == m@,
            self matches SubscribeError::UnexpectedError(m) ==> r@ == m@,
    {
        match self {
            SubscribeError::ValidationError(m) => m,
            SubscribeError::UnexpectedError(m) => m,
        }
    }
}

/// Everything a successful sign-up produces: the response for the HTTP
/// layer, the new row's identifier, the confirmation token, and the
/// confirmation email for the transport to send.
#[derive(Debug)]
pub struct SubscribeSuccess {
    pub response: SavedHttpResponse,
    pub subscriber_id: u128,
    pub token: String,
    pub confirmation_email: EmailRequest,
}

/// The sign-up flow with identifier, timestamp and token fixed by the
/// caller: succeeds exactly when all three uniqueness rules hold, and then
/// stores the pending row and its token together — one transaction.
pub fn subscribe_with_parts(
    store: &mut SubscriberStore,
    new_subscriber: NewSubscriber,
    id: u128,
    subscribed_at: i64,
    token: String,
    base_url: &str,
) -> (r: Result<SubscribeSuccess, SubscribeError>)
    requires
        old(store).wf(),
    ensures
        final(store).wf(),
        r is Ok <==> !id_taken(old(store)@.subscribers, id) && !email_taken(
            old(store)@.subscribers,
            new_subscriber.email@,
        ) && !token_taken(old(store)@.tokens, token@),
        r matches Ok(s) ==> {
            &&& final(store)@.subscribers == old(store)@.subscribers.push(
                pending_row(id, new_subscriber.email@, new_subscriber.name@, subscribed_at),
            )
            &&& final(store)@.tokens == old(store)@.tokens.push(
                (TokenView { token: token@, subscriber_id: id }),
            )
            &&& s.subscriber_id == id
            &&& s.token@ == token@
            &&& s.response@ == ok_empty_view()
            &&& s.confirmation_email@.to == new_subscriber.email@
            &&& s.confirmation_email@.subject == "Welcome!"@
            &&& s.confirmation_email@.text_body == confirmation_text_body(
                confirmation_link(base_url@, token@),
            )
            &&& s.confirmation_email@.html_body == confirmation_html_body(
                confirmation_link(base_url@, token@),
            )
        },
        r is Err ==> (r matches Err(SubscribeError::UnexpectedError(_))) && final(store)@ == old(
            store,
        )@,
{
    let ghost pre = store@;
    if store.token_exists(&token) {
        return Err(
            SubscribeError::UnexpectedError(
                String::from_str("a conflicting subscription token already exists"),
            ),
        );
    }
    match store.insert_subscriber(&new_subscriber, id, subscribed_at) {
        Err(e) => Err(SubscribeError::UnexpectedError(e)),
        Ok(()) => {
            proof {
                assert(id_taken(store@.subscribers, id)) by {
                    assert(store@.subscribers[store@.subscribers.len() - 1].id == id);
                }
            }
            match store.store_token(id, &token) {
                Err(e) => {
                    // Unreachable: the token was checked to be fresh and
                    // the subscriber row was just inserted.
                    proof {
                        assert(false);
                    }
                    Err(SubscribeError::UnexpectedError(e.message()))
                },
                Ok(()) => {
                    let email = build_confirmation_email(base_url, token.as_str(), &new_subscriber.email);
                    Ok(
                        SubscribeSuccess {
                            response: ok_empty(),
                            subscriber_id: id,
                            token,
                            confirmation_email: email,
                        },
                    )
                },
            }
        },
    }
}

/// Orchestrates a sign-up as the form handler does: validates the form
/// before any side effect, draws a fresh identifier, timestamp and token,
/// stores the pending row and its confirmation token together, and hands
/// back the confirmation email for the transport to send.
pub fn subscribe(store: &mut SubscriberStore, base_url: &ApplicationBaseUrl, form: FormData) -> (r: Result<
    SubscribeSuccess,
    SubscribeError,
>)
    requires
        old(store).wf(),
    ensures
        final(store).wf(),
        !(spec_valid_name(form.name@) && spec_valid_email(form.email@)) ==> (r matches Err(
            SubscribeError::ValidationError(_),
        )) && final(store)@ == old(store)@,
        spec_valid_name(form.name@) && spec_valid_email(form.email@) && email_taken(
            old(store)@.subscribers,
            form.email@,
        ) ==> (r matches Err(SubscribeError::UnexpectedError(_))) && final(store)@ == old(store)@,
        r matches Ok(s) ==> {
            &&& spec_valid_name(form.name@) && spec_valid_email(form.email@)
            &&& s.token@.len() == SUBSCRIPTION_TOKEN_LEN
            &&& exists|ts: i64|
                final(store)@.subscribers == old(store)@.subscribers.push(
                    #[trigger] pending_row(s.subscriber_id, form.email@, form.name@, ts),
                )
            &&& final(store)@.tokens == old(store)@.tokens.push(
                (TokenView { token: s.token@, subscriber_id: s.subscriber_id }),
            )
            &&& s.response@ == ok_empty_view()
            &&& s.confirmation_email@.to == form.email@
            &&& s.confirmation_email@.subject == "Welcome!"@
            &&& s.confirmation_email@.text_body == confirmation_text_body(
                confirmation_link(base_url.0@, s.token@),
            )
            &&& s.confirmation_email@.html_body == confirmation_html_body(
                confirmation_link(base_url.0@, s.token@),
            )
        },
        r is Err ==> final(store)@ == old(store)@,
{
    let new_subscriber = match NewSubscriber::parse(form.email, form.name) {
        Ok(n) => n,
        Err(e) => {
            return Err(SubscribeError::ValidationError(e));
        },
    };
    let id = fresh_id();
    let subscribed_at = now_timestamp();
    let token = generate_subscription_token();
    subscribe_with_parts(store, new_subscriber, id, subscribed_at, token, base_url.0.as_str())
}

} // verus!
