//! Save-and-replay of HTTP responses keyed by a caller-supplied key plus
//! user identity.
//!
//! For a given `(user_id, idempotency_key)` pair, at most one caller ever
//! transitions the record from absent to in-progress; every concurrent or
//! later caller observes either the in-progress placeholder (and must not
//! duplicate the side effect) or the completed record (and replays the
//! saved response verbatim).

use vstd::prelude::*;
use crate::response::ResponseView;
use crate::response::SavedHttpResponse;
use crate::HandlerError;

verus! {

/// The largest number of characters an idempotency key may have.
pub const MAX_IDEMPOTENCY_KEY_LEN: usize = 50;

/// A caller-supplied token scoping one mutating action, so that repeats of
/// the same action are detected and deduplicated.
///
/// Valid keys are non-empty and at most [`MAX_IDEMPOTENCY_KEY_LEN`]
/// characters long; a key is validated once, before any side effect, and is
/// immutable afterwards.
pub struct IdempotencyKey {
    key: String,
}

impl IdempotencyKey {
    /// Whether a string is acceptable as an idempotency key.
    pub open spec fn spec_valid(s: Seq<char>) -> bool {
        1 <= s.len() <= MAX_IDEMPOTENCY_KEY_LEN
    }

    /// Validates a caller-supplied key. Rejected input causes no side
    /// effect anywhere: the caller reports the error synchronously.
    pub fn parse(s: String) -> (r: Result<IdempotencyKey, String>)
        ensures
            r is Ok <==> Self::spec_valid(s@),
            r matches Ok(k) ==> k@ == s@,
            r matches Err(e) ==> e@ == s@,
    {
        let n = s.as_str().unicode_len();
        if n == 0 || n > MAX_IDEMPOTENCY_KEY_LEN {
            Err(s)
        } else {
            Ok(IdempotencyKey { key: s })
        }
    }

    /// The validated key string.
    pub fn as_string(&self) -> (r: &String)
        ensures
            r@ == self@,
    {
        &self.key
    }
}

impl View for IdempotencyKey {
    type V = Seq<char>;

    closed spec fn view(&self) -> Seq<char> {
        self.key@
    }
}

/// Mathematical view of one idempotency record: `response` is `None` while
/// the record is the in-progress placeholder and `Some` once completed.
pub struct RecordView {
    pub user_id: u128,
    pub key: Seq<char>,
    pub response: Option<ResponseView>,
}

/// One row of the idempotency store, keyed by `(user_id, key)`.
///
/// Lifecycle: created as an in-progress placeholder (`response == None`) to
/// claim the key, then completed exactly once with the saved response.
pub struct IdempotencyRecord {
    pub user_id: u128,
    pub key: String,
    pub response: Option<SavedHttpResponse>,
}

impl View for IdempotencyRecord {
    type V = RecordView;

    open spec fn view(&self) -> RecordView {
        RecordView {
            user_id: self.user_id,
            key: self.key@,
            response: match self.response {
                Some(r) => Some(r@),
                None => None,
            },
        }
    }
}

/// No two records share a `(user_id, key)` pair.
pub open spec fn distinct_keys(s: Seq<RecordView>) -> bool {
    forall|i: int, j: int|
        0 <= i < j < s.len() ==> !(s[i].user_id == s[j].user_id && s[i].key == s[j].key)
}

/// The state recorded for `(user_id, key)`: `None` when the pair is absent,
/// `Some(None)` while in progress, `Some(Some(resp))` once completed.
pub open spec fn lookup(s: Seq<RecordView>, user_id: u128, key: Seq<char>) -> Option<
    Option<ResponseView>,
>
    decreases s.len(),
{
    if s.len() == 0 {
        None
    } else if s[0].user_id == user_id && s[0].key == key {
        Some(s[0].response)
    } else {
        lookup(s.drop_first(), user_id, key)
    }
}

/// The in-progress placeholder record for `(user_id, key)`.
pub open spec fn in_progress_record(user_id: u128, key: Seq<char>) -> RecordView {
    RecordView { user_id, key, response: None }
}

/// The completed record for `(user_id, key)` holding `response`.
pub open spec fn completed_record(user_id: u128, key: Seq<char>, response: ResponseView) -> RecordView {
    RecordView { user_id, key, response: Some(response) }
}

/// If no record matches `(user_id, key)`, the lookup finds nothing.
pub proof fn lemma_lookup_none(s: Seq<RecordView>, user_id: u128, key: Seq<char>)
    requires
        forall|i: int| 0 <= i < s.len() ==> !(s[i].user_id == user_id && s[i].key == key),
    ensures
        lookup(s, user_id, key) is None,
    decreases s.len(),
{
    if s.len() > 0 {
        lemma_lookup_none(s.drop_first(), user_id, key);
    }
}

/// With distinct keys, the lookup finds exactly the record at the matching
/// index.
pub proof fn lemma_lookup_at_match(s: Seq<RecordView>, user_id: u128, key: Seq<char>, i: int)
    requires
        distinct_keys(s),
        0 <= i < s.len(),
        s[i].user_id == user_id,
        s[i].key == key,
    ensures
        lookup(s, user_id, key) == Some(s[i].response),
    decreases s.len(),
{
    if i > 0 {
        assert(distinct_keys(s.drop_first())) by {
            assert(forall|p: int, q: int|
                0 <= p < q < s.drop_first().len() ==> s.drop_first()[p] == s[p + 1]
                    && s.drop_first()[q] == s[q + 1]);
        }
        lemma_lookup_at_match(s.drop_first(), user_id, key, i - 1);
    }
}

/// Appending a record for a pair that is absent makes the lookup find it;
/// lookups of other pairs are unchanged.
pub proof fn lemma_lookup_push(s: Seq<RecordView>, r: RecordView, user_id: u128, key: Seq<char>)
    ensures
        lookup(s, user_id, key) is Some ==> lookup(s.push(r), user_id, key) == lookup(
            s,
            user_id,
            key,
        ),
        lookup(s, user_id, key) is None && r.user_id == user_id && r.key == key ==> lookup(
            s.push(r),
            user_id,
            key,
        ) == Some(r.response),
        lookup(s, user_id, key) is None && !(r.user_id == user_id && r.key == key) ==> lookup(
            s.push(r),
            user_id,
            key,
        ) is None,
    decreases s.len(),
{
    if s.len() > 0 {
        if !(s[0].user_id == user_id && s[0].key == key) {
            assert(s.push(r)[0] == s[0]);
            assert(s.push(r).drop_first() =~= s.drop_first().push(r));
            lemma_lookup_push(s.drop_first(), r, user_id, key);
        } else {
            assert(s.push(r)[0] == s[0]);
        }
    } else {
        assert(s.push(r)[0] == r);
        assert(s.push(r).drop_first() =~= Seq::<RecordView>::empty());
        assert(lookup(Seq::<RecordView>::empty(), user_id, key) is None);
    }
}

/// Whether to start processing the action or replay the already-saved
/// response.
pub enum NextAction {
    /// The key was claimed: the caller must perform the side effects and
    /// finish with [`IdempotencyStore::save_response`].
    StartProcessing,
    /// A completed record exists: the caller must return this saved
    /// response verbatim and perform no side effect.
    ReturnSavedResponse(SavedHttpResponse),
}

/// Durable mapping from `(user_id, idempotency_key)` to a previously
/// computed HTTP response, with in-progress placeholders preventing
/// concurrent duplicate processing.
pub struct IdempotencyStore {
    records: Vec<IdempotencyRecord>,
}

impl View for IdempotencyStore {
    type V = Seq<RecordView>;

    closed spec fn view(&self) -> Seq<RecordView> {
        self.records@.map_values(|r: IdempotencyRecord| r@)
    }
}

impl IdempotencyStore {
    /// Every record keyed by a valid key, no two records sharing a pair.
    pub open spec fn wf(&self) -> bool {
        distinct_keys(self@)
    }

    /// An empty store: no attempt has ever been made for any pair.
    pub fn new() -> (r: IdempotencyStore)
        ensures
            r@ =~= Seq::<RecordView>::empty(),
            r.wf(),
    {
        IdempotencyStore { records: Vec::new() }
    }

    /// The number of records, in-progress placeholders included.
    pub fn len(&self) -> (r: usize)
        ensures
            r == self@.len(),
    {
        self.records.len()
    }

    /// The index of the record for `(user_id, key)`, if one exists.
    fn find_index(&self, user_id: u128, key: &String) -> (r: Option<usize>)
        ensures
            r matches Some(i) ==> i < self@.len() && self@[i as int].user_id == user_id
                && self@[i as int].key == key@,
            r is None ==> forall|i: int|
                0 <= i < self@.len() ==> !(self@[i].user_id == user_id && self@[i].key == key@),
    {
        let n = self.records.len();
        for i in 0..n
            invariant
                n == self@.len(),
                forall|j: int|
                    0 <= j < i ==> !(self@[j].user_id == user_id && self@[j].key == key@),
        {
            if self.records[i].user_id == user_id && self.records[i].key == *key {
                return Some(i);
            }
        }
        None
    }

    /// Claims `(user_id, key)` by inserting the in-progress placeholder if
    /// the pair is absent ("insert if absent"); otherwise reports the
    /// completed response for replay, or — if the record is still in
    /// progress — a retryable internal error, never success.
    pub fn try_processing(&mut self, user_id: u128, key: &IdempotencyKey) -> (r: Result<
        NextAction,
        HandlerError,
    >)
        requires
            old(self).wf(),
        ensures
            final(self).wf(),
            match lookup(old(self)@, user_id, key@) {
                Option::None => (r matches Ok(NextAction::StartProcessing)) && final(self)@
                    == old(self)@.push(in_progress_record(user_id, key@)),
                Option::Some(Option::Some(resp)) => (r matches Ok(
                    NextAction::ReturnSavedResponse(saved),
                ) && saved@ == resp) && final(self)@ == old(self)@,
                Option::Some(Option::None) => (r matches Err(HandlerError::Internal(_)))
                    && final(self)@ == old(self)@,
            },
    {
        let ghost pre = self@;
        match self.find_index(user_id, key.as_string()) {
            None => {
                proof {
                    lemma_lookup_none(pre, user_id, key@);
                }
                let record = IdempotencyRecord {
                    user_id,
                    key: key.as_string().clone(),
                    response: None,
                };
                self.records.push(record);
                proof {
                    assert(self@ =~= pre.push(in_progress_record(user_id, key@)));
                }
                Ok(NextAction::StartProcessing)
            },
            Some(i) => {
                proof {
                    lemma_lookup_at_match(pre, user_id, key@, i as int);
                }
                match &self.records[i].response {
                    Some(saved) => Ok(NextAction::ReturnSavedResponse(saved.duplicate())),
                    None => Err(
                        HandlerError::Internal(
                            String::from_str(
                                "a concurrent request holds this idempotency key; try again",
                            ),
                        ),
                    ),
                }
            },
        }
    }

    /// Completes the in-progress record for `(user_id, key)` with the
    /// response, making the side effects and the response-cache entry
    /// atomic; fails — changing nothing — unless the pair was claimed and
    /// not yet completed.
    pub fn save_response(&mut self, user_id: u128, key: &IdempotencyKey, response: SavedHttpResponse) -> (r:
        Result<SavedHttpResponse, HandlerError>)
        requires
            old(self).wf(),
        ensures
            final(self).wf(),
            match lookup(old(self)@, user_id, key@) {
                Option::Some(Option::None) => (r matches Ok(returned) && returned@
                    == response@) && exists|i: int|
                    0 <= i < old(self)@.len() && old(self)@[i] == in_progress_record(user_id, key@)
                        && final(self)@ == old(self)@.update(
                        i,
                        completed_record(user_id, key@, response@),
                    ),
                _ => (r matches Err(HandlerError::Internal(_))) && final(self)@ == old(self)@,
            },
            lookup(old(self)@, user_id, key@) == Some(Option::<ResponseView>::None) ==> lookup(
                final(self)@,
                user_id,
                key@,
            ) == Some(Some(response@)),
    {
        let ghost pre = self@;
        match self.find_index(user_id, key.as_string()) {
            None => {
                proof {
                    lemma_lookup_none(pre, user_id, key@);
                }
                Err(
                    HandlerError::Internal(
                        String::from_str("no in-progress record to complete for this key"),
                    ),
                )
            },
            Some(i) => {
                proof {
                    lemma_lookup_at_match(pre, user_id, key@, i as int);
                }
                if self.records[i].response.is_some() {
                    return Err(
                        HandlerError::Internal(
                            String::from_str("this idempotency key was already completed"),
                        ),
                    );
                }
                let stored = response.duplicate();
                let record = IdempotencyRecord {
                    user_id,
                    key: key.as_string().clone(),
                    response: Some(stored),
                };
                self.records.set(i, record);
                proof {
                    assert(self@ =~= pre.update(
                        i as int,
                        completed_record(user_id, key@, response@),
                    ));
                    assert(final(self).wf()) by {
                        assert(forall|p: int, q: int|
                            0 <= p < q < self@.len() ==> (self@[p].user_id == pre[p].user_id
                                && self@[p].key == pre[p].key && self@[q].user_id == pre[q].user_id
                                && self@[q].key == pre[q].key));
                    }
                    lemma_lookup_at_match(self@, user_id, key@, i as int);
                }
                Ok(response)
            },
        }
    }

    /// Rolls the in-progress claim on `(user_id, key)` back, as the
    /// surrounding transaction's rollback does when an error strikes
    /// mid-transaction: the placeholder row is gone again.
    pub fn rollback_processing(&mut self, user_id: u128, key: &IdempotencyKey)
        requires
            old(self).wf(),
            lookup(old(self)@, user_id, key@) == Some(Option::<ResponseView>::None),
        ensures
            final(self).wf(),
            exists|i: int|
                0 <= i < old(self)@.len() && old(self)@[i] == in_progress_record(user_id, key@)
                    && final(self)@ == old(self)@.remove(i),
    {
        let ghost pre = self@;
        match self.find_index(user_id, key.as_string()) {
            None => {
                proof {
                    lemma_lookup_none(pre, user_id, key@);
                    assert(false);
                }
            },
            Some(i) => {
                proof {
                    lemma_lookup_at_match(pre, user_id, key@, i as int);
                }
                let _ = self.records.remove(i);
                proof {
                    assert(self@ =~= pre.remove(i as int));
                    assert(pre[i as int] == in_progress_record(user_id, key@));
                    assert(forall|p: int|
                        0 <= p < self@.len() ==> #[trigger] self@[p] == (if p < i as int {
                            pre[p]
                        } else {
                            pre[p + 1]
                        }));
                }
            },
        }
    }

    /// The saved response for `(user_id, key)`, if the pair has completed.
    pub fn get_saved_response(&self, user_id: u128, key: &IdempotencyKey) -> (r: Option<
        SavedHttpResponse,
    >)
        requires
            self.wf(),
        ensures
            match lookup(self@, user_id, key@) {
                Option::Some(Option::Some(resp)) => r matches Some(saved) && saved@ == resp,
                _ => r is None,
            },
    {
        match self.find_index(user_id, key.as_string()) {
            None => {
                proof {
                    lemma_lookup_none(self@, user_id, key@);
                }
                None
            },
            Some(i) => {
                proof {
                    lemma_lookup_at_match(self@, user_id, key@, i as int);
                }
                match &self.records[i].response {
                    Some(saved) => Some(saved.duplicate()),
                    None => None,
                }
            },
        }
    }
}

} // verus!
