//! The newsletter publish orchestrator.
//!
//! Given an authenticated user, a title/text/html payload and an
//! idempotency key, it validates the key before any other work, claims the
//! key, inserts the issue, enqueues one delivery task per confirmed
//! subscriber and saves the canonical success response — one atomic step
//! against the durable state, so a failure commits nothing. The actual
//! transmission is decoupled: the handler's job ends at "durably queued".

use vstd::prelude::*;
use crate::HandlerError;
use crate::SavedHttpResponse;
use crate::delivery::DeliveryQueue;
use crate::delivery::TaskView;
use crate::delivery::delivery_batch;
use crate::delivery::issue_queued;
use crate::delivery::lemma_confirmed_emails_distinct;
use crate::delivery::lemma_wf_after_batch;
use crate::delivery::task_keys_distinct;
use crate::idempotency::IdempotencyKey;
use crate::idempotency::IdempotencyStore;
use crate::idempotency::NextAction;
use crate::idempotency::RecordView;
use crate::idempotency::completed_record;
use crate::idempotency::distinct_keys;
use crate::idempotency::in_progress_record;
use crate::idempotency::lemma_lookup_at_match;
use crate::idempotency::lemma_lookup_push;
use crate::idempotency::lookup;
use crate::issues::IssueStore;
use crate::issues::IssueView;
use crate::issues::issue_id_taken;
use crate::response::ResponseView;
use crate::response::see_other_with_flash;
use crate::response::see_other_with_flash_view;
use crate::runtime::fresh_id;
use crate::runtime::now_timestamp;
use crate::subscriptions::DirectoryView;
use crate::subscriptions::SubscriberStore;
use crate::subscriptions::confirmed_emails;

verus! {

/// The fields of the publish form, as the HTTP layer hands them over.
pub struct FormData {
    pub title: String,
    pub text_content: String,
    pub html_content: String,
    pub idempotency_key: String,
}

/// Mathematical view of the service's whole durable state.
#[verifier::ext_equal]
pub struct StoreView {
    pub idempotency: Seq<RecordView>,
    pub issues: Seq<IssueView>,
    pub tasks: Seq<TaskView>,
    pub directory: DirectoryView,
}

/// The service's durable state: idempotency records, published issues,
/// the delivery queue and the subscriber directory — one database, so the
/// orchestrator's step over it is atomic.
pub struct ServiceStore {
    pub idempotency: IdempotencyStore,
    pub issues: IssueStore,
    pub queue: DeliveryQueue,
    pub subscribers: SubscriberStore,
}

impl View for ServiceStore {
    type V = StoreView;

    open spec fn view(&self) -> StoreView {
        StoreView {
            idempotency: self.idempotency@,
            issues: self.issues@,
            tasks: self.queue@,
            directory: self.subscribers@,
        }
    }
}

impl ServiceStore {
    /// Every component store well formed, and every queued task belonging
    /// to a published issue.
    pub open spec fn wf(&self) -> bool {
        &&& self.idempotency.wf()
        &&& self.issues.wf()
        &&& self.queue.wf()
        &&& self.subscribers.wf()
        &&& forall|i: int|
            0 <= i < self@.tasks.len() ==> issue_id_taken(
                self@.issues,
                #[trigger] self@.tasks[i].issue_id,
            )
    }

    /// An empty service state.
    pub fn new() -> (r: ServiceStore)
        ensures
            r.wf(),
            r@.idempotency =~= Seq::<RecordView>::empty(),
            r@.issues =~= Seq::<IssueView>::empty(),
            r@.tasks =~= Seq::<TaskView>::empty(),
            r@.directory.subscribers.len() == 0,
            r@.directory.tokens.len() == 0,
    {
        ServiceStore {
            idempotency: IdempotencyStore::new(),
            issues: IssueStore::new(),
            queue: DeliveryQueue::new(),
            subscribers: SubscriberStore::new(),
        }
    }
}

/// The one-shot notification a successful publish emits; a replayed
/// response already encodes it, so it is never emitted twice.
pub fn success_message() -> (r: String)
    ensures
        r@ == "The newsletter issue has been published!"@,
{
    String::from_str("The newsletter issue has been published!")
}

/// The view of the canonical success response: a redirect back to the
/// publish page carrying the one-shot notification.
pub open spec fn success_response_view() -> ResponseView {
    see_other_with_flash_view(
        "/admin/newsletters"@,
        "The newsletter issue has been published!"@,
    )
}

/// The durable state after a fresh (first-time) publish commits: the key's
/// record completed with the canonical response, the issue row added, and
/// one delivery task per confirmed subscriber appended — all together.
pub open spec fn apply_publish(
    pre: StoreView,
    user_id: u128,
    title: Seq<char>,
    text_content: Seq<char>,
    html_content: Seq<char>,
    key: Seq<char>,
    issue_id: u128,
    published_at: i64,
) -> StoreView {
    StoreView {
        idempotency: pre.idempotency.push(
            completed_record(user_id, key, success_response_view()),
        ),
        issues: pre.issues.push(
            (IssueView { id: issue_id, title, text_content, html_content, published_at }),
        ),
        tasks: pre.tasks + delivery_batch(issue_id, confirmed_emails(pre.directory.subscribers)),
        directory: pre.directory,
    }
}

/// How a publish attempt ended, seen mathematically.
pub enum PublishOutcome {
    /// A response was produced — fresh or replayed, the caller cannot tell.
    Response(ResponseView),
    /// The key was rejected before any side effect: a 400-class answer.
    Rejected,
    /// The action could not be completed and nothing was committed: a
    /// retryable 500-class answer.
    Unavailable,
}

/// The outcome a handler result denotes.
pub open spec fn outcome_of(r: Result<SavedHttpResponse, HandlerError>) -> PublishOutcome {
    match r {
        Ok(resp) => PublishOutcome::Response(resp@),
        Err(HandlerError::BadRequest(_)) => PublishOutcome::Rejected,
        Err(HandlerError::Internal(_)) => PublishOutcome::Unavailable,
    }
}

/// Everything a publish attempt may do to the durable state, by the state
/// of the `(user, key)` record beforehand: an invalid key is rejected with
/// nothing touched; a completed record is replayed verbatim with nothing
/// touched; an in-progress record is a retryable failure with nothing
/// touched; an absent record either commits the whole fresh publish in one
/// step or fails with nothing committed.
pub open spec fn publish_post(
    pre: StoreView,
    post: StoreView,
    user_id: u128,
    title: Seq<char>,
    text_content: Seq<char>,
    html_content: Seq<char>,
    key: Seq<char>,
    out: PublishOutcome,
) -> bool {
    if !IdempotencyKey::spec_valid(key) {
        out is Rejected && post == pre
    } else {
        match lookup(pre.idempotency, user_id, key) {
            Option::Some(Option::Some(resp)) => out == PublishOutcome::Response(resp) && post
                == pre,
            Option::Some(Option::None) => out is Unavailable && post == pre,
            Option::None => (out is Unavailable && post == pre) || (out
                == PublishOutcome::Response(success_response_view()) && exists|
                issue_id: u128,
                published_at: i64,
            |
                !issue_id_taken(pre.issues, issue_id) && !issue_queued(pre.tasks, issue_id)
                    && post == #[trigger] apply_publish(
                    pre,
                    user_id,
                    title,
                    text_content,
                    html_content,
                    key,
                    issue_id,
                    published_at,
                )),
        }
    }
}

/// The publish orchestration with the issue's identifier and timestamp
/// fixed by the caller. Success is owed whenever the key is valid and
/// fresh and the identifier collides with nothing.
pub fn publish_newsletter_with_parts(
    store: &mut ServiceStore,
    user_id: u128,
    form: FormData,
    issue_id: u128,
    published_at: i64,
) -> (r: Result<SavedHttpResponse, HandlerError>)
    requires
        old(store).wf(),
    ensures
        final(store).wf(),
        publish_post(
            old(store)@,
            final(store)@,
            user_id,
            form.title@,
            form.text_content@,
            form.html_content@,
            form.idempotency_key@,
            outcome_of(r),
        ),
        !IdempotencyKey::spec_valid(form.idempotency_key@) ==> r matches Err(
            HandlerError::BadRequest(_),
        ),
        IdempotencyKey::spec_valid(form.idempotency_key@) && lookup(
            old(store)@.idempotency,
            user_id,
            form.idempotency_key@,
        ) is None ==> (r is Ok <==> !issue_id_taken(old(store)@.issues, issue_id) && !issue_queued(
            old(store)@.tasks,
            issue_id,
        )),
        IdempotencyKey::spec_valid(form.idempotency_key@) && lookup(
            old(store)@.idempotency,
            user_id,
            form.idempotency_key@,
        ) is None && r is Ok ==> final(store)@ == apply_publish(
            old(store)@,
            user_id,
            form.title@,
            form.text_content@,
            form.html_content@,
            form.idempotency_key@,
            issue_id,
            published_at,
        ),
{
    let ghost pre = store@;
    let key = match IdempotencyKey::parse(form.idempotency_key) {
        Err(_) => {
            return Err(
                HandlerError::BadRequest(
                    String::from_str("the idempotency key must have 1 to 50 characters"),
                ),
            );
        },
        Ok(k) => k,
    };
    match store.idempotency.try_processing(user_id, &key) {
        Err(e) => Err(e),
        Ok(NextAction::ReturnSavedResponse(saved)) => Ok(saved),
        Ok(NextAction::StartProcessing) => {
            proof {
                assert forall|p: int|
                    0 <= p < pre.idempotency.len() implies !(pre.idempotency[p].user_id == user_id
                    && pre.idempotency[p].key == key@) by {
                    if pre.idempotency[p].user_id == user_id && pre.idempotency[p].key == key@ {
                        lemma_lookup_at_match(pre.idempotency, user_id, key@, p);
                    }
                };
                lemma_lookup_push(
                    pre.idempotency,
                    in_progress_record(user_id, key@),
                    user_id,
                    key@,
                );
            }
            if store.issues.id_exists(issue_id) || store.queue.issue_exists(issue_id) {
                // The freshly drawn identifier collided with a stored row:
                // the claim is not completed and the whole step is undone,
                // as the surrounding transaction's rollback would do it.
                store.idempotency.rollback_processing(user_id, &key);
                proof {
                    assert(store@ =~= pre);
                }
                return Err(
                    HandlerError::Internal(
                        String::from_str("could not assign an identifier to the issue"),
                    ),
                );
            }
            let issue_result = store.issues.insert_newsletter_issue(
                issue_id,
                &form.title,
                &form.text_content,
                &form.html_content,
                published_at,
            );
            // Unreachable: the identifier was just checked to be fresh.
            if issue_result.is_err() {
                store.idempotency.rollback_processing(user_id, &key);
                return Err(
                    HandlerError::Internal(
                        String::from_str("could not assign an identifier to the issue"),
                    ),
                );
            }
            store.queue.enqueue_delivery_tasks(issue_id, &store.subscribers);
            let msg = success_message();
            let response = see_other_with_flash("/admin/newsletters", msg.as_str());
            match store.idempotency.save_response(user_id, &key, response) {
                Err(_) => {
                    // Unreachable: the in-progress record created above is
                    // still in place, so saving cannot fail.
                    proof {
                        assert(false);
                    }
                    Err(
                        HandlerError::Internal(
                            String::from_str("could not save the response for this key"),
                        ),
                    )
                },
                Ok(saved) => {
                    proof {
                        let claimed = pre.idempotency.push(in_progress_record(user_id, key@));
                        let i = choose|i: int|
                            0 <= i < claimed.len() && claimed[i] == in_progress_record(
                                user_id,
                                key@,
                            ) && store@.idempotency == claimed.update(
                                i,
                                completed_record(user_id, key@, response@),
                            );
                        assert(claimed[pre.idempotency.len() as int] == in_progress_record(
                            user_id,
                            key@,
                        ));
                        if i < pre.idempotency.len() {
                            assert(pre.idempotency[i] == in_progress_record(user_id, key@));
                            assert(false);
                        }
                        assert(store@.idempotency =~= pre.idempotency.push(
                            completed_record(user_id, key@, success_response_view()),
                        ));
                        assert(store@ =~= apply_publish(
                            pre,
                            user_id,
                            form.title@,
                            form.text_content@,
                            form.html_content@,
                            key@,
                            issue_id,
                            published_at,
                        ));
                        assert(issue_id_taken(store@.issues, issue_id)) by {
                            assert(store@.issues[store@.issues.len() - 1].id == issue_id);
                        }
                        lemma_cross_after_publish(
                            pre.tasks,
                            store@.tasks,
                            pre.issues,
                            store@.issues,
                            issue_id,
                            confirmed_emails(pre.directory.subscribers),
                        );
                        assert(store.wf());
                    }
                    Ok(saved)
                },
            }
        },
    }
}

/// The cross-store invariant holds again after a fresh publish: the old
/// tasks' issues are still published, and the new tasks' issue was just
/// inserted.
proof fn lemma_cross_after_publish(
    pre_tasks: Seq<TaskView>,
    post_tasks: Seq<TaskView>,
    pre_issues: Seq<IssueView>,
    post_issues: Seq<IssueView>,
    issue_id: u128,
    emails: Seq<Seq<char>>,
)
    requires
        forall|i: int|
            0 <= i < pre_tasks.len() ==> issue_id_taken(
                pre_issues,
                #[trigger] pre_tasks[i].issue_id,
            ),
        post_tasks == pre_tasks + delivery_batch(issue_id, emails),
        issue_id_taken(post_issues, issue_id),
        pre_issues.len() <= post_issues.len(),
        forall|q: int| 0 <= q < pre_issues.len() ==> #[trigger] post_issues[q] == pre_issues[q],
    ensures
        forall|i: int|
            0 <= i < post_tasks.len() ==> issue_id_taken(
                post_issues,
                #[trigger] post_tasks[i].issue_id,
            ),
{
    assert forall|i: int| 0 <= i < post_tasks.len() implies issue_id_taken(
        post_issues,
        #[trigger] post_tasks[i].issue_id,
    ) by {
        if i < pre_tasks.len() {
            assert(issue_id_taken(pre_issues, pre_tasks[i].issue_id));
            let q = choose|q: int|
                0 <= q < pre_issues.len() && pre_issues[q].id == pre_tasks[i].issue_id;
            assert(post_issues[q].id == post_tasks[i].issue_id);
        } else {
            assert(post_tasks[i].issue_id == issue_id);
        }
    };
}

/// Orchestrates a publish as the admin form handler does: validates the
/// key before any database access, draws the issue's identifier and
/// timestamp, and commits claim, issue, task batch and saved response in
/// one step — or commits nothing.
pub fn publish_newsletter(store: &mut ServiceStore, user_id: u128, form: FormData) -> (r: Result<
    SavedHttpResponse,
    HandlerError,
>)
    requires
        old(store).wf(),
    ensures
        final(store).wf(),
        publish_post(
            old(store)@,
            final(store)@,
            user_id,
            form.title@,
            form.text_content@,
            form.html_content@,
            form.idempotency_key@,
            outcome_of(r),
        ),
        !IdempotencyKey::spec_valid(form.idempotency_key@) ==> r matches Err(
            HandlerError::BadRequest(_),
        ),
{
    let issue_id = fresh_id();
    let published_at = now_timestamp();
    publish_newsletter_with_parts(store, user_id, form, issue_id, published_at)
}

/// Law: submitting the same valid publish request twice results in
/// exactly one newsletter issue and one delivery-task set, and the second
/// response is byte-identical to the first — status, header order and body
/// alike. `s0 -> s1` is the first call's step (it produced `r1`),
/// `s1 -> s2` the second call's.
pub proof fn lemma_publish_is_idempotent(
    s0: StoreView,
    s1: StoreView,
    s2: StoreView,
    user_id: u128,
    title: Seq<char>,
    text_content: Seq<char>,
    html_content: Seq<char>,
    key: Seq<char>,
    r1: ResponseView,
    out2: PublishOutcome,
)
    requires
        distinct_keys(s0.idempotency),
        lookup(s0.idempotency, user_id, key) is None,
        publish_post(
            s0,
            s1,
            user_id,
            title,
            text_content,
            html_content,
            key,
            PublishOutcome::Response(r1),
        ),
        publish_post(s1, s2, user_id, title, text_content, html_content, key, out2),
    ensures
        out2 == PublishOutcome::Response(r1),
        s2 == s1,
        s1.issues.len() == s0.issues.len() + 1,
        s1.tasks.len() == s0.tasks.len() + confirmed_emails(s0.directory.subscribers).len(),
{
    assert(IdempotencyKey::spec_valid(key));
    let (issue_id, published_at) = choose|issue_id: u128, published_at: i64|
        !issue_id_taken(s0.issues, issue_id) && !issue_queued(s0.tasks, issue_id) && s1
            == #[trigger] apply_publish(
            s0,
            user_id,
            title,
            text_content,
            html_content,
            key,
            issue_id,
            published_at,
        );
    assert(r1 == success_response_view());
    lemma_lookup_push(
        s0.idempotency,
        completed_record(user_id, key, success_response_view()),
        user_id,
        key,
    );
    assert(lookup(s1.idempotency, user_id, key) == Some(Some(success_response_view())));
}

/// Law: of two publish calls with the same key, at most one performs the
/// enqueue. A call that finds the key already claimed or completed changes
/// nothing — in particular it adds no delivery task, so no email is ever
/// sent twice for one key — and a completed record is replayed verbatim.
pub proof fn lemma_duplicate_publish_never_enqueues(
    pre: StoreView,
    post: StoreView,
    user_id: u128,
    title: Seq<char>,
    text_content: Seq<char>,
    html_content: Seq<char>,
    key: Seq<char>,
    out: PublishOutcome,
)
    requires
        IdempotencyKey::spec_valid(key),
        lookup(pre.idempotency, user_id, key) is Some,
        publish_post(pre, post, user_id, title, text_content, html_content, key, out),
    ensures
        post == pre,
        post.tasks == pre.tasks,
        lookup(pre.idempotency, user_id, key) matches Some(Some(resp)) ==> out
            == PublishOutcome::Response(resp),
        lookup(pre.idempotency, user_id, key) == Some(Option::<ResponseView>::None) ==> out
            is Unavailable,
{
}

/// Law: a fresh publish enqueues exactly one delivery task per confirmed
/// subscriber — as many tasks as there are confirmed subscribers, in row
/// order, all for the new issue, earlier tasks untouched, and no duplicate
/// `(issue, recipient)` pair anywhere.
pub proof fn lemma_publish_enqueues_one_task_per_confirmed_subscriber(
    pre: StoreView,
    post: StoreView,
    user_id: u128,
    title: Seq<char>,
    text_content: Seq<char>,
    html_content: Seq<char>,
    key: Seq<char>,
    issue_id: u128,
    published_at: i64,
)
    requires
        task_keys_distinct(pre.tasks),
        crate::delivery::failures_bounded(pre.tasks),
        forall|i: int, j: int|
            0 <= i < j < pre.directory.subscribers.len() ==> pre.directory.subscribers[i].email
                != pre.directory.subscribers[j].email,
        !issue_queued(pre.tasks, issue_id),
        post == apply_publish(
            pre,
            user_id,
            title,
            text_content,
            html_content,
            key,
            issue_id,
            published_at,
        ),
    ensures
        post.tasks.len() == pre.tasks.len() + confirmed_emails(pre.directory.subscribers).len(),
        forall|k: int| #![trigger confirmed_emails(pre.directory.subscribers)[k]]
            0 <= k < confirmed_emails(pre.directory.subscribers).len() ==> post.tasks[pre.tasks.len() + k].issue_id
                == issue_id && post.tasks[pre.tasks.len() + k].email == confirmed_emails(
                pre.directory.subscribers,
            )[k] && post.tasks[pre.tasks.len() + k].n_failures == 0,
        forall|k: int| 0 <= k < pre.tasks.len() ==> #[trigger] post.tasks[k] == pre.tasks[k],
        task_keys_distinct(post.tasks),
{
    lemma_confirmed_emails_distinct(pre.directory.subscribers);
    lemma_wf_after_batch(pre.tasks, issue_id, confirmed_emails(pre.directory.subscribers));
}

} // verus!
