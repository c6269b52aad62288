//! The durable delivery queue and the dispatch worker's decisions.
//!
//! A publish turns into one pending task per confirmed subscriber; a worker
//! claims one task at a time (claims skip rows already claimed by a
//! concurrent worker), attempts delivery through the email transport, and
//! records success or failure without blocking other recipients. A task
//! that keeps failing is retried up to [`RETRY_CEILING`] attempts in all
//! and then dead-lettered — removed and reported, never retried forever and
//! never silently lost.

use vstd::prelude::*;
use vstd::pervasive::VecAdditionalExecFns;
use crate::subscriptions::SubscriberStore;
use crate::subscriptions::confirmed_emails;

verus! {

/// How many delivery attempts a task is granted before it is
/// dead-lettered.
pub const RETRY_CEILING: u32 = 3;

/// Mathematical view of one delivery task.
pub struct TaskView {
    pub issue_id: u128,
    pub email: Seq<char>,
    pub n_failures: u32,
    pub leased: bool,
}

/// One `(issue, recipient)` pair awaiting send. `n_failures` counts failed
/// attempts so far; `leased` marks a task currently claimed by a worker,
/// so concurrent workers skip it.
pub struct DeliveryTask {
    pub issue_id: u128,
    pub email: String,
    pub n_failures: u32,
    pub leased: bool,
}

impl View for DeliveryTask {
    type V = TaskView;

    open spec fn view(&self) -> TaskView {
        TaskView {
            issue_id: self.issue_id,
            email: self.email@,
            n_failures: self.n_failures,
            leased: self.leased,
        }
    }
}

/// No two tasks share an `(issue, recipient)` pair: a given issue is never
/// double-enqueued for the same recipient.
pub open spec fn task_keys_distinct(s: Seq<TaskView>) -> bool {
    forall|i: int, j: int|
        0 <= i < j < s.len() ==> !(s[i].issue_id == s[j].issue_id && s[i].email == s[j].email)
}

/// Every pending task still has attempts left: a task whose failure count
/// reaches the ceiling is removed, never kept.
pub open spec fn failures_bounded(s: Seq<TaskView>) -> bool {
    forall|i: int| 0 <= i < s.len() ==> s[i].n_failures < RETRY_CEILING
}

/// Whether any task of this issue is queued.
pub open spec fn issue_queued(s: Seq<TaskView>, issue_id: u128) -> bool {
    exists|i: int| 0 <= i < s.len() && s[i].issue_id == issue_id
}

/// Whether the task for `(issue_id, email)` is queued.
pub open spec fn task_present(s: Seq<TaskView>, issue_id: u128, email: Seq<char>) -> bool {
    exists|i: int| 0 <= i < s.len() && s[i].issue_id == issue_id && s[i].email == email
}

/// The failure count of the task for `(issue_id, email)`.
pub open spec fn task_failures(s: Seq<TaskView>, issue_id: u128, email: Seq<char>) -> u32 {
    let i = choose|i: int| 0 <= i < s.len() && s[i].issue_id == issue_id && s[i].email == email;
    s[i].n_failures
}

/// The fresh batch of tasks a publish enqueues: one per email, in order.
pub open spec fn delivery_batch(issue_id: u128, emails: Seq<Seq<char>>) -> Seq<TaskView> {
    emails.map_values(
        |e: Seq<char>| TaskView { issue_id, email: e, n_failures: 0, leased: false },
    )
}

/// What recording a failed attempt does: the task at `i` is dead-lettered
/// (removed) once this failure exhausts its attempts, and otherwise kept
/// with its counter advanced and its lease released.
pub open spec fn failure_transition(
    pre: Seq<TaskView>,
    post: Seq<TaskView>,
    i: int,
    dead: bool,
) -> bool {
    &&& 0 <= i < pre.len()
    &&& if pre[i].n_failures + 1 >= RETRY_CEILING {
        dead && post == pre.remove(i)
    } else {
        !dead && post == pre.update(
            i,
            (TaskView {
                n_failures: (pre[i].n_failures + 1) as u32,
                leased: false,
                ..pre[i]
            }),
        )
    }
}

/// What claiming a task does: the first task not already claimed is
/// marked claimed, and nothing else moves — the model of a row-level lock
/// that concurrent workers skip.
pub open spec fn claim_transition(pre: Seq<TaskView>, post: Seq<TaskView>, i: int) -> bool {
    &&& 0 <= i < pre.len()
    &&& !pre[i].leased
    &&& forall|j: int| 0 <= j < i ==> pre[j].leased
    &&& post == pre.update(i, (TaskView { leased: true, ..pre[i] }))
}

/// The durable work table of `(issue, recipient)` pairs awaiting send.
pub struct DeliveryQueue {
    tasks: Vec<DeliveryTask>,
}

impl View for DeliveryQueue {
    type V = Seq<TaskView>;

    closed spec fn view(&self) -> Seq<TaskView> {
        self.tasks@.map_values(|t: DeliveryTask| t@)
    }
}

impl DeliveryQueue {
    /// Pairs unique and failure counts under the ceiling.
    pub open spec fn wf(&self) -> bool {
        task_keys_distinct(self@) && failures_bounded(self@)
    }

    /// An empty queue.
    pub fn new() -> (r: DeliveryQueue)
        ensures
            r@ =~= Seq::<TaskView>::empty(),
            r.wf(),
    {
        DeliveryQueue { tasks: Vec::new() }
    }

    /// The number of queued tasks.
    pub fn len(&self) -> (r: usize)
        ensures
            r == self@.len(),
    {
        self.tasks.len()
    }

    /// The task at `i`.
    pub fn task(&self, i: usize) -> (r: &DeliveryTask)
        requires
            i < self@.len(),
        ensures
            r@ == self@[i as int],
    {
        &self.tasks[i]
    }

    /// Whether any task of this issue is queued.
    pub fn issue_exists(&self, issue_id: u128) -> (r: bool)
        ensures
            r == issue_queued(self@, issue_id),
    {
        let n = self.tasks.len();
        let mut found = false;
        for i in 0..n
            invariant
                n == self@.len(),
                found == (exists|j: int| 0 <= j < i && self@[j].issue_id == issue_id),
        {
            if self.tasks[i].issue_id == issue_id {
                found = true;
                proof {
                    assert(exists|j: int| 0 <= j < i + 1 && self@[j].issue_id == issue_id) by {
                        assert(self@[i as int].issue_id == issue_id);
                    }
                }
            }
        }
        found
    }

    /// Enqueues one pending task per confirmed subscriber for a
    /// not-yet-queued issue, in one step with the caller's transaction:
    /// exactly one task per confirmed subscriber, no duplicates.
    pub fn enqueue_delivery_tasks(&mut self, issue_id: u128, subscribers: &SubscriberStore)
        requires
            old(self).wf(),
            subscribers.wf(),
            !issue_queued(old(self)@, issue_id),
        ensures
            final(self).wf(),
            final(self)@ == old(self)@ + delivery_batch(
                issue_id,
                confirmed_emails(subscribers@.subscribers),
            ),
    {
        let ghost pre = self@;
        let ghost rows = subscribers@.subscribers;
        let n = subscribers.count();
        for i in 0..n
            invariant
                n == rows.len(),
                rows == subscribers@.subscribers,
                subscribers.wf(),
                !issue_queued(pre, issue_id),
                task_keys_distinct(pre) && failures_bounded(pre),
                self@ == pre + delivery_batch(
                    issue_id,
                    confirmed_emails(rows.subrange(0, i as int)),
                ),
                self.wf(),
        {
            let ghost prefix = rows.subrange(0, i as int);
            let ghost next = rows.subrange(0, i as int + 1);
            proof {
                assert(next.drop_last() =~= prefix);
                assert(next.last() == rows[i as int]);
            }
            let row = subscribers.get(i);
            if matches!(row.status, crate::subscriptions::SubscriberStatus::Confirmed) {
                let task = DeliveryTask {
                    issue_id,
                    email: row.email.clone(),
                    n_failures: 0,
                    leased: false,
                };
                let ghost before = self@;
                let ghost task_view = task@;
                self.tasks.push(task);
                proof {
                    assert(self@ =~= before.push(task_view));
                    let batch_next = delivery_batch(issue_id, confirmed_emails(next));
                    assert(confirmed_emails(next) == confirmed_emails(prefix).push(
                        rows[i as int].email,
                    ));
                    assert(batch_next =~= delivery_batch(
                        issue_id,
                        confirmed_emails(prefix),
                    ).push(
                        (TaskView {
                            issue_id,
                            email: rows[i as int].email,
                            n_failures: 0,
                            leased: false,
                        }),
                    ));
                    assert(self@ =~= pre + batch_next);
                    assert(forall|p: int, q: int|
                        0 <= p < q < next.len() ==> next[p].email != next[q].email);
                    lemma_confirmed_emails_distinct(next);
                    lemma_wf_after_batch(pre, issue_id, confirmed_emails(next));
                }
            } else {
                proof {
                    assert(self@ =~= pre + delivery_batch(issue_id, confirmed_emails(next)));
                }
            }
        }
        proof {
            assert(rows.subrange(0, n as int) =~= rows);
        }
    }

    /// Claims the first task not already claimed by another worker, if
    /// any: the model of a contention-free dequeue that skips locked rows.
    pub fn claim_next(&mut self) -> (r: Option<usize>)
        requires
            old(self).wf(),
        ensures
            final(self).wf(),
            r is None ==> final(self)@ == old(self)@ && forall|i: int|
                0 <= i < old(self)@.len() ==> old(self)@[i].leased,
            r matches Some(i) ==> claim_transition(old(self)@, final(self)@, i as int),
    {
        let ghost pre = self@;
        let n = self.tasks.len();
        for i in 0..n
            invariant
                n == self@.len(),
                pre == old(self)@,
                self@ == pre,
                self.wf(),
                forall|j: int| 0 <= j < i ==> self@[j].leased,
        {
            if !self.tasks[i].leased {
                let claimed = DeliveryTask {
                    issue_id: self.tasks[i].issue_id,
                    email: self.tasks[i].email.clone(),
                    n_failures: self.tasks[i].n_failures,
                    leased: true,
                };
                self.tasks.set(i, claimed);
                proof {
                    assert(self@ =~= pre.update(
                        i as int,
                        (TaskView { leased: true, ..pre[i as int] }),
                    ));
                    assert(forall|p: int|
                        0 <= p < self@.len() ==> #[trigger] self@[p].issue_id == pre[p].issue_id
                            && self@[p].email == pre[p].email && self@[p].n_failures
                            == pre[p].n_failures);
                }
                return Some(i);
            }
        }
        None
    }

    /// Deletes a claimed task after its email was delivered — or after its
    /// recipient's stored address turned out malformed and the task was
    /// skipped with a warning.
    pub fn complete_task(&mut self, i: usize)
        requires
            old(self).wf(),
            i < old(self)@.len(),
            old(self)@[i as int].leased,
        ensures
            final(self).wf(),
            final(self)@ == old(self)@.remove(i as int),
    {
        let ghost pre = self@;
        let _ = self.tasks.remove(i);
        proof {
            assert(self@ =~= pre.remove(i as int));
            lemma_wf_after_remove(pre, i as int);
        }
    }

    /// Records a failed attempt on a claimed task: kept for a later pass
    /// with its counter advanced and its lease released, unless this
    /// failure exhausted its attempts — then it is dead-lettered (removed),
    /// and `true` comes back so the caller can log it.
    pub fn record_failure(&mut self, i: usize) -> (dead: bool)
        requires
            old(self).wf(),
            i < old(self)@.len(),
            old(self)@[i as int].leased,
        ensures
            final(self).wf(),
            failure_transition(old(self)@, final(self)@, i as int, dead),
    {
        let ghost pre = self@;
        let failures = self.tasks[i].n_failures;
        if failures + 1 >= RETRY_CEILING {
            let _ = self.tasks.remove(i);
            proof {
                assert(self@ =~= pre.remove(i as int));
                lemma_wf_after_remove(pre, i as int);
            }
            true
        } else {
            let retried = DeliveryTask {
                issue_id: self.tasks[i].issue_id,
                email: self.tasks[i].email.clone(),
                n_failures: failures + 1,
                leased: false,
            };
            self.tasks.set(i, retried);
            proof {
                assert(self@ =~= pre.update(
                    i as int,
                    (TaskView {
                        n_failures: (pre[i as int].n_failures + 1) as u32,
                        leased: false,
                        ..pre[i as int]
                    }),
                ));
                assert(forall|p: int|
                    0 <= p < self@.len() ==> #[trigger] self@[p].issue_id == pre[p].issue_id
                        && self@[p].email == pre[p].email);
            }
            false
        }
    }
}

/// Every confirmed email in the listing comes from some confirmed row.
proof fn lemma_confirmed_emails_come_from_rows(rows: Seq<crate::subscriptions::SubscriberView>)
    ensures
        forall|k: int|
            0 <= k < confirmed_emails(rows).len() ==> exists|i: int|
                0 <= i < rows.len() && rows[i].email == #[trigger] confirmed_emails(rows)[k],
    decreases rows.len(),
{
    if rows.len() > 0 {
        lemma_confirmed_emails_come_from_rows(rows.drop_last());
        assert forall|k: int| 0 <= k < confirmed_emails(rows).len() implies exists|i: int|
            0 <= i < rows.len() && rows[i].email == #[trigger] confirmed_emails(rows)[k] by {
            if k < confirmed_emails(rows.drop_last()).len() {
                let i = choose|i: int|
                    0 <= i < rows.drop_last().len() && rows.drop_last()[i].email
                        == confirmed_emails(rows.drop_last())[k];
                assert(rows[i].email == confirmed_emails(rows)[k]);
            } else {
                assert(rows[rows.len() - 1].email == confirmed_emails(rows)[k]);
            }
        }
    }
}

/// Rows with pairwise-distinct emails list pairwise-distinct confirmed
/// emails.
pub proof fn lemma_confirmed_emails_distinct(rows: Seq<crate::subscriptions::SubscriberView>)
    requires
        forall|i: int, j: int| 0 <= i < j < rows.len() ==> rows[i].email != rows[j].email,
    ensures
        forall|p: int, q: int|
            0 <= p < q < confirmed_emails(rows).len() ==> confirmed_emails(rows)[p]
                != confirmed_emails(rows)[q],
    decreases rows.len(),
{
    if rows.len() > 0 {
        let prefix = rows.drop_last();
        lemma_confirmed_emails_distinct(prefix);
        lemma_confirmed_emails_come_from_rows(prefix);
        assert forall|p: int, q: int|
            0 <= p < q < confirmed_emails(rows).len() implies confirmed_emails(rows)[p]
            != confirmed_emails(rows)[q] by {
            if q < confirmed_emails(prefix).len() {
            } else {
                // q names the freshly appended last row's email; p names an
                // email of some earlier row, and rows' emails are distinct.
                let i = choose|i: int|
                    0 <= i < prefix.len() && prefix[i].email == confirmed_emails(prefix)[p];
                assert(rows[i].email != rows[rows.len() - 1].email);
            }
        }
    }
}

/// Appending a fresh issue's batch with pairwise-distinct emails keeps the
/// queue well formed.
pub proof fn lemma_wf_after_batch(pre: Seq<TaskView>, issue_id: u128, emails: Seq<Seq<char>>)
    requires
        task_keys_distinct(pre),
        failures_bounded(pre),
        !issue_queued(pre, issue_id),
        forall|p: int, q: int| 0 <= p < q < emails.len() ==> emails[p] != emails[q],
    ensures
        task_keys_distinct(pre + delivery_batch(issue_id, emails)),
        failures_bounded(pre + delivery_batch(issue_id, emails)),
{
    let post = pre + delivery_batch(issue_id, emails);
    assert forall|i: int, j: int| 0 <= i < j < post.len() implies !(post[i].issue_id
        == post[j].issue_id && post[i].email == post[j].email) by {
        if i < pre.len() && j >= pre.len() {
            assert(post[j].issue_id == issue_id);
            assert(!(pre[i].issue_id == issue_id));
        }
    }
}

/// Removing a task keeps the queue well formed.
proof fn lemma_wf_after_remove(pre: Seq<TaskView>, i: int)
    requires
        task_keys_distinct(pre),
        failures_bounded(pre),
        0 <= i < pre.len(),
    ensures
        task_keys_distinct(pre.remove(i)),
        failures_bounded(pre.remove(i)),
{
    let post = pre.remove(i);
    assert(forall|p: int|
        0 <= p < post.len() ==> #[trigger] post[p] == (if p < i {
            pre[p]
        } else {
            pre[p + 1]
        }));
}

/// One round of a worker failing on the task `(issue_id, email)`: the
/// task is claimed in `pre` and its failure is recorded, giving `post`.
pub open spec fn failing_round(
    pre: Seq<TaskView>,
    post: Seq<TaskView>,
    issue_id: u128,
    email: Seq<char>,
) -> bool {
    exists|i: int, dead: bool|
        0 <= i < pre.len() && pre[i].issue_id == issue_id && pre[i].email == email
            && #[trigger] failure_transition(pre, post, i, dead)
}

/// With pairwise-distinct task keys, two indices holding the same key are
/// the same index.
proof fn lemma_task_index_unique(s: Seq<TaskView>, issue_id: u128, email: Seq<char>, i: int, j: int)
    requires
        task_keys_distinct(s),
        0 <= i < s.len(),
        0 <= j < s.len(),
        s[i].issue_id == issue_id && s[i].email == email,
        s[j].issue_id == issue_id && s[j].email == email,
    ensures
        i == j,
{
}

/// Once the task is gone from the queue, it stays gone.
proof fn lemma_absent_stays_absent(
    states: Seq<Seq<TaskView>>,
    issue_id: u128,
    email: Seq<char>,
    k: int,
    k2: int,
)
    requires
        forall|k: int| #![trigger states[k]]
            0 <= k < states.len() - 1 ==> if task_present(states[k], issue_id, email) {
                failing_round(states[k], states[k + 1], issue_id, email)
            } else {
                !task_present(states[k + 1], issue_id, email)
            },
        0 <= k <= k2 < states.len(),
        !task_present(states[k], issue_id, email),
    ensures
        !task_present(states[k2], issue_id, email),
    decreases k2 - k,
{
    if k < k2 {
        lemma_absent_stays_absent(states, issue_id, email, k + 1, k2);
    }
}

/// While the task survives a chain of failing rounds, its failure count
/// keeps pace with the number of rounds and stays under the ceiling.
proof fn lemma_failing_chain_counts(
    states: Seq<Seq<TaskView>>,
    issue_id: u128,
    email: Seq<char>,
    k: int,
)
    requires
        forall|k: int| 0 <= k < states.len() ==> task_keys_distinct(#[trigger] states[k]),
        task_present(states[0], issue_id, email) ==> task_failures(states[0], issue_id, email)
            == 0,
        forall|k: int| #![trigger states[k]]
            0 <= k < states.len() - 1 ==> if task_present(states[k], issue_id, email) {
                failing_round(states[k], states[k + 1], issue_id, email)
            } else {
                !task_present(states[k + 1], issue_id, email)
            },
        0 <= k < states.len(),
    ensures
        task_present(states[k], issue_id, email) ==> k <= task_failures(states[k], issue_id, email)
            < RETRY_CEILING,
    decreases k,
{
    if k > 0 && task_present(states[k], issue_id, email) {
        lemma_failing_chain_counts(states, issue_id, email, k - 1);
        let pre = states[k - 1];
        let post = states[k];
        if !task_present(pre, issue_id, email) {
            assert(!task_present(post, issue_id, email));
        } else {
            let (i, dead) = choose|i: int, dead: bool|
                0 <= i < pre.len() && pre[i].issue_id == issue_id && pre[i].email == email
                    && #[trigger] failure_transition(pre, post, i, dead);
            let c = choose|c: int|
                0 <= c < pre.len() && pre[c].issue_id == issue_id && pre[c].email == email;
            lemma_task_index_unique(pre, issue_id, email, i, c);
            let j = choose|j: int|
                0 <= j < post.len() && post[j].issue_id == issue_id && post[j].email == email;
            if pre[i].n_failures + 1 >= RETRY_CEILING {
                // The round dead-lettered the task, yet it is present in
                // `post`: the index it occupies must have held the key in
                // `pre` as well, beside index `i` — impossible.
                let m = if j < i {
                    j
                } else {
                    j + 1
                };
                assert(post[j] == pre[m]);
                lemma_task_index_unique(pre, issue_id, email, i, m);
                assert(false);
            } else {
                lemma_task_index_unique(post, issue_id, email, i, j);
                assert(post[j].n_failures == pre[i].n_failures + 1);
            }
        }
    }
}

/// Law: a delivery task whose send fails on every attempt is retried up to
/// the retry ceiling and then dead-lettered, never retried indefinitely.
/// Along any chain of states in which each round claims the task and
/// records a transient failure, the task is gone from the queue after at
/// most [`RETRY_CEILING`] rounds.
pub proof fn lemma_failing_task_is_dead_lettered(
    states: Seq<Seq<TaskView>>,
    issue_id: u128,
    email: Seq<char>,
)
    requires
        states.len() > RETRY_CEILING,
        forall|k: int| 0 <= k < states.len() ==> task_keys_distinct(#[trigger] states[k]),
        task_present(states[0], issue_id, email) ==> task_failures(states[0], issue_id, email)
            == 0,
        forall|k: int| #![trigger states[k]]
            0 <= k < states.len() - 1 ==> if task_present(states[k], issue_id, email) {
                failing_round(states[k], states[k + 1], issue_id, email)
            } else {
                !task_present(states[k + 1], issue_id, email)
            },
    ensures
        !task_present(states.last(), issue_id, email),
{
    let ceiling = RETRY_CEILING as int;
    lemma_failing_chain_counts(states, issue_id, email, ceiling);
    assert(!task_present(states[ceiling], issue_id, email));
    lemma_absent_stays_absent(states, issue_id, email, ceiling, states.len() - 1);
}

/// Law: concurrent workers never hold the same task. A claim taken while
/// another claim is still held yields a different task: the first claim
/// marked its task, and claims only take unmarked tasks.
pub proof fn lemma_concurrent_claims_are_disjoint(
    q0: Seq<TaskView>,
    q1: Seq<TaskView>,
    q2: Seq<TaskView>,
    i: int,
    j: int,
)
    requires
        claim_transition(q0, q1, i),
        claim_transition(q1, q2, j),
    ensures
        i != j,
{
    assert(q1[i].leased);
}

} // verus!
