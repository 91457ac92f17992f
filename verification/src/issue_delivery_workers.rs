//! The consuming side of the delivery queue.  A worker repeatedly
//! claims one pending task under a row lock that concurrent workers
//! skip, re-validates the recipient, fetches the issue content, and —
//! once the transport has been tried — completes the task or requeues
//! it with an incremented retry count.
//!
//! The transport call itself is outside work, so one worker iteration
//! is split at that boundary: `try_execute_task` claims a task and
//! decides what, if anything, must be sent; `report_delivery` applies
//! the transport's verdict to the store.

use vstd::prelude::*;

use crate::domain::SubscriberEmail;
use crate::domain::email_ok;
use crate::idempotency::StoreError;
use crate::store::DeliveryTask;
use crate::store::NewsletterIssue;
use crate::store::PipelineStore;
use crate::store::StoreView;
use crate::store::TaskView;
use crate::store::find_issue_index;
use crate::store::lemma_issue_index_unique;
use crate::store::lemma_same_issues_has_issue;

verus! {

use vstd::pervasive::unreached;

/// What one worker iteration amounted to.
pub enum ExecutionOutcome {
    EmptyQueue,
    TaskCompleted,
    TaskFailed,
}

/// A claim on one queued task: the row is locked for this worker, and
/// these are the fields it read from it.
pub struct TaskLease {
    pub task_index: usize,
    pub issue_id: u64,
    pub email: String,
    pub retries: u64,
}

/// A lease speaks the truth about the store: its row exists, is
/// locked, and holds the fields the lease carries.
pub open spec fn lease_valid(s: StoreView, l: TaskLease) -> bool {
    &&& l.task_index < s.tasks.len()
    &&& s.tasks[l.task_index as int].locked
    &&& s.tasks[l.task_index as int].issue_id == l.issue_id
    &&& s.tasks[l.task_index as int].email == l.email@
    &&& s.tasks[l.task_index as int].retries == l.retries
}

/// Which row a dequeue selects: the first one not locked by another
/// in-flight transaction (locked rows are skipped).
pub open spec fn dequeue_picks(tasks: Seq<TaskView>, i: int) -> bool {
    &&& 0 <= i < tasks.len()
    &&& !tasks[i].locked
    &&& forall|j: int| 0 <= j < i ==> (#[trigger] tasks[j]).locked
}

/// The queue as a dequeue leaves it: the selected row locked, all
/// others untouched.
pub open spec fn lock_task(tasks: Seq<TaskView>, i: int) -> Seq<TaskView> {
    tasks.update(i, TaskView { locked: true, ..tasks[i] })
}

/// A queue with every row locked looks empty to a dequeue.
pub open spec fn all_locked(tasks: Seq<TaskView>) -> bool {
    forall|i: int| 0 <= i < tasks.len() ==> (#[trigger] tasks[i]).locked
}

/// A dequeue selects at most one row: its pick is determined.
pub proof fn lemma_dequeue_picks_unique(tasks: Seq<TaskView>, i: int, j: int)
    requires
        dequeue_picks(tasks, i),
        dequeue_picks(tasks, j),
    ensures
        i == j,
{
    if i < j {
        assert(tasks[i].locked);
    }
    if j < i {
        assert(tasks[j].locked);
    }
}

/// No duplicate dequeue: once a dequeue has picked and locked a row, a
/// second dequeue can never pick the same row.
pub proof fn lemma_no_duplicate_dequeue(tasks: Seq<TaskView>, i: int, j: int)
    requires
        dequeue_picks(tasks, i),
        dequeue_picks(lock_task(tasks, i), j),
    ensures
        i != j,
{
    assert(lock_task(tasks, i)[i].locked);
}

/// As long as some row is unlocked, a dequeue finds one to pick.
pub proof fn lemma_exists_first_unlocked(tasks: Seq<TaskView>, w: int)
    requires
        0 <= w < tasks.len(),
        !tasks[w].locked,
    ensures
        exists|j: int| dequeue_picks(tasks, j),
    decreases w,
{
    if forall|k: int| 0 <= k < w ==> (#[trigger] tasks[k]).locked {
        assert(dequeue_picks(tasks, w));
    } else {
        let k = choose|k: int| 0 <= k < w && !(#[trigger] tasks[k]).locked;
        lemma_exists_first_unlocked(tasks, k);
    }
}

/// Retry does not lose the task: a row requeued after a failed
/// delivery is still present, carries the new retry count, is
/// unlocked, and a subsequent dequeue can pick a row again.
pub proof fn lemma_retry_keeps_task(tasks: Seq<TaskView>, i: int, n: u64)
    requires
        0 <= i < tasks.len(),
    ensures
        ({
            let t1 = tasks.update(i, TaskView { retries: n, locked: false, ..tasks[i] });
            &&& t1.len() == tasks.len()
            &&& t1[i].issue_id == tasks[i].issue_id
            &&& t1[i].email == tasks[i].email
            &&& t1[i].retries == n
            &&& !t1[i].locked
            &&& exists|j: int| dequeue_picks(t1, j)
        }),
{
    let t1 = tasks.update(i, TaskView { retries: n, locked: false, ..tasks[i] });
    lemma_exists_first_unlocked(t1, i);
}

/// Claims one pending task: opens a worker transaction, selects the
/// first row not locked by another one, and locks it.  Concurrent
/// dequeues therefore never observe the same row; a fully locked (or
/// empty) queue yields nothing.
pub fn dequeue_task(store: &mut PipelineStore) -> (r: Option<TaskLease>)
    requires
        old(store)@.wf(),
    ensures
        final(store)@.wf(),
        r is None ==> all_locked(old(store)@.tasks) && final(store)@ == old(store)@,
        r matches Some(l) ==> ({
            &&& dequeue_picks(old(store)@.tasks, l.task_index as int)
            &&& l.issue_id == old(store)@.tasks[l.task_index as int].issue_id
            &&& l.email@ == old(store)@.tasks[l.task_index as int].email
            &&& l.retries == old(store)@.tasks[l.task_index as int].retries
            &&& final(store)@ == (StoreView {
                tasks: lock_task(old(store)@.tasks, l.task_index as int),
                ..old(store)@
            })
            &&& lease_valid(final(store)@, l)
        }),
{
    let ghost s0 = store@;
    let mut i: usize = 0;
    while i < store.tasks.len()
        invariant
            store@ == s0,
            s0 == old(store)@,
            s0.wf(),
            i <= store.tasks.len(),
            forall|j: int| 0 <= j < i ==> (#[trigger] s0.tasks[j]).locked,
        decreases store.tasks.len() - i,
    {
        if !store.tasks[i].locked {
            proof {
                assert(s0.tasks.len() == store.tasks@.len());
                assert(s0.tasks[i as int] == store.tasks@[i as int]@);
            }
            let lease = TaskLease {
                task_index: i,
                issue_id: store.tasks[i].issue_id,
                email: store.tasks[i].email.clone(),
                retries: store.tasks[i].retries,
            };
            let updated = DeliveryTask {
                issue_id: store.tasks[i].issue_id,
                email: store.tasks[i].email.clone(),
                retries: store.tasks[i].retries,
                locked: true,
            };
            store.tasks.set(i, updated);
            proof {
                let s1 = store@;
                assert(s1.tasks =~= lock_task(s0.tasks, i as int));
                assert(s1 =~~= (StoreView { tasks: lock_task(s0.tasks, i as int), ..s0 }));
                assert forall|k: int|
                    0 <= k < s1.tasks.len() implies (#[trigger] s1.tasks[k]).issue_id
                    < s1.next_issue_id && s1.has_issue(s1.tasks[k].issue_id) by {
                    assert(s1.tasks[k].issue_id == s0.tasks[k].issue_id);
                    lemma_same_issues_has_issue(s0, s1, s0.tasks[k].issue_id);
                }
            }
            return Some(lease);
        }
        i = i + 1;
    }
    None
}

/// Deletes the claimed row and commits: used on successful delivery
/// and on a permanently invalid recipient.  The task is gone from the
/// queue for good.
pub fn delete_task(store: &mut PipelineStore, lease: TaskLease)
    requires
        old(store)@.wf(),
        lease_valid(old(store)@, lease),
    ensures
        final(store)@.wf(),
        final(store)@ == (StoreView {
            tasks: old(store)@.tasks.remove(lease.task_index as int),
            ..old(store)@
        }),
{
    let ghost s0 = store@;
    store.tasks.remove(lease.task_index);
    proof {
        let s1 = store@;
        assert(s1.tasks =~= s0.tasks.remove(lease.task_index as int));
        assert(s1 =~~= (StoreView { tasks: s0.tasks.remove(lease.task_index as int), ..s0 }));
        assert forall|k: int|
            0 <= k < s1.tasks.len() implies (#[trigger] s1.tasks[k]).issue_id < s1.next_issue_id
            && s1.has_issue(s1.tasks[k].issue_id) by {
            let k0: int = if k < lease.task_index as int {
                k
            } else {
                k + 1
            };
            assert(s1.tasks[k] == s0.tasks[k0]);
            lemma_same_issues_has_issue(s0, s1, s0.tasks[k0].issue_id);
        }
    }
}

/// Writes the new retry count into the claimed row and releases its
/// lock, so the task becomes visible to future dequeues again.
pub fn increment_retries(store: &mut PipelineStore, lease: &TaskLease, n_retries: u64)
    requires
        old(store)@.wf(),
        lease_valid(old(store)@, *lease),
    ensures
        final(store)@.wf(),
        final(store)@ == (StoreView {
            tasks: old(store)@.tasks.update(
                lease.task_index as int,
                TaskView {
                    retries: n_retries,
                    locked: false,
                    ..old(store)@.tasks[lease.task_index as int]
                },
            ),
            ..old(store)@
        }),
{
    let ghost s0 = store@;
    let updated = DeliveryTask {
        issue_id: store.tasks[lease.task_index].issue_id,
        email: store.tasks[lease.task_index].email.clone(),
        retries: n_retries,
        locked: false,
    };
    store.tasks.set(lease.task_index, updated);
    proof {
        let s1 = store@;
        let i = lease.task_index as int;
        assert(s1.tasks =~= s0.tasks.update(
            i,
            TaskView { retries: n_retries, locked: false, ..s0.tasks[i] },
        ));
        assert(s1 =~~= (StoreView {
            tasks: s0.tasks.update(
                i,
                TaskView { retries: n_retries, locked: false, ..s0.tasks[i] },
            ),
            ..s0
        }));
        assert forall|k: int|
            0 <= k < s1.tasks.len() implies (#[trigger] s1.tasks[k]).issue_id < s1.next_issue_id
            && s1.has_issue(s1.tasks[k].issue_id) by {
            assert(s1.tasks[k].issue_id == s0.tasks[k].issue_id);
            lemma_same_issues_has_issue(s0, s1, s0.tasks[k].issue_id);
        }
    }
}

impl Clone for NewsletterIssue {
    fn clone(&self) -> (r: Self)
        ensures
            r@ == self@,
    {
        NewsletterIssue {
            issue_id: self.issue_id,
            title: self.title.clone(),
            text_content: self.text_content.clone(),
            html_content: self.html_content.clone(),
            published_at: self.published_at,
        }
    }
}

/// Read-only fetch of a stored issue's content for the worker; fails
/// exactly when no issue is stored under the identifier.
pub fn get_issue(store: &PipelineStore, issue_id: u64) -> (r: Result<NewsletterIssue, StoreError>)
    requires
        store@.wf(),
    ensures
        r is Ok <==> store@.has_issue(issue_id),
        r matches Ok(iss) ==> iss@ == store@.the_issue(issue_id),
        r matches Err(e) ==> e is IssueNotFound,
{
    match find_issue_index(&store.issues, issue_id) {
        Some(i) => {
            proof {
                assert(store@.issues[i as int] == store.issues@[i as int]@);
                lemma_issue_index_unique(
                    store@,
                    issue_id,
                    i as int,
                    store@.issue_index(issue_id),
                );
            }
            Ok(store.issues[i].clone())
        },
        None => {
            proof {
                if store@.has_issue(issue_id) {
                    let w = store@.issue_index(issue_id);
                    assert(store@.issues[w].issue_id == issue_id);
                    assert(store.issues@[w]@.issue_id == issue_id);
                }
            }
            Err(StoreError::IssueNotFound)
        },
    }
}

/// A delivery the worker must now attempt: the claim on the queue row
/// and the issue content to send to its recipient.
pub struct PendingDelivery {
    pub lease: TaskLease,
    pub issue: NewsletterIssue,
}

/// What one claim attempt decided.
pub enum TaskStep {
    /// Every row was locked or the queue was empty: nothing to do.
    EmptyQueue,
    /// The claimed row's recipient failed re-validation: the task was
    /// dropped without a delivery attempt, a permanent condition.
    Rejected,
    /// The recipient is valid: deliver this, then call
    /// `report_delivery` with the transport's verdict.
    Send(PendingDelivery),
}

/// One worker iteration up to the transport boundary: claims the first
/// unlocked task, re-validates its recipient (stored data may have
/// drifted), and fetches the issue content for a valid one.  An
/// invalid recipient's task is deleted on the spot.
pub fn try_execute_task(store: &mut PipelineStore) -> (r: TaskStep)
    requires
        old(store)@.wf(),
    ensures
        final(store)@.wf(),
        r is EmptyQueue <==> all_locked(old(store)@.tasks),
        r is EmptyQueue ==> final(store)@ == old(store)@,
        !all_locked(old(store)@.tasks) ==> ({
            let t = old(store)@.tasks;
            let i = choose|i: int| dequeue_picks(t, i);
            &&& dequeue_picks(t, i)
            &&& !email_ok(t[i].email) ==> (r is Rejected && final(store)@ == (StoreView {
                tasks: t.remove(i),
                ..old(store)@
            }))
            &&& email_ok(t[i].email) ==> (r matches TaskStep::Send(p) && p.lease.task_index == i
                && p.lease.issue_id == t[i].issue_id && p.lease.email@ == t[i].email
                && p.lease.retries == t[i].retries && p.issue@ == old(store)@.the_issue(
                t[i].issue_id,
            ) && final(store)@ == (StoreView { tasks: lock_task(t, i), ..old(store)@ })
                && lease_valid(final(store)@, p.lease))
        }),
{
    let ghost s0 = store@;
    let lease = match dequeue_task(store) {
        None => {
            return TaskStep::EmptyQueue;
        },
        Some(l) => l,
    };
    proof {
        assert(!all_locked(s0.tasks));
        let i = choose|i: int| dequeue_picks(s0.tasks, i);
        lemma_dequeue_picks_unique(s0.tasks, i, lease.task_index as int);
    }
    match SubscriberEmail::parse(lease.email.clone()) {
        Ok(_) => {
            let issue = match get_issue(store, lease.issue_id) {
                Ok(issue) => issue,
                Err(_) => {
                    proof {
                        let i = lease.task_index as int;
                        assert(store@.tasks[i].issue_id == lease.issue_id);
                        assert(store@.has_issue(lease.issue_id));
                    }
                    unreached()
                },
            };
            proof {
                lemma_same_issues_has_issue(store@, s0, lease.issue_id);
                let v = store@.issue_index(lease.issue_id);
                crate::store::lemma_issue_index_unique(
                    s0,
                    lease.issue_id,
                    v,
                    s0.issue_index(lease.issue_id),
                );
            }
            TaskStep::Send(PendingDelivery { lease, issue })
        },
        Err(_) => {
            delete_task(store, lease);
            proof {
                let i = lease.task_index as int;
                assert(store@.tasks =~= s0.tasks.remove(i));
                assert(store@ =~~= (StoreView { tasks: s0.tasks.remove(i), ..s0 }));
            }
            TaskStep::Rejected
        },
    }
}

/// Applies the transport's verdict to the claimed task.  Success
/// deletes the row — terminal removal; failure is treated as
/// transient: the retry counter is incremented and the row released
/// back into the queue, eligible for any worker's next dequeue.
pub fn report_delivery(
    store: &mut PipelineStore,
    delivery: PendingDelivery,
    delivered: bool,
) -> (r: ExecutionOutcome)
    requires
        old(store)@.wf(),
        lease_valid(old(store)@, delivery.lease),
        delivery.lease.retries < u64::MAX,
    ensures
        final(store)@.wf(),
        delivered ==> r is TaskCompleted && final(store)@ == (StoreView {
            tasks: old(store)@.tasks.remove(delivery.lease.task_index as int),
            ..old(store)@
        }),
        !delivered ==> ({
            &&& r is TaskFailed
            &&& final(store)@ == (StoreView {
                tasks: old(store)@.tasks.update(
                    delivery.lease.task_index as int,
                    TaskView {
                        retries: (delivery.lease.retries + 1) as u64,
                        locked: false,
                        ..old(store)@.tasks[delivery.lease.task_index as int]
                    },
                ),
                ..old(store)@
            })
            &&& exists|j: int| dequeue_picks(final(store)@.tasks, j)
        }),
{
    if delivered {
        delete_task(store, delivery.lease);
        ExecutionOutcome::TaskCompleted
    } else {
        let n_retries = delivery.lease.retries + 1;
        increment_retries(store, &delivery.lease, n_retries);
        proof {
            let i = delivery.lease.task_index as int;
            let t1 = old(store)@.tasks.update(
                i,
                TaskView { retries: n_retries, locked: false, ..old(store)@.tasks[i] },
            );
            lemma_retry_keeps_task(old(store)@.tasks, i, n_retries);
            assert(store@.tasks == t1);
            let w = choose|j: int| dequeue_picks(t1, j);
            assert(dequeue_picks(store@.tasks, w));
        }
        ExecutionOutcome::TaskFailed
    }
}

/// How long the worker loop sleeps after an iteration: a long backoff
/// on an empty queue, a short one after a store error, none otherwise.
pub fn worker_backoff_seconds(outcome: &Result<ExecutionOutcome, StoreError>) -> (r: u64)
    ensures
        outcome matches Ok(ExecutionOutcome::EmptyQueue) ==> r == 10,
        outcome is Err ==> r == 1,
        (outcome matches Ok(o) && !(o is EmptyQueue)) ==> r == 0,
{
    match outcome {
        Ok(ExecutionOutcome::EmptyQueue) => 10,
        Err(_) => 1,
        _ => 0,
    }
}

} // verus!
