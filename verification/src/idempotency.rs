//! At-most-once execution of a publish request.  A client-supplied
//! idempotency key scopes one logical operation per user; the store
//! keeps one row per (user, key) that is reserved first and completed
//! with the cached response when the operation commits.  A replay of
//! the same key observes the cached response and performs no side
//! effects.

use vstd::prelude::*;

use crate::response::HttpResponseRecord;
use crate::response::ResponseView;
use crate::store::DeliveryTask;
use crate::store::IdempotencyRecord;
use crate::store::IssueView;
use crate::store::NewsletterIssue;
use crate::store::PipelineStore;
use crate::store::RecordView;
use crate::store::StoreView;
use crate::store::TaskView;
use crate::store::find_record_index;
use crate::store::lemma_record_index_unique;
use crate::store::record_matches;
use crate::store::tasks_view;

verus! {

use vstd::pervasive::unreached;
use vstd::string::StrSliceExecFns;

/// A client-supplied idempotency key: non-empty, at most 50 characters.
#[derive(Debug)]
pub struct IdempotencyKey {
    key: String,
}

/// The longest length an idempotency key may have.
pub open spec fn max_key_len() -> int {
    50
}

/// A string is usable as an idempotency key when its length is between
/// 1 and 50 characters.
pub open spec fn key_valid(s: Seq<char>) -> bool {
    0 < s.len() <= max_key_len()
}

impl IdempotencyKey {
    /// Validates a raw string as an idempotency key: rejects the empty
    /// string and anything longer than 50 characters, accepts the rest.
    pub fn try_from(value: String) -> (r: Result<IdempotencyKey, String>)
        ensures
            r is Ok <==> key_valid(value@),
            r matches Ok(k) ==> k@ == value@,
            value@.len() == 0 ==> (r matches Err(e) && e@ == "key cannot be empty"@),
            value@.len() > max_key_len() ==> (r matches Err(e) && e@
                == "maximum length for idempotency is 50"@),
    {
        let len = value.as_str().unicode_len();
        if len == 0 {
            return Err("key cannot be empty".to_owned());
        }
        if len > 50 {
            return Err("maximum length for idempotency is 50".to_owned());
        }
        Ok(IdempotencyKey { key: value })
    }

    pub fn as_ref(&self) -> (r: &str)
        ensures
            r@ == self@,
    {
        self.key.as_str()
    }
}

impl View for IdempotencyKey {
    type V = Seq<char>;

    closed spec fn view(&self) -> Seq<char> {
        self.key@
    }
}

/// Errors the idempotency store can report.
#[derive(Debug)]
pub enum StoreError {
    /// A reservation row exists for the key but no response has been
    /// saved under it, so there is nothing to replay yet.
    MissingSavedResponse,
    /// No newsletter issue is stored under the requested identifier.
    IssueNotFound,
}

/// An open publish transaction: the reservation it holds, and the
/// writes it has buffered.  Whoever owns it must end it by exactly one
/// of `save_response` (commit) or `rollback_publish`.
pub struct PublishTransaction {
    pub user_id: u128,
    pub key: String,
    pub pending_issue: Option<NewsletterIssue>,
    pub pending_tasks: Vec<DeliveryTask>,
}

#[verifier::ext_equal]
pub ghost struct TxView {
    pub user_id: u128,
    pub key: Seq<char>,
    pub pending_issue: Option<IssueView>,
    pub pending_tasks: Seq<TaskView>,
}

impl View for PublishTransaction {
    type V = TxView;

    open spec fn view(&self) -> TxView {
        TxView {
            user_id: self.user_id,
            key: self.key@,
            pending_issue: match self.pending_issue {
                Some(i) => Some(i@),
                None => None,
            },
            pending_tasks: tasks_view(self.pending_tasks@),
        }
    }
}

/// What an open publish transaction is entitled to assume of the
/// store: its reservation row exists and is still unanswered, its
/// buffered issue carries a fresh identifier, and its buffered tasks
/// all point at that issue.
pub open spec fn tx_wf(s: StoreView, tx: TxView) -> bool {
    &&& s.has_record(tx.user_id, tx.key)
    &&& s.the_record(tx.user_id, tx.key).response is None
    &&& (tx.pending_issue matches Some(iss) ==> iss.issue_id < s.next_issue_id && !s.has_issue(
        iss.issue_id,
    ))
    &&& forall|i: int|
        0 <= i < tx.pending_tasks.len() ==> (tx.pending_issue matches Some(iss)
            && (#[trigger] tx.pending_tasks[i]).issue_id == iss.issue_id
            && !tx.pending_tasks[i].locked && tx.pending_tasks[i].retries == 0)
}

/// The store after a publish transaction commits: its reservation row
/// is completed with the response, its buffered issue and tasks are
/// appended, all at once.
pub open spec fn commit_effect(s: StoreView, tx: TxView, resp: ResponseView) -> StoreView {
    StoreView {
        records: s.records.update(
            s.record_index(tx.user_id, tx.key),
            RecordView { response: Some(resp), ..s.the_record(tx.user_id, tx.key) },
        ),
        issues: match tx.pending_issue {
            Some(iss) => s.issues.push(iss),
            None => s.issues,
        },
        tasks: s.tasks + tx.pending_tasks,
        next_issue_id: s.next_issue_id,
    }
}

/// What `try_processing` hands back: either the caller now owns an
/// open transaction and must perform the side effects, or the key was
/// already completed and the saved response is replayed verbatim.
pub enum NextAction {
    StartProcessing(PublishTransaction),
    ReturnSavedResponse(HttpResponseRecord),
}

/// Attempts to reserve (user, key).  If no row exists, a reservation
/// row is inserted and the caller receives an open transaction.  If a
/// completed row exists, its response is replayed.  If a reservation
/// exists with no saved response, the store reports it, changing
/// nothing.
pub fn try_processing(
    store: &mut PipelineStore,
    key: &IdempotencyKey,
    user_id: u128,
    now: u64,
) -> (r: Result<NextAction, StoreError>)
    requires
        old(store)@.wf(),
    ensures
        final(store)@.wf(),
        !old(store)@.has_record(user_id, key@) ==> ({
            &&& r matches Ok(NextAction::StartProcessing(tx))
            &&& tx@ == (TxView {
                user_id,
                key: key@,
                pending_issue: None,
                pending_tasks: Seq::empty(),
            })
            &&& final(store)@.records == old(store)@.records.push(
                RecordView { user_id, key: key@, created_at: now, response: None },
            )
            &&& final(store)@.issues == old(store)@.issues
            &&& final(store)@.tasks == old(store)@.tasks
            &&& final(store)@.next_issue_id == old(store)@.next_issue_id
            &&& tx_wf(final(store)@, tx@)
        }),
        old(store)@.has_record(user_id, key@) ==> final(store)@ == old(store)@,
        (old(store)@.has_record(user_id, key@) && old(store)@.the_record(user_id, key@).response
            is Some) ==> (r matches Ok(NextAction::ReturnSavedResponse(cached)) && Some(cached@)
            == old(store)@.the_record(user_id, key@).response),
        (old(store)@.has_record(user_id, key@) && old(store)@.the_record(user_id, key@).response
            is None) ==> r matches Err(StoreError::MissingSavedResponse),
{
    let ghost s0 = store@;
    match find_record_index(&store.records, user_id, &key.key) {
        Some(i) => {
            proof {
                assert(s0.records[i as int] == store.records@[i as int]@);
                assert(record_matches(s0.records[i as int], user_id, key@));
                lemma_record_index_unique(
                    s0,
                    user_id,
                    key@,
                    i as int,
                    s0.record_index(user_id, key@),
                );
            }
            match &store.records[i].response {
                Some(resp) => Ok(NextAction::ReturnSavedResponse(resp.clone())),
                None => Err(StoreError::MissingSavedResponse),
            }
        },
        None => {
            let record = IdempotencyRecord {
                user_id,
                idempotency_key: key.key.clone(),
                created_at: now,
                response: None,
            };
            store.records.push(record);
            let tx = PublishTransaction {
                user_id,
                key: key.key.clone(),
                pending_issue: None,
                pending_tasks: Vec::new(),
            };
            proof {
                assert(final(store)@.records =~= s0.records.push(
                    RecordView { user_id, key: key@, created_at: now, response: None },
                ));
                assert(final(store)@.issues =~= s0.issues);
                assert(final(store)@.tasks =~= s0.tasks);
                lemma_push_record_wf(s0, user_id, key@, now);
                assert(tx@.pending_tasks =~= Seq::<TaskView>::empty());
                let s1 = final(store)@;
                let n = s1.records.len() - 1;
                assert(record_matches(s1.records[n], user_id, key@));
                lemma_record_index_unique(s1, user_id, key@, n, s1.record_index(user_id, key@));
            }
            Ok(NextAction::StartProcessing(tx))
        },
    }
}

/// Appending a fresh reservation row for a pair the store does not yet
/// hold preserves well-formedness.
proof fn lemma_push_record_wf(s: StoreView, user_id: u128, key: Seq<char>, now: u64)
    requires
        s.wf(),
        !s.has_record(user_id, key),
    ensures
        (StoreView {
            records: s.records.push(
                RecordView { user_id, key, created_at: now, response: None },
            ),
            ..s
        }).wf(),
{
    let s1 = StoreView {
        records: s.records.push(RecordView { user_id, key, created_at: now, response: None }),
        ..s
    };
    assert forall|i: int, j: int|
        0 <= i < j < s1.records.len() implies !(s1.records[i].user_id == s1.records[j].user_id
        && s1.records[i].key == s1.records[j].key) by {
        if j == s1.records.len() - 1 {
            assert(s1.records[i] == s.records[i]);
            if s.records[i].user_id == user_id && s.records[i].key == key {
                assert(record_matches(s.records[i], user_id, key));
                assert(s.has_record(user_id, key));
            }
        } else {
            assert(s1.records[i] == s.records[i]);
            assert(s1.records[j] == s.records[j]);
        }
    }
    assert forall|i: int|
        0 <= i < s1.tasks.len() implies (#[trigger] s1.tasks[i]).issue_id < s1.next_issue_id
        && s1.has_issue(s1.tasks[i].issue_id) by {
        assert(s.tasks[i].issue_id < s.next_issue_id);
        crate::store::lemma_same_issues_has_issue(s, s1, s.tasks[i].issue_id);
    }
}

/// Committing a transaction preserves well-formedness: the completed
/// record keeps its key, the appended issue carries a fresh
/// identifier, and the appended tasks point at it.
proof fn lemma_commit_wf(s: StoreView, tx: TxView, resp: ResponseView)
    requires
        s.wf(),
        tx_wf(s, tx),
    ensures
        commit_effect(s, tx, resp).wf(),
{
    let s1 = commit_effect(s, tx, resp);
    let ridx = s.record_index(tx.user_id, tx.key);
    assert(0 <= ridx < s.records.len() && record_matches(s.records[ridx], tx.user_id, tx.key));
    assert forall|i: int, j: int|
        0 <= i < j < s1.records.len() implies !(s1.records[i].user_id == s1.records[j].user_id
        && s1.records[i].key == s1.records[j].key) by {
        assert(s1.records[i].user_id == s.records[i].user_id && s1.records[i].key
            == s.records[i].key);
        assert(s1.records[j].user_id == s.records[j].user_id && s1.records[j].key
            == s.records[j].key);
    }
    assert forall|i: int, j: int|
        0 <= i < j < s1.issues.len() implies s1.issues[i].issue_id != s1.issues[j].issue_id by {
        if j < s.issues.len() {
        } else {
            let iss = tx.pending_issue->Some_0;
            if s.issues[i].issue_id == iss.issue_id {
                assert(s.has_issue(iss.issue_id));
            }
        }
    }
    assert forall|i: int|
        0 <= i < s1.issues.len() implies (#[trigger] s1.issues[i]).issue_id < s1.next_issue_id by {
        if i < s.issues.len() {
            assert(s1.issues[i] == s.issues[i]);
        }
    }
    assert forall|i: int|
        0 <= i < s1.tasks.len() implies (#[trigger] s1.tasks[i]).issue_id < s1.next_issue_id
        && s1.has_issue(s1.tasks[i].issue_id) by {
        if i < s.tasks.len() {
            assert(s1.tasks[i] == s.tasks[i]);
            let w = choose|j: int|
                0 <= j < s.issues.len() && (#[trigger] s.issues[j]).issue_id == s.tasks[i].issue_id;
            assert(s1.issues[w].issue_id == s1.tasks[i].issue_id);
        } else {
            assert(s1.tasks[i] == tx.pending_tasks[i - s.tasks.len()]);
            let iss = tx.pending_issue->Some_0;
            assert(s1.issues[s.issues.len() as int] == iss);
            assert(s1.issues[s.issues.len() as int].issue_id == s1.tasks[i].issue_id);
        }
    }
}

/// Serialises the response into the transaction's reservation row and
/// commits: the row is completed and the buffered issue and delivery
/// tasks become visible, all atomically.  Returns an equivalent
/// response for the caller to hand to its client.
pub fn save_response(
    store: &mut PipelineStore,
    transaction: PublishTransaction,
    response: HttpResponseRecord,
) -> (r: HttpResponseRecord)
    requires
        old(store)@.wf(),
        tx_wf(old(store)@, transaction@),
    ensures
        final(store)@.wf(),
        r@ == response@,
        final(store)@ == commit_effect(old(store)@, transaction@, response@),
{
    let ghost s0 = store@;
    let ghost txv = transaction@;
    let PublishTransaction { user_id, key, pending_issue, pending_tasks } = transaction;
    let mut pending_tasks = pending_tasks;
    let idx = match find_record_index(&store.records, user_id, &key) {
        Some(i) => i,
        None => {
            proof {
                let w = s0.record_index(user_id, key@);
                assert(record_matches(s0.records[w], user_id, key@));
                assert(record_matches(store.records@[w]@, user_id, key@));
            }
            unreached()
        },
    };
    proof {
        assert(record_matches(s0.records[idx as int], user_id, key@));
        lemma_record_index_unique(s0, user_id, key@, idx as int, s0.record_index(user_id, key@));
    }
    let stored = response.clone();
    let completed = IdempotencyRecord {
        user_id: store.records[idx].user_id,
        idempotency_key: store.records[idx].idempotency_key.clone(),
        created_at: store.records[idx].created_at,
        response: Some(stored),
    };
    store.records.set(idx, completed);
    match pending_issue {
        Some(issue) => store.issues.push(issue),
        None => (),
    }
    store.tasks.append(&mut pending_tasks);
    proof {
        let s1 = commit_effect(s0, txv, response@);
        assert(final(store)@.records =~~= s1.records);
        assert(final(store)@.issues =~~= s1.issues);
        assert(final(store)@.tasks =~~= s1.tasks);
        assert(final(store)@ =~~= s1);
        lemma_commit_wf(s0, txv, response@);
    }
    response
}

/// Abandons an open publish transaction: its reservation row is taken
/// back out and none of its buffered writes become visible, so a later
/// retry of the same key is indistinguishable from a fresh request.
pub fn rollback_publish(store: &mut PipelineStore, transaction: PublishTransaction)
    requires
        old(store)@.wf(),
        tx_wf(old(store)@, transaction@),
    ensures
        final(store)@.wf(),
        final(store)@.records == old(store)@.records.remove(
            old(store)@.record_index(transaction@.user_id, transaction@.key),
        ),
        final(store)@.issues == old(store)@.issues,
        final(store)@.tasks == old(store)@.tasks,
        final(store)@.next_issue_id == old(store)@.next_issue_id,
        !final(store)@.has_record(transaction@.user_id, transaction@.key),
{
    let ghost s0 = store@;
    let user_id = transaction.user_id;
    let idx = match find_record_index(&store.records, user_id, &transaction.key) {
        Some(i) => i,
        None => {
            proof {
                let w = s0.record_index(user_id, transaction@.key);
                assert(record_matches(s0.records[w], user_id, transaction@.key));
                assert(record_matches(store.records@[w]@, user_id, transaction@.key));
            }
            unreached()
        },
    };
    proof {
        assert(record_matches(s0.records[idx as int], user_id, transaction@.key));
        lemma_record_index_unique(
            s0,
            user_id,
            transaction@.key,
            idx as int,
            s0.record_index(user_id, transaction@.key),
        );
    }
    store.records.remove(idx);
    proof {
        let s1 = final(store)@;
        let key = transaction@.key;
        assert(s1.records =~~= s0.records.remove(idx as int));
        assert forall|k: int|
            0 <= k < s1.records.len() implies !record_matches(
            #[trigger] s1.records[k],
            user_id,
            key,
        ) by {
            if k < idx {
                assert(s1.records[k] == s0.records[k]);
                if record_matches(s0.records[k], user_id, key) {
                    lemma_record_index_unique(s0, user_id, key, k, idx as int);
                }
            } else {
                assert(s1.records[k] == s0.records[k + 1]);
                if record_matches(s0.records[k + 1], user_id, key) {
                    lemma_record_index_unique(s0, user_id, key, k + 1, idx as int);
                }
            }
        }
        assert(!s1.has_record(user_id, key));
        assert(s1.issues =~= s0.issues);
        assert(s1.tasks =~= s0.tasks);
        assert(s1.next_issue_id == s0.next_issue_id);
        assert forall|i: int, j: int|
            0 <= i < j < s1.records.len() implies !(s1.records[i].user_id == s1.records[j].user_id
            && s1.records[i].key == s1.records[j].key) by {
            let i0: int = if i < idx { i } else { i + 1 };
            let j0: int = if j < idx { j } else { j + 1 };
            assert(s1.records[i] == s0.records[i0]);
            assert(s1.records[j] == s0.records[j0]);
        }
        assert forall|i: int|
            0 <= i < s1.tasks.len() implies (#[trigger] s1.tasks[i]).issue_id < s1.next_issue_id
            && s1.has_issue(s1.tasks[i].issue_id) by {
            assert(s0.tasks[i].issue_id < s0.next_issue_id);
            crate::store::lemma_same_issues_has_issue(s0, s1, s0.tasks[i].issue_id);
        }
    }
}

/// Reads back the response cached for (user, key), if one has been
/// saved.
pub fn get_saved_response(
    store: &PipelineStore,
    key: &IdempotencyKey,
    user_id: u128,
) -> (r: Option<HttpResponseRecord>)
    requires
        store@.wf(),
    ensures
        r is Some <==> (store@.has_record(user_id, key@) && store@.the_record(user_id, key@).response
            is Some),
        r matches Some(resp) ==> Some(resp@) == store@.the_record(user_id, key@).response,
{
    match find_record_index(&store.records, user_id, &key.key) {
        Some(i) => {
            proof {
                assert(store@.records[i as int] == store.records@[i as int]@);
                assert(record_matches(store@.records[i as int], user_id, key@));
                lemma_record_index_unique(
                    store@,
                    user_id,
                    key@,
                    i as int,
                    store@.record_index(user_id, key@),
                );
            }
            match &store.records[i].response {
                Some(resp) => Some(resp.clone()),
                None => None,
            }
        },
        None => None,
    }
}

} // verus!
