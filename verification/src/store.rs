//! The relational store that backs the delivery pipeline, modelled as
//! plain in-memory tables: idempotency records, newsletter issues and
//! the issue delivery queue.  The store is the single synchronisation
//! point of the pipeline; a row lock on a queued task is modelled by
//! its `locked` flag.

use vstd::prelude::*;

use crate::response::HttpResponseRecord;
use crate::response::ResponseView;

verus! {

/// One row of the idempotency table, keyed by (user, key).  A row is
/// created in a reserved state (no response yet) and later completed
/// by saving the response; it is never deleted once completed.
pub struct IdempotencyRecord {
    pub user_id: u128,
    pub idempotency_key: String,
    pub created_at: u64,
    pub response: Option<HttpResponseRecord>,
}

/// The immutable content of a published newsletter issue.
pub struct NewsletterIssue {
    pub issue_id: u64,
    pub title: String,
    pub text_content: String,
    pub html_content: String,
    pub published_at: u64,
}

/// One pending delivery: an issue to send and the recipient to send it
/// to.  `locked` stands for the row lock an in-flight worker
/// transaction holds on the row.
pub struct DeliveryTask {
    pub issue_id: u64,
    pub email: String,
    pub retries: u64,
    pub locked: bool,
}

/// The three tables, plus the generator for fresh issue identifiers.
pub struct PipelineStore {
    pub records: Vec<IdempotencyRecord>,
    pub issues: Vec<NewsletterIssue>,
    pub tasks: Vec<DeliveryTask>,
    pub next_issue_id: u64,
}

#[verifier::ext_equal]
pub ghost struct RecordView {
    pub user_id: u128,
    pub key: Seq<char>,
    pub created_at: u64,
    pub response: Option<ResponseView>,
}

#[verifier::ext_equal]
pub ghost struct IssueView {
    pub issue_id: u64,
    pub title: Seq<char>,
    pub text_content: Seq<char>,
    pub html_content: Seq<char>,
    pub published_at: u64,
}

#[verifier::ext_equal]
pub ghost struct TaskView {
    pub issue_id: u64,
    pub email: Seq<char>,
    pub retries: u64,
    pub locked: bool,
}

#[verifier::ext_equal]
pub ghost struct StoreView {
    pub records: Seq<RecordView>,
    pub issues: Seq<IssueView>,
    pub tasks: Seq<TaskView>,
    pub next_issue_id: u64,
}

impl View for IdempotencyRecord {
    type V = RecordView;

    open spec fn view(&self) -> RecordView {
        RecordView {
            user_id: self.user_id,
            key: self.idempotency_key@,
            created_at: self.created_at,
            response: match self.response {
                Some(r) => Some(r@),
                None => None,
            },
        }
    }
}

impl View for NewsletterIssue {
    type V = IssueView;

    open spec fn view(&self) -> IssueView {
        IssueView {
            issue_id: self.issue_id,
            title: self.title@,
            text_content: self.text_content@,
            html_content: self.html_content@,
            published_at: self.published_at,
        }
    }
}

impl View for DeliveryTask {
    type V = TaskView;

    open spec fn view(&self) -> TaskView {
        TaskView {
            issue_id: self.issue_id,
            email: self.email@,
            retries: self.retries,
            locked: self.locked,
        }
    }
}

/// The mathematical value of the idempotency table.
pub open spec fn records_view(rs: Seq<IdempotencyRecord>) -> Seq<RecordView> {
    rs.map_values(|r: IdempotencyRecord| r@)
}

/// The mathematical value of the issue table.
pub open spec fn issues_view(is: Seq<NewsletterIssue>) -> Seq<IssueView> {
    is.map_values(|i: NewsletterIssue| i@)
}

/// The mathematical value of the delivery queue.
pub open spec fn tasks_view(ts: Seq<DeliveryTask>) -> Seq<TaskView> {
    ts.map_values(|t: DeliveryTask| t@)
}

impl View for PipelineStore {
    type V = StoreView;

    open spec fn view(&self) -> StoreView {
        StoreView {
            records: records_view(self.records@),
            issues: issues_view(self.issues@),
            tasks: tasks_view(self.tasks@),
            next_issue_id: self.next_issue_id,
        }
    }
}

/// Whether a record belongs to the given (user, key) pair.
pub open spec fn record_matches(r: RecordView, user_id: u128, key: Seq<char>) -> bool {
    r.user_id == user_id && r.key == key
}

impl StoreView {
    /// The uniqueness constraint on (user, key), uniqueness of issue
    /// identifiers, and referential integrity: every identifier handed
    /// out is below the generator, and every queued task points at a
    /// stored issue.
    pub open spec fn wf(self) -> bool {
        &&& forall|i: int, j: int|
            #![trigger self.records[i], self.records[j]]
            0 <= i < j < self.records.len() ==> !(self.records[i].user_id
                == self.records[j].user_id && self.records[i].key == self.records[j].key)
        &&& forall|i: int, j: int|
            #![trigger self.issues[i], self.issues[j]]
            0 <= i < j < self.issues.len() ==> self.issues[i].issue_id != self.issues[j].issue_id
        &&& forall|i: int|
            0 <= i < self.issues.len() ==> (#[trigger] self.issues[i]).issue_id
                < self.next_issue_id
        &&& forall|i: int|
            0 <= i < self.tasks.len() ==> (#[trigger] self.tasks[i]).issue_id < self.next_issue_id
                && self.has_issue(self.tasks[i].issue_id)
    }

    pub open spec fn has_record(self, user_id: u128, key: Seq<char>) -> bool {
        exists|i: int|
            0 <= i < self.records.len() && record_matches(
                #[trigger] self.records[i],
                user_id,
                key,
            )
    }

    pub open spec fn record_index(self, user_id: u128, key: Seq<char>) -> int {
        choose|i: int|
            0 <= i < self.records.len() && record_matches(
                #[trigger] self.records[i],
                user_id,
                key,
            )
    }

    /// The record stored for (user, key); meaningful only when
    /// `has_record` holds, by the uniqueness constraint.
    pub open spec fn the_record(self, user_id: u128, key: Seq<char>) -> RecordView {
        self.records[self.record_index(user_id, key)]
    }

    pub open spec fn has_issue(self, issue_id: u64) -> bool {
        exists|i: int| 0 <= i < self.issues.len() && (#[trigger] self.issues[i]).issue_id == issue_id
    }

    pub open spec fn issue_index(self, issue_id: u64) -> int {
        choose|i: int| 0 <= i < self.issues.len() && (#[trigger] self.issues[i]).issue_id == issue_id
    }

    /// The issue stored under the identifier; meaningful only when
    /// `has_issue` holds, by uniqueness of identifiers.
    pub open spec fn the_issue(self, issue_id: u64) -> IssueView {
        self.issues[self.issue_index(issue_id)]
    }
}

/// In a well-formed store any two indices of records for the same
/// (user, key) coincide.
pub proof fn lemma_record_index_unique(s: StoreView, user_id: u128, key: Seq<char>, i: int, j: int)
    requires
        s.wf(),
        0 <= i < s.records.len(),
        0 <= j < s.records.len(),
        record_matches(s.records[i], user_id, key),
        record_matches(s.records[j], user_id, key),
    ensures
        i == j,
{
}

/// In a well-formed store any two indices of issues with the same
/// identifier coincide.
pub proof fn lemma_issue_index_unique(s: StoreView, issue_id: u64, i: int, j: int)
    requires
        s.wf(),
        0 <= i < s.issues.len(),
        0 <= j < s.issues.len(),
        s.issues[i].issue_id == issue_id,
        s.issues[j].issue_id == issue_id,
    ensures
        i == j,
{
}

/// How many queued tasks reference the given issue.
pub open spec fn count_tasks_for(tasks: Seq<TaskView>, issue_id: u64) -> nat
    decreases tasks.len(),
{
    if tasks.len() == 0 {
        0
    } else {
        count_tasks_for(tasks.drop_last(), issue_id) + if tasks.last().issue_id == issue_id {
            1nat
        } else {
            0nat
        }
    }
}

/// Counting tasks for an issue distributes over concatenation.
pub proof fn lemma_count_tasks_concat(a: Seq<TaskView>, b: Seq<TaskView>, issue_id: u64)
    ensures
        count_tasks_for(a + b, issue_id) == count_tasks_for(a, issue_id) + count_tasks_for(
            b,
            issue_id,
        ),
    decreases b.len(),
{
    if b.len() == 0 {
        assert(a + b =~= a);
    } else {
        lemma_count_tasks_concat(a, b.drop_last(), issue_id);
        assert((a + b).drop_last() =~= a + b.drop_last());
        assert((a + b).last() == b.last());
    }
}

/// A queue none of whose tasks reference the issue counts zero for it.
pub proof fn lemma_count_tasks_none(tasks: Seq<TaskView>, issue_id: u64)
    requires
        forall|i: int| 0 <= i < tasks.len() ==> (#[trigger] tasks[i]).issue_id != issue_id,
    ensures
        count_tasks_for(tasks, issue_id) == 0,
    decreases tasks.len(),
{
    if tasks.len() > 0 {
        lemma_count_tasks_none(tasks.drop_last(), issue_id);
    }
}

/// A queue all of whose tasks reference the issue counts its length.
pub proof fn lemma_count_tasks_all(tasks: Seq<TaskView>, issue_id: u64)
    requires
        forall|i: int| 0 <= i < tasks.len() ==> (#[trigger] tasks[i]).issue_id == issue_id,
    ensures
        count_tasks_for(tasks, issue_id) == tasks.len(),
    decreases tasks.len(),
{
    if tasks.len() > 0 {
        lemma_count_tasks_all(tasks.drop_last(), issue_id);
    }
}

/// Two well-formed stores with the same idempotency table agree on
/// which records exist and on what they hold.
pub proof fn lemma_same_records_record_lookup(
    a: StoreView,
    b: StoreView,
    user_id: u128,
    key: Seq<char>,
)
    requires
        a.records == b.records,
        a.has_record(user_id, key),
        a.wf(),
    ensures
        b.has_record(user_id, key),
        b.the_record(user_id, key) == a.the_record(user_id, key),
{
    let w = a.record_index(user_id, key);
    assert(record_matches(a.records[w], user_id, key));
    assert(record_matches(b.records[w], user_id, key));
    let v = b.record_index(user_id, key);
    assert(record_matches(b.records[v], user_id, key));
    lemma_record_index_unique(a, user_id, key, w, v);
}

/// Two stores with the same issue table agree on which issue
/// identifiers exist.
pub proof fn lemma_same_issues_has_issue(a: StoreView, b: StoreView, issue_id: u64)
    requires
        a.issues == b.issues,
        a.has_issue(issue_id),
    ensures
        b.has_issue(issue_id),
{
    let w = choose|j: int| 0 <= j < a.issues.len() && (#[trigger] a.issues[j]).issue_id == issue_id;
    assert((b.issues[w]).issue_id == issue_id);
}

impl PipelineStore {
    /// An empty store whose first generated issue identifier is 0.
    pub fn new() -> (s: PipelineStore)
        ensures
            s@.wf(),
            s@.records.len() == 0,
            s@.issues.len() == 0,
            s@.tasks.len() == 0,
            s@.next_issue_id == 0,
    {
        PipelineStore { records: Vec::new(), issues: Vec::new(), tasks: Vec::new(), next_issue_id: 0 }
    }
}

/// Scans the idempotency table for the row of (user, key); returns the
/// index of the unique match, if any.
pub(crate) fn find_record_index(
    records: &Vec<IdempotencyRecord>,
    user_id: u128,
    key: &String,
) -> (r: Option<usize>)
    ensures
        match r {
            Some(i) => i < records.len() && record_matches(records@[i as int]@, user_id, key@),
            None => forall|i: int|
                0 <= i < records.len() ==> !record_matches((#[trigger] records@[i])@, user_id, key@),
        },
{
    let mut i: usize = 0;
    while i < records.len()
        invariant
            i <= records.len(),
            forall|j: int|
                0 <= j < i ==> !record_matches((#[trigger] records@[j])@, user_id, key@),
        decreases records.len() - i,
    {
        if records[i].user_id == user_id && records[i].idempotency_key == *key {
            return Some(i);
        }
        i = i + 1;
    }
    None
}

/// Scans the issue table for the row with the given identifier.
pub(crate) fn find_issue_index(issues: &Vec<NewsletterIssue>, issue_id: u64) -> (r: Option<usize>)
    ensures
        match r {
            Some(i) => i < issues.len() && issues@[i as int]@.issue_id == issue_id,
            None => forall|i: int|
                0 <= i < issues.len() ==> (#[trigger] issues@[i])@.issue_id != issue_id,
        },
{
    let mut i: usize = 0;
    while i < issues.len()
        invariant
            i <= issues.len(),
            forall|j: int| 0 <= j < i ==> (#[trigger] issues@[j])@.issue_id != issue_id,
        decreases issues.len() - i,
    {
        if issues[i].issue_id == issue_id {
            return Some(i);
        }
        i = i + 1;
    }
    None
}

} // verus!
