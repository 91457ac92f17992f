//! Publishing a newsletter: the request payload, the orchestration of
//! idempotency check, issue creation, delivery fan-out and response
//! caching inside one transaction, and the laws this guarantees.

use vstd::prelude::*;

use crate::domain::SubscriberEmail;
use crate::domain::email_ok;
use crate::idempotency::IdempotencyKey;
use crate::idempotency::NextAction;
use crate::idempotency::PublishTransaction;
use crate::idempotency::TxView;
use crate::idempotency::key_valid;
use crate::idempotency::save_response;
use crate::idempotency::try_processing;
use crate::idempotency::tx_wf;
use crate::response::HttpResponseRecord;
use crate::response::ResponseView;
use crate::store::IssueView;
use crate::store::NewsletterIssue;
use crate::store::PipelineStore;
use crate::store::RecordView;
use crate::store::StoreView;
use crate::store::TaskView;
use crate::store::count_tasks_for;
use crate::store::lemma_count_tasks_all;
use crate::store::lemma_count_tasks_concat;
use crate::store::lemma_count_tasks_none;
use crate::store::lemma_record_index_unique;
use crate::store::record_matches;
use crate::utils::see_other;
use crate::utils::see_other_view;

verus! {

/// The text and HTML renderings of a newsletter body.
pub struct Content {
    pub text: String,
    pub html: String,
}

/// The payload of a publish request: a title, the two body renderings,
/// and the client's idempotency key.
pub struct BodyData {
    pub title: String,
    pub content: Content,
    pub idempotency_key: String,
}

/// Relies on uuid: `Uuid::new_v4().to_string()` yields the hyphenated
/// form, which is 36 characters long.
#[verifier::external_body]
fn fresh_key_string() -> (r: String)
    ensures
        r@.len() == 36,
{
    uuid::Uuid::new_v4().to_string()
}

impl BodyData {
    /// A payload with a freshly generated idempotency key.
    pub fn new(title: String, content: Content) -> (r: BodyData)
        ensures
            r.title == title,
            r.content == content,
            key_valid(r.idempotency_key@),
    {
        BodyData { title, content, idempotency_key: fresh_key_string() }
    }
}

/// A subscriber whose address passed validation at fan-out read time.
pub struct ConfirmedSubscriber {
    pub email: SubscriberEmail,
}

/// Validates each raw address read from the subscriber directory;
/// invalid rows are kept as errors rather than silently dropped.
pub fn get_confirmed_subscribers(rows: &Vec<String>) -> (r: Vec<
    Result<ConfirmedSubscriber, String>,
>)
    ensures
        r@.len() == rows@.len(),
        forall|i: int|
            0 <= i < rows@.len() ==> (((#[trigger] r@[i]) is Ok <==> email_ok(rows@[i]@)) && (
            r@[i] matches Ok(c) ==> c.email@ == rows@[i]@)),
{
    let mut r: Vec<Result<ConfirmedSubscriber, String>> = Vec::new();
    let mut i: usize = 0;
    while i < rows.len()
        invariant
            i <= rows.len(),
            r@.len() == i,
            forall|j: int|
                0 <= j < i ==> (((#[trigger] r@[j]) is Ok <==> email_ok(rows@[j]@)) && (
                r@[j] matches Ok(c) ==> c.email@ == rows@[j]@)),
        decreases rows.len() - i,
    {
        match SubscriberEmail::parse(rows[i].clone()) {
            Ok(email) => r.push(Ok(ConfirmedSubscriber { email })),
            Err(e) => r.push(Err(e)),
        }
        i = i + 1;
    }
    r
}

/// Why a publish request failed.
#[derive(Debug)]
pub enum PublishError {
    /// The supplied idempotency key is malformed: a client error,
    /// surfaced immediately, never retried, no side effects performed.
    InvalidKey(String),
    /// The store failed the request: a server-side error.
    UnexpectedError(String),
}

impl PublishError {
    /// The HTTP status a failed publish maps to.
    pub fn status_code(&self) -> (r: u16)
        ensures
            self matches PublishError::InvalidKey(_) ==> r == 400,
            self matches PublishError::UnexpectedError(_) ==> r == 500,
    {
        match self {
            PublishError::InvalidKey(_) => 400,
            PublishError::UnexpectedError(_) => 500,
        }
    }

    /// A bare response carrying only the mapped status.
    pub fn error_response(&self) -> (r: HttpResponseRecord)
        ensures
            self matches PublishError::InvalidKey(_) ==> r@.status == 400,
            self matches PublishError::UnexpectedError(_) ==> r@.status == 500,
            r@.headers == Seq::<(Seq<char>, Seq<u8>)>::empty(),
            r@.body == Seq::<u8>::empty(),
    {
        let status = self.status_code();
        let r = HttpResponseRecord { status, headers: Vec::new(), body: Vec::new() };
        proof {
            assert(r@.headers =~= Seq::<(Seq<char>, Seq<u8>)>::empty());
            assert(r@.body =~= Seq::<u8>::empty());
        }
        r
    }
}

/// Generates a fresh issue identifier and buffers the immutable issue
/// row in the open transaction; it becomes visible when the
/// transaction commits.
pub fn insert_newsletter_issue(
    store: &mut PipelineStore,
    transaction: &mut PublishTransaction,
    title: &str,
    text_content: &str,
    html_content: &str,
    now: u64,
) -> (issue_id: u64)
    requires
        old(store)@.wf(),
        old(store)@.next_issue_id < u64::MAX,
        tx_wf(old(store)@, old(transaction)@),
        old(transaction)@.pending_issue is None,
    ensures
        final(store)@.wf(),
        issue_id == old(store)@.next_issue_id,
        final(store)@ == (StoreView {
            next_issue_id: (old(store)@.next_issue_id + 1) as u64,
            ..old(store)@
        }),
        final(transaction)@ == (TxView {
            pending_issue: Some(
                IssueView {
                    issue_id,
                    title: title@,
                    text_content: text_content@,
                    html_content: html_content@,
                    published_at: now,
                },
            ),
            ..old(transaction)@
        }),
        tx_wf(final(store)@, final(transaction)@),
{
    let ghost s0 = store@;
    let issue_id = store.next_issue_id;
    store.next_issue_id = store.next_issue_id + 1;
    transaction.pending_issue = Some(
        NewsletterIssue {
            issue_id,
            title: title.to_owned(),
            text_content: text_content.to_owned(),
            html_content: html_content.to_owned(),
            published_at: now,
        },
    );
    proof {
        let s1 = store@;
        assert(s1 =~~= (StoreView { next_issue_id: (s0.next_issue_id + 1) as u64, ..s0 }));
        assert forall|i: int|
            0 <= i < s1.tasks.len() implies (#[trigger] s1.tasks[i]).issue_id < s1.next_issue_id
            && s1.has_issue(s1.tasks[i].issue_id) by {
            assert(s0.tasks[i].issue_id < s0.next_issue_id);
            crate::store::lemma_same_issues_has_issue(s0, s1, s0.tasks[i].issue_id);
        }
        crate::store::lemma_same_records_record_lookup(
            s0,
            s1,
            old(transaction)@.user_id,
            old(transaction)@.key,
        );
        if s1.has_issue(issue_id) {
            let w = choose|j: int|
                0 <= j < s1.issues.len() && (#[trigger] s1.issues[j]).issue_id == issue_id;
            assert(s0.issues[w].issue_id < s0.next_issue_id);
        }
    }
    issue_id
}

/// Buffers one delivery task per confirmed subscriber in the open
/// transaction, a point-in-time snapshot of the directory: one row per
/// address, each referencing the new issue, with zero retries.
pub fn enqueue_delivery_tasks(
    transaction: &mut PublishTransaction,
    issue_id: u64,
    subscriber_emails: &Vec<String>,
)
    requires
        old(transaction)@.pending_issue matches Some(iss) && iss.issue_id == issue_id,
        old(transaction)@.pending_tasks.len() == 0,
    ensures
        final(transaction)@ == (TxView {
            pending_tasks: fan_out_tasks(issue_id, emails_view(subscriber_emails@)),
            ..old(transaction)@
        }),
{
    let mut i: usize = 0;
    while i < subscriber_emails.len()
        invariant
            i <= subscriber_emails.len(),
            transaction@.user_id == old(transaction)@.user_id,
            transaction@.key == old(transaction)@.key,
            transaction@.pending_issue == old(transaction)@.pending_issue,
            transaction@.pending_tasks =~= fan_out_tasks(
                issue_id,
                emails_view(subscriber_emails@),
            ).take(i as int),
        decreases subscriber_emails.len() - i,
    {
        proof {
            assert(emails_view(subscriber_emails@).len() == subscriber_emails@.len());
            assert(fan_out_tasks(issue_id, emails_view(subscriber_emails@)).take(
                i as int,
            ).len() == i as int);
        }
        let task = crate::store::DeliveryTask {
            issue_id,
            email: subscriber_emails[i].clone(),
            retries: 0,
            locked: false,
        };
        proof {
            assert(task@.email == emails_view(subscriber_emails@)[i as int]);
        }
        transaction.pending_tasks.push(task);
        i = i + 1;
        proof {
            assert(emails_view(subscriber_emails@).len() == subscriber_emails@.len());
            assert(fan_out_tasks(issue_id, emails_view(subscriber_emails@)).take(
                i as int,
            ).len() == i as int);
            assert(transaction@.pending_tasks =~= fan_out_tasks(
                issue_id,
                emails_view(subscriber_emails@),
            ).take(i as int));
        }
    }
    proof {
        assert(transaction@.pending_tasks =~= fan_out_tasks(
            issue_id,
            emails_view(subscriber_emails@),
        ));
        assert(final(transaction)@ =~~= (TxView {
            pending_tasks: fan_out_tasks(issue_id, emails_view(subscriber_emails@)),
            ..old(transaction)@
        }));
    }
}

/// The mathematical value of a list of raw subscriber addresses.
pub open spec fn emails_view(emails: Seq<String>) -> Seq<Seq<char>> {
    emails.map_values(|e: String| e@)
}

/// The delivery tasks a fan-out creates: one unlocked, zero-retry task
/// per subscriber, in directory order, all for the same issue.
pub open spec fn fan_out_tasks(issue_id: u64, emails: Seq<Seq<char>>) -> Seq<TaskView> {
    Seq::new(
        emails.len(),
        |i: int| TaskView { issue_id, email: emails[i], retries: 0, locked: false },
    )
}

/// The response a successful publish produces and caches: a redirect
/// to the admin dashboard.
pub open spec fn success_response_view() -> ResponseView {
    see_other_view("/admin/dashboard"@)
}

/// The store after a fresh publish commits: a completed idempotency
/// record caching the success response, the new issue under the next
/// identifier, and one delivery task per subscriber.
pub open spec fn publish_effect(
    s: StoreView,
    user_id: u128,
    key: Seq<char>,
    title: Seq<char>,
    text: Seq<char>,
    html: Seq<char>,
    emails: Seq<Seq<char>>,
    now: u64,
) -> StoreView {
    StoreView {
        records: s.records.push(
            RecordView { user_id, key, created_at: now, response: Some(success_response_view()) },
        ),
        issues: s.issues.push(
            IssueView {
                issue_id: s.next_issue_id,
                title,
                text_content: text,
                html_content: html,
                published_at: now,
            },
        ),
        tasks: s.tasks + fan_out_tasks(s.next_issue_id, emails),
        next_issue_id: (s.next_issue_id + 1) as u64,
    }
}

/// Handles one publish request: validates the idempotency key, then
/// either replays the cached response with no side effects, or — in
/// one transaction — creates the issue, fans delivery tasks out to the
/// given confirmed subscribers, and caches the success response.
pub fn publish_newsletter(
    store: &mut PipelineStore,
    user_id: u128,
    form: BodyData,
    subscriber_emails: &Vec<String>,
    now: u64,
) -> (r: Result<HttpResponseRecord, PublishError>)
    requires
        old(store)@.wf(),
        old(store)@.next_issue_id < u64::MAX,
    ensures
        final(store)@.wf(),
        !key_valid(form.idempotency_key@) ==> (r matches Err(PublishError::InvalidKey(_))
            && final(store)@ == old(store)@),
        (key_valid(form.idempotency_key@) && !old(store)@.has_record(
            user_id,
            form.idempotency_key@,
        )) ==> (r matches Ok(resp) && resp@ == success_response_view() && final(store)@
            == publish_effect(
            old(store)@,
            user_id,
            form.idempotency_key@,
            form.title@,
            form.content.text@,
            form.content.html@,
            emails_view(subscriber_emails@),
            now,
        )),
        (key_valid(form.idempotency_key@) && old(store)@.has_record(
            user_id,
            form.idempotency_key@,
        ) && old(store)@.the_record(user_id, form.idempotency_key@).response is Some) ==> (r matches
            Ok(resp) && Some(resp@) == old(store)@.the_record(user_id, form.idempotency_key@).response
            && final(store)@ == old(store)@),
        (key_valid(form.idempotency_key@) && old(store)@.has_record(
            user_id,
            form.idempotency_key@,
        ) && old(store)@.the_record(user_id, form.idempotency_key@).response is None) ==> (r matches
            Err(PublishError::UnexpectedError(_)) && final(store)@ == old(store)@),
{
    let ghost s0 = store@;
    let BodyData { title, content, idempotency_key } = form;

    let key = match IdempotencyKey::try_from(idempotency_key) {
        Ok(k) => k,
        Err(e) => {
            return Err(PublishError::InvalidKey(e));
        },
    };

    let mut transaction = match try_processing(store, &key, user_id, now) {
        Ok(NextAction::StartProcessing(t)) => t,
        Ok(NextAction::ReturnSavedResponse(cached)) => {
            return Ok(cached);
        },
        Err(_) => {
            return Err(
                PublishError::UnexpectedError("we expected a row to exist".to_owned()),
            );
        },
    };

    let issue_id = insert_newsletter_issue(
        store,
        &mut transaction,
        title.as_str(),
        content.text.as_str(),
        content.html.as_str(),
        now,
    );
    let ghost s2 = store@;

    enqueue_delivery_tasks(&mut transaction, issue_id, subscriber_emails);
    let ghost tx3 = transaction@;

    proof {
        assert(tx_wf(s2, tx3));
        let ridx = s2.record_index(user_id, key@);
        let n = s0.records.len() as int;
        assert(record_matches(s2.records[n], user_id, key@));
        lemma_record_index_unique(s2, user_id, key@, n, ridx);
    }

    let response = see_other("/admin/dashboard");
    let response = save_response(store, transaction, response);
    proof {
        let pe = publish_effect(
            s0,
            user_id,
            key@,
            title@,
            content.text@,
            content.html@,
            emails_view(subscriber_emails@),
            now,
        );
        assert(final(store)@.records =~= pe.records);
        assert(final(store)@.issues =~= pe.issues);
        assert(final(store)@.tasks =~= pe.tasks);
        assert(final(store)@ =~~= pe);
    }
    Ok(response)
}

/// At-most-once side effect: once a publish for (user, key) has
/// committed, the store holds a completed record for that pair whose
/// cached response is exactly the success response the first publish
/// produced.  By `publish_newsletter`'s contract a second publish with
/// the same key therefore returns that very response and leaves the
/// store unchanged: the issue and its fan-out exist exactly once.
pub proof fn lemma_publish_at_most_once(
    s: StoreView,
    user_id: u128,
    key: Seq<char>,
    title: Seq<char>,
    text: Seq<char>,
    html: Seq<char>,
    emails: Seq<Seq<char>>,
    now: u64,
)
    requires
        !s.has_record(user_id, key),
    ensures
        ({
            let s1 = publish_effect(s, user_id, key, title, text, html, emails, now);
            &&& s1.has_record(user_id, key)
            &&& s1.the_record(user_id, key).response == Some(success_response_view())
            &&& s1.issues.len() == s.issues.len() + 1
            &&& s1.tasks.len() == s.tasks.len() + emails.len()
        }),
{
    let s1 = publish_effect(s, user_id, key, title, text, html, emails, now);
    let n = s.records.len() as int;
    assert(record_matches(s1.records[n], user_id, key));
    let ridx = s1.record_index(user_id, key);
    assert(0 <= ridx < s1.records.len() && record_matches(s1.records[ridx], user_id, key));
    if ridx < n {
        assert(s1.records[ridx] == s.records[ridx]);
        assert(s.has_record(user_id, key));
    }
}

/// Fan-out completeness: a publish with N confirmed subscribers
/// creates exactly N delivery tasks referencing the new issue — the
/// tasks already queued reference older issues and contribute nothing
/// to the count.
pub proof fn lemma_fan_out_complete(
    s: StoreView,
    user_id: u128,
    key: Seq<char>,
    title: Seq<char>,
    text: Seq<char>,
    html: Seq<char>,
    emails: Seq<Seq<char>>,
    now: u64,
)
    requires
        s.wf(),
    ensures
        count_tasks_for(
            publish_effect(s, user_id, key, title, text, html, emails, now).tasks,
            s.next_issue_id,
        ) == emails.len(),
{
    let fresh = fan_out_tasks(s.next_issue_id, emails);
    lemma_count_tasks_concat(s.tasks, fresh, s.next_issue_id);
    lemma_count_tasks_none(s.tasks, s.next_issue_id);
    lemma_count_tasks_all(fresh, s.next_issue_id);
}

} // verus!
