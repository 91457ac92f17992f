use zero2prod::idempotency::IdempotencyKey;
use zero2prod::idempotency::NextAction;
use zero2prod::idempotency::get_saved_response;
use zero2prod::idempotency::rollback_publish;
use zero2prod::idempotency::save_response;
use zero2prod::idempotency::try_processing;
use zero2prod::newsletter::enqueue_delivery_tasks;
use zero2prod::newsletter::insert_newsletter_issue;
use zero2prod::utils::see_other;
use zero2prod::issue_delivery_workers::ExecutionOutcome;
use zero2prod::issue_delivery_workers::TaskStep;
use zero2prod::issue_delivery_workers::dequeue_task;
use zero2prod::issue_delivery_workers::get_issue;
use zero2prod::issue_delivery_workers::report_delivery;
use zero2prod::issue_delivery_workers::try_execute_task;
use zero2prod::newsletter::BodyData;
use zero2prod::newsletter::Content;
use zero2prod::newsletter::PublishError;
use zero2prod::newsletter::publish_newsletter;
use zero2prod::store::PipelineStore;

fn body_with_key(key: &str) -> BodyData {
    BodyData {
        title: "Newsletter title".to_string(),
        content: Content {
            text: "Newsletter body as plain text".to_string(),
            html: "<p>Newsletter body as HTML</p>".to_string(),
        },
        idempotency_key: key.to_string(),
    }
}

fn three_subscribers() -> Vec<String> {
    vec![
        "first@example.com".to_string(),
        "second@example.com".to_string(),
        "third@example.com".to_string(),
    ]
}

#[test]
fn idempotency_keys_of_length_zero_and_fifty_one_are_rejected() {
    assert!(IdempotencyKey::try_from("".to_string()).is_err());
    assert!(IdempotencyKey::try_from("k".repeat(51)).is_err());
}

#[test]
fn idempotency_keys_of_length_one_and_fifty_are_accepted() {
    assert!(IdempotencyKey::try_from("k".to_string()).is_ok());
    assert!(IdempotencyKey::try_from("k".repeat(50)).is_ok());
}

#[test]
fn idempotency_key_rejections_carry_their_reason() {
    assert_eq!(IdempotencyKey::try_from("".to_string()).unwrap_err(), "key cannot be empty");
    assert_eq!(
        IdempotencyKey::try_from("k".repeat(51)).unwrap_err(),
        "maximum length for idempotency is 50"
    );
}

#[test]
fn idempotency_key_keeps_its_string() {
    let key = IdempotencyKey::try_from("abc123".to_string()).unwrap();
    assert_eq!(key.as_ref(), "abc123");
}

#[test]
fn publish_scenario_with_replay_and_worker() {
    let mut store = PipelineStore::new();
    let subscribers = three_subscribers();

    // publish with key "abc123" for user 7: one issue, three queue rows
    let first = publish_newsletter(&mut store, 7, body_with_key("abc123"), &subscribers, 0)
        .unwrap();
    assert_eq!(store.issues.len(), 1);
    assert_eq!(store.tasks.len(), 3);
    assert!(store.tasks.iter().all(|t| t.retries == 0));
    assert_eq!(first.status, 303);

    // replaying the same key: identical response, no duplication
    let second = publish_newsletter(&mut store, 7, body_with_key("abc123"), &subscribers, 5)
        .unwrap();
    assert_eq!(second, first);
    assert_eq!(store.issues.len(), 1);
    assert_eq!(store.tasks.len(), 3);

    // the worker processes all three: two succeed, one transport failure
    for delivered in [true, true, false] {
        match try_execute_task(&mut store) {
            TaskStep::Send(pending) => {
                let outcome = report_delivery(&mut store, pending, delivered);
                if delivered {
                    assert!(matches!(outcome, ExecutionOutcome::TaskCompleted));
                } else {
                    assert!(matches!(outcome, ExecutionOutcome::TaskFailed));
                }
            },
            _ => panic!("expected a task to send"),
        }
    }
    assert_eq!(store.tasks.len(), 1);
    assert_eq!(store.tasks[0].retries, 1);
}

#[test]
fn distinct_keys_and_users_publish_independently() {
    let mut store = PipelineStore::new();
    let subscribers = three_subscribers();
    publish_newsletter(&mut store, 7, body_with_key("abc123"), &subscribers, 0).unwrap();
    // the same user with another key publishes again
    publish_newsletter(&mut store, 7, body_with_key("other-key"), &subscribers, 1).unwrap();
    assert_eq!(store.issues.len(), 2);
    // another user with the first key publishes too
    publish_newsletter(&mut store, 8, body_with_key("abc123"), &subscribers, 2).unwrap();
    assert_eq!(store.issues.len(), 3);
    assert_eq!(store.tasks.len(), 9);
}

#[test]
fn fan_out_snapshots_the_directory() {
    let mut store = PipelineStore::new();
    let subscribers = three_subscribers();
    publish_newsletter(&mut store, 1, body_with_key("key-a"), &subscribers, 0).unwrap();
    let issue_id = store.issues[0].issue_id;
    assert_eq!(store.tasks.iter().filter(|t| t.issue_id == issue_id).count(), 3);
    for (task, email) in store.tasks.iter().zip(subscribers.iter()) {
        assert_eq!(&task.email, email);
        assert_eq!(task.retries, 0);
    }
}

#[test]
fn malformed_key_is_rejected_without_side_effects() {
    let mut store = PipelineStore::new();
    let subscribers = three_subscribers();
    let r = publish_newsletter(&mut store, 7, body_with_key(""), &subscribers, 0);
    match r {
        Err(e @ PublishError::InvalidKey(_)) => {
            assert_eq!(e.status_code(), 400);
            assert_eq!(e.error_response().status, 400);
        },
        _ => panic!("expected the malformed key to be rejected"),
    }
    assert_eq!(store.issues.len(), 0);
    assert_eq!(store.tasks.len(), 0);
    assert_eq!(store.records.len(), 0);
}

#[test]
fn publish_against_open_reservation_is_a_server_error() {
    let mut store = PipelineStore::new();
    let key = IdempotencyKey::try_from("abc123".to_string()).unwrap();
    // a reservation is open (as if another request crashed mid-flight)
    match try_processing(&mut store, &key, 7, 0).unwrap() {
        NextAction::StartProcessing(_) => {},
        NextAction::ReturnSavedResponse(_) => panic!("no response saved yet"),
    }
    let r = publish_newsletter(&mut store, 7, body_with_key("abc123"), &three_subscribers(), 1);
    match r {
        Err(e @ PublishError::UnexpectedError(_)) => {
            assert_eq!(e.status_code(), 500);
            assert_eq!(e.error_response().status, 500);
        },
        _ => panic!("expected a server error"),
    }
}

#[test]
fn rollback_makes_a_retry_look_fresh() {
    let mut store = PipelineStore::new();
    let key = IdempotencyKey::try_from("retry-key".to_string()).unwrap();
    let tx = match try_processing(&mut store, &key, 7, 0).unwrap() {
        NextAction::StartProcessing(tx) => tx,
        NextAction::ReturnSavedResponse(_) => panic!("no response saved yet"),
    };
    assert_eq!(store.records.len(), 1);
    rollback_publish(&mut store, tx);
    assert_eq!(store.records.len(), 0);
    // the next attempt wins a fresh reservation
    match try_processing(&mut store, &key, 7, 1).unwrap() {
        NextAction::StartProcessing(_) => {},
        NextAction::ReturnSavedResponse(_) => panic!("rolled-back key must look fresh"),
    }
}

#[test]
fn saved_response_is_read_back() {
    let mut store = PipelineStore::new();
    let key = IdempotencyKey::try_from("abc123".to_string()).unwrap();
    assert!(get_saved_response(&store, &key, 7).is_none());
    let first = publish_newsletter(&mut store, 7, body_with_key("abc123"), &three_subscribers(), 0)
        .unwrap();
    let cached = get_saved_response(&store, &key, 7).unwrap();
    assert_eq!(cached, first);
    // another user's identical key is untouched
    assert!(get_saved_response(&store, &key, 8).is_none());
}

#[test]
fn no_duplicate_dequeue_on_queue_of_one() {
    let mut store = PipelineStore::new();
    let subscribers = vec!["only@example.com".to_string()];
    publish_newsletter(&mut store, 7, body_with_key("abc123"), &subscribers, 0).unwrap();
    let first = dequeue_task(&mut store);
    assert!(first.is_some());
    let second = dequeue_task(&mut store);
    assert!(second.is_none());
}

#[test]
fn failed_delivery_keeps_the_task_eligible() {
    let mut store = PipelineStore::new();
    let subscribers = vec!["only@example.com".to_string()];
    publish_newsletter(&mut store, 7, body_with_key("abc123"), &subscribers, 0).unwrap();
    let pending = match try_execute_task(&mut store) {
        TaskStep::Send(p) => p,
        _ => panic!("expected a task to send"),
    };
    let outcome = report_delivery(&mut store, pending, false);
    assert!(matches!(outcome, ExecutionOutcome::TaskFailed));
    assert_eq!(store.tasks.len(), 1);
    assert_eq!(store.tasks[0].retries, 1);
    assert_eq!(store.tasks[0].email, "only@example.com");
    // eligible again: a later dequeue picks it up
    let again = dequeue_task(&mut store);
    assert!(again.is_some());
}

#[test]
fn successful_delivery_removes_the_task() {
    let mut store = PipelineStore::new();
    let subscribers = vec!["only@example.com".to_string()];
    publish_newsletter(&mut store, 7, body_with_key("abc123"), &subscribers, 0).unwrap();
    let pending = match try_execute_task(&mut store) {
        TaskStep::Send(p) => p,
        _ => panic!("expected a task to send"),
    };
    assert_eq!(pending.issue.title, "Newsletter title");
    assert_eq!(pending.issue.text_content, "Newsletter body as plain text");
    assert_eq!(pending.issue.html_content, "<p>Newsletter body as HTML</p>");
    let outcome = report_delivery(&mut store, pending, true);
    assert!(matches!(outcome, ExecutionOutcome::TaskCompleted));
    assert_eq!(store.tasks.len(), 0);
}

#[test]
fn invalid_recipient_is_dropped_without_delivery() {
    let mut store = PipelineStore::new();
    let subscribers = vec!["not-an-email".to_string()];
    publish_newsletter(&mut store, 7, body_with_key("abc123"), &subscribers, 0).unwrap();
    assert_eq!(store.tasks.len(), 1);
    let step = try_execute_task(&mut store);
    assert!(matches!(step, TaskStep::Rejected));
    assert_eq!(store.tasks.len(), 0);
}

#[test]
fn empty_queue_yields_nothing_to_do() {
    let mut store = PipelineStore::new();
    assert!(matches!(try_execute_task(&mut store), TaskStep::EmptyQueue));
    assert!(dequeue_task(&mut store).is_none());
}

#[test]
fn store_operations_compose_into_one_publish() {
    let mut store = PipelineStore::new();
    let key = IdempotencyKey::try_from("abc123".to_string()).unwrap();
    let mut tx = match try_processing(&mut store, &key, 7, 42).unwrap() {
        NextAction::StartProcessing(tx) => tx,
        NextAction::ReturnSavedResponse(_) => panic!("the key is fresh"),
    };
    // nothing is visible until the transaction commits
    assert_eq!(store.issues.len(), 0);
    assert_eq!(store.tasks.len(), 0);

    let issue_id = insert_newsletter_issue(&mut store, &mut tx, "title", "text", "<p>html</p>", 42);
    let subscribers = three_subscribers();
    enqueue_delivery_tasks(&mut tx, issue_id, &subscribers);
    assert_eq!(store.issues.len(), 0);
    assert_eq!(store.tasks.len(), 0);

    let response = save_response(&mut store, tx, see_other("/admin/dashboard"));
    assert_eq!(response.status, 303);
    assert_eq!(store.issues.len(), 1);
    assert_eq!(store.issues[0].issue_id, issue_id);
    assert_eq!(store.issues[0].published_at, 42);
    assert_eq!(store.tasks.len(), 3);

    let cached = get_saved_response(&store, &key, 7).unwrap();
    assert_eq!(cached, response);
}

#[test]
fn get_issue_finds_stored_content_only() {
    let mut store = PipelineStore::new();
    publish_newsletter(&mut store, 7, body_with_key("abc123"), &three_subscribers(), 0).unwrap();
    let issue_id = store.issues[0].issue_id;
    let issue = get_issue(&store, issue_id).unwrap();
    assert_eq!(issue.title, "Newsletter title");
    assert!(get_issue(&store, issue_id + 1).is_err());
}
