//! End-to-end exercises of the publish pipeline: idempotent publishing,
//! exact enqueueing, delivery with bounded retries, and response replay.

use newsletter::delivery::{DeliveryQueue, RETRY_CEILING};
use newsletter::domain::SubscriberEmail;
use newsletter::email::EmailRequest;
use newsletter::idempotency::{IdempotencyKey, NextAction};
use newsletter::issues::{build_issue_email, IssueStore};
use newsletter::publish::{publish_newsletter, success_message, ServiceStore};
use newsletter::SavedHttpResponse;

fn base_url() -> newsletter::configuration::ApplicationBaseUrl {
    newsletter::configuration::ApplicationBaseUrl("https://news.example".to_string())
}

fn seed_confirmed(store: &mut ServiceStore, emails: &[&str]) {
    for (i, e) in emails.iter().enumerate() {
        let form = newsletter::subscriptions::FormData {
            email: e.to_string(),
            name: format!("subscriber {}", i),
        };
        let success =
            newsletter::subscriptions::subscribe(&mut store.subscribers, &base_url(), form)
                .expect("seeding a subscriber should succeed");
        store
            .subscribers
            .confirm_subscriber(&success.token)
            .expect("confirming a freshly issued token should succeed");
    }
}

fn publish_form(key: &str) -> newsletter::publish::FormData {
    newsletter::publish::FormData {
        title: "T".to_string(),
        text_content: "t".to_string(),
        html_content: "<p>t</p>".to_string(),
        idempotency_key: key.to_string(),
    }
}

fn run_delivery_worker<F: FnMut(&EmailRequest) -> bool>(
    issues: &IssueStore,
    queue: &mut DeliveryQueue,
    mut transport: F,
) -> (usize, usize) {
    let mut delivered = 0;
    let mut dead_lettered = 0;
    while let Some(i) = queue.claim_next() {
        let (issue_id, raw_email) = {
            let task = queue.task(i);
            (task.issue_id, task.email.clone())
        };
        match SubscriberEmail::parse(raw_email) {
            Err(_) => {
                // A malformed stored address is a data-integrity error:
                // skipped, and the rest of the batch proceeds.
                queue.complete_task(i);
            }
            Ok(email) => {
                let issue = issues
                    .get_issue(issue_id)
                    .expect("every queued task belongs to a published issue");
                let request = build_issue_email(issue, &email);
                if transport(&request) {
                    queue.complete_task(i);
                    delivered += 1;
                } else if queue.record_failure(i) {
                    dead_lettered += 1;
                }
            }
        }
    }
    (delivered, dead_lettered)
}

fn response_parts(r: &SavedHttpResponse) -> (u16, Vec<(String, String)>, Vec<u8>) {
    (r.status, r.headers.clone(), r.body.clone())
}

#[test]
fn publish_with_three_confirmed_subscribers_sends_exactly_three_emails() {
    let mut store = ServiceStore::new();
    seed_confirmed(&mut store, &["a@example.com", "b@example.com", "c@example.com"]);

    let response = publish_newsletter(&mut store, 7, publish_form("abc123"))
        .expect("a fresh publish should succeed");

    assert_eq!(response.status, 303);
    assert_eq!(response.headers.len(), 2);
    assert_eq!(response.headers[0].0, "Location");
    assert_eq!(response.headers[0].1, "/admin/newsletters");
    assert_eq!(response.headers[1].0, "X-Flash");
    assert_eq!(response.headers[1].1, success_message());
    assert_eq!(response.headers[1].1, "The newsletter issue has been published!");
    assert!(response.body.is_empty());

    assert_eq!(store.queue.len(), 3);
    let mut recipients: Vec<String> = Vec::new();
    let (delivered, dead) = run_delivery_worker(&store.issues, &mut store.queue, |req| {
        assert_eq!(req.subject, "T");
        assert_eq!(req.text_body, "t");
        assert_eq!(req.html_body, "<p>t</p>");
        recipients.push(req.to.clone());
        true
    });
    assert_eq!(delivered, 3);
    assert_eq!(dead, 0);
    assert_eq!(store.queue.len(), 0);
    recipients.sort();
    assert_eq!(recipients, vec!["a@example.com", "b@example.com", "c@example.com"]);
}

#[test]
fn publishing_the_same_request_twice_replays_the_response_byte_for_byte() {
    let mut store = ServiceStore::new();
    seed_confirmed(&mut store, &["a@example.com", "b@example.com"]);

    let first = publish_newsletter(&mut store, 7, publish_form("retry-key"))
        .expect("the first publish should succeed");
    let issues_after_first = store.issues.len();
    let tasks_after_first = store.queue.len();

    let second = publish_newsletter(&mut store, 7, publish_form("retry-key"))
        .expect("the replayed publish should succeed");

    assert_eq!(response_parts(&first), response_parts(&second));
    assert_eq!(store.issues.len(), issues_after_first);
    assert_eq!(store.issues.len(), 1);
    assert_eq!(store.queue.len(), tasks_after_first);
    assert_eq!(store.queue.len(), 2);

    // The transport sees exactly one call per confirmed recipient, not two.
    let mut recipients: Vec<String> = Vec::new();
    let (delivered, dead) = run_delivery_worker(&store.issues, &mut store.queue, |req| {
        recipients.push(req.to.clone());
        true
    });
    assert_eq!(delivered, 2);
    assert_eq!(dead, 0);
    recipients.sort();
    assert_eq!(recipients, vec!["a@example.com", "b@example.com"]);
}

#[test]
fn distinct_keys_publish_distinct_issues() {
    let mut store = ServiceStore::new();
    seed_confirmed(&mut store, &["a@example.com"]);

    publish_newsletter(&mut store, 7, publish_form("key-one")).expect("first publish");
    publish_newsletter(&mut store, 7, publish_form("key-two")).expect("second publish");

    assert_eq!(store.issues.len(), 2);
    assert_eq!(store.queue.len(), 2);
}

#[test]
fn the_same_key_under_another_user_publishes_separately() {
    let mut store = ServiceStore::new();
    seed_confirmed(&mut store, &["a@example.com"]);

    publish_newsletter(&mut store, 7, publish_form("shared-key")).expect("first user");
    publish_newsletter(&mut store, 8, publish_form("shared-key")).expect("second user");

    assert_eq!(store.issues.len(), 2);
}

#[test]
fn an_empty_idempotency_key_is_rejected_before_any_side_effect() {
    let mut store = ServiceStore::new();
    seed_confirmed(&mut store, &["a@example.com", "b@example.com", "c@example.com"]);

    let err = publish_newsletter(&mut store, 7, publish_form(""))
        .expect_err("an empty key must be rejected");
    assert_eq!(err.status_code(), 400);

    assert_eq!(store.issues.len(), 0);
    assert_eq!(store.queue.len(), 0);
    let mut calls = 0;
    let (delivered, dead) = run_delivery_worker(&store.issues, &mut store.queue, |_| {
        calls += 1;
        true
    });
    assert_eq!(calls, 0);
    assert_eq!(delivered, 0);
    assert_eq!(dead, 0);
}

#[test]
fn a_key_claimed_by_a_concurrent_request_yields_a_retryable_failure() {
    let mut store = ServiceStore::new();
    seed_confirmed(&mut store, &["a@example.com"]);

    let key = IdempotencyKey::parse("contended".to_string()).expect("a valid key");
    match store.idempotency.try_processing(7, &key) {
        Ok(NextAction::StartProcessing) => {}
        _ => panic!("the first claim must start processing"),
    }

    let err = publish_newsletter(&mut store, 7, publish_form("contended"))
        .expect_err("the loser must observe a retryable failure, not success");
    assert_eq!(err.status_code(), 500);
    assert_eq!(store.queue.len(), 0);
    assert_eq!(store.issues.len(), 0);
}

#[test]
fn a_task_whose_send_always_fails_is_dead_lettered_after_the_ceiling() {
    let mut store = ServiceStore::new();
    seed_confirmed(&mut store, &["a@example.com"]);
    publish_newsletter(&mut store, 7, publish_form("doomed")).expect("publish");
    assert_eq!(store.queue.len(), 1);

    let mut attempts = 0;
    let (delivered, dead) = run_delivery_worker(&store.issues, &mut store.queue, |_| {
        attempts += 1;
        false
    });
    assert_eq!(attempts, RETRY_CEILING as usize);
    assert_eq!(delivered, 0);
    assert_eq!(dead, 1);
    assert_eq!(store.queue.len(), 0);
}

#[test]
fn one_failing_recipient_does_not_block_the_others() {
    let mut store = ServiceStore::new();
    seed_confirmed(&mut store, &["good@example.com", "bad@example.com"]);
    publish_newsletter(&mut store, 7, publish_form("mixed")).expect("publish");

    let (delivered, dead) = run_delivery_worker(&store.issues, &mut store.queue, |req| {
        req.to != "bad@example.com"
    });
    assert_eq!(delivered, 1);
    assert_eq!(dead, 1);
    assert_eq!(store.queue.len(), 0);
}

#[test]
fn concurrent_claims_yield_distinct_tasks() {
    let mut store = ServiceStore::new();
    seed_confirmed(&mut store, &["a@example.com", "b@example.com"]);
    publish_newsletter(&mut store, 7, publish_form("claims")).expect("publish");

    let first = store.queue.claim_next().expect("two tasks are queued");
    let second = store.queue.claim_next().expect("one task is still unclaimed");
    assert_ne!(first, second);
    assert!(store.queue.claim_next().is_none());
}

#[test]
fn saved_responses_replay_with_status_headers_and_body_intact() {
    let mut idem = newsletter::idempotency::IdempotencyStore::new();
    let key = IdempotencyKey::parse("roundtrip".to_string()).expect("a valid key");
    match idem.try_processing(9, &key) {
        Ok(NextAction::StartProcessing) => {}
        _ => panic!("the first claim must start processing"),
    }
    let response = SavedHttpResponse {
        status: 201,
        headers: vec![
            ("b".to_string(), "2".to_string()),
            ("a".to_string(), "1".to_string()),
            ("a".to_string(), "3".to_string()),
        ],
        body: vec![1, 2, 3],
    };
    idem.save_response(9, &key, response).expect("saving must succeed");

    let saved = idem.get_saved_response(9, &key).expect("the record is completed");
    assert_eq!(saved.status, 201);
    assert_eq!(
        saved.headers,
        vec![
            ("b".to_string(), "2".to_string()),
            ("a".to_string(), "1".to_string()),
            ("a".to_string(), "3".to_string()),
        ]
    );
    assert_eq!(saved.body, vec![1, 2, 3]);

    match idem.try_processing(9, &key) {
        Ok(NextAction::ReturnSavedResponse(replayed)) => {
            assert_eq!(replayed.status, 201);
            assert_eq!(replayed.body, vec![1, 2, 3]);
        }
        _ => panic!("a completed record must replay"),
    }
}

#[test]
fn idempotency_keys_are_bounded_and_non_empty() {
    assert!(IdempotencyKey::parse("".to_string()).is_err());
    assert!(IdempotencyKey::parse("a".repeat(50)).is_ok());
    assert!(IdempotencyKey::parse("a".repeat(51)).is_err());
    let key = IdempotencyKey::parse("abc123".to_string()).expect("a valid key");
    assert_eq!(key.as_string(), "abc123");
}
