use zero2prod::authentication::AuthError;
use zero2prod::authentication::LoginError;
use zero2prod::configuration::Environment;
use zero2prod::email_client::SendEmailRequest;
use zero2prod::email_client::send_email_url;
use zero2prod::idempotency::StoreError;
use zero2prod::issue_delivery_workers::ExecutionOutcome;
use zero2prod::issue_delivery_workers::worker_backoff_seconds;
use zero2prod::newsletter::BodyData;
use zero2prod::newsletter::Content;
use zero2prod::subscriptions::SubscribeError;
use zero2prod::subscriptions::confirmation_email_html;
use zero2prod::subscriptions::confirmation_email_text;
use zero2prod::subscriptions::confirmation_link;
use zero2prod::subscriptions::generate_random_token;
use zero2prod::utils::see_other;

#[test]
fn environment_names_round_trip() {
    let local = Environment::try_from("local".to_string()).unwrap();
    assert_eq!(local.to_string(), "local");
    let prod = Environment::try_from("production".to_string()).unwrap();
    assert_eq!(prod.to_string(), "production");
}

#[test]
fn environment_parsing_ignores_case() {
    let local = Environment::try_from("LoCaL".to_string()).unwrap();
    assert_eq!(local.to_string(), "local");
    let prod = Environment::try_from("PRODUCTION".to_string()).unwrap();
    assert_eq!(prod.to_string(), "production");
}

#[test]
fn unknown_environment_is_rejected() {
    let err = Environment::try_from("staging".to_string()).unwrap_err();
    assert_eq!(err, "environment staging not found; use either `local` or `production`");
}

#[test]
fn auth_error_status_codes() {
    assert_eq!(AuthError::InvalidCredentials("no such user".to_string()).status_code(), 401);
    assert_eq!(AuthError::UnexpectedError("boom".to_string()).status_code(), 500);
}

#[test]
fn login_error_mirrors_auth_error() {
    let e = LoginError::from_auth_error(AuthError::InvalidCredentials("bad".to_string()));
    assert!(matches!(e, LoginError::AuthError(m) if m == "bad"));
    let e = LoginError::from_auth_error(AuthError::UnexpectedError("boom".to_string()));
    assert!(matches!(e, LoginError::UnexpectedError(m) if m == "boom"));
}

#[test]
fn subscribe_error_status_codes() {
    assert_eq!(SubscribeError::ValidationError("bad form".to_string()).status_code(), 400);
    assert_eq!(SubscribeError::Other("boom".to_string()).status_code(), 500);
}

#[test]
fn random_token_is_32_alphanumeric_chars() {
    let token = generate_random_token();
    assert_eq!(token.chars().count(), 32);
    assert!(token.chars().all(|c| c.is_ascii_alphanumeric()));
    // two draws almost surely differ; equal draws would hint at a
    // constant stub
    let other = generate_random_token();
    assert_ne!(token, other);
}

#[test]
fn body_data_new_generates_a_valid_key() {
    let body = BodyData::new(
        "title".to_string(),
        Content { text: "text".to_string(), html: "html".to_string() },
    );
    assert_eq!(body.title, "title");
    assert_eq!(body.idempotency_key.len(), 36);
    let again = BodyData::new(
        "title".to_string(),
        Content { text: "text".to_string(), html: "html".to_string() },
    );
    assert_ne!(body.idempotency_key, again.idempotency_key);
}

#[test]
fn confirmation_link_and_bodies() {
    let link = confirmation_link("https://example.com", "tok123");
    assert_eq!(link, "https://example.com/subscribe/confirm?token=tok123");
    assert_eq!(
        confirmation_email_text(&link),
        "welcome to the newsletter!\nClick https://example.com/subscribe/confirm?token=tok123 to confirm"
    );
    assert_eq!(
        confirmation_email_html(&link),
        "welcome to the newsletter!<br />Click <a href=\"https://example.com/subscribe/confirm?token=tok123\"here</a> to confirm"
    );
}

#[test]
fn send_email_request_keeps_its_fields() {
    let r = SendEmailRequest::new(
        "sender@example.com".to_string(),
        "rcpt@example.com".to_string(),
        "subject".to_string(),
        "text".to_string(),
        "<p>html</p>".to_string(),
    );
    assert_eq!(r.from, "sender@example.com");
    assert_eq!(r.to, "rcpt@example.com");
    assert_eq!(r.subject, "subject");
    assert_eq!(r.text_body, "text");
    assert_eq!(r.html_body, "<p>html</p>");
}

#[test]
fn send_email_url_appends_the_endpoint() {
    assert_eq!(send_email_url("https://mail.example.com"), "https://mail.example.com/email");
}

#[test]
fn see_other_is_a_location_redirect() {
    let r = see_other("/admin/dashboard");
    assert_eq!(r.status, 303);
    assert_eq!(r.headers.len(), 1);
    assert_eq!(r.headers[0].name, "location");
    assert_eq!(r.headers[0].value, b"/admin/dashboard".to_vec());
    assert!(r.body.is_empty());
}

#[test]
fn worker_backoff_matches_the_outcome() {
    assert_eq!(worker_backoff_seconds(&Ok(ExecutionOutcome::EmptyQueue)), 10);
    assert_eq!(worker_backoff_seconds(&Ok(ExecutionOutcome::TaskCompleted)), 0);
    assert_eq!(worker_backoff_seconds(&Ok(ExecutionOutcome::TaskFailed)), 0);
    assert_eq!(worker_backoff_seconds(&Err(StoreError::IssueNotFound)), 1);
}
