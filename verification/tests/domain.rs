use zero2prod::domain::NewSubscriber;
use zero2prod::domain::SubscriberEmail;
use zero2prod::domain::SubscriberName;
use zero2prod::subscriptions::FormData;

#[test]
fn test_empty_string_is_rejected() {
    let email = "".to_string();
    assert!(SubscriberEmail::parse(email).is_err());
}

#[test]
fn test_no_at_symbol_rejected() {
    let email = "nategmail.com".to_string();
    assert!(SubscriberEmail::parse(email).is_err());
}

#[test]
fn test_missing_subject_rejected() {
    let email = "@gmail.com".to_string();
    assert!(SubscriberEmail::parse(email).is_err());
}

#[test]
fn a_256_graphene_is_ok() {
    let name = "n".repeat(256);
    let sub = SubscriberName::parse(name);
    assert!(sub.is_ok());
}

#[test]
fn a_longer_than_256_graphene_is_err() {
    let name = "n".repeat(257);
    let sub = SubscriberName::parse(name);
    assert!(sub.is_err());
}

#[test]
fn whitespace_only_name_rejected() {
    let name = "    ".to_string();
    let sub = SubscriberName::parse(name);
    assert!(sub.is_err());
}

#[test]
fn empty_string_name_rejected() {
    let name = "".to_string();
    let sub = SubscriberName::parse(name);
    assert!(sub.is_err());
}

#[test]
fn invalid_character_names_rejected() {
    let name = "nate<nethercott)".to_string();
    let sub = SubscriberName::parse(name);
    assert!(sub.is_err());
}

#[test]
fn valid_email_accepted_and_kept() {
    let email = SubscriberEmail::parse("ursula_le_guin@gmail.com".to_string()).unwrap();
    assert_eq!(email.as_ref(), "ursula_le_guin@gmail.com");
}

#[test]
fn valid_name_accepted_and_kept() {
    let name = SubscriberName::parse("le guin".to_string()).unwrap();
    assert_eq!(name.as_ref(), "le guin");
}

#[test]
fn confirmed_subscribers_keep_invalid_rows_as_errors() {
    let rows = vec![
        "valid@example.com".to_string(),
        "definitely-not-an-email".to_string(),
        "other@example.com".to_string(),
    ];
    let parsed = zero2prod::newsletter::get_confirmed_subscribers(&rows);
    assert_eq!(parsed.len(), 3);
    assert_eq!(parsed[0].as_ref().unwrap().email.as_ref(), "valid@example.com");
    assert!(parsed[1].is_err());
    assert_eq!(parsed[2].as_ref().unwrap().email.as_ref(), "other@example.com");
}

#[test]
fn parse_rejections_carry_their_reason() {
    assert_eq!(
        SubscriberEmail::parse("nope".to_string()).unwrap_err(),
        "invalid email provided"
    );
    assert_eq!(
        SubscriberName::parse("".to_string()).unwrap_err(),
        "invalid subscriber name !"
    );
}

#[test]
fn new_subscriber_from_valid_form() {
    let form = FormData { name: "le guin".to_string(), email: "ursula_le_guin@gmail.com".to_string() };
    let sub = NewSubscriber::try_from(form).unwrap();
    assert_eq!(sub.name.as_ref(), "le guin");
    assert_eq!(sub.email.as_ref(), "ursula_le_guin@gmail.com");
}

#[test]
fn new_subscriber_rejects_bad_name_first() {
    let form = FormData { name: "".to_string(), email: "ursula_le_guin@gmail.com".to_string() };
    assert!(NewSubscriber::try_from(form).is_err());
}

#[test]
fn new_subscriber_rejects_bad_email() {
    let form = FormData { name: "nate".to_string(), email: "super-bad-email".to_string() };
    assert!(NewSubscriber::try_from(form).is_err());
}
