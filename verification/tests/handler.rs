use zero2prod::handler::health_check_response;
use zero2prod::handler::settle;
use zero2prod::handler::status_code;
use zero2prod::handler::validate_submission;
use zero2prod::handler::Submission;
use zero2prod::persistence::PersistenceError;
use zero2prod::persistence::SubscriptionRecord;

fn body(s: &str) -> Vec<u8> {
    s.as_bytes().to_vec()
}

#[test]
fn subscribe_returns_a_200_for_valid_form_data() {
    let submission = validate_submission(&body("name=le%20guin&email=ursula_le_guin%40gmail.com"));
    let subscriber = match submission {
        Submission::Validated(subscriber) => subscriber,
        _ => panic!("a valid submission must reach the validated state"),
    };
    let record = SubscriptionRecord::for_subscriber(&subscriber);
    assert_eq!(record.email, "ursula_le_guin@gmail.com");
    assert_eq!(record.name, "le guin");
    let (state, log_line) = settle(Ok(()));
    assert!(matches!(state, Submission::Accepted));
    assert!(log_line.is_none());
    assert_eq!(status_code(&state), 200);
}

#[test]
fn subscribe_returns_a_400_when_data_is_missing() {
    let test_cases = vec![
        ("name=le%20guin", "missing the email"),
        ("email=ursula_le_guin%40gmail.com", "missing the name"),
        ("", "missing both name and email"),
    ];
    for (payload, error_msg) in test_cases {
        let submission = validate_submission(&body(payload));
        assert!(
            matches!(submission, Submission::Rejected),
            "the submission was not rejected when the payload was {}.",
            error_msg
        );
        assert_eq!(status_code(&submission), 400);
    }
}

#[test]
fn subscribe_returns_a_400_for_an_empty_name() {
    let submission = validate_submission(&body("name=&email=ursula_le_guin%40gmail.com"));
    assert!(matches!(submission, Submission::Rejected));
    assert_eq!(status_code(&submission), 400);
}

#[test]
fn subscribe_returns_a_400_for_a_malformed_email() {
    let submission = validate_submission(&body("name=le%20guin&email=not-an-email"));
    assert!(matches!(submission, Submission::Rejected));
}

#[test]
fn health_check_works() {
    let (status, response_body) = health_check_response();
    assert_eq!(status, 200);
    assert_eq!(response_body.len(), 0);
}

#[test]
fn a_persistence_failure_maps_to_a_500_and_one_log_line() {
    let outcome = Err(PersistenceError { cause: "store unreachable".to_string() });
    let (state, log_line) = settle(outcome);
    assert!(matches!(state, Submission::PersistFailed));
    assert_eq!(log_line, Some("store unreachable".to_string()));
    assert_eq!(status_code(&state), 500);
}

#[test]
fn a_record_carries_the_validated_fields_verbatim() {
    let submission = validate_submission(&body("name=a+b&email=x%40y.com"));
    let subscriber = match submission {
        Submission::Validated(subscriber) => subscriber,
        _ => panic!("a valid submission must reach the validated state"),
    };
    let first = SubscriptionRecord::for_subscriber(&subscriber);
    let second = SubscriptionRecord::for_subscriber(&subscriber);
    assert_eq!(first.email, "x@y.com");
    assert_eq!(first.name, "a b");
    assert_ne!(first.id, second.id, "identifiers must be fresh per record");
}
