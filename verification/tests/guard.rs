use upload_gateway::guard::{key_guard_decision, status_color, GuardDecision, StatusColor};

#[test]
fn read_requests_always_pass() {
    assert_eq!(key_guard_decision(true, None, "s3cr3t"), GuardDecision::Allow);
    let wrong = String::from("wrong");
    assert_eq!(
        key_guard_decision(true, Some(&wrong), "s3cr3t"),
        GuardDecision::Allow
    );
}

#[test]
fn non_read_request_without_key_is_rejected() {
    assert_eq!(
        key_guard_decision(false, None, "s3cr3t"),
        GuardDecision::MissingKey
    );
}

#[test]
fn matching_key_passes_and_any_other_is_rejected() {
    let right = String::from("s3cr3t");
    assert_eq!(
        key_guard_decision(false, Some(&right), "s3cr3t"),
        GuardDecision::Allow
    );
    let wrong = String::from("s3cr3t ");
    assert_eq!(
        key_guard_decision(false, Some(&wrong), "s3cr3t"),
        GuardDecision::WrongKey
    );
    let empty = String::new();
    assert_eq!(
        key_guard_decision(false, Some(&empty), "s3cr3t"),
        GuardDecision::WrongKey
    );
}

#[test]
fn status_colors_follow_the_status_class() {
    assert_eq!(status_color(200), StatusColor::Green);
    assert_eq!(status_color(204), StatusColor::Green);
    assert_eq!(status_color(299), StatusColor::Green);
    assert_eq!(status_color(400), StatusColor::Red);
    assert_eq!(status_color(404), StatusColor::Red);
    assert_eq!(status_color(500), StatusColor::Red);
    assert_eq!(status_color(100), StatusColor::Yellow);
    assert_eq!(status_color(199), StatusColor::Yellow);
    assert_eq!(status_color(301), StatusColor::Yellow);
    assert_eq!(status_color(399), StatusColor::Yellow);
}
