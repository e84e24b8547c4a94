use notmux::remote_action::{reply_verdict, status_failure, ActionReply};

#[test]
fn failed_status_reports_code_and_body() {
    assert_eq!(status_failure("401 Unauthorized", "bad token"), "Server returned 401 Unauthorized: bad token");
}

#[test]
fn error_field_wins_over_ok() {
    assert_eq!(reply_verdict(Some("no such terminal"), true), ActionReply::Failed("no such terminal".to_string()));
}

#[test]
fn ok_field_means_no_result() {
    assert_eq!(reply_verdict(None, true), ActionReply::Done);
}

#[test]
fn other_bodies_are_the_result() {
    assert_eq!(reply_verdict(None, false), ActionReply::Payload);
}
