use grpc_datastore::startup::{
    PingReply, StartupAction, StartupProbe, MAX_PING_ATTEMPTS, PING_RETRY_DELAY_SECS,
};

fn run(replies: &[PingReply]) -> Vec<StartupAction> {
    let mut probe = StartupProbe::new();
    let mut actions = Vec::new();
    for reply in replies {
        assert!(probe.may_ping());
        let action = probe.record(*reply);
        actions.push(action);
        if action != StartupAction::WaitThenPing {
            break;
        }
    }
    actions
}

#[test]
fn retry_policy_constants() {
    assert_eq!(MAX_PING_ATTEMPTS, 5);
    assert_eq!(PING_RETRY_DELAY_SECS, 1);
}

#[test]
fn ready_on_first_ok_reply() {
    assert_eq!(run(&[PingReply::Answered(true)]), vec![StartupAction::Ready]);
}

#[test]
fn not_ready_reply_counts_as_failure() {
    assert_eq!(
        run(&[PingReply::Answered(false), PingReply::Answered(true)]),
        vec![StartupAction::WaitThenPing, StartupAction::Ready]
    );
}

#[test]
fn failed_calls_then_ready() {
    assert_eq!(
        run(&[PingReply::Failed, PingReply::Failed, PingReply::Failed, PingReply::Answered(true)]),
        vec![
            StartupAction::WaitThenPing,
            StartupAction::WaitThenPing,
            StartupAction::WaitThenPing,
            StartupAction::Ready
        ]
    );
}

#[test]
fn ready_on_fifth_and_last_attempt() {
    let mut replies = vec![PingReply::Failed; 4];
    replies.push(PingReply::Answered(true));
    let actions = run(&replies);
    assert_eq!(actions.len(), 5);
    assert_eq!(actions[4], StartupAction::Ready);
}

#[test]
fn gives_up_after_five_failures() {
    let replies = vec![PingReply::Failed; 8];
    let actions = run(&replies);
    assert_eq!(
        actions,
        vec![
            StartupAction::WaitThenPing,
            StartupAction::WaitThenPing,
            StartupAction::WaitThenPing,
            StartupAction::WaitThenPing,
            StartupAction::WaitThenFail
        ]
    );
}

#[test]
fn no_more_pings_after_giving_up() {
    let mut probe = StartupProbe::new();
    for _ in 0..4 {
        assert_eq!(probe.record(PingReply::Answered(false)), StartupAction::WaitThenPing);
    }
    assert_eq!(probe.record(PingReply::Failed), StartupAction::WaitThenFail);
    assert!(!probe.may_ping());
}
