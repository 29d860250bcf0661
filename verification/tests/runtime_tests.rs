use adguardian::runtime::{
    connected_message, connection_outcome, next_action, protocol_or_default, query_log_limit, timeout_secs,
    update_interval_secs, Channel, ConnectionOutcome, LoopAction, LoopEvent, SettingError,
};

#[test]
fn settings() {
    assert_eq!(timeout_secs(None), Ok(5));
    assert_eq!(timeout_secs(Some("10")), Ok(10));
    assert_eq!(timeout_secs(Some("0")), Ok(1));
    assert_eq!(timeout_secs(Some("ten")), Err(SettingError::NotANumber));
    assert_eq!(update_interval_secs(None), Ok(2));
    assert_eq!(update_interval_secs(Some("0")), Ok(1));
    assert_eq!(update_interval_secs(Some("-1")), Err(SettingError::NotANumber));
    assert_eq!(query_log_limit(None), Ok(100));
    assert_eq!(query_log_limit(Some("0")), Ok(0));
    assert_eq!(query_log_limit(Some("4294967295")), Ok(u32::MAX));
    assert_eq!(query_log_limit(Some("4294967296")), Err(SettingError::NotANumber));
    assert_eq!(protocol_or_default(None), "http");
    assert_eq!(protocol_or_default(Some("https")), "https");
}

#[test]
fn connection_check() {
    assert_eq!(connection_outcome(Some(200)), ConnectionOutcome::Connected);
    assert_eq!(connection_outcome(Some(401)), ConnectionOutcome::AuthRejected);
    assert_eq!(connection_outcome(Some(302)), ConnectionOutcome::AuthRejected);
    assert_eq!(connection_outcome(None), ConnectionOutcome::Unreachable);
    assert_eq!(connected_message(Some("v0.107.50")), "AdGuard (v0.107.50) connection successful!\n");
    assert_eq!(connected_message(None), "AdGuard (mystery version) connection successful!\n");
}

#[test]
fn loop_decisions() {
    assert_eq!(next_action(LoopEvent::Tick), LoopAction::FetchAll);
    assert_eq!(next_action(LoopEvent::Shutdown), LoopAction::Stop);
    assert_eq!(next_action(LoopEvent::Fetched { ok: true }), LoopAction::Send(Channel::Queries));
    assert_eq!(next_action(LoopEvent::Fetched { ok: false }), LoopAction::Wait);
    assert_eq!(next_action(LoopEvent::Sent { channel: Channel::Queries, ok: true }), LoopAction::Send(Channel::Stats));
    assert_eq!(next_action(LoopEvent::Sent { channel: Channel::Stats, ok: true }), LoopAction::Send(Channel::Status));
    assert_eq!(next_action(LoopEvent::Sent { channel: Channel::Status, ok: true }), LoopAction::Wait);
    for c in [Channel::Queries, Channel::Stats, Channel::Status] {
        assert_eq!(next_action(LoopEvent::Sent { channel: c, ok: false }), LoopAction::Stop);
    }
}

/// Runs rounds through the loop's decisions; returns what was handed over and
/// whether the loop stopped.
fn simulate(rounds: &[(bool, [bool; 3])]) -> (Vec<Channel>, bool) {
    let mut taken = Vec::new();
    for (fetch_ok, sends) in rounds {
        assert_eq!(next_action(LoopEvent::Tick), LoopAction::FetchAll);
        let mut action = next_action(LoopEvent::Fetched { ok: *fetch_ok });
        let mut i = 0;
        while let LoopAction::Send(c) = action {
            let ok = sends[i];
            i += 1;
            if ok {
                taken.push(c);
            }
            action = next_action(LoopEvent::Sent { channel: c, ok });
        }
        if action == LoopAction::Stop {
            return (taken, true);
        }
    }
    (taken, false)
}

#[test]
fn updates_are_all_or_nothing() {
    let (taken, stopped) = simulate(&[(true, [true; 3]), (false, [true; 3]), (true, [true; 3])]);
    assert!(!stopped);
    assert_eq!(taken, vec![Channel::Queries, Channel::Stats, Channel::Status, Channel::Queries, Channel::Stats, Channel::Status]);
    let (taken, stopped) = simulate(&[(true, [true; 3]), (true, [true, false, true]), (true, [true; 3])]);
    assert!(stopped);
    assert_eq!(taken, vec![Channel::Queries, Channel::Stats, Channel::Status, Channel::Queries]);
    let (taken, stopped) = simulate(&[(false, [false; 3])]);
    assert!(!stopped);
    assert!(taken.is_empty());
}
