use companion::watcher::{frontend_payload, watch_start_result, FrontendPayload, NotifyStart};
use companion::state::StatuslineState;
use companion::watcher::{
    frontend_event_name, touches_state_file, watch_event_for, DebounceAction, Debouncer,
    Notification, PollAction, PollObservation, Poller, ReadOutcome, StateWatcher, WaitPlan,
    WatchEvent, DEBOUNCE_MS, DEBOUNCE_NANOS, POLL_INTERVAL_MS,
};

#[test]
fn test_state_watcher_new() {
    let watcher = StateWatcher::new();
    assert!(watcher.watched_pid().is_none());
    assert!(!watcher.has_notify_watcher());
}

#[test]
fn state_watcher_polling_and_stop() {
    let mut watcher = StateWatcher::default();
    let (stop_tx, stop_rx) = std::sync::mpsc::channel::<()>();
    watcher.begin_polling(4242, stop_tx);
    assert_eq!(watcher.watched_pid(), Some(4242));
    assert!(!watcher.has_notify_watcher());
    assert!(matches!(stop_rx.try_recv(), Err(std::sync::mpsc::TryRecvError::Empty)));
    watcher.stop_watching();
    assert!(watcher.watched_pid().is_none());
    // stopping closes the polling task's stop channel
    assert!(matches!(stop_rx.try_recv(), Err(std::sync::mpsc::TryRecvError::Disconnected)));
}

#[test]
fn state_watcher_begin_watch_records_pid() {
    let mut watcher = StateWatcher::new();
    let (_tx, rx) = std::sync::mpsc::channel();
    assert_eq!(watcher.begin_watch(77, true, "/tmp/x/state.json", rx), Ok(()));
    assert_eq!(watcher.watched_pid(), Some(77));
    watcher.stop_watching();
    assert!(watcher.watched_pid().is_none());
}

#[test]
fn state_watcher_begin_watch_missing_file() {
    let mut watcher = StateWatcher::new();
    let (stop_tx, _stop_rx) = std::sync::mpsc::channel::<()>();
    watcher.begin_polling(5, stop_tx);
    let (_tx, rx) = std::sync::mpsc::channel();
    assert_eq!(
        watcher.begin_watch(6, false, "/tmp/pid-6/state.json", rx),
        Err("State file does not exist: /tmp/pid-6/state.json".to_string())
    );
    // the earlier watch was stopped and nothing new was recorded
    assert!(watcher.watched_pid().is_none());
}

#[test]
fn test_parse_error_format() {
    let error = WatchEvent::ParseError {
        error: "JSON parse error: expected }".to_string(),
    };

    match error {
        WatchEvent::ParseError { error: msg } => {
            assert!(msg.contains("JSON parse error"));
        }
        _ => panic!("Expected ParseError variant"),
    }
}

#[test]
fn test_watch_event_variants() {
    // Test StateUpdated variant
    let state = StatuslineState {
        children: Vec::new(),
        updated_at: "2024-01-01T00:00:00Z".to_string(),
    };
    let event = WatchEvent::StateUpdated(state);
    assert!(matches!(event, WatchEvent::StateUpdated(_)));

    // Test StateMissing variant
    let event = WatchEvent::StateMissing;
    assert!(matches!(event, WatchEvent::StateMissing));

    // Test ParseError variant
    let event = WatchEvent::ParseError { error: "test".to_string() };
    assert!(matches!(event, WatchEvent::ParseError { .. }));
}

#[test]
fn test_debounce_timing() {
    // Verify the constants are sensible
    assert_eq!(DEBOUNCE_MS, 100);
    assert_eq!(POLL_INTERVAL_MS, 1000);
}

#[test]
fn debounce_nanos_is_debounce_ms() {
    assert_eq!(DEBOUNCE_NANOS, 100_000_000);
}

#[test]
fn debouncer_blocks_when_idle() {
    let d = Debouncer::new();
    assert!(matches!(d.wait_plan(5), WaitPlan::Block));
}

#[test]
fn debouncer_reads_once_after_delay() {
    let mut d = Debouncer::new();
    let t = 1_000;
    let action = d.on_notification(Notification::Changed { touches_state_file: true }, t);
    assert!(matches!(action, DebounceAction::Idle));
    assert_eq!(d.deadline, Some(t + DEBOUNCE_NANOS));
    assert!(d.pending);
    // before the deadline: wait exactly until it
    assert!(matches!(d.wait_plan(t + 10), WaitPlan::WaitAtMost { nanos } if nanos == DEBOUNCE_NANOS - 10));
    // a quiet wait that ends too early: nothing
    let early = d.on_notification(Notification::TimedOut, t + DEBOUNCE_NANOS - 1);
    assert!(matches!(early, DebounceAction::Idle));
    // quiet until the deadline: read once
    let due = d.on_notification(Notification::TimedOut, t + DEBOUNCE_NANOS);
    assert!(matches!(due, DebounceAction::ReadState));
    assert_eq!(d.deadline, None);
    assert!(!d.pending);
    assert!(matches!(d.wait_plan(t + DEBOUNCE_NANOS), WaitPlan::Block));
    let again = d.on_notification(Notification::TimedOut, t + 5 * DEBOUNCE_NANOS);
    assert!(matches!(again, DebounceAction::Idle));
}

#[test]
fn debouncer_burst_reads_once() {
    let mut d = Debouncer::new();
    for t in [0u64, 30_000_000, 60_000_000, 90_000_000] {
        d.on_notification(Notification::Changed { touches_state_file: true }, t);
        let quiet = d.on_notification(Notification::TimedOut, t + 20_000_000);
        assert!(matches!(quiet, DebounceAction::Idle));
    }
    let due = d.on_notification(Notification::TimedOut, 90_000_000 + DEBOUNCE_NANOS);
    assert!(matches!(due, DebounceAction::ReadState));
}

#[test]
fn debouncer_waits_nothing_once_past_deadline() {
    let mut d = Debouncer::new();
    d.on_notification(Notification::Changed { touches_state_file: true }, 0);
    assert!(matches!(d.wait_plan(DEBOUNCE_NANOS + 7), WaitPlan::WaitAtMost { nanos } if nanos == 0));
}

#[test]
fn debouncer_stops_on_close_without_reading() {
    let mut d = Debouncer::new();
    d.on_notification(Notification::Changed { touches_state_file: true }, 0);
    let action = d.on_notification(Notification::Closed, 2 * DEBOUNCE_NANOS);
    assert!(matches!(action, DebounceAction::Stop));
    assert_eq!(d.deadline, None);
    assert!(!d.pending);
}

#[test]
fn debouncer_restarts_delay_on_new_change() {
    let mut d = Debouncer::new();
    d.on_notification(Notification::Changed { touches_state_file: true }, 0);
    d.on_notification(Notification::Changed { touches_state_file: true }, 50);
    assert_eq!(d.deadline, Some(50 + DEBOUNCE_NANOS));
    let action = d.on_notification(Notification::TimedOut, DEBOUNCE_NANOS);
    assert!(matches!(action, DebounceAction::Idle));
}

#[test]
fn debouncer_ignores_other_files() {
    let mut d = Debouncer::new();
    let action = d.on_notification(Notification::Changed { touches_state_file: false }, 10);
    assert!(matches!(action, DebounceAction::Idle));
    assert_eq!(d.deadline, None);
    assert!(!d.pending);
}

#[test]
fn debouncer_reports_watcher_errors() {
    let mut d = Debouncer::new();
    let action = d.on_notification(Notification::Failed { message: "boom".to_string() }, 10);
    match action {
        DebounceAction::Emit(WatchEvent::ParseError { error }) => {
            assert_eq!(error, "Notify error: boom")
        }
        _ => panic!("expected an emitted parse error"),
    }
    assert!(!d.pending);
}

#[test]
fn touches_state_file_checks_names() {
    assert!(touches_state_file(&vec![None, Some("state.json".to_string())]));
    assert!(!touches_state_file(&vec![Some("state.json.tmp".to_string()), None]));
    assert!(!touches_state_file(&vec![]));
}

#[test]
fn watch_event_for_outcomes() {
    assert!(matches!(watch_event_for(ReadOutcome::Missing), WatchEvent::StateMissing));
    match watch_event_for(ReadOutcome::Invalid { error: "expected }".to_string() }) {
        WatchEvent::ParseError { error } => assert_eq!(error, "JSON parse error: expected }"),
        _ => panic!("expected a parse error"),
    }
    let state = StatuslineState::new("2024".to_string());
    match watch_event_for(ReadOutcome::Parsed(state)) {
        WatchEvent::StateUpdated(s) => assert_eq!(s.updated_at, "2024"),
        _ => panic!("expected an update"),
    }
}

#[test]
fn frontend_event_names() {
    assert_eq!(frontend_event_name(&WatchEvent::StateMissing), "state-missing");
    assert_eq!(
        frontend_event_name(&WatchEvent::ParseError { error: String::new() }),
        "parse-error"
    );
    assert_eq!(
        frontend_event_name(&WatchEvent::StateUpdated(StatuslineState::new(String::new()))),
        "state-updated"
    );
}

#[test]
fn poller_reads_each_change_once() {
    let mut p = Poller::new();
    assert_eq!(p.on_poll(PollObservation::Present { modified_ms: Some(10) }), PollAction::ReadState);
    assert_eq!(p.on_poll(PollObservation::Present { modified_ms: Some(10) }), PollAction::Idle);
    assert_eq!(p.on_poll(PollObservation::Present { modified_ms: Some(11) }), PollAction::ReadState);
    assert_eq!(p.on_poll(PollObservation::Missing), PollAction::EmitMissing);
    assert_eq!(p.last_modified, None);
    assert_eq!(p.on_poll(PollObservation::Missing), PollAction::EmitMissing);
    assert_eq!(p.on_poll(PollObservation::Present { modified_ms: Some(11) }), PollAction::ReadState);
}

#[test]
fn poller_stops() {
    let mut p = Poller::new();
    assert_eq!(p.delay_before_poll_ms(), POLL_INTERVAL_MS);
    assert_eq!(p.on_poll(PollObservation::Present { modified_ms: Some(10) }), PollAction::ReadState);
    assert_eq!(p.on_poll(PollObservation::Stopped), PollAction::Stop);
}

#[test]
fn poller_unknown_time_at_start_is_not_read() {
    let mut p = Poller::new();
    assert_eq!(p.on_poll(PollObservation::Present { modified_ms: None }), PollAction::Idle);
}

#[test]
fn watch_start_results() {
    assert_eq!(watch_start_result(NotifyStart::Watching), Ok(Some(())));
    assert_eq!(watch_start_result(NotifyStart::Unavailable), Ok(None));
    assert_eq!(
        watch_start_result(NotifyStart::WatchFailed { message: "no such dir".to_string() }),
        Err("Failed to watch directory: no such dir".to_string())
    );
}

#[test]
fn frontend_payloads() {
    assert!(matches!(frontend_payload(WatchEvent::StateMissing, 12), FrontendPayload::Pid(12)));
    match frontend_payload(WatchEvent::ParseError { error: "bad".to_string() }, 7) {
        FrontendPayload::PidError { pid, error } => {
            assert_eq!(pid, 7);
            assert_eq!(error, "bad");
        }
        _ => panic!("expected a pid and an error"),
    }
    match frontend_payload(WatchEvent::StateUpdated(StatuslineState::new("u".to_string())), 7) {
        FrontendPayload::State(s) => assert_eq!(s.updated_at, "u"),
        _ => panic!("expected a state"),
    }
}
