use companion::state::{
    AppState, ChildEntry, ChildSessionState, ChildStatus, ChildTokenState, StatuslineState,
};
use companion::watcher::{StateWatcher, WatchEvent};
use std::sync::Mutex;

fn session(id: &str, status: ChildStatus) -> ChildSessionState {
    ChildSessionState {
        id: id.to_string(),
        title: "Test Agent".to_string(),
        parent_id: "parent1".to_string(),
        message_id: None,
        source: Some("session".to_string()),
        status,
        color: "yellow".to_string(),
        started_at: "2024-01-01T00:00:00Z".to_string(),
        updated_at: "2024-01-01T00:00:01Z".to_string(),
        ended_at: None,
        elapsed_ms: Some(5000),
        tokens: Some(ChildTokenState {
            input: Some(100),
            output: Some(200),
            total: Some(300),
            context_percent_bits: Some(75.5f32.to_bits()),
        }),
    }
}

fn entry(key: &str) -> ChildEntry {
    ChildEntry { key: key.to_string(), session: session(key, ChildStatus::Running) }
}

fn keys(state: &StatuslineState) -> Vec<String> {
    state.children.iter().map(|e| e.key.clone()).collect()
}

#[test]
fn test_app_state_new() {
    let state = AppState::new();
    assert!(state.current_pid.is_none());
    assert!(state.parsed_state.is_none());
    assert!(state.last_valid_state.is_none());
    assert!(!state.watching);
}

#[test]
fn test_set_pid() {
    let mut state = AppState::new();
    state.set_pid(Some(12345));
    assert_eq!(state.current_pid, Some(12345));

    state.set_pid(None);
    assert!(state.current_pid.is_none());
}

#[test]
fn test_set_state() {
    let mut state = AppState::new();

    let test_state = StatuslineState {
        children: Vec::new(),
        updated_at: "2024-01-01T00:00:00Z".to_string(),
    };

    state.set_state(Some(test_state.clone()));
    assert!(state.parsed_state.is_some());
    assert!(state.last_valid_state.is_some());

    state.set_state(None);
    assert!(state.parsed_state.is_none());
    // last_valid_state should be preserved
    assert!(state.last_valid_state.is_some());
}

#[test]
fn test_clear_state() {
    let mut state = AppState::new();
    state.set_pid(Some(12345));
    state.watching = true;

    state.clear_state();

    assert!(state.current_pid.is_none());
    assert!(state.parsed_state.is_none());
    assert!(!state.watching);
    // last_valid_state preserved
    assert!(state.last_valid_state.is_none());
}

#[test]
fn test_app_state_shared() {
    let state: Mutex<AppState> = Mutex::new(AppState::new());
    let mut guard = state.lock().unwrap();
    guard.set_pid(Some(12345));
    assert_eq!(guard.current_pid, Some(12345));
}

#[test]
fn app_state_default_is_new() {
    let state = AppState::default();
    assert!(state.current_pid.is_none());
    assert!(state.parsed_state.is_none());
    assert!(state.last_valid_state.is_none());
    assert!(!state.watching);
    assert!(state.watcher.is_none());
}

#[test]
fn last_valid_state_is_latest_present() {
    let mut state = AppState::new();
    state.set_state(Some(StatuslineState::new("first".to_string())));
    state.set_state(Some(StatuslineState::new("second".to_string())));
    state.set_state(None);
    assert!(state.get_state().is_none());
    assert_eq!(state.get_last_valid_state().unwrap().updated_at, "second");
}

#[test]
fn clear_state_keeps_last_valid_state() {
    let mut state = AppState::new();
    state.begin_watching(7, StateWatcher::new());
    state.set_state(Some(StatuslineState::new("kept".to_string())));
    assert!(state.watching);
    assert_eq!(state.current_pid, Some(7));
    state.clear_state();
    assert!(state.current_pid.is_none());
    assert!(state.parsed_state.is_none());
    assert!(state.watcher.is_none());
    assert!(!state.watching);
    assert_eq!(state.get_last_valid_state().unwrap().updated_at, "kept");
}

#[test]
fn apply_watch_event_stores_updates_only() {
    let mut state = AppState::new();
    let mut update = StatuslineState::new("t1".to_string());
    update.children.push(entry("agent1"));
    state.apply_watch_event(&WatchEvent::StateUpdated(update));
    assert_eq!(state.get_state().unwrap().child_count(), 1);
    state.apply_watch_event(&WatchEvent::StateMissing);
    state.apply_watch_event(&WatchEvent::ParseError { error: "bad".to_string() });
    assert_eq!(state.get_state().unwrap().updated_at, "t1");
    assert_eq!(state.get_last_valid_state().unwrap().updated_at, "t1");
}

#[test]
fn clone_keeps_every_field() {
    let mut original = StatuslineState::new("2024-01-01T00:00:01Z".to_string());
    original.children.push(entry("agent1"));
    let copy = original.clone();
    assert_eq!(copy.updated_at, original.updated_at);
    assert_eq!(keys(&copy), keys(&original));
    let s = &copy.children[0].session;
    assert_eq!(s.id, "agent1");
    assert_eq!(s.parent_id, "parent1");
    assert_eq!(s.source, Some("session".to_string()));
    assert_eq!(s.status, ChildStatus::Running);
    assert_eq!(s.elapsed_ms, Some(5000));
    let tokens = s.tokens.unwrap();
    assert_eq!(tokens.total, Some(300));
    assert_eq!(f32::from_bits(tokens.context_percent_bits.unwrap()), 75.5);
}

#[test]
fn delete_child_removes_it() {
    let mut state = StatuslineState::new("now".to_string());
    state.children.push(entry("agent1"));
    state.children.push(entry("agent2"));
    state.children.push(entry("agent3"));
    assert_eq!(state.delete_child("agent2"), Ok(()));
    assert_eq!(keys(&state), vec!["agent1".to_string(), "agent3".to_string()]);
    assert_eq!(state.updated_at, "now");
}

#[test]
fn delete_child_missing_is_error() {
    let mut state = StatuslineState::new("now".to_string());
    state.children.push(entry("agent1"));
    assert_eq!(
        state.delete_child("agent9"),
        Err("Child agent9 not found in state".to_string())
    );
    assert_eq!(keys(&state), vec!["agent1".to_string()]);
}

#[test]
fn remove_child_removes_every_copy_of_key() {
    let mut state = StatuslineState::new("now".to_string());
    state.children.push(entry("a"));
    state.children.push(entry("b"));
    state.children.push(entry("a"));
    assert!(state.remove_child("a"));
    assert_eq!(keys(&state), vec!["b".to_string()]);
    assert!(!state.remove_child("a"));
    assert_eq!(state.child_count(), 1);
}

#[test]
fn child_count_counts_distinct_keys() {
    let mut state = StatuslineState::new("now".to_string());
    assert_eq!(state.child_count(), 0);
    state.children.push(entry("a"));
    state.children.push(entry("b"));
    state.children.push(entry("a"));
    assert_eq!(state.child_count(), 2);
}

#[test]
fn mixed_run_keeps_last_valid_state() {
    let mut state = AppState::new();
    state.set_state(Some(StatuslineState::new("s1".to_string())));
    state.set_pid(Some(3));
    state.clear_state();
    state.set_state(None);
    state.set_pid(None);
    assert!(state.get_state().is_none());
    assert_eq!(state.get_last_valid_state().unwrap().updated_at, "s1");
}

#[test]
fn events_forwarded_only_for_current_watch() {
    let mut state = AppState::new();
    assert!(!state.forwards_events_for(5));
    state.begin_watching(5, StateWatcher::new());
    assert!(state.forwards_events_for(5));
    assert!(!state.forwards_events_for(6));
    state.clear_state();
    assert!(!state.forwards_events_for(5));
}

#[test]
fn missing_state_message_names_pid() {
    assert_eq!(
        companion::state::missing_state_for_pid_message(12345),
        "State file does not exist for PID 12345"
    );
}

#[test]
fn child_count_with_distinct_keys_is_length() {
    let mut state = StatuslineState::new("now".to_string());
    state.children.push(entry("a"));
    state.children.push(entry("b"));
    state.children.push(entry("c"));
    assert_eq!(state.child_count(), 3);
    assert_eq!(state.delete_child("b"), Ok(()));
    assert_eq!(state.child_count(), 2);
}
