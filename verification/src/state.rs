//! The statusline state written by the runtime plugin, and the companion's
//! own application state around it.
use vstd::prelude::*;
use crate::watcher::{StateWatcher, WatchEvent};
use crate::paths::{decimal, decimal_string};

verus! {

/// Child token statistics for a subagent. The context percentage is a
/// floating-point number in the state file; it is carried here as the IEEE-754
/// bit pattern of its `f32` value, so that it passes through unchanged.
#[derive(Debug, Clone, Copy)]
pub struct ChildTokenState {
    pub input: Option<u32>,
    pub output: Option<u32>,
    pub total: Option<u32>,
    pub context_percent_bits: Option<u32>,
}

/// Status of a child subagent.
#[derive(Debug, Clone, Copy, PartialEq, Eq, Structural)]
pub enum ChildStatus {
    Running,
    Done,
    Error,
}

/// A single child subagent session state.
#[derive(Debug)]
pub struct ChildSessionState {
    pub id: String,
    pub title: String,
    pub parent_id: String,
    pub message_id: Option<String>,
    /// "session" | "subtask" | "tool"
    pub source: Option<String>,
    pub status: ChildStatus,
    /// "yellow" | "green" | "red"
    pub color: String,
    pub started_at: String,
    pub updated_at: String,
    pub ended_at: Option<String>,
    pub elapsed_ms: Option<u64>,
    pub tokens: Option<ChildTokenState>,
}

impl Clone for ChildSessionState {
    fn clone(&self) -> (r: Self)
        ensures
            r == *self,
    {
        ChildSessionState {
            id: self.id.clone(),
            title: self.title.clone(),
            parent_id: self.parent_id.clone(),
            message_id: self.message_id.clone(),
            source: self.source.clone(),
            status: self.status,
            color: self.color.clone(),
            started_at: self.started_at.clone(),
            updated_at: self.updated_at.clone(),
            ended_at: self.ended_at.clone(),
            elapsed_ms: self.elapsed_ms,
            tokens: self.tokens,
        }
    }
}

/// One member of the `children` map of the state file: the key it is stored
/// under and the child session stored there.
#[derive(Debug)]
pub struct ChildEntry {
    pub key: String,
    pub session: ChildSessionState,
}

impl Clone for ChildEntry {
    fn clone(&self) -> (r: Self)
        ensures
            r == *self,
    {
        ChildEntry { key: self.key.clone(), session: self.session.clone() }
    }
}

/// The top-level statusline state structure. The `children` map of the state
/// file is held as its members, in the order in which they were read; when a
/// key occurs more than once, the later member is the one that counts.
#[derive(Debug)]
pub struct StatuslineState {
    pub children: Vec<ChildEntry>,
    pub updated_at: String,
}

/// The mathematical value of a [`StatuslineState`].
pub struct StatuslineView {
    pub children: Seq<ChildEntry>,
    pub updated_at: Seq<char>,
}

impl View for StatuslineState {
    type V = StatuslineView;

    open spec fn view(&self) -> StatuslineView {
        StatuslineView { children: self.children@, updated_at: self.updated_at@ }
    }
}

impl Clone for StatuslineState {
    fn clone(&self) -> (r: Self)
        ensures
            r@ == self@,
    {
        let children = self.children.clone();
        assert(children@ =~= self.children@);
        StatuslineState { children, updated_at: self.updated_at.clone() }
    }
}

/// The children map that a list of members stands for: each key maps to the
/// session of its last member.
pub open spec fn children_map(members: Seq<ChildEntry>) -> Map<Seq<char>, ChildSessionState>
    decreases members.len(),
{
    if members.len() == 0 {
        Map::empty()
    } else {
        children_map(members.drop_last()).insert(members.last().key@, members.last().session)
    }
}

/// The members that remain after every member stored under `key` is taken out,
/// in their original order.
pub open spec fn without_key(members: Seq<ChildEntry>, key: Seq<char>) -> Seq<ChildEntry>
    decreases members.len(),
{
    if members.len() == 0 {
        Seq::empty()
    } else if members.last().key@ == key {
        without_key(members.drop_last(), key)
    } else {
        without_key(members.drop_last(), key).push(members.last())
    }
}

/// Some member is stored under `key`.
pub open spec fn has_key(members: Seq<ChildEntry>, key: Seq<char>) -> bool {
    exists|i: int| 0 <= i < members.len() && (#[trigger] members[i]).key@ == key
}

/// The text of the error for a child that is not in the state.
pub open spec fn child_not_found_text(child_id: Seq<char>) -> Seq<char> {
    "Child "@ + child_id + " not found in state"@
}

/// A child is held under `key` exactly when the children map has `key`.
pub proof fn lemma_has_key_iff_in_map(members: Seq<ChildEntry>, key: Seq<char>)
    ensures
        has_key(members, key) <==> children_map(members).dom().contains(key),
    decreases members.len(),
{
    if members.len() > 0 {
        let init = members.drop_last();
        lemma_has_key_iff_in_map(init, key);
        if has_key(members, key) && members.last().key@ != key {
            let j = choose|j: int| 0 <= j < members.len() && (#[trigger] members[j]).key@ == key;
            assert(init[j] == members[j]);
        }
        if has_key(init, key) {
            let j = choose|j: int| 0 <= j < init.len() && (#[trigger] init[j]).key@ == key;
            assert(members[j] == init[j]);
        }
        if members.last().key@ == key {
            assert(members[members.len() - 1].key@ == key);
        }
    }
}

/// Deleting a child removes exactly its key from the children map; every
/// other child keeps its session.
pub proof fn lemma_delete_child_map(members: Seq<ChildEntry>, key: Seq<char>)
    ensures
        children_map(without_key(members, key)) == children_map(members).remove(key),
    decreases members.len(),
{
    if members.len() == 0 {
        assert(children_map(members).remove(key) =~= Map::empty());
    } else {
        let init = members.drop_last();
        lemma_delete_child_map(init, key);
        let last = members.last();
        if last.key@ == key {
            assert(children_map(members).remove(key) =~= children_map(init).remove(key));
        } else {
            let kept = without_key(init, key);
            assert(kept.push(last).drop_last() =~= kept);
            assert(children_map(without_key(members, key))
                =~= children_map(members).remove(key));
        }
    }
}

/// No two members are stored under the same key, as in the state file's map.
pub open spec fn keys_distinct(members: Seq<ChildEntry>) -> bool {
    forall|i: int, j: int| 0 <= i < j < members.len() ==> (#[trigger] members[i]).key@
        != (#[trigger] members[j]).key@
}

/// Taking out the members under `key` leaves only keys that were there.
pub proof fn lemma_without_key_keeps_keys(members: Seq<ChildEntry>, key: Seq<char>, other: Seq<char>)
    ensures
        has_key(without_key(members, key), other) ==> has_key(members, other),
    decreases members.len(),
{
    if members.len() > 0 {
        let init = members.drop_last();
        lemma_without_key_keeps_keys(init, key, other);
        let kept = without_key(init, key);
        if has_key(without_key(members, key), other) {
            let w = without_key(members, key);
            let i = choose|i: int| 0 <= i < w.len() && (#[trigger] w[i]).key@ == other;
            if members.last().key@ != key && i == w.len() - 1 {
                assert(members[members.len() - 1].key@ == other);
            } else {
                assert(w[i] == kept[i]);
                assert(has_key(kept, other));
                let j = choose|j: int| 0 <= j < init.len() && (#[trigger] init[j]).key@ == other;
                assert(members[j] == init[j]);
            }
        }
    }
}

/// Taking out the members under a key keeps the keys distinct.
pub proof fn lemma_without_key_keeps_distinct(members: Seq<ChildEntry>, key: Seq<char>)
    requires
        keys_distinct(members),
    ensures
        keys_distinct(without_key(members, key)),
    decreases members.len(),
{
    if members.len() > 0 {
        let init = members.drop_last();
        let last = members.last();
        assert(keys_distinct(init)) by {
            assert forall|i: int, j: int| 0 <= i < j < init.len() implies (#[trigger] init[i]).key@
                != (#[trigger] init[j]).key@ by {
                assert(init[i] == members[i] && init[j] == members[j]);
            }
        }
        lemma_without_key_keeps_distinct(init, key);
        if last.key@ != key {
            let kept = without_key(init, key);
            let w = kept.push(last);
            lemma_without_key_keeps_keys(init, key, last.key@);
            if has_key(init, last.key@) {
                let j = choose|j: int| 0 <= j < init.len() && (#[trigger] init[j]).key@ == last.key@;
                assert(members[j] == init[j]);
                assert(members[members.len() - 1] == last);
            }
            assert forall|i: int, j: int| 0 <= i < j < w.len() implies (#[trigger] w[i]).key@
                != (#[trigger] w[j]).key@ by {
                if j == w.len() - 1 {
                    assert(w[i] == kept[i]);
                    assert(w[j] == last);
                    if w[i].key@ == last.key@ {
                        assert(has_key(kept, last.key@));
                    }
                } else {
                    assert(w[i] == kept[i] && w[j] == kept[j]);
                }
            }
        }
    }
}

/// With distinct keys every member counts as a child of its own.
pub proof fn lemma_distinct_keys_count_all(members: Seq<ChildEntry>)
    requires
        keys_distinct(members),
    ensures
        distinct_key_count(members) == members.len(),
    decreases members.len(),
{
    if members.len() > 0 {
        let init = members.drop_last();
        assert(keys_distinct(init)) by {
            assert forall|i: int, j: int| 0 <= i < j < init.len() implies (#[trigger] init[i]).key@
                != (#[trigger] init[j]).key@ by {
                assert(init[i] == members[i] && init[j] == members[j]);
            }
        }
        lemma_distinct_keys_count_all(init);
        if has_key(init, members.last().key@) {
            let j = choose|j: int| 0 <= j < init.len() && (#[trigger] init[j]).key@ == members.last().key@;
            assert(members[j] == init[j]);
            assert(members[members.len() - 1] == members.last());
        }
    }
}

/// The number of distinct keys among the members.
pub open spec fn distinct_key_count(members: Seq<ChildEntry>) -> nat
    decreases members.len(),
{
    if members.len() == 0 {
        0
    } else if has_key(members.drop_last(), members.last().key@) {
        distinct_key_count(members.drop_last())
    } else {
        distinct_key_count(members.drop_last()) + 1
    }
}

/// The children map has finitely many keys, as many as there are distinct
/// keys among the members.
pub proof fn lemma_distinct_key_count(members: Seq<ChildEntry>)
    ensures
        children_map(members).dom().finite(),
        children_map(members).dom().len() == distinct_key_count(members),
    decreases members.len(),
{
    if members.len() > 0 {
        let init = members.drop_last();
        lemma_distinct_key_count(init);
        lemma_has_key_iff_in_map(init, members.last().key@);
        let d = children_map(init).dom();
        assert(children_map(members).dom() =~= d.insert(members.last().key@));
        vstd::set::axiom_set_insert_finite(d, members.last().key@);
        vstd::set::axiom_set_insert_len(d, members.last().key@);
    } else {
        assert(children_map(members).dom() =~= Set::<Seq<char>>::empty());
    }
}

/// The text of the error for a process whose state file does not exist.
pub open spec fn missing_state_for_pid_text(pid: u32) -> Seq<char> {
    "State file does not exist for PID "@ + decimal(pid as nat)
}

/// The error for a process whose state file does not exist.
pub fn missing_state_for_pid_message(pid: u32) -> (r: String)
    ensures
        r@ == missing_state_for_pid_text(pid),
{
    let mut text = "State file does not exist for PID ".to_owned();
    text.append(decimal_string(pid).as_str());
    text
}

impl StatuslineState {
    /// An empty state stamped with `updated_at`.
    pub fn new(updated_at: String) -> (r: Self)
        ensures
            r.children@ == Seq::<ChildEntry>::empty(),
            r.updated_at == updated_at,
    {
        StatuslineState { children: Vec::new(), updated_at }
    }

    /// Whether the member at `i` has a key that an earlier member has too.
    fn key_seen_before(&self, i: usize) -> (r: bool)
        requires
            i < self.children@.len(),
        ensures
            r == has_key(self.children@.take(i as int), self.children@[i as int].key@),
    {
        let ghost prefix = self.children@.take(i as int);
        let key = &self.children[i].key;
        let mut j: usize = 0;
        while j < i
            invariant
                j <= i < self.children@.len(),
                prefix == self.children@.take(i as int),
                *key == self.children@[i as int].key,
                forall|k: int| 0 <= k < j ==> (#[trigger] prefix[k]).key@ != key@,
            decreases i - j,
        {
            if self.children[j].key == *key {
                assert(prefix[j as int] == self.children@[j as int]);
                return true;
            }
            assert(prefix[j as int] == self.children@[j as int]);
            j = j + 1;
        }
        false
    }

    /// The number of children held: the number of distinct keys, as in the
    /// state file's map.
    pub fn child_count(&self) -> (r: usize)
        ensures
            r == children_map(self.children@).dom().len(),
            keys_distinct(self.children@) ==> r == self.children@.len(),
    {
        let ghost members = self.children@;
        let mut count: usize = 0;
        let mut i: usize = 0;
        while i < self.children.len()
            invariant
                i <= members.len(),
                members == self.children@,
                count == distinct_key_count(members.take(i as int)),
                count <= i,
            decreases members.len() - i,
        {
            let seen = self.key_seen_before(i);
            assert(members.take(i + 1).drop_last() =~= members.take(i as int));
            assert(members.take(i + 1).last() == members[i as int]);
            if !seen {
                count = count + 1;
            }
            i = i + 1;
        }
        assert(members.take(members.len() as int) =~= members);
        proof {
            lemma_distinct_key_count(members);
            if keys_distinct(members) {
                lemma_distinct_keys_count_all(members);
            }
        }
        count
    }

    /// Take every child stored under `child_id` out of the state; returns
    /// whether there was one.
    pub fn remove_child(&mut self, child_id: &str) -> (existed: bool)
        ensures
            final(self).children@ == without_key(old(self).children@, child_id@),
            final(self).updated_at == old(self).updated_at,
            existed == has_key(old(self).children@, child_id@),
            keys_distinct(old(self).children@) ==> keys_distinct(final(self).children@),
    {
        let ghost members = self.children@;
        let mut kept: Vec<ChildEntry> = Vec::new();
        let mut existed = false;
        let key = child_id.to_owned();
        let mut i: usize = 0;
        while i < self.children.len()
            invariant
                key@ == child_id@,
                i <= members.len(),
                self.children@ == members,
                kept@ == without_key(members.take(i as int), child_id@),
                existed == has_key(members.take(i as int), child_id@),
            decreases members.len() - i,
        {
            let ghost before = members.take(i as int);
            let ghost after = members.take(i + 1);
            assert(after.drop_last() =~= before);
            let entry = &self.children[i];
            if entry.key == key {
                existed = true;
                assert(has_key(after, child_id@)) by {
                    assert(after[i as int] == members[i as int]);
                }
            } else {
                kept.push(entry.clone());
                assert(kept@ =~= without_key(after, child_id@));
                assert(has_key(after, child_id@) == has_key(before, child_id@)) by {
                    if has_key(after, child_id@) {
                        let j = choose|j: int| 0 <= j < after.len() && (#[trigger] after[j]).key@ == child_id@;
                        assert(j < i);
                        assert(before[j] == after[j]);
                    }
                    if has_key(before, child_id@) {
                        let j = choose|j: int| 0 <= j < before.len() && (#[trigger] before[j]).key@ == child_id@;
                        assert(after[j] == before[j]);
                    }
                }
            }
            i = i + 1;
        }
        assert(members.take(members.len() as int) =~= members);
        proof {
            if keys_distinct(members) {
                lemma_without_key_keeps_distinct(members, child_id@);
            }
        }
        self.children = kept;
        existed
    }

    /// Delete the child stored under `child_id`; an error names a child that
    /// the state does not hold, and the state is then left as it was.
    pub fn delete_child(&mut self, child_id: &str) -> (r: Result<(), String>)
        ensures
            final(self).children@ == without_key(old(self).children@, child_id@),
            final(self).updated_at == old(self).updated_at,
            r is Ok <==> has_key(old(self).children@, child_id@),
            r matches Err(msg) ==> msg@ == child_not_found_text(child_id@),
            keys_distinct(old(self).children@) ==> keys_distinct(final(self).children@),
    {
        if self.remove_child(child_id) {
            Ok(())
        } else {
            let mut msg = "Child ".to_owned();
            msg.append(child_id);
            msg.append(" not found in state");
            Err(msg)
        }
    }
}

/// Application shared state.
pub struct AppState {
    /// Currently watched PID (if any)
    pub current_pid: Option<u32>,
    /// The most recently parsed state
    pub parsed_state: Option<StatuslineState>,
    /// Last valid state that was successfully parsed
    pub last_valid_state: Option<StatuslineState>,
    /// Whether we're currently watching a file
    pub watching: bool,
    /// The file watcher (kept alive to prevent dropping)
    pub watcher: Option<StateWatcher>,
}

/// The mathematical value of an [`AppState`].
pub struct AppStateView {
    pub current_pid: Option<u32>,
    pub parsed_state: Option<StatuslineView>,
    pub last_valid_state: Option<StatuslineView>,
    pub watching: bool,
    pub watcher: Option<StateWatcher>,
}

/// The value of an optional state.
pub open spec fn opt_view(state: Option<StatuslineState>) -> Option<StatuslineView> {
    match state {
        Some(s) => Some(s@),
        None => None,
    }
}

impl View for AppState {
    type V = AppStateView;

    open spec fn view(&self) -> AppStateView {
        AppStateView {
            current_pid: self.current_pid,
            parsed_state: opt_view(self.parsed_state),
            last_valid_state: opt_view(self.last_valid_state),
            watching: self.watching,
            watcher: self.watcher,
        }
    }
}

/// The application state at start: nothing watched, nothing parsed.
pub open spec fn initial_app_state() -> AppStateView {
    AppStateView {
        current_pid: None,
        parsed_state: None,
        last_valid_state: None,
        watching: false,
        watcher: None,
    }
}

/// The application state after the watched PID is set to `pid`.
pub open spec fn with_pid(m: AppStateView, pid: Option<u32>) -> AppStateView {
    AppStateView { current_pid: pid, ..m }
}

/// The application state after `state` is stored as the current one: a
/// present state also becomes the last valid one; an absent state leaves the
/// last valid state in place.
pub open spec fn with_state(m: AppStateView, state: Option<StatuslineView>) -> AppStateView {
    AppStateView {
        parsed_state: state,
        last_valid_state: if state is Some { state } else { m.last_valid_state },
        ..m
    }
}

/// The application state after the state is cleared: nothing parsed or
/// watched, the last valid state kept.
pub open spec fn cleared(m: AppStateView) -> AppStateView {
    AppStateView {
        current_pid: None,
        parsed_state: None,
        watching: false,
        watcher: None,
        ..m
    }
}

/// The application state once `watcher` watches the state file of `pid`.
pub open spec fn watching_started(m: AppStateView, pid: u32, watcher: StateWatcher) -> AppStateView {
    AppStateView {
        current_pid: Some(pid),
        watching: true,
        watcher: Some(watcher),
        ..m
    }
}

/// The application state after a watch event: an updated state is stored; the
/// other events change nothing.
pub open spec fn after_event(m: AppStateView, event: WatchEvent) -> AppStateView {
    match event {
        WatchEvent::StateUpdated(s) => with_state(m, Some(s@)),
        _ => m,
    }
}

/// Events of the watch of `pid` are sent on while it is the current watch.
pub open spec fn forwards_events(m: AppStateView, pid: u32) -> bool {
    m.watching && m.current_pid == Some(pid)
}

/// After the watch is stopped no event of any watch is sent on, until a new
/// watch begins; a new watch of `pid` sends on its own events only.
pub proof fn lemma_stop_silences_events(m: AppStateView, pid: u32, other: u32, watcher: StateWatcher)
    ensures
        !forwards_events(cleared(m), pid),
        forwards_events(watching_started(m, pid, watcher), pid),
        other != pid ==> !forwards_events(watching_started(m, pid, watcher), other),
{
}

/// A present parsed state is also the last valid state.
pub open spec fn app_state_consistent(m: AppStateView) -> bool {
    m.parsed_state is Some ==> m.last_valid_state == m.parsed_state
}

impl AppState {
    /// Create a new AppState with default values.
    pub fn new() -> (r: Self)
        ensures
            r@ == initial_app_state(),
    {
        AppState {
            current_pid: None,
            parsed_state: None,
            last_valid_state: None,
            watching: false,
            watcher: None,
        }
    }

    /// Set the current PID being watched.
    pub fn set_pid(&mut self, pid: Option<u32>)
        ensures
            final(self)@ == with_pid(old(self)@, pid),
    {
        self.current_pid = pid;
    }

    /// Get a reference to the current state.
    pub fn get_state(&self) -> (r: Option<&StatuslineState>)
        ensures
            r is Some == self.parsed_state is Some,
            r matches Some(s) ==> *s == self.parsed_state->0,
    {
        self.parsed_state.as_ref()
    }

    /// Set the current state and update last_valid_state if valid.
    pub fn set_state(&mut self, state: Option<StatuslineState>)
        ensures
            final(self)@ == with_state(old(self)@, opt_view(state)),
    {
        match state {
            Some(s) => {
                let copy = s.clone();
                self.parsed_state = Some(s);
                self.last_valid_state = Some(copy);
            },
            None => {
                self.parsed_state = None;
            },
        }
    }

    /// Clear all state but preserve last_valid_state.
    pub fn clear_state(&mut self)
        ensures
            final(self)@ == cleared(old(self)@),
    {
        self.parsed_state = None;
        self.current_pid = None;
        self.watching = false;
        self.watcher = None;
    }

    /// Get the last valid state.
    pub fn get_last_valid_state(&self) -> (r: Option<&StatuslineState>)
        ensures
            r is Some == self.last_valid_state is Some,
            r matches Some(s) ==> *s == self.last_valid_state->0,
    {
        self.last_valid_state.as_ref()
    }

    /// Whether events of the watch of `pid` are still to be sent on: only
    /// while that watch is the current one.
    pub fn forwards_events_for(&self, pid: u32) -> (r: bool)
        ensures
            r == forwards_events(self@, pid),
    {
        self.watching && self.current_pid == Some(pid)
    }

    /// Record that `watcher` now watches the state file of `pid`, keeping
    /// the watcher alive.
    pub fn begin_watching(&mut self, pid: u32, watcher: StateWatcher)
        ensures
            final(self)@ == watching_started(old(self)@, pid, watcher),
    {
        self.set_pid(Some(pid));
        self.watching = true;
        self.watcher = Some(watcher);
    }

    /// Apply a watch event: an updated state becomes the current (and last
    /// valid) state.
    pub fn apply_watch_event(&mut self, event: &WatchEvent)
        ensures
            final(self)@ == after_event(old(self)@, *event),
    {
        if let WatchEvent::StateUpdated(s) = event {
            self.set_state(Some(s.clone()));
        }
    }
}

impl Default for AppState {
    fn default() -> (r: Self)
        ensures
            r@ == initial_app_state(),
    {
        Self::new()
    }
}

/// An operation on the application state, as the methods of [`AppState`]
/// perform it.
pub enum AppOp {
    /// `set_pid`
    SetPid(Option<u32>),
    /// `set_state`, with the value of its argument
    SetState(Option<StatuslineView>),
    /// `clear_state`
    Clear,
    /// `begin_watching`
    BeginWatching { pid: u32, watcher: StateWatcher },
    /// `apply_watch_event`
    Event(WatchEvent),
}

/// The application state after one operation.
pub open spec fn after_op(m: AppStateView, op: AppOp) -> AppStateView {
    match op {
        AppOp::SetPid(pid) => with_pid(m, pid),
        AppOp::SetState(state) => with_state(m, state),
        AppOp::Clear => cleared(m),
        AppOp::BeginWatching { pid, watcher } => watching_started(m, pid, watcher),
        AppOp::Event(event) => after_event(m, event),
    }
}

/// The application state after a run of operations, in order.
pub open spec fn after_ops(m: AppStateView, ops: Seq<AppOp>) -> AppStateView
    decreases ops.len(),
{
    if ops.len() == 0 {
        m
    } else {
        after_op(after_ops(m, ops.drop_last()), ops.last())
    }
}

/// The last present value of a sequence of optional values, if any.
pub open spec fn latest<T>(values: Seq<Option<T>>) -> Option<T>
    decreases values.len(),
{
    if values.len() == 0 {
        None
    } else if values.last() is Some {
        values.last()
    } else {
        latest(values.drop_last())
    }
}

/// The state that an operation stores as a valid state, if any.
pub open spec fn stored_state(op: AppOp) -> Option<StatuslineView> {
    match op {
        AppOp::SetState(state) => state,
        AppOp::Event(WatchEvent::StateUpdated(s)) => Some(s@),
        _ => None,
    }
}

/// The current state that an operation sets, if it sets one.
pub open spec fn set_parsed_state(op: AppOp) -> Option<Option<StatuslineView>> {
    match op {
        AppOp::SetState(state) => Some(state),
        AppOp::Clear => Some(None),
        AppOp::Event(WatchEvent::StateUpdated(s)) => Some(Some(s@)),
        _ => None,
    }
}

/// The watched PID that an operation sets, if it sets one.
pub open spec fn set_current_pid(op: AppOp) -> Option<Option<u32>> {
    match op {
        AppOp::SetPid(pid) => Some(pid),
        AppOp::Clear => Some(None),
        AppOp::BeginWatching { pid, .. } => Some(Some(pid)),
        _ => None,
    }
}

/// Over any run of operations: the last valid state is the state most
/// recently stored (by `set_state` with a state, or by an update event), or the
/// earlier one when none was; the current state (what `get_state` returns) is
/// the one most recently set by `set_state`, `clear_state` or an update event;
/// the watched PID is the one most recently set by `set_pid`, `clear_state` or
/// `begin_watching`; and a consistent state stays consistent.
pub proof fn lemma_app_state_over_runs(m: AppStateView, ops: Seq<AppOp>)
    ensures
        after_ops(m, ops).last_valid_state == (match latest(
            ops.map_values(|op: AppOp| stored_state(op)),
        ) {
            Some(v) => Some(v),
            None => m.last_valid_state,
        }),
        after_ops(m, ops).parsed_state == (match latest(
            ops.map_values(|op: AppOp| set_parsed_state(op)),
        ) {
            Some(p) => p,
            None => m.parsed_state,
        }),
        after_ops(m, ops).current_pid == (match latest(
            ops.map_values(|op: AppOp| set_current_pid(op)),
        ) {
            Some(p) => p,
            None => m.current_pid,
        }),
        app_state_consistent(m) ==> app_state_consistent(after_ops(m, ops)),
    decreases ops.len(),
{
    if ops.len() > 0 {
        let init = ops.drop_last();
        lemma_app_state_over_runs(m, init);
        assert(ops.map_values(|op: AppOp| stored_state(op)).drop_last()
            =~= init.map_values(|op: AppOp| stored_state(op)));
        assert(ops.map_values(|op: AppOp| set_parsed_state(op)).drop_last()
            =~= init.map_values(|op: AppOp| set_parsed_state(op)));
        assert(ops.map_values(|op: AppOp| set_current_pid(op)).drop_last()
            =~= init.map_values(|op: AppOp| set_current_pid(op)));
    }
}

/// The watcher that an operation installs or drops, if it does either.
pub open spec fn set_watcher(op: AppOp) -> Option<Option<StateWatcher>> {
    match op {
        AppOp::BeginWatching { watcher, .. } => Some(Some(watcher)),
        AppOp::Clear => Some(None),
        _ => None,
    }
}

/// Beginning a watch keeps that very watcher alive in the application state,
/// marks it watching and records its PID; the watcher then stays held until
/// the state is cleared or another watch begins: over any run of operations
/// the held watcher is the one most recently installed, or none when the
/// state was cleared since.
pub proof fn lemma_watcher_kept_alive(m: AppStateView, pid: u32, w: StateWatcher, ops: Seq<AppOp>)
    ensures
        watching_started(m, pid, w).watcher == Some(w),
        watching_started(m, pid, w).watching,
        watching_started(m, pid, w).current_pid == Some(pid),
        cleared(m).watcher is None,
        after_ops(m, ops).watcher == (match latest(ops.map_values(|op: AppOp| set_watcher(op))) {
            Some(held) => held,
            None => m.watcher,
        }),
    decreases ops.len(),
{
    if ops.len() > 0 {
        lemma_watcher_kept_alive(m, pid, w, ops.drop_last());
        assert(ops.map_values(|op: AppOp| set_watcher(op)).drop_last()
            =~= ops.drop_last().map_values(|op: AppOp| set_watcher(op)));
    }
}

/// From a new application state, after any run of operations: a present
/// current state is the last valid state, and the last valid state is the
/// state most recently stored, or none when none was.
pub proof fn lemma_new_app_state_runs(ops: Seq<AppOp>)
    ensures
        app_state_consistent(after_ops(initial_app_state(), ops)),
        after_ops(initial_app_state(), ops).last_valid_state == latest(
            ops.map_values(|op: AppOp| stored_state(op)),
        ),
{
    lemma_app_state_over_runs(initial_app_state(), ops);
}

/// Storing a state and then an absent one keeps the stored state as the last
/// valid state.
pub proof fn lemma_absent_state_keeps_last_valid(m: AppStateView, s: StatuslineView)
    ensures
        with_state(with_state(m, Some(s)), None).last_valid_state == Some(s),
        with_state(with_state(m, Some(s)), None).parsed_state is None,
{
}

/// Clearing the state stops watching and forgets the PID and the parsed
/// state, but keeps the last valid state.
pub proof fn lemma_clear_keeps_last_valid(m: AppStateView)
    ensures
        cleared(m).last_valid_state == m.last_valid_state,
        cleared(m).parsed_state is None,
        cleared(m).current_pid is None,
        !cleared(m).watching,
        cleared(m).watcher is None,
{
}

/// Every operation on the application state keeps a present parsed state
/// equal to the last valid state, starting from the initial state.
pub proof fn lemma_app_state_stays_consistent(
    m: AppStateView,
    pid: Option<u32>,
    state: Option<StatuslineView>,
    watched: u32,
    watcher: StateWatcher,
    event: WatchEvent,
)
    requires
        app_state_consistent(m),
    ensures
        app_state_consistent(initial_app_state()),
        app_state_consistent(with_pid(m, pid)),
        app_state_consistent(with_state(m, state)),
        app_state_consistent(cleared(m)),
        app_state_consistent(watching_started(m, watched, watcher)),
        app_state_consistent(after_event(m, event)),
{
}

} // verus!
