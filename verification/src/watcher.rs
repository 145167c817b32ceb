//! Decisions of the state-file watcher: the debounce of change notifications,
//! the polling fallback, the bookkeeping of a watch, and the events sent to the
//! frontend.
use vstd::prelude::*;
use crate::state::StatuslineState;
use crate::paths::STATE_FILE_NAME;

verus! {

/// Declares `notify`'s platform watcher so that a [`StateWatcher`] can keep it
/// alive.
#[verifier::external_type_specification]
#[verifier::external_body]
pub struct ExRecommendedWatcher(notify::RecommendedWatcher);

/// Declares `notify::Event`, the payload of a change notification.
#[verifier::external_type_specification]
#[verifier::external_body]
pub struct ExNotifyEvent(notify::Event);

/// Declares `notify::Error`, the error of a change notification.
#[verifier::external_type_specification]
#[verifier::external_body]
pub struct ExNotifyError(notify::Error);

/// Declares the receiving end of a standard channel.
#[verifier::external_type_specification]
#[verifier::external_body]
#[verifier::reject_recursive_types(T)]
pub struct ExReceiver<T>(std::sync::mpsc::Receiver<T>);

/// Declares the sending end of a standard channel.
#[verifier::external_type_specification]
#[verifier::external_body]
#[verifier::reject_recursive_types(T)]
pub struct ExSender<T>(std::sync::mpsc::Sender<T>);

/// The channel end on which change notifications arrive.
pub type NotifyReceiver = std::sync::mpsc::Receiver<Result<notify::Event, notify::Error>>;

/// The channel end whose drop tells the polling task to stop.
pub type PollStopSender = std::sync::mpsc::Sender<()>;

/// Event emitted when state file changes.
#[derive(Debug, Clone)]
pub enum WatchEvent {
    /// State file was modified and parsed successfully.
    StateUpdated(StatuslineState),
    /// State file was deleted or missing.
    StateMissing,
    /// Failed to parse the state file.
    ParseError { error: String },
}

/// File watcher with debounce support and polling fallback. Dropping it, or
/// stopping it, ends the watch: the `notify` watcher goes, which closes the
/// notification channel, and the polling task's stop channel closes.
pub struct StateWatcher {
    /// The notify watcher handle.
    watcher: Option<notify::RecommendedWatcher>,
    /// Channel to receive events from notify.
    receiver: Option<NotifyReceiver>,
    /// Kept while the polling task may run; dropped to stop it.
    poll_stop: Option<PollStopSender>,
    /// Currently watched PID.
    watched_pid: Option<u32>,
}

/// A step of the life of a [`StateWatcher`], as it bears on the watched PID.
pub enum WatcherStep {
    /// A start of watching `pid`; `found` tells whether its state file exists.
    Start { pid: u32, found: bool },
    /// The `notify` watcher is attached.
    Attach,
    /// Polling of `pid` begins.
    Poll { pid: u32 },
    /// Watching stops.
    Stop,
}

/// The watched PID after one step: a start records the PID when the state file
/// exists and clears it otherwise; polling records its PID; stopping clears
/// it; attaching changes nothing.
pub open spec fn watched_after_step(watched: Option<u32>, step: WatcherStep) -> Option<u32> {
    match step {
        WatcherStep::Start { pid, found } => if found { Some(pid) } else { None },
        WatcherStep::Attach => watched,
        WatcherStep::Poll { pid } => Some(pid),
        WatcherStep::Stop => None,
    }
}

/// The watched PID after a run of steps from `watched`.
pub open spec fn watched_after_steps(watched: Option<u32>, steps: Seq<WatcherStep>) -> Option<u32>
    decreases steps.len(),
{
    if steps.len() == 0 {
        watched
    } else {
        watched_after_step(watched_after_steps(watched, steps.drop_last()), steps.last())
    }
}

/// A step records `pid` as the watched PID.
pub open spec fn records_pid(step: WatcherStep, pid: u32) -> bool {
    ||| step == (WatcherStep::Start { pid, found: true })
    ||| step == (WatcherStep::Poll { pid })
}

/// The text of the error for a state file that does not exist.
pub open spec fn missing_state_text(path: Seq<char>) -> Seq<char> {
    "State file does not exist: "@ + path
}

impl StateWatcher {
    /// The process whose state file is watched.
    pub closed spec fn watched(&self) -> Option<u32> {
        self.watched_pid
    }

    /// The `notify` watcher that is kept alive, if any.
    pub closed spec fn notify_watcher(&self) -> Option<notify::RecommendedWatcher> {
        self.watcher
    }

    /// The notification channel that no processing task has taken yet, if any.
    pub closed spec fn pending_receiver(&self) -> Option<NotifyReceiver> {
        self.receiver
    }

    /// The stop channel of the polling task, if one may run.
    pub closed spec fn poll_stop(&self) -> Option<PollStopSender> {
        self.poll_stop
    }

    /// Nothing is watched and nothing is held.
    pub open spec fn is_idle(&self) -> bool {
        &&& self.watched() is None
        &&& self.notify_watcher() is None
        &&& self.pending_receiver() is None
        &&& self.poll_stop() is None
    }

    /// Create a new StateWatcher.
    pub fn new() -> (r: Self)
        ensures
            r.is_idle(),
    {
        StateWatcher { watcher: None, receiver: None, poll_stop: None, watched_pid: None }
    }

    /// Stop watching and clean up resources: the `notify` watcher and the
    /// polling task's stop channel are dropped, which ends both watch loops.
    pub fn stop_watching(&mut self)
        ensures
            final(self).is_idle(),
            final(self).watched() == watched_after_step(old(self).watched(), WatcherStep::Stop),
    {
        self.watcher = None;
        self.receiver = None;
        self.poll_stop = None;
        self.watched_pid = None;
    }

    /// Get the currently watched PID.
    pub fn watched_pid(&self) -> (r: Option<u32>)
        ensures
            r == self.watched(),
    {
        self.watched_pid
    }

    /// Whether a `notify` watcher is held.
    pub fn has_notify_watcher(&self) -> (r: bool)
        ensures
            r == self.notify_watcher() is Some,
    {
        self.watcher.is_some()
    }

    /// Start a watch of the state file of `pid`: stop any existing watch, then
    /// fail when the state file (shown as `state_path`) does not exist, and
    /// otherwise record `pid` and keep `receiver`, the channel on which its
    /// notifications will arrive.
    pub fn begin_watch(
        &mut self,
        pid: u32,
        state_file_exists: bool,
        state_path: &str,
        receiver: NotifyReceiver,
    ) -> (r: Result<(), String>)
        ensures
            r is Ok == state_file_exists,
            r matches Err(msg) ==> msg@ == missing_state_text(state_path@),
            final(self).watched() == watched_after_step(
                old(self).watched(),
                WatcherStep::Start { pid, found: state_file_exists },
            ),
            final(self).pending_receiver() == (if state_file_exists {
                Some(receiver)
            } else {
                None
            }),
            final(self).notify_watcher() is None,
            final(self).poll_stop() is None,
    {
        self.stop_watching();
        if !state_file_exists {
            let mut msg = "State file does not exist: ".to_owned();
            msg.append(state_path);
            return Err(msg);
        }
        self.watched_pid = Some(pid);
        self.receiver = Some(receiver);
        Ok(())
    }

    /// Keep `watcher` alive and hand out the notification channel to the
    /// task that processes it.
    pub fn attach_notify(&mut self, watcher: notify::RecommendedWatcher) -> (r: Option<NotifyReceiver>)
        ensures
            final(self).notify_watcher() == Some(watcher),
            final(self).pending_receiver() is None,
            r == old(self).pending_receiver(),
            final(self).watched() == watched_after_step(old(self).watched(), WatcherStep::Attach),
            final(self).poll_stop() == old(self).poll_stop(),
    {
        self.watcher = Some(watcher);
        self.receiver.take()
    }

    /// Record that the state file of `pid` is watched by polling, keeping
    /// `stop`, whose drop ends the polling task.
    pub fn begin_polling(&mut self, pid: u32, stop: PollStopSender)
        ensures
            final(self).watched() == watched_after_step(old(self).watched(), WatcherStep::Poll { pid }),
            final(self).poll_stop() == Some(stop),
            final(self).notify_watcher() == old(self).notify_watcher(),
            final(self).pending_receiver() == old(self).pending_receiver(),
    {
        self.watched_pid = Some(pid);
        self.poll_stop = Some(stop);
    }
}

impl Default for StateWatcher {
    fn default() -> (r: Self)
        ensures
            r.is_idle(),
    {
        Self::new()
    }
}

/// Over any run of starts, attaches, polls and stops from a new watcher, the
/// watched PID is `p` exactly when the last step that set or cleared it
/// recorded `p`: a start that found the state file of `p`, or polling of `p`,
/// followed only by attaches; otherwise no PID is watched.
pub proof fn lemma_watched_pid_over_runs(steps: Seq<WatcherStep>, p: u32)
    ensures
        watched_after_steps(None, steps) == Some(p) <==> exists|i: int| 0 <= i < steps.len()
            && records_pid(#[trigger] steps[i], p)
            && forall|j: int| i < j < steps.len() ==> (#[trigger] steps[j]) is Attach,
        watched_after_steps(None, steps) is None <==> !exists|i: int, q: u32| 0 <= i < steps.len()
            && #[trigger] records_pid(steps[i], q)
            && forall|j: int| i < j < steps.len() ==> (#[trigger] steps[j]) is Attach,
    decreases steps.len(),
{
    if steps.len() > 0 {
        let init = steps.drop_last();
        let last = steps.last();
        let n = steps.len() - 1;
        lemma_watched_pid_over_runs(init, p);
        let w = watched_after_steps(None, init);
        if w is Some {
            lemma_watched_pid_over_runs(init, w->0);
        }
        assert forall|i: int, q: u32| 0 <= i < steps.len() && #[trigger] records_pid(steps[i], q)
            && (forall|j: int| i < j < steps.len() ==> (#[trigger] steps[j]) is Attach)
            implies (if i == n { watched_after_steps(None, steps) == Some(q) } else {
            last is Attach && records_pid(init[i], q)
                && forall|j: int| i < j < init.len() ==> (#[trigger] init[j]) is Attach }) by {
            if i < n {
                assert(steps[n] is Attach);
                assert(init[i] == steps[i]);
                assert forall|j: int| i < j < init.len() implies (#[trigger] init[j]) is Attach by {
                    assert(init[j] == steps[j]);
                }
            }
        }
        if last is Attach {
            assert forall|i: int, q: u32| 0 <= i < init.len() && #[trigger] records_pid(init[i], q)
                && (forall|j: int| i < j < init.len() ==> (#[trigger] init[j]) is Attach)
                implies records_pid(steps[i], q)
                && forall|j: int| i < j < steps.len() ==> (#[trigger] steps[j]) is Attach by {
                assert(steps[i] == init[i]);
                assert forall|j: int| i < j < steps.len() implies (#[trigger] steps[j]) is Attach by {
                    if j < n {
                        assert(steps[j] == init[j]);
                    }
                }
            }
        } else {
            match last {
                WatcherStep::Start { pid, found } => {
                    if found {
                        assert(records_pid(steps[n], pid));
                    }
                },
                WatcherStep::Poll { pid } => {
                    assert(records_pid(steps[n], pid));
                },
                _ => {},
            }
        }
    }
}

/// Duration to wait before emitting an event after the last change (debounce).
pub const DEBOUNCE_MS: u64 = 100;

/// Duration for polling fallback interval.
pub const POLL_INTERVAL_MS: u64 = 1000;

/// Nanoseconds in a millisecond.
pub const NANOS_PER_MS: u64 = 1_000_000;

/// The debounce delay in nanoseconds.
pub const DEBOUNCE_NANOS: u64 = DEBOUNCE_MS * NANOS_PER_MS;

/// The debounce of change notifications: a change to the state file is read
/// once no further change has come for the debounce delay. Times are
/// nanoseconds on the caller's monotonic clock.
#[derive(Debug, Clone, Copy)]
pub struct Debouncer {
    /// When the pending read falls due.
    pub deadline: Option<u64>,
    /// A change to the state file awaits a read.
    pub pending: bool,
}

/// How to wait for the next notification.
#[derive(Debug, Clone, Copy)]
pub enum WaitPlan {
    /// Nothing is pending: block until a notification arrives or the channel
    /// closes.
    Block,
    /// Wait at most `nanos` for a notification (0: only take one that is
    /// already queued).
    WaitAtMost { nanos: u64 },
}

/// What the wait for a notification brought.
#[derive(Debug)]
pub enum Notification {
    /// The channel is closed: the `notify` watcher is gone.
    Closed,
    /// No notification came within the planned wait.
    TimedOut,
    /// A change event; whether one of its paths names the state file.
    Changed { touches_state_file: bool },
    /// The watcher reported an error.
    Failed { message: String },
}

/// What to do after a notification.
#[derive(Debug)]
pub enum DebounceAction {
    /// Nothing.
    Idle,
    /// Send this event to the frontend.
    Emit(WatchEvent),
    /// Read and parse the state file now, and send what it gives.
    ReadState,
    /// The watch has ended: leave the loop, sending nothing more.
    Stop,
}

/// The debounce is consistent when a deadline is set exactly while a read is
/// pending.
pub open spec fn debouncer_consistent(d: Debouncer) -> bool {
    d.pending == d.deadline is Some
}

/// A pending read falls due at `now`.
pub open spec fn read_due(d: Debouncer, now: u64) -> bool {
    d.pending && (d.deadline matches Some(t) && now >= t)
}

/// How long to wait at `now`: block when no deadline is set; otherwise wait
/// until the deadline (not at all once it has passed).
pub open spec fn wait_plan_for(d: Debouncer, now: u64) -> WaitPlan {
    match d.deadline {
        None => WaitPlan::Block,
        Some(t) => if t > now {
            WaitPlan::WaitAtMost { nanos: (t - now) as u64 }
        } else {
            WaitPlan::WaitAtMost { nanos: 0 }
        },
    }
}

/// The debounce after notification `n` at `now`: a change to the state file
/// (re)starts the delay; a quiet wait takes the read when it is due; a closed
/// channel drops whatever is pending; anything else leaves the debounce as it
/// was.
pub open spec fn debouncer_after(d: Debouncer, n: Notification, now: u64) -> Debouncer {
    match n {
        Notification::Changed { touches_state_file } => if touches_state_file {
            Debouncer { deadline: Some((now + DEBOUNCE_NANOS) as u64), pending: true }
        } else {
            d
        },
        Notification::TimedOut => if read_due(d, now) {
            Debouncer { deadline: None, pending: false }
        } else {
            d
        },
        Notification::Closed => Debouncer { deadline: None, pending: false },
        Notification::Failed { .. } => d,
    }
}

/// The text of the event for a watcher error.
pub open spec fn notify_error_text(message: Seq<char>) -> Seq<char> {
    "Notify error: "@ + message
}

/// The text of the event for a state file that does not parse.
pub open spec fn json_error_text(message: Seq<char>) -> Seq<char> {
    "JSON parse error: "@ + message
}

impl Debouncer {
    /// Nothing pending.
    pub fn new() -> (r: Self)
        ensures
            r.deadline is None,
            !r.pending,
    {
        Debouncer { deadline: None, pending: false }
    }

    /// How to wait for the next notification at `now`.
    pub fn wait_plan(&self, now: u64) -> (r: WaitPlan)
        ensures
            r == wait_plan_for(*self, now),
    {
        match self.deadline {
            None => WaitPlan::Block,
            Some(t) => {
                if t > now {
                    WaitPlan::WaitAtMost { nanos: t - now }
                } else {
                    WaitPlan::WaitAtMost { nanos: 0 }
                }
            },
        }
    }

    /// Take notification `n`, received at `now`, and decide what to do.
    pub fn on_notification(&mut self, n: Notification, now: u64) -> (r: DebounceAction)
        requires
            n matches Notification::Changed { touches_state_file } && touches_state_file
                ==> now <= u64::MAX - DEBOUNCE_NANOS,
        ensures
            *final(self) == debouncer_after(*old(self), n, now),
            r is ReadState <==> (n is TimedOut && read_due(*old(self), now)),
            r is Stop <==> n is Closed,
            r is Emit <==> n is Failed,
            n matches Notification::Failed { message } ==> (r matches DebounceAction::Emit(
                WatchEvent::ParseError { error },
            ) && error@ == notify_error_text(message@)),
    {
        match n {
            Notification::Changed { touches_state_file } => {
                if touches_state_file {
                    self.deadline = Some(now + DEBOUNCE_NANOS);
                    self.pending = true;
                }
                DebounceAction::Idle
            },
            Notification::Failed { message } => {
                let mut error = "Notify error: ".to_owned();
                error.append(message.as_str());
                DebounceAction::Emit(WatchEvent::ParseError { error })
            },
            Notification::TimedOut => {
                let due = match self.deadline {
                    Some(t) => now >= t,
                    None => false,
                };
                if self.pending && due {
                    self.deadline = None;
                    self.pending = false;
                    DebounceAction::ReadState
                } else {
                    DebounceAction::Idle
                }
            },
            Notification::Closed => {
                self.deadline = None;
                self.pending = false;
                DebounceAction::Stop
            },
        }
    }
}

/// Every notification keeps the debounce consistent: a deadline is set
/// exactly while a read is pending.
pub proof fn lemma_debounce_stays_consistent(d: Debouncer, n: Notification, now: u64)
    requires
        debouncer_consistent(d),
    ensures
        debouncer_consistent(debouncer_after(d, n, now)),
{
}

/// The debounce after a burst of changes to the state file at `times`.
pub open spec fn after_changes(d: Debouncer, times: Seq<u64>) -> Debouncer
    decreases times.len(),
{
    if times.len() == 0 {
        d
    } else {
        debouncer_after(
            after_changes(d, times.drop_last()),
            Notification::Changed { touches_state_file: true },
            times.last(),
        )
    }
}

/// A burst of changes to the state file ending at `t` is read once quiet has
/// lasted the debounce delay after `t`, and not before: a quiet wait that ends
/// earlier reads nothing; a quiet wait at or after `t + DEBOUNCE` reads, and a
/// further quiet wait reads nothing more.
pub proof fn lemma_burst_read_once_after_quiet(d: Debouncer, times: Seq<u64>, now: u64, later: u64)
    requires
        times.len() > 0,
        forall|i: int| 0 <= i < times.len() ==> #[trigger] times[i] <= u64::MAX - DEBOUNCE_NANOS,
    ensures
        ({
            let burst = after_changes(d, times);
            let t = times.last();
            &&& burst.deadline == Some((t + DEBOUNCE_NANOS) as u64) && burst.pending
            &&& read_due(burst, now) <==> now >= t + DEBOUNCE_NANOS
            &&& now < t + DEBOUNCE_NANOS ==> debouncer_after(burst, Notification::TimedOut, now)
                == burst
            &&& now >= t + DEBOUNCE_NANOS ==> !read_due(
                debouncer_after(burst, Notification::TimedOut, now),
                later,
            )
        }),
{
    assert(times[times.len() - 1] <= u64::MAX - DEBOUNCE_NANOS);
}

/// After the notification channel closes, nothing pending is read: the loop
/// stops, and no later wake-up reads anything.
pub proof fn lemma_close_drops_pending(d: Debouncer, now: u64, later: u64)
    ensures
        !read_due(debouncer_after(d, Notification::Closed, now), later),
        debouncer_after(d, Notification::Closed, now).deadline is None,
{
}

/// Change events that do not concern the state file, and watcher errors,
/// leave the debounce as it was.
pub proof fn lemma_unrelated_notifications_ignored(d: Debouncer, message: String, now: u64)
    ensures
        debouncer_after(d, Notification::Changed { touches_state_file: false }, now) == d,
        debouncer_after(d, Notification::Failed { message }, now) == d,
{
}

/// While a read is pending the watcher waits exactly until its deadline, so
/// the read comes when the deadline is reached; with nothing pending it
/// blocks.
pub proof fn lemma_wait_until_deadline(d: Debouncer, now: u64)
    ensures
        d.deadline is Some && d.deadline->0 > now ==> wait_plan_for(d, now) == (WaitPlan::WaitAtMost {
            nanos: (d.deadline->0 - now) as u64,
        }),
        d.deadline is Some && d.deadline->0 <= now ==> wait_plan_for(d, now) == (WaitPlan::WaitAtMost {
            nanos: 0,
        }),
        d.deadline is None ==> wait_plan_for(d, now) is Block,
{
}

/// Whether a change event concerns the state file, given the file names of
/// its paths (`None` for a path without a file name in UTF-8).
pub fn touches_state_file(file_names: &Vec<Option<String>>) -> (r: bool)
    ensures
        r == exists|i: int| 0 <= i < file_names@.len()
            && (#[trigger] file_names@[i] matches Some(name) && name@ == STATE_FILE_NAME@),
{
    let target = STATE_FILE_NAME.to_owned();
    let mut i: usize = 0;
    while i < file_names.len()
        invariant
            i <= file_names@.len(),
            target@ == STATE_FILE_NAME@,
            forall|j: int| 0 <= j < i ==> !(#[trigger] file_names@[j] matches Some(name) && name@
                == STATE_FILE_NAME@),
        decreases file_names@.len() - i,
    {
        if let Some(name) = &file_names[i] {
            if *name == target {
                return true;
            }
        }
        i = i + 1;
    }
    false
}

/// What reading the state file gave.
#[derive(Debug)]
pub enum ReadOutcome {
    /// The file could not be read (it may have been deleted).
    Missing,
    /// The file was read but does not parse; the parser's message.
    Invalid { error: String },
    /// The file was read and parsed.
    Parsed(StatuslineState),
}

/// The event to send for the outcome of a read of the state file.
pub fn watch_event_for(outcome: ReadOutcome) -> (r: WatchEvent)
    ensures
        outcome is Missing ==> r is StateMissing,
        outcome matches ReadOutcome::Invalid { error } ==> (r matches WatchEvent::ParseError {
            error: text,
        } && text@ == json_error_text(error@)),
        outcome matches ReadOutcome::Parsed(state) ==> r == WatchEvent::StateUpdated(state),
{
    match outcome {
        ReadOutcome::Missing => WatchEvent::StateMissing,
        ReadOutcome::Invalid { error } => {
            let mut text = "JSON parse error: ".to_owned();
            text.append(error.as_str());
            WatchEvent::ParseError { error: text }
        },
        ReadOutcome::Parsed(state) => WatchEvent::StateUpdated(state),
    }
}

/// The name of the frontend event that carries `event`.
pub fn frontend_event_name(event: &WatchEvent) -> (r: &'static str)
    ensures
        event is StateUpdated ==> r@ == "state-updated"@,
        event is StateMissing ==> r@ == "state-missing"@,
        event is ParseError ==> r@ == "parse-error"@,
{
    match event {
        WatchEvent::StateUpdated(_) => "state-updated",
        WatchEvent::StateMissing => "state-missing",
        WatchEvent::ParseError { .. } => "parse-error",
    }
}

/// How setting up the `notify` watcher went.
#[derive(Debug)]
pub enum NotifyStart {
    /// `notify` could not create a watcher.
    Unavailable,
    /// The watcher was created but could not watch the state directory.
    WatchFailed { message: String },
    /// The watcher watches the state directory.
    Watching,
}

/// The text of the error for a directory that cannot be watched.
pub open spec fn watch_failed_text(message: Seq<char>) -> Seq<char> {
    "Failed to watch directory: "@ + message
}

/// What starting a watch returns for how `notify` set up: `Ok(Some(()))` when
/// it watches, `Ok(None)` when it is unavailable (polling takes over), and an
/// error naming the directory failure otherwise.
pub fn watch_start_result(start: NotifyStart) -> (r: Result<Option<()>, String>)
    ensures
        start is Watching ==> r == Ok::<Option<()>, String>(Some(())),
        start is Unavailable ==> r == Ok::<Option<()>, String>(None),
        start matches NotifyStart::WatchFailed { message } ==> (r matches Err(text) && text@
            == watch_failed_text(message@)),
{
    match start {
        NotifyStart::Watching => Ok(Some(())),
        NotifyStart::Unavailable => Ok(None),
        NotifyStart::WatchFailed { message } => {
            let mut text = "Failed to watch directory: ".to_owned();
            text.append(message.as_str());
            Err(text)
        },
    }
}

/// The data that a frontend event carries.
#[derive(Debug)]
pub enum FrontendPayload {
    /// The updated state.
    State(StatuslineState),
    /// The watched PID.
    Pid(u32),
    /// The watched PID and the error text.
    PidError { pid: u32, error: String },
}

/// The data of the frontend event for `event` of the watch of `pid`: an
/// updated state carries the state, a missing file the PID, and a parse error
/// the PID with the error text.
pub fn frontend_payload(event: WatchEvent, pid: u32) -> (r: FrontendPayload)
    ensures
        event matches WatchEvent::StateUpdated(s) ==> r == FrontendPayload::State(s),
        event is StateMissing ==> r == FrontendPayload::Pid(pid),
        event matches WatchEvent::ParseError { error } ==> r == (FrontendPayload::PidError {
            pid,
            error,
        }),
{
    match event {
        WatchEvent::StateUpdated(s) => FrontendPayload::State(s),
        WatchEvent::StateMissing => FrontendPayload::Pid(pid),
        WatchEvent::ParseError { error } => FrontendPayload::PidError { pid, error },
    }
}

/// The polling fallback: remembers the modification time of the state file
/// at the last read.
#[derive(Debug, Clone, Copy)]
pub struct Poller {
    pub last_modified: Option<u64>,
}

/// What one poll of the state file found.
#[derive(Debug, Clone, Copy)]
pub enum PollObservation {
    /// The watch was stopped (the stop channel is closed).
    Stopped,
    /// The state file does not exist.
    Missing,
    /// The state file exists; its modification time in milliseconds, when
    /// known.
    Present { modified_ms: Option<u64> },
}

/// What to do after a poll.
#[derive(Debug, Clone, Copy, PartialEq, Eq, Structural)]
pub enum PollAction {
    /// Report the state file as missing.
    EmitMissing,
    /// Read and parse the state file, and send what it gives.
    ReadState,
    /// Nothing changed.
    Idle,
    /// The watch has ended: leave the loop, sending nothing more.
    Stop,
}

/// The action for observation `obs`: a stopped watch ends the loop; a missing
/// file is reported every time; a present file is read when its modification
/// time differs from the last one.
pub open spec fn poll_action_for(p: Poller, obs: PollObservation) -> PollAction {
    match obs {
        PollObservation::Stopped => PollAction::Stop,
        PollObservation::Missing => PollAction::EmitMissing,
        PollObservation::Present { modified_ms } => if modified_ms != p.last_modified {
            PollAction::ReadState
        } else {
            PollAction::Idle
        },
    }
}

/// The poller after observation `obs`.
pub open spec fn poller_after(p: Poller, obs: PollObservation) -> Poller {
    match obs {
        PollObservation::Stopped => p,
        PollObservation::Missing => Poller { last_modified: None },
        PollObservation::Present { modified_ms } => Poller { last_modified: modified_ms },
    }
}

/// Polling twice with the same modification time reads the file once: the
/// second poll does nothing.
pub proof fn lemma_poll_reads_each_change_once(p: Poller, modified_ms: Option<u64>)
    ensures
        poll_action_for(
            poller_after(p, PollObservation::Present { modified_ms }),
            PollObservation::Present { modified_ms },
        ) == PollAction::Idle,
{
}

/// A state file that reappears after being missing is read again, when its
/// modification time is known.
pub proof fn lemma_poll_reads_after_missing(p: Poller, m: u64)
    ensures
        poll_action_for(
            poller_after(p, PollObservation::Missing),
            PollObservation::Present { modified_ms: Some(m) },
        ) == PollAction::ReadState,
{
}

/// Once the watch is stopped, polling ends whatever state it was in, and only
/// a stopped watch ends it.
pub proof fn lemma_poll_stops(p: Poller, obs: PollObservation)
    ensures
        poll_action_for(p, PollObservation::Stopped) == PollAction::Stop,
        poll_action_for(p, obs) == PollAction::Stop <==> obs is Stopped,
{
}

impl Poller {
    /// No read yet.
    pub fn new() -> (r: Self)
        ensures
            r.last_modified is None,
    {
        Poller { last_modified: None }
    }

    /// How long to sleep before each poll, in milliseconds: the polling
    /// interval.
    pub fn delay_before_poll_ms(&self) -> (r: u64)
        ensures
            r == POLL_INTERVAL_MS,
    {
        POLL_INTERVAL_MS
    }

    /// Take one poll's observation and decide what to do.
    pub fn on_poll(&mut self, obs: PollObservation) -> (r: PollAction)
        ensures
            *final(self) == poller_after(*old(self), obs),
            r == poll_action_for(*old(self), obs),
    {
        match obs {
            PollObservation::Stopped => PollAction::Stop,
            PollObservation::Missing => {
                self.last_modified = None;
                PollAction::EmitMissing
            },
            PollObservation::Present { modified_ms } => {
                let changed = match (modified_ms, self.last_modified) {
                    (Some(a), Some(b)) => a != b,
                    (None, None) => false,
                    _ => true,
                };
                if changed {
                    self.last_modified = modified_ms;
                    PollAction::ReadState
                } else {
                    PollAction::Idle
                }
            },
        }
    }
}

} // verus!
