//! The polling cycle as a state machine: the caller performs each action
//! (read the file, deliver a status, report a failure, wait) and hands the
//! outcome back as the next event.
use vstd::prelude::*;

use crate::tags::{candidates, classification, scan_contents, ScanResult, TagRule};

verus! {

/// Where the engine stands within a cycle.
#[derive(Clone, Copy, Debug, PartialEq, Eq, Structural)]
pub enum Phase {
    /// Between cycles: the next event is the start of a cycle.
    Idle,
    /// The file has been asked for.
    Reading,
    /// A status has been handed out for delivery.
    Delivering,
    /// The engine has ended and does nothing more.
    Stopped,
}

/// What the caller reports to the engine.
#[derive(Clone, Debug, PartialEq, Eq)]
pub enum Event {
    /// A cycle starts, with the registry's path as it is now, and whether
    /// the engine's owner has asked it to stop.
    Tick { path: Option<String>, stop_requested: bool },
    /// The file was read; these are its whole contents.
    ReadOk(String),
    /// The file could not be read, for the reason given.
    ReadFailed(String),
    /// Whether the status reached the observer (`false`: the channel is closed).
    Delivered(bool),
}

/// What the engine asks the caller to do.
#[derive(Clone, Debug, PartialEq, Eq)]
pub enum Action {
    /// Read the whole file at this path.
    Read(String),
    /// Hand this status to the observer.
    Emit(ScanResult),
    /// Report that the file at `path` could not be read, then wait `wait_ms`.
    Report { path: String, message: String, wait_ms: u64 },
    /// Wait this many milliseconds, then start the next cycle.
    Wait(u64),
    /// End the loop.
    Stop,
    /// The event does not belong to the current phase; nothing to do.
    Ignore,
}

/// The abstract content of an event.
pub enum EventView {
    Tick { path: Option<Seq<char>>, stop_requested: bool },
    ReadOk(Seq<char>),
    ReadFailed(Seq<char>),
    Delivered(bool),
}

/// The abstract content of an action.
pub enum ActionView {
    Read(Seq<char>),
    Emit(ScanResult),
    Report { path: Seq<char>, message: Seq<char>, wait_ms: u64 },
    Wait(u64),
    Stop,
    Ignore,
}

impl View for Event {
    type V = EventView;

    open spec fn view(&self) -> EventView {
        match self {
            Event::Tick { path, stop_requested } => EventView::Tick {
                path: path.deep_view(),
                stop_requested: *stop_requested,
            },
            Event::ReadOk(text) => EventView::ReadOk(text@),
            Event::ReadFailed(message) => EventView::ReadFailed(message@),
            Event::Delivered(ok) => EventView::Delivered(*ok),
        }
    }
}

impl View for Action {
    type V = ActionView;

    open spec fn view(&self) -> ActionView {
        match self {
            Action::Read(path) => ActionView::Read(path@),
            Action::Emit(status) => ActionView::Emit(*status),
            Action::Report { path, message, wait_ms } => ActionView::Report {
                path: path@,
                message: message@,
                wait_ms: *wait_ms,
            },
            Action::Wait(ms) => ActionView::Wait(*ms),
            Action::Stop => ActionView::Stop,
            Action::Ignore => ActionView::Ignore,
        }
    }
}

/// The abstract state of an engine.
pub struct EngineView {
    pub phase: Phase,
    pub interval_ms: u64,
    pub marker: Seq<char>,
    pub length: nat,
    /// When the current (or last) cycle started.
    pub started_ms: u64,
    /// The path that the current (or last) cycle reads.
    pub path: Seq<char>,
}

/// The time to wait so that the next cycle starts `interval` after the one
/// that started at `started`; nothing when the cycle overran. A clock that
/// reads earlier than `started` counts as no time elapsed.
pub open spec fn wait_after(interval: u64, started: u64, now: u64) -> u64 {
    let elapsed: int = if now >= started {
        now - started
    } else {
        0
    };
    if elapsed >= interval {
        0
    } else {
        (interval - elapsed) as u64
    }
}

/// `e` moved to `phase`, all else kept.
pub open spec fn with_phase(e: EngineView, phase: Phase) -> EngineView {
    EngineView { phase, ..e }
}

/// One step of the engine: the state and the action after `ev` arrives at
/// time `now` (in milliseconds) in state `e`.
pub open spec fn next(e: EngineView, now: u64, ev: EventView) -> (EngineView, ActionView) {
    match e.phase {
        Phase::Stopped => (e, ActionView::Stop),
        Phase::Idle => match ev {
            EventView::Tick { path, stop_requested } => {
                if stop_requested {
                    (with_phase(e, Phase::Stopped), ActionView::Stop)
                } else if path is Some && path->0.len() > 0 {
                    (
                        EngineView { phase: Phase::Reading, started_ms: now, path: path->0, ..e },
                        ActionView::Read(path->0),
                    )
                } else {
                    (EngineView { started_ms: now, ..e }, ActionView::Wait(e.interval_ms))
                }
            },
            _ => (e, ActionView::Ignore),
        },
        Phase::Reading => match ev {
            EventView::ReadOk(text) => (
                with_phase(e, Phase::Delivering),
                ActionView::Emit(classification(candidates(text, e.marker, e.length))),
            ),
            EventView::ReadFailed(message) => (
                with_phase(e, Phase::Idle),
                ActionView::Report {
                    path: e.path,
                    message,
                    wait_ms: wait_after(e.interval_ms, e.started_ms, now),
                },
            ),
            _ => (e, ActionView::Ignore),
        },
        Phase::Delivering => match ev {
            EventView::Delivered(ok) => {
                if ok {
                    (
                        with_phase(e, Phase::Idle),
                        ActionView::Wait(wait_after(e.interval_ms, e.started_ms, now)),
                    )
                } else {
                    (with_phase(e, Phase::Stopped), ActionView::Stop)
                }
            },
            _ => (e, ActionView::Ignore),
        },
    }
}

/// The time to wait after a cycle that took `elapsed_ms` so that the next one
/// starts `interval_ms` after this one started; zero when it overran.
pub fn idle_time(interval_ms: u64, elapsed_ms: u64) -> (r: u64)
    ensures
        r == wait_after(interval_ms, 0, elapsed_ms),
        elapsed_ms <= interval_ms ==> r + elapsed_ms == interval_ms,
        elapsed_ms >= interval_ms ==> r == 0,
{
    if elapsed_ms >= interval_ms {
        0
    } else {
        interval_ms - elapsed_ms
    }
}

/// The polling engine: the tag rule and cadence it scans with, and where it
/// stands in the current cycle.
pub struct ScanEngine {
    interval_ms: u64,
    rule: TagRule,
    phase: Phase,
    started_ms: u64,
    path: String,
}

impl View for ScanEngine {
    type V = EngineView;

    closed spec fn view(&self) -> EngineView {
        EngineView {
            phase: self.phase,
            interval_ms: self.interval_ms,
            marker: self.rule.marker@,
            length: self.rule.length as nat,
            started_ms: self.started_ms,
            path: self.path@,
        }
    }
}

impl ScanEngine {
    /// An idle engine that scans with `rule` every `interval_ms` milliseconds.
    pub fn new(interval_ms: u64, rule: TagRule) -> (r: ScanEngine)
        ensures
            r@.phase == Phase::Idle,
            r@.interval_ms == interval_ms,
            r@.marker == rule.marker@,
            r@.length == rule.length,
            r@.started_ms == 0,
            r@.path == Seq::<char>::empty(),
    {
        ScanEngine { interval_ms, rule, phase: Phase::Idle, started_ms: 0, path: String::new() }
    }

    /// An idle engine with the reader's tag rule and a one-second cadence.
    pub fn standard() -> (r: ScanEngine)
        ensures
            r@.phase == Phase::Idle,
            r@.interval_ms == 1000,
            r@.marker == seq!['D', 'C'],
            r@.length == 10,
    {
        ScanEngine::new(1000, TagRule::standard())
    }

    /// Where the engine stands.
    pub fn phase(&self) -> (r: Phase)
        ensures
            r == self@.phase,
    {
        self.phase
    }

    /// The cadence, in milliseconds.
    pub fn interval_ms(&self) -> (r: u64)
        ensures
            r == self@.interval_ms,
    {
        self.interval_ms
    }

    /// Takes in `event`, which happened at `now_ms` milliseconds on a clock
    /// that does not go back, and says what to do next.
    pub fn step(&mut self, now_ms: u64, event: Event) -> (r: Action)
        ensures
            (final(self)@, r@) == next(old(self)@, now_ms, event@),
    {
        match self.phase {
            Phase::Stopped => Action::Stop,
            Phase::Idle => match event {
                Event::Tick { path, stop_requested } => {
                    if stop_requested {
                        self.phase = Phase::Stopped;
                        Action::Stop
                    } else {
                        self.started_ms = now_ms;
                        match path {
                            Some(p) => {
                                if !p.as_str().is_empty() {
                                    let read = p.clone();
                                    self.path = p;
                                    self.phase = Phase::Reading;
                                    Action::Read(read)
                                } else {
                                    Action::Wait(self.interval_ms)
                                }
                            },
                            None => Action::Wait(self.interval_ms),
                        }
                    }
                },
                _ => Action::Ignore,
            },
            Phase::Reading => match event {
                Event::ReadOk(text) => {
                    let status = scan_contents(text.as_str(), &self.rule);
                    self.phase = Phase::Delivering;
                    Action::Emit(status)
                },
                Event::ReadFailed(message) => {
                    self.phase = Phase::Idle;
                    let wait_ms = self.wait_now(now_ms);
                    Action::Report { path: self.path.clone(), message, wait_ms }
                },
                _ => Action::Ignore,
            },
            Phase::Delivering => match event {
                Event::Delivered(ok) => {
                    if ok {
                        self.phase = Phase::Idle;
                        Action::Wait(self.wait_now(now_ms))
                    } else {
                        self.phase = Phase::Stopped;
                        Action::Stop
                    }
                },
                _ => Action::Ignore,
            },
        }
    }

    fn wait_now(&self, now_ms: u64) -> (r: u64)
        ensures
            r == wait_after(self.interval_ms, self.started_ms, now_ms),
    {
        let elapsed = if now_ms >= self.started_ms {
            now_ms - self.started_ms
        } else {
            0
        };
        idle_time(self.interval_ms, elapsed)
    }
}

/// Reading the same contents gives the same status in every cycle, whatever
/// the clock and the path: the status depends on the contents and the rule
/// alone.
pub proof fn lemma_same_contents_same_status(
    e1: EngineView,
    e2: EngineView,
    now1: u64,
    now2: u64,
    text: Seq<char>,
)
    requires
        e1.phase == Phase::Reading,
        e2.phase == Phase::Reading,
        e1.marker == e2.marker,
        e1.length == e2.length,
    ensures
        next(e1, now1, EventView::ReadOk(text)).1 == next(e2, now2, EventView::ReadOk(text)).1,
        next(e1, now1, EventView::ReadOk(text)).1 == ActionView::Emit(
            classification(candidates(text, e1.marker, e1.length)),
        ),
{
}

/// A path in the registry when a cycle starts is the path that cycle reads.
pub proof fn lemma_new_path_read_at_next_cycle(e: EngineView, now: u64, p: Seq<char>)
    requires
        e.phase == Phase::Idle,
        p.len() > 0,
    ensures
        next(e, now, EventView::Tick { path: Some(p), stop_requested: false }).1
            == ActionView::Read(p),
        next(e, now, EventView::Tick { path: Some(p), stop_requested: false }).0.path == p,
{
}

/// Once a cycle has started, nothing in it reads a file again or changes
/// the path it reads: a path set meanwhile waits for the next cycle.
pub proof fn lemma_cycle_keeps_its_path(e: EngineView, now: u64, ev: EventView)
    requires
        e.phase != Phase::Idle,
    ensures
        !(next(e, now, ev).1 is Read),
        next(e, now, ev).0.path == e.path,
{
}

/// A status is emitted only in answer to a successful read, and at most once
/// per cycle: after it, the cycle emits nothing more.
pub proof fn lemma_one_emission_per_read(e: EngineView, now: u64, ev: EventView)
    ensures
        next(e, now, ev).1 is Emit ==> (e.phase == Phase::Reading && ev is ReadOk && next(
            e,
            now,
            ev,
        ).0.phase == Phase::Delivering),
        e.phase == Phase::Delivering ==> !(next(e, now, ev).1 is Emit),
{
}

/// The loop ends only when its owner asks it to stop or the observer's
/// channel is closed; a missing path or a failed read never ends it. Once
/// ended, it stays ended.
pub proof fn lemma_only_stop_request_or_closed_channel_ends(e: EngineView, now: u64, ev: EventView)
    ensures
        e.phase != Phase::Stopped && next(e, now, ev).0.phase == Phase::Stopped ==> (
        ev == EventView::Tick { path: ev->path, stop_requested: true } || ev
            == EventView::Delivered(false)),
        e.phase == Phase::Stopped ==> next(e, now, ev) == (e, ActionView::Stop),
{
}

/// The cadence does not drift: a cycle that ends within its interval waits
/// exactly until one interval after it started, one that overran does not
/// wait, and no wait is longer than the interval.
pub proof fn lemma_wait_keeps_cadence(interval: u64, started: u64, now: u64)
    ensures
        wait_after(interval, started, now) <= interval,
        started <= now <= started + interval ==> now + wait_after(interval, started, now)
            == started + interval,
        now >= started + interval ==> wait_after(interval, started, now) == 0,
{
}

} // verus!
