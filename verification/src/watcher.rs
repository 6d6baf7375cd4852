//! The tailer state machine.
//!
//! A watched file moves through a cycle of states: freshly opened
//! (`Initializing`), caught up and polling (`Waiting`), draining a burst of
//! writes (`Reading`), detected as deleted or replaced (`Missing`), waiting
//! for the path to reappear (`Reloading`), and terminated (`Closed`).
//!
//! The machine itself performs no I/O.  The process that drives it performs
//! one read, probe or open attempt per step and reports the outcome as a
//! [`TailEvent`]; [`DetachedLogWatcher::next`] then returns the next state
//! together with a [`StepEffect`]: the chunks to publish and how long to
//! sleep before the next step.  The whole transition relation is stated as
//! the spec function [`next_spec`], which the laws module reasons about.

use vstd::prelude::*;

use crate::LogReaderMode;
use crate::reader::{LogBufReader, chunk_views, read_chunks, LINE_FLUSH_CAP};

verus! {

/// A poll that reads more than this many bytes is a "large" chunk: the
/// watcher stays in catch-up mode and does not sleep.
pub const LARGE_CHUNK_THRESHOLD: usize = 4096;

/// Idle poll interval, in milliseconds.
pub const IDLE_POLL_MILLIS: u64 = 200;

/// Reload retry interval, in milliseconds.
pub const RELOAD_POLL_MILLIS: u64 = 1000;

/// External control signals, applied at most once per driving-loop
/// iteration.
#[derive(Debug)]
pub enum LogWatcherSignal {
    /// Flush best-effort and terminate.
    Close,
    /// Flush best-effort and reopen the same path.
    Reload,
    /// Flush best-effort and retarget reopen attempts at a new path.
    Swap(String),
}

/// The mathematical value of a [`LogBufReader`].
#[verifier::ext_equal]
pub struct ReaderModel {
    pub pending: Seq<u8>,
    pub last_ctime: u64,
    pub path: Seq<char>,
    pub mode: LogReaderMode,
}

impl View for LogBufReader {
    type V = ReaderModel;

    open spec fn view(&self) -> ReaderModel {
        ReaderModel {
            pending: self.pending@,
            last_ctime: self.last_ctime,
            path: self.path@,
            mode: self.mode,
        }
    }
}

/// A well-formed reader model: the pending buffer is under the cap, and only
/// line mode buffers.
pub open spec fn reader_model_wf(r: ReaderModel) -> bool {
    &&& r.pending.len() < LINE_FLUSH_CAP
    &&& r.mode is ReadToEnd ==> r.pending.len() == 0
}

/// Where a watched file is in its lifecycle.  Exactly one owner holds the
/// current variant; a step consumes it and produces the next.
#[derive(Debug)]
pub enum DetachedLogWatcher {
    /// Freshly opened; the cursor is not yet positioned.
    Initializing(LogBufReader),
    /// Positioned and caught up; polling at the idle interval.
    Waiting(LogBufReader),
    /// The last poll returned a large chunk; draining without sleeping.
    Reading(LogBufReader),
    /// The file disappeared or was replaced; about to flush and release.
    Missing(LogBufReader),
    /// No open handle; retrying the path at the reload interval.
    Reloading(String, LogReaderMode),
    /// Terminal.
    Closed,
}

/// The mathematical value of a [`DetachedLogWatcher`].
#[verifier::ext_equal]
pub enum WatcherModel {
    Initializing(ReaderModel),
    Waiting(ReaderModel),
    Reading(ReaderModel),
    Missing(ReaderModel),
    Reloading(Seq<char>, LogReaderMode),
    Closed,
}

impl View for DetachedLogWatcher {
    type V = WatcherModel;

    open spec fn view(&self) -> WatcherModel {
        match self {
            DetachedLogWatcher::Initializing(r) => WatcherModel::Initializing(r@),
            DetachedLogWatcher::Waiting(r) => WatcherModel::Waiting(r@),
            DetachedLogWatcher::Reading(r) => WatcherModel::Reading(r@),
            DetachedLogWatcher::Missing(r) => WatcherModel::Missing(r@),
            DetachedLogWatcher::Reloading(p, m) => WatcherModel::Reloading(p@, *m),
            DetachedLogWatcher::Closed => WatcherModel::Closed,
        }
    }
}

/// A well-formed watcher model.
pub open spec fn model_wf(s: WatcherModel) -> bool {
    match s {
        WatcherModel::Initializing(r) => reader_model_wf(r),
        WatcherModel::Waiting(r) => reader_model_wf(r),
        WatcherModel::Reading(r) => reader_model_wf(r),
        WatcherModel::Missing(r) => reader_model_wf(r),
        WatcherModel::Reloading(_, _) => true,
        WatcherModel::Closed => true,
    }
}

/// The outcome of the one piece of outside work a state asks for, reported
/// back to the machine.
#[derive(Debug)]
pub enum TailEvent {
    /// The cursor was moved to the end of the file and a baseline change
    /// token was recorded.
    Seeked { token: u64 },
    /// One poll completed: `input` holds the newly read bytes (possibly
    /// none), `token` the change token probed after the read, if the probe
    /// succeeded.
    Polled { input: Vec<u8>, token: Option<u64> },
    /// The read failed because the file is gone.
    ReadFailed,
    /// The path exists again; a fresh handle was opened and its change token
    /// recorded.
    Opened { token: u64 },
    /// The path is still absent or inaccessible.
    StillMissing,
    /// Nothing to report; used for states that need no outside work.
    Tick,
}

/// The mathematical value of a [`TailEvent`].
#[verifier::ext_equal]
pub enum EventModel {
    Seeked { token: u64 },
    Polled { input: Seq<u8>, token: Option<u64> },
    ReadFailed,
    Opened { token: u64 },
    StillMissing,
    Tick,
}

impl View for TailEvent {
    type V = EventModel;

    open spec fn view(&self) -> EventModel {
        match self {
            TailEvent::Seeked { token } => EventModel::Seeked { token: *token },
            TailEvent::Polled { input, token } => EventModel::Polled {
                input: input@,
                token: *token,
            },
            TailEvent::ReadFailed => EventModel::ReadFailed,
            TailEvent::Opened { token } => EventModel::Opened { token: *token },
            TailEvent::StillMissing => EventModel::StillMissing,
            TailEvent::Tick => EventModel::Tick,
        }
    }
}

/// How long the driving loop sleeps before its next step.
#[derive(Debug, Clone, Copy, PartialEq, Eq, Structural)]
pub enum PollDelay {
    NoSleep,
    ShortPoll,
    LongPoll,
}

/// The sleep interval each delay stands for, in milliseconds.
pub open spec fn delay_millis(d: PollDelay) -> u64 {
    match d {
        PollDelay::NoSleep => 0,
        PollDelay::ShortPoll => IDLE_POLL_MILLIS,
        PollDelay::LongPoll => RELOAD_POLL_MILLIS,
    }
}

impl PollDelay {
    /// The sleep interval in milliseconds; zero means do not sleep.
    pub fn millis(&self) -> (r: u64)
        ensures
            r == delay_millis(*self),
    {
        match self {
            PollDelay::NoSleep => 0,
            PollDelay::ShortPoll => IDLE_POLL_MILLIS,
            PollDelay::LongPoll => RELOAD_POLL_MILLIS,
        }
    }
}

/// What one step asks the driving loop to do: publish these chunks, in
/// order, then sleep.
#[derive(Debug)]
pub struct StepEffect {
    pub emit: Vec<Vec<u8>>,
    pub delay: PollDelay,
}

/// The mathematical value of a [`StepEffect`].
#[verifier::ext_equal]
pub struct EffectModel {
    pub emit: Seq<Seq<u8>>,
    pub delay: PollDelay,
}

impl View for StepEffect {
    type V = EffectModel;

    open spec fn view(&self) -> EffectModel {
        EffectModel { emit: chunk_views(self.emit@), delay: self.delay }
    }
}

impl StepEffect {
    /// Publish nothing, sleep for `delay`.
    pub fn sleep(delay: PollDelay) -> (r: Self)
        ensures
            r@ == (EffectModel { emit: Seq::<Seq<u8>>::empty(), delay }),
    {
        let r = StepEffect { emit: Vec::new(), delay };
        proof {
            assert(chunk_views(r.emit@) =~= Seq::<Seq<u8>>::empty());
        }
        r
    }
}

/// No chunks, no sleep.
pub open spec fn no_effect() -> EffectModel {
    EffectModel { emit: seq![], delay: PollDelay::NoSleep }
}

/// The best-effort flush of a pending buffer: one chunk if it holds
/// anything, none otherwise.
pub open spec fn flush_of(pending: Seq<u8>) -> Seq<Seq<u8>> {
    if pending.len() > 0 {
        seq![pending]
    } else {
        seq![]
    }
}

/// A reader just built for `path`: nothing pending, baseline token recorded.
pub open spec fn fresh_reader(path: Seq<char>, mode: LogReaderMode, token: u64) -> ReaderModel {
    ReaderModel { pending: seq![], last_ctime: token, path, mode }
}

/// One poll step from `Waiting` or `Reading` (`from_waiting` tells which).
///
/// Zero bytes from `Waiting` means caught up or rotated: the change token
/// decides, and a failed probe counts as rotated.  Zero bytes from `Reading`
/// just drops back to idle polling.  Fresh bytes are cut into chunks by the
/// reader's mode; the byte count decides whether the watcher sleeps
/// (small write) or keeps draining (large chunk), and a token probed after a
/// successful read becomes the new baseline.
pub open spec fn poll_step(r: ReaderModel, input: Seq<u8>, token: Option<u64>, from_waiting: bool) -> (
    WatcherModel,
    EffectModel,
) {
    if input.len() == 0 {
        if from_waiting {
            match token {
                Some(t) => if t > r.last_ctime {
                    (WatcherModel::Missing(r), no_effect())
                } else {
                    (
                        WatcherModel::Waiting(r),
                        EffectModel { emit: seq![], delay: PollDelay::ShortPoll },
                    )
                },
                None => (WatcherModel::Missing(r), no_effect()),
            }
        } else {
            (WatcherModel::Waiting(r), no_effect())
        }
    } else {
        let rc = read_chunks(r.mode, r.pending, input);
        let baseline = match token {
            Some(t) => t,
            None => r.last_ctime,
        };
        let r2 = ReaderModel { pending: rc.1, last_ctime: baseline, path: r.path, mode: r.mode };
        let effect = EffectModel {
            emit: rc.0,
            delay: if from_waiting && input.len() <= LARGE_CHUNK_THRESHOLD {
                PollDelay::ShortPoll
            } else {
                PollDelay::NoSleep
            },
        };
        if input.len() > LARGE_CHUNK_THRESHOLD || (!from_waiting && input.len()
            >= LARGE_CHUNK_THRESHOLD) {
            (WatcherModel::Reading(r2), effect)
        } else {
            (WatcherModel::Waiting(r2), effect)
        }
    }
}

/// The transition relation: what one step does in every state, for every
/// event.  A step with an event that does not belong to the state changes
/// nothing.
pub open spec fn next_spec(s: WatcherModel, e: EventModel) -> (WatcherModel, EffectModel) {
    match s {
        WatcherModel::Initializing(r) => match e {
            EventModel::Seeked { token } => (
                WatcherModel::Waiting(
                    ReaderModel { pending: r.pending, last_ctime: token, path: r.path, mode: r.mode },
                ),
                no_effect(),
            ),
            EventModel::ReadFailed => (WatcherModel::Missing(r), no_effect()),
            _ => (s, no_effect()),
        },
        WatcherModel::Waiting(r) => match e {
            EventModel::Polled { input, token } => poll_step(r, input, token, true),
            EventModel::ReadFailed => (WatcherModel::Missing(r), no_effect()),
            _ => (s, no_effect()),
        },
        WatcherModel::Reading(r) => match e {
            EventModel::Polled { input, token } => poll_step(r, input, token, false),
            EventModel::ReadFailed => (WatcherModel::Missing(r), no_effect()),
            _ => (s, no_effect()),
        },
        WatcherModel::Missing(r) => (
            WatcherModel::Reloading(r.path, r.mode),
            EffectModel { emit: flush_of(r.pending), delay: PollDelay::NoSleep },
        ),
        WatcherModel::Reloading(path, mode) => match e {
            EventModel::Opened { token } => (
                WatcherModel::Waiting(fresh_reader(path, mode, token)),
                no_effect(),
            ),
            EventModel::StillMissing => (
                s,
                EffectModel { emit: seq![], delay: PollDelay::LongPoll },
            ),
            _ => (s, no_effect()),
        },
        WatcherModel::Closed => (s, no_effect()),
    }
}

/// What `Close` does in every state: flush best-effort, terminate.
pub open spec fn close_spec(s: WatcherModel) -> (WatcherModel, Seq<Seq<u8>>) {
    match s {
        WatcherModel::Initializing(r) => (WatcherModel::Closed, flush_of(r.pending)),
        WatcherModel::Waiting(r) => (WatcherModel::Closed, flush_of(r.pending)),
        WatcherModel::Reading(r) => (WatcherModel::Closed, flush_of(r.pending)),
        WatcherModel::Missing(r) => (WatcherModel::Closed, flush_of(r.pending)),
        WatcherModel::Reloading(_, _) => (WatcherModel::Closed, seq![]),
        WatcherModel::Closed => (WatcherModel::Closed, seq![]),
    }
}

/// What `Reload` does in every state: flush best-effort, release the handle
/// and reopen the same path.  A no-op while already reloading or closed.
pub open spec fn reload_spec(s: WatcherModel) -> (WatcherModel, Seq<Seq<u8>>) {
    match s {
        WatcherModel::Initializing(r) => (WatcherModel::Reloading(r.path, r.mode), flush_of(r.pending)),
        WatcherModel::Waiting(r) => (WatcherModel::Reloading(r.path, r.mode), flush_of(r.pending)),
        WatcherModel::Reading(r) => (WatcherModel::Reloading(r.path, r.mode), flush_of(r.pending)),
        WatcherModel::Missing(r) => (WatcherModel::Reloading(r.path, r.mode), flush_of(r.pending)),
        WatcherModel::Reloading(p, m) => (WatcherModel::Reloading(p, m), seq![]),
        WatcherModel::Closed => (WatcherModel::Closed, seq![]),
    }
}

/// What `Swap` does in every state: like `Reload`, but reopen attempts aim
/// at the new path.  Only the stored path changes while already reloading; a
/// closed watcher stays closed.
pub open spec fn swap_spec(s: WatcherModel, path: Seq<char>) -> (WatcherModel, Seq<Seq<u8>>) {
    match s {
        WatcherModel::Initializing(r) => (WatcherModel::Reloading(path, r.mode), flush_of(r.pending)),
        WatcherModel::Waiting(r) => (WatcherModel::Reloading(path, r.mode), flush_of(r.pending)),
        WatcherModel::Reading(r) => (WatcherModel::Reloading(path, r.mode), flush_of(r.pending)),
        WatcherModel::Missing(r) => (WatcherModel::Reloading(path, r.mode), flush_of(r.pending)),
        WatcherModel::Reloading(_, m) => (WatcherModel::Reloading(path, m), seq![]),
        WatcherModel::Closed => (WatcherModel::Closed, seq![]),
    }
}

impl DetachedLogWatcher {
    /// Well-formed: whichever reader the state carries is well-formed.
    pub open spec fn wf(self) -> bool {
        model_wf(self@)
    }

    /// The initial state, from the outcome of the first open attempt: a
    /// fresh reader, positioned later if existing content is to be skipped,
    /// or straight to reloading when the path does not exist yet.
    pub fn start(path: String, mode: LogReaderMode, skip_to_end: bool, opened_token: Option<u64>) -> (r: Self)
        ensures
            r.wf(),
            opened_token matches Some(token) ==> r@ == if skip_to_end {
                WatcherModel::Initializing(fresh_reader(path@, mode, token))
            } else {
                WatcherModel::Waiting(fresh_reader(path@, mode, token))
            },
            opened_token is None ==> r@ == WatcherModel::Reloading(path@, mode),
    {
        match opened_token {
            Some(token) => {
                let reader = LogBufReader::new(path, mode, token);
                proof {
                    assert(reader@ =~= fresh_reader(reader@.path, mode, token));
                }
                if skip_to_end {
                    DetachedLogWatcher::Initializing(reader)
                } else {
                    DetachedLogWatcher::Waiting(reader)
                }
            },
            None => DetachedLogWatcher::Reloading(path, mode),
        }
    }

    /// One step: consume the state and the event, produce the next state and
    /// the effect the driving loop must carry out, exactly as [`next_spec`]
    /// says.
    pub fn next(self, event: TailEvent) -> (r: (Self, StepEffect))
        requires
            self.wf(),
        ensures
            r.0.wf(),
            r.0@ == next_spec(self@, event@).0,
            r.1@ == next_spec(self@, event@).1,
    {
        match self {
            DetachedLogWatcher::Initializing(mut inner) => match event {
                TailEvent::Seeked { token } => {
                    inner.last_ctime = token;
                    (DetachedLogWatcher::Waiting(inner), StepEffect::sleep(PollDelay::NoSleep))
                },
                TailEvent::ReadFailed => (
                    DetachedLogWatcher::Missing(inner),
                    StepEffect::sleep(PollDelay::NoSleep),
                ),
                _ => (DetachedLogWatcher::Initializing(inner), StepEffect::sleep(PollDelay::NoSleep)),
            },
            DetachedLogWatcher::Waiting(inner) => match event {
                TailEvent::Polled { input, token } => Self::poll(inner, input, token, true),
                TailEvent::ReadFailed => (
                    DetachedLogWatcher::Missing(inner),
                    StepEffect::sleep(PollDelay::NoSleep),
                ),
                _ => (DetachedLogWatcher::Waiting(inner), StepEffect::sleep(PollDelay::NoSleep)),
            },
            DetachedLogWatcher::Reading(inner) => match event {
                TailEvent::Polled { input, token } => Self::poll(inner, input, token, false),
                TailEvent::ReadFailed => (
                    DetachedLogWatcher::Missing(inner),
                    StepEffect::sleep(PollDelay::NoSleep),
                ),
                _ => (DetachedLogWatcher::Reading(inner), StepEffect::sleep(PollDelay::NoSleep)),
            },
            DetachedLogWatcher::Missing(inner) => {
                let LogBufReader { pending, last_ctime: _, path, mode } = inner;
                let emit = Self::flush_pending(pending);
                (
                    DetachedLogWatcher::Reloading(path, mode),
                    StepEffect { emit, delay: PollDelay::NoSleep },
                )
            },
            DetachedLogWatcher::Reloading(path, mode) => match event {
                TailEvent::Opened { token } => {
                    let reader = LogBufReader::new(path, mode, token);
                    proof {
                        assert(reader@ =~= fresh_reader(reader@.path, mode, token));
                    }
                    (DetachedLogWatcher::Waiting(reader), StepEffect::sleep(PollDelay::NoSleep))
                },
                TailEvent::StillMissing => (
                    DetachedLogWatcher::Reloading(path, mode),
                    StepEffect::sleep(PollDelay::LongPoll),
                ),
                _ => (
                    DetachedLogWatcher::Reloading(path, mode),
                    StepEffect::sleep(PollDelay::NoSleep),
                ),
            },
            DetachedLogWatcher::Closed => (
                DetachedLogWatcher::Closed,
                StepEffect::sleep(PollDelay::NoSleep),
            ),
        }
    }

    /// The shared poll step of `Waiting` and `Reading`.
    fn poll(mut inner: LogBufReader, input: Vec<u8>, token: Option<u64>, from_waiting: bool) -> (r: (
        Self,
        StepEffect,
    ))
        requires
            inner.wf(),
        ensures
            r.0.wf(),
            r.0@ == poll_step(inner@, input@, token, from_waiting).0,
            r.1@ == poll_step(inner@, input@, token, from_waiting).1,
    {
        if input.len() == 0 {
            if from_waiting {
                match token {
                    Some(t) => {
                        if t > inner.last_ctime {
                            (DetachedLogWatcher::Missing(inner), StepEffect::sleep(PollDelay::NoSleep))
                        } else {
                            (
                                DetachedLogWatcher::Waiting(inner),
                                StepEffect::sleep(PollDelay::ShortPoll),
                            )
                        }
                    },
                    None => (
                        DetachedLogWatcher::Missing(inner),
                        StepEffect::sleep(PollDelay::NoSleep),
                    ),
                }
            } else {
                (DetachedLogWatcher::Waiting(inner), StepEffect::sleep(PollDelay::NoSleep))
            }
        } else {
            let n = input.len();
            let chunks = inner.read_next(input.as_slice());
            match token {
                Some(t) => {
                    inner.last_ctime = t;
                },
                None => {},
            }
            let delay = if from_waiting && n <= LARGE_CHUNK_THRESHOLD {
                PollDelay::ShortPoll
            } else {
                PollDelay::NoSleep
            };
            let effect = StepEffect { emit: chunks, delay };
            if n > LARGE_CHUNK_THRESHOLD || (!from_waiting && n >= LARGE_CHUNK_THRESHOLD) {
                (DetachedLogWatcher::Reading(inner), effect)
            } else {
                (DetachedLogWatcher::Waiting(inner), effect)
            }
        }
    }

    /// Apply `Close`: flush any pending bytes best-effort and terminate, in
    /// any state.  The returned chunks are for the loop to publish.
    pub fn close(&mut self) -> (flush: Vec<Vec<u8>>)
        requires
            old(self).wf(),
        ensures
            final(self).wf(),
            final(self)@ == close_spec(old(self)@).0,
            chunk_views(flush@) == close_spec(old(self)@).1,
    {
        let mut taken = DetachedLogWatcher::Closed;
        core::mem::swap(self, &mut taken);
        match taken {
            DetachedLogWatcher::Initializing(inner)
            | DetachedLogWatcher::Waiting(inner)
            | DetachedLogWatcher::Reading(inner)
            | DetachedLogWatcher::Missing(inner) => Self::flush_pending(inner.pending),
            DetachedLogWatcher::Reloading(_, _) => {
                let flush: Vec<Vec<u8>> = Vec::new();
                proof {
                    assert(chunk_views(flush@) =~= Seq::<Seq<u8>>::empty());
                }
                flush
            },
            DetachedLogWatcher::Closed => {
                let flush: Vec<Vec<u8>> = Vec::new();
                proof {
                    assert(chunk_views(flush@) =~= Seq::<Seq<u8>>::empty());
                }
                flush
            },
        }
    }

    /// Apply `Reload`: flush best-effort and fall back to reopening the same
    /// path.  A no-op while already reloading or closed.
    pub fn reload(&mut self) -> (flush: Vec<Vec<u8>>)
        requires
            old(self).wf(),
        ensures
            final(self).wf(),
            final(self)@ == reload_spec(old(self)@).0,
            chunk_views(flush@) == reload_spec(old(self)@).1,
    {
        let mut taken = DetachedLogWatcher::Closed;
        core::mem::swap(self, &mut taken);
        match taken {
            DetachedLogWatcher::Initializing(inner)
            | DetachedLogWatcher::Waiting(inner)
            | DetachedLogWatcher::Reading(inner)
            | DetachedLogWatcher::Missing(inner) => {
                let LogBufReader { pending, last_ctime: _, path, mode } = inner;
                *self = DetachedLogWatcher::Reloading(path, mode);
                Self::flush_pending(pending)
            },
            DetachedLogWatcher::Reloading(path, mode) => {
                *self = DetachedLogWatcher::Reloading(path, mode);
                let flush: Vec<Vec<u8>> = Vec::new();
                proof {
                    assert(chunk_views(flush@) =~= Seq::<Seq<u8>>::empty());
                }
                flush
            },
            DetachedLogWatcher::Closed => {
                let flush: Vec<Vec<u8>> = Vec::new();
                proof {
                    assert(chunk_views(flush@) =~= Seq::<Seq<u8>>::empty());
                }
                flush
            },
        }
    }

    /// Apply `Swap(path)`: like `Reload`, but reopen attempts aim at the new
    /// path.
    pub fn swap(&mut self, path: String) -> (flush: Vec<Vec<u8>>)
        requires
            old(self).wf(),
        ensures
            final(self).wf(),
            final(self)@ == swap_spec(old(self)@, path@).0,
            chunk_views(flush@) == swap_spec(old(self)@, path@).1,
    {
        let mut taken = DetachedLogWatcher::Closed;
        core::mem::swap(self, &mut taken);
        match taken {
            DetachedLogWatcher::Initializing(inner)
            | DetachedLogWatcher::Waiting(inner)
            | DetachedLogWatcher::Reading(inner)
            | DetachedLogWatcher::Missing(inner) => {
                let LogBufReader { pending, last_ctime: _, path: _, mode } = inner;
                *self = DetachedLogWatcher::Reloading(path, mode);
                Self::flush_pending(pending)
            },
            DetachedLogWatcher::Reloading(_, mode) => {
                *self = DetachedLogWatcher::Reloading(path, mode);
                let flush: Vec<Vec<u8>> = Vec::new();
                proof {
                    assert(chunk_views(flush@) =~= Seq::<Seq<u8>>::empty());
                }
                flush
            },
            DetachedLogWatcher::Closed => {
                let flush: Vec<Vec<u8>> = Vec::new();
                proof {
                    assert(chunk_views(flush@) =~= Seq::<Seq<u8>>::empty());
                }
                flush
            },
        }
    }

    /// Turn a pending buffer into the chunks of its best-effort flush.
    fn flush_pending(pending: Vec<u8>) -> (flush: Vec<Vec<u8>>)
        ensures
            chunk_views(flush@) == flush_of(pending@),
    {
        let mut flush: Vec<Vec<u8>> = Vec::new();
        if pending.len() > 0 {
            flush.push(pending);
        }
        proof {
            assert(chunk_views(flush@) =~= flush_of(pending@));
        }
        flush
    }
}

} // verus!
