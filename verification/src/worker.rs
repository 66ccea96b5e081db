//! The decisions of the render thread.
//!
//! The render thread sleeps, renders and pushes; what it does next is decided
//! here. [`RenderWorker::step`] takes what just happened, the time and the
//! stop signal, and answers with the next thing to do. The thread that drives
//! the worker does what it is told and reports back.
//!
//! Times are nanoseconds on a monotonic clock of the caller's choice.

use vstd::prelude::*;
use crate::chunk::{chunk_count, ChunkFormat};
use crate::consumer::{duration_nanos, ConsumerInfo};

verus! {

/// The life of the render thread, as others see it.
#[derive(Clone, Copy, Debug, PartialEq, Eq)]
pub enum WorkerState {
    /// Not started yet.
    Idle,
    /// In the render loop.
    Running,
    /// Told to stop while a chunk was in flight; finishing that chunk.
    Draining,
    /// Finished for good.
    Stopped,
}

/// Where the worker stands in its loop, and so what it expects to hear next.
#[derive(Clone, Copy, Debug, PartialEq, Eq)]
pub enum WorkerPhase {
    /// Not started yet; expects [`WorkerEvent::Started`].
    Idle,
    /// At the top of the loop, asleep or about to look at the clock; expects
    /// [`WorkerEvent::Resumed`].
    Pacing,
    /// A chunk is being filtered and spatialised; expects
    /// [`WorkerEvent::Rendered`].
    Rendering,
    /// The finished chunk is offered to the handoff; expects
    /// [`WorkerEvent::Pushed`] or [`WorkerEvent::HandoffFull`].
    Pushing,
    /// The handoff was full; waiting before the chunk is offered again.
    /// Expects [`WorkerEvent::Resumed`].
    Waiting,
    /// The stop signal came while a chunk was being rendered; the chunk is
    /// offered to the handoff once.
    Draining,
    /// Finished for good.
    Stopped,
}

/// What the thread reports to the worker.
#[derive(Clone, Copy, Debug, PartialEq, Eq)]
pub enum WorkerEvent {
    /// The thread has started.
    Started,
    /// The sleep, the wait or the drop that the worker asked for is over.
    Resumed,
    /// The chunk that the worker asked for is rendered.
    Rendered,
    /// The handoff took the chunk.
    Pushed,
    /// The handoff was full and gave the chunk back.
    HandoffFull,
}

/// What the worker tells the thread to do.
#[derive(Clone, Copy, Debug, PartialEq, Eq)]
pub enum WorkerAction {
    /// Sleep for `nanos`, then report [`WorkerEvent::Resumed`].
    Sleep { nanos: u64 },
    /// Take chunk number `chunk` from the source, filter it, read the
    /// orientation mailbox and spatialise; then report
    /// [`WorkerEvent::Rendered`].
    Render { chunk: usize },
    /// Offer the rendered chunk to the handoff without waiting, and report
    /// [`WorkerEvent::Pushed`] or [`WorkerEvent::HandoffFull`].
    Push,
    /// Wait up to `nanos` for room in the handoff, then report
    /// [`WorkerEvent::Resumed`].
    Wait { nanos: u64 },
    /// Give the rendered chunk up and say so in the log, then report
    /// [`WorkerEvent::Resumed`].
    DropChunk,
    /// Leave the loop, with whatever chunk is still in hand.
    Exit,
}

/// The answer to an event that the worker was not waiting for. The worker
/// has not changed.
#[derive(Clone, Copy, Debug, PartialEq, Eq)]
pub struct OutOfTurn;

/// The time from `since` to `now`, and zero where the clock seems to have run
/// backwards.
pub open spec fn elapsed_nanos(since: u64, now: u64) -> u64 {
    if now >= since {
        (now - since) as u64
    } else {
        0
    }
}

/// The time `timeout` after `now`, or the end of time where that lies beyond.
pub open spec fn deadline_after(now: u64, timeout: u64) -> u64 {
    if now + timeout <= u64::MAX {
        (now + timeout) as u64
    } else {
        u64::MAX
    }
}

/// All that the worker's decisions depend on.
pub struct WorkerModel {
    pub phase: WorkerPhase,
    /// The number of chunks in the source.
    pub total_chunks: usize,
    /// The number of chunks taken from the source so far, which is also the
    /// number of the next one.
    pub next_chunk: usize,
    /// The number of chunks that the handoff took.
    pub delivered: usize,
    /// The number of chunks that were given up.
    pub dropped: usize,
    /// The wall-clock duration of one chunk.
    pub chunk_nanos: u64,
    /// How long a chunk is held for a full handoff before it is given up.
    pub push_timeout_nanos: u64,
    /// When the last chunk was begun.
    pub last_start: u64,
    /// Until when the chunk in hand is held for a full handoff.
    pub push_deadline: u64,
    /// Whether the stop signal was ever seen.
    pub stop_seen: bool,
}

impl WorkerModel {
    /// A worker that has not started.
    pub open spec fn initial(total_chunks: usize, chunk_nanos: u64, push_timeout_nanos: u64) -> Self {
        WorkerModel {
            phase: WorkerPhase::Idle,
            total_chunks,
            next_chunk: 0,
            delivered: 0,
            dropped: 0,
            chunk_nanos,
            push_timeout_nanos,
            last_start: 0,
            push_deadline: 0,
            stop_seen: false,
        }
    }

    /// The life of the thread in this phase.
    pub open spec fn state(self) -> WorkerState {
        match self.phase {
            WorkerPhase::Idle => WorkerState::Idle,
            WorkerPhase::Draining => WorkerState::Draining,
            WorkerPhase::Stopped => WorkerState::Stopped,
            _ => WorkerState::Running,
        }
    }

    /// The number of chunks that were taken from the source and are neither
    /// delivered nor given up yet: one or none.
    pub open spec fn in_flight(self) -> nat {
        match self.phase {
            WorkerPhase::Rendering | WorkerPhase::Pushing | WorkerPhase::Waiting
            | WorkerPhase::Draining => 1,
            _ => 0,
        }
    }

    /// What holds of a worker at all times: every chunk taken from the source
    /// is delivered, given up or in flight, and a worker that stopped without
    /// being told to has taken them all.
    pub open spec fn inv(self) -> bool {
        &&& self.next_chunk <= self.total_chunks
        &&& self.delivered + self.dropped + self.in_flight() == self.next_chunk
        &&& self.phase == WorkerPhase::Draining ==> self.stop_seen
        &&& self.phase == WorkerPhase::Stopped && !self.stop_seen ==> self.next_chunk
            == self.total_chunks
    }

    /// The top of the loop: stop when the source is used up, sleep when the
    /// next chunk is not due yet, and else begin it.
    pub open spec fn begin(self, now: u64) -> (Self, WorkerAction) {
        if self.next_chunk >= self.total_chunks {
            (WorkerModel { phase: WorkerPhase::Stopped, ..self }, WorkerAction::Exit)
        } else if elapsed_nanos(self.last_start, now) < self.chunk_nanos {
            (
                WorkerModel { phase: WorkerPhase::Pacing, ..self },
                WorkerAction::Sleep {
                    nanos: (self.chunk_nanos - elapsed_nanos(self.last_start, now)) as u64,
                },
            )
        } else {
            (
                WorkerModel {
                    phase: WorkerPhase::Rendering,
                    last_start: now,
                    next_chunk: (self.next_chunk + 1) as usize,
                    ..self
                },
                WorkerAction::Render { chunk: self.next_chunk },
            )
        }
    }

    /// The end of the loop, with the chunk in flight, if there is one,
    /// counted as delivered or as given up.
    pub open spec fn finish(self, delivered: bool) -> (Self, WorkerAction) {
        (
            WorkerModel {
                phase: WorkerPhase::Stopped,
                delivered: if delivered {
                    (self.delivered + self.in_flight()) as usize
                } else {
                    self.delivered
                },
                dropped: if delivered {
                    self.dropped
                } else {
                    (self.dropped + self.in_flight()) as usize
                },
                ..self
            },
            WorkerAction::Exit,
        )
    }

    /// What the worker does when the stop signal is up: a chunk that has just
    /// been rendered is still offered to the handoff, once; in every other
    /// case the loop ends here.
    pub open spec fn halt(self, event: WorkerEvent) -> (Self, WorkerAction) {
        let seen = WorkerModel { stop_seen: true, ..self };
        if self.phase == WorkerPhase::Rendering && event == WorkerEvent::Rendered {
            (WorkerModel { phase: WorkerPhase::Draining, ..seen }, WorkerAction::Push)
        } else {
            seen.finish(self.phase == WorkerPhase::Pushing && event == WorkerEvent::Pushed)
        }
    }

    /// What the worker does with a handoff that is full: give the chunk up
    /// when its time is over, and else wait for what is left of that time,
    /// though never longer than one chunk lasts.
    pub open spec fn hold(self, now: u64) -> (Self, WorkerAction) {
        if now >= self.push_deadline {
            (
                WorkerModel {
                    phase: WorkerPhase::Pacing,
                    dropped: (self.dropped + 1) as usize,
                    ..self
                },
                WorkerAction::DropChunk,
            )
        } else {
            (
                WorkerModel { phase: WorkerPhase::Waiting, ..self },
                WorkerAction::Wait {
                    nanos: if self.push_deadline - now < self.chunk_nanos {
                        (self.push_deadline - now) as u64
                    } else {
                        self.chunk_nanos
                    },
                },
            )
        }
    }

    /// Whether the worker in this phase waits for `event`.
    pub open spec fn expects(self, event: WorkerEvent) -> bool {
        match self.phase {
            WorkerPhase::Idle => event == WorkerEvent::Started,
            WorkerPhase::Pacing | WorkerPhase::Waiting => event == WorkerEvent::Resumed,
            WorkerPhase::Rendering => event == WorkerEvent::Rendered,
            WorkerPhase::Pushing => event == WorkerEvent::Pushed || event
                == WorkerEvent::HandoffFull,
            WorkerPhase::Draining | WorkerPhase::Stopped => true,
        }
    }

    /// The worker after `event` at time `now`, and what it asks for.
    ///
    /// A stopped worker stays stopped. A draining worker stops, whatever it
    /// hears. Any other worker obeys the stop signal first; without it, an
    /// event that it does not expect changes nothing.
    pub open spec fn step(self, event: WorkerEvent, now: u64, stop: bool) -> (
        Self,
        Result<WorkerAction, OutOfTurn>,
    ) {
        if !stop && !self.expects(event) {
            (self, Err(OutOfTurn))
        } else {
            (self.react(event, now, stop).0, Ok(self.react(event, now, stop).1))
        }
    }

    /// The step for an event that is expected or that comes with the stop
    /// signal.
    pub open spec fn react(self, event: WorkerEvent, now: u64, stop: bool) -> (
        Self,
        WorkerAction,
    ) {
        match self.phase {
            WorkerPhase::Stopped => (self, WorkerAction::Exit),
            WorkerPhase::Draining => self.finish(event == WorkerEvent::Pushed),
            _ if stop => self.halt(event),
            WorkerPhase::Idle => (WorkerModel { last_start: now, ..self }).begin(now),
            WorkerPhase::Pacing => self.begin(now),
            WorkerPhase::Rendering => (
                WorkerModel {
                    phase: WorkerPhase::Pushing,
                    push_deadline: deadline_after(now, self.push_timeout_nanos),
                    ..self
                },
                WorkerAction::Push,
            ),
            WorkerPhase::Pushing => if event == WorkerEvent::Pushed {
                (WorkerModel {
                    phase: WorkerPhase::Pacing,
                    delivered: (self.delivered + 1) as usize,
                    ..self
                }).begin(now)
            } else {
                self.hold(now)
            },
            WorkerPhase::Waiting => (
                WorkerModel { phase: WorkerPhase::Pushing, ..self },
                WorkerAction::Push,
            ),
        }
    }

    /// The worker after each of `events` in turn.
    pub open spec fn run(self, events: Seq<(WorkerEvent, u64, bool)>) -> Self
        decreases events.len(),
    {
        if events.len() == 0 {
            self
        } else {
            self.step(events[0].0, events[0].1, events[0].2).0.run(events.skip(1))
        }
    }
}

/// The render thread's decision maker.
///
/// Its view is the [`WorkerModel`] that it stands for.
#[derive(Clone, Copy, Debug)]
pub struct RenderWorker {
    phase: WorkerPhase,
    total_chunks: usize,
    next_chunk: usize,
    delivered: usize,
    dropped: usize,
    chunk_nanos: u64,
    push_timeout_nanos: u64,
    last_start: u64,
    push_deadline: u64,
    stop_seen: bool,
}

impl View for RenderWorker {
    type V = WorkerModel;

    closed spec fn view(&self) -> WorkerModel {
        WorkerModel {
            phase: self.phase,
            total_chunks: self.total_chunks,
            next_chunk: self.next_chunk,
            delivered: self.delivered,
            dropped: self.dropped,
            chunk_nanos: self.chunk_nanos,
            push_timeout_nanos: self.push_timeout_nanos,
            last_start: self.last_start,
            push_deadline: self.push_deadline,
            stop_seen: self.stop_seen,
        }
    }
}

impl RenderWorker {
    /// The worker's books are in order.
    #[verifier::type_invariant]
    spec fn wf(&self) -> bool {
        self@.inv()
    }

    /// A worker for a source of `total_chunks` chunks, each of which lasts
    /// `chunk_nanos`, that holds a chunk for a full handoff for at most
    /// `push_timeout_nanos`.
    pub fn new(total_chunks: usize, chunk_nanos: u64, push_timeout_nanos: u64) -> (worker: Self)
        ensures
            worker@ == WorkerModel::initial(total_chunks, chunk_nanos, push_timeout_nanos),
    {
        RenderWorker {
            phase: WorkerPhase::Idle,
            total_chunks,
            next_chunk: 0,
            delivered: 0,
            dropped: 0,
            chunk_nanos,
            push_timeout_nanos,
            last_start: 0,
            push_deadline: 0,
            stop_seen: false,
        }
    }

    /// A worker for a source of `source_len` samples that is cut into chunks
    /// of `format` and played on `device`: it takes as many chunks as the
    /// source gives, one per chunk duration.
    ///
    /// `None` when that duration cannot be told: see
    /// [`ConsumerInfo::chunk_nanos`].
    pub fn for_source(
        format: &ChunkFormat,
        source_len: usize,
        device: &ConsumerInfo,
        push_timeout_nanos: u64,
    ) -> (worker: Option<Self>)
        ensures
            worker.is_some() <==> device.sample_rate > 0 && duration_nanos(
                format.spec_len(),
                device.sample_rate as nat,
            ) <= u64::MAX,
            worker matches Some(w) ==> w@ == WorkerModel::initial(
                chunk_count(source_len as nat, format.spec_len()) as usize,
                duration_nanos(format.spec_len(), device.sample_rate as nat) as u64,
                push_timeout_nanos,
            ),
    {
        match device.chunk_nanos(format.len()) {
            Some(chunk_nanos) => Some(
                RenderWorker::new(format.count(source_len), chunk_nanos, push_timeout_nanos),
            ),
            None => None,
        }
    }

    /// The life of the thread.
    pub fn state(&self) -> (state: WorkerState)
        ensures
            state == self@.state(),
    {
        match self.phase {
            WorkerPhase::Idle => WorkerState::Idle,
            WorkerPhase::Draining => WorkerState::Draining,
            WorkerPhase::Stopped => WorkerState::Stopped,
            _ => WorkerState::Running,
        }
    }

    /// Where the worker stands in its loop.
    pub fn phase(&self) -> (phase: WorkerPhase)
        ensures
            phase == self@.phase,
    {
        self.phase
    }

    /// The number of chunks taken from the source so far.
    pub fn chunks_taken(&self) -> (taken: usize)
        ensures
            taken == self@.next_chunk,
    {
        self.next_chunk
    }

    /// The number of chunks that the handoff took.
    pub fn chunks_delivered(&self) -> (delivered: usize)
        ensures
            delivered == self@.delivered,
    {
        self.delivered
    }

    /// The number of chunks that were given up.
    pub fn chunks_dropped(&self) -> (dropped: usize)
        ensures
            dropped == self@.dropped,
    {
        self.dropped
    }

    /// Takes in what happened and says what to do next.
    ///
    /// `now` is the time at which `event` is reported, `stop` whether the
    /// stop signal is up at that moment.
    pub fn step(&mut self, event: WorkerEvent, now: u64, stop: bool) -> (action: Result<
        WorkerAction,
        OutOfTurn,
    >)
        ensures
            final(self)@ == old(self)@.step(event, now, stop).0,
            action == old(self)@.step(event, now, stop).1,
            final(self)@.inv(),
    {
        proof {
            use_type_invariant(&*self);
        }
        let (next, action) = match self.phase {
            WorkerPhase::Stopped => (*self, WorkerAction::Exit),
            WorkerPhase::Draining => self.finish(
                match event {
                    WorkerEvent::Pushed => true,
                    _ => false,
                },
            ),
            _ => {
                if stop {
                    self.halt(event)
                } else {
                    match self.proceed(event, now) {
                        Some(decided) => decided,
                        None => {
                            return Err(OutOfTurn);
                        },
                    }
                }
            },
        };
        *self = next;
        Ok(action)
    }

    /// The step of a running or idle worker that is not told to stop, where
    /// the event is one that it expects.
    fn proceed(self, event: WorkerEvent, now: u64) -> (decided: Option<(Self, WorkerAction)>)
        requires
            self@.inv(),
            self@.phase != WorkerPhase::Stopped,
            self@.phase != WorkerPhase::Draining,
        ensures
            decided.is_some() <==> self@.expects(event),
            decided matches Some((next, action)) ==> next@ == self@.react(event, now, false).0
                && action == self@.react(event, now, false).1 && next@.inv(),
    {
        match (self.phase, event) {
            (WorkerPhase::Idle, WorkerEvent::Started) => Some(
                (RenderWorker { last_start: now, ..self }).begin(now),
            ),
            (WorkerPhase::Pacing, WorkerEvent::Resumed) => Some(self.begin(now)),
            (WorkerPhase::Rendering, WorkerEvent::Rendered) => Some(
                (
                    RenderWorker {
                        phase: WorkerPhase::Pushing,
                        push_deadline: now.saturating_add(self.push_timeout_nanos),
                        ..self
                    },
                    WorkerAction::Push,
                ),
            ),
            (WorkerPhase::Pushing, WorkerEvent::Pushed) => Some(
                (RenderWorker {
                    phase: WorkerPhase::Pacing,
                    delivered: self.delivered + 1,
                    ..self
                }).begin(now),
            ),
            (WorkerPhase::Pushing, WorkerEvent::HandoffFull) => Some(self.hold(now)),
            (WorkerPhase::Waiting, WorkerEvent::Resumed) => Some(
                (RenderWorker { phase: WorkerPhase::Pushing, ..self }, WorkerAction::Push),
            ),
            _ => None,
        }
    }

    /// The top of the loop.
    fn begin(self, now: u64) -> (decided: (Self, WorkerAction))
        requires
            self@.inv(),
            self@.in_flight() == 0,
        ensures
            decided.0@ == self@.begin(now).0,
            decided.1 == self@.begin(now).1,
            decided.0@.inv(),
    {
        if self.next_chunk >= self.total_chunks {
            return (RenderWorker { phase: WorkerPhase::Stopped, ..self }, WorkerAction::Exit);
        }
        let elapsed: u64 = if now >= self.last_start {
            now - self.last_start
        } else {
            0
        };
        if elapsed < self.chunk_nanos {
            (
                RenderWorker { phase: WorkerPhase::Pacing, ..self },
                WorkerAction::Sleep { nanos: self.chunk_nanos - elapsed },
            )
        } else {
            (
                RenderWorker {
                    phase: WorkerPhase::Rendering,
                    last_start: now,
                    next_chunk: self.next_chunk + 1,
                    ..self
                },
                WorkerAction::Render { chunk: self.next_chunk },
            )
        }
    }

    /// The end of the loop.
    fn finish(self, delivered: bool) -> (decided: (Self, WorkerAction))
        requires
            self@.inv(),
            self@.stop_seen,
        ensures
            decided.0@ == self@.finish(delivered).0,
            decided.1 == self@.finish(delivered).1,
            decided.0@.inv(),
    {
        let in_flight: usize = match self.phase {
            WorkerPhase::Rendering | WorkerPhase::Pushing | WorkerPhase::Waiting
            | WorkerPhase::Draining => 1,
            _ => 0,
        };
        let next = if delivered {
            RenderWorker {
                phase: WorkerPhase::Stopped,
                delivered: self.delivered + in_flight,
                ..self
            }
        } else {
            RenderWorker {
                phase: WorkerPhase::Stopped,
                dropped: self.dropped + in_flight,
                ..self
            }
        };
        (next, WorkerAction::Exit)
    }

    /// The step of a running or idle worker that is told to stop.
    fn halt(self, event: WorkerEvent) -> (decided: (Self, WorkerAction))
        requires
            self@.inv(),
            self@.phase != WorkerPhase::Stopped,
            self@.phase != WorkerPhase::Draining,
        ensures
            decided.0@ == self@.halt(event).0,
            decided.1 == self@.halt(event).1,
            decided.0@.inv(),
    {
        match (self.phase, event) {
            (WorkerPhase::Rendering, WorkerEvent::Rendered) => (
                RenderWorker { phase: WorkerPhase::Draining, stop_seen: true, ..self },
                WorkerAction::Push,
            ),
            (WorkerPhase::Pushing, WorkerEvent::Pushed) => (RenderWorker {
                stop_seen: true,
                ..self
            }).finish(true),
            _ => (RenderWorker { stop_seen: true, ..self }).finish(false),
        }
    }

    /// The answer to a full handoff.
    fn hold(self, now: u64) -> (decided: (Self, WorkerAction))
        requires
            self@.inv(),
            self@.phase == WorkerPhase::Pushing,
        ensures
            decided.0@ == self@.hold(now).0,
            decided.1 == self@.hold(now).1,
            decided.0@.inv(),
    {
        if now >= self.push_deadline {
            (
                RenderWorker { phase: WorkerPhase::Pacing, dropped: self.dropped + 1, ..self },
                WorkerAction::DropChunk,
            )
        } else {
            let left: u64 = self.push_deadline - now;
            (
                RenderWorker { phase: WorkerPhase::Waiting, ..self },
                WorkerAction::Wait {
                    nanos: if left < self.chunk_nanos {
                        left
                    } else {
                        self.chunk_nanos
                    },
                },
            )
        }
    }
}

/// The chunks that the worker asks to have rendered in the course of
/// `events`, in the order in which it asks.
pub open spec fn renders(worker: WorkerModel, events: Seq<(WorkerEvent, u64, bool)>) -> Seq<usize>
    decreases events.len(),
{
    if events.len() == 0 {
        Seq::empty()
    } else {
        let (next, action) = worker.step(events[0].0, events[0].1, events[0].2);
        let rest = renders(next, events.skip(1));
        match action {
            Ok(WorkerAction::Render { chunk }) => seq![chunk] + rest,
            _ => rest,
        }
    }
}

/// Whatever happens, the worker's books stay in order, and what it was made
/// with stays as it was.
pub proof fn lemma_step_keeps_invariant(worker: WorkerModel, event: WorkerEvent, now: u64, stop: bool)
    requires
        worker.inv(),
    ensures
        worker.step(event, now, stop).0.inv(),
        worker.step(event, now, stop).0.total_chunks == worker.total_chunks,
        worker.step(event, now, stop).0.chunk_nanos == worker.chunk_nanos,
        worker.step(event, now, stop).0.push_timeout_nanos == worker.push_timeout_nanos,
{
}

/// The books of a worker are in order from the start and stay so over any
/// course of events.
pub proof fn lemma_run_keeps_invariant(worker: WorkerModel, events: Seq<(WorkerEvent, u64, bool)>)
    requires
        worker.inv(),
    ensures
        worker.run(events).inv(),
        worker.run(events).total_chunks == worker.total_chunks,
        worker.run(events).chunk_nanos == worker.chunk_nanos,
        worker.run(events).push_timeout_nanos == worker.push_timeout_nanos,
    decreases events.len(),
{
    if events.len() > 0 {
        let next = worker.step(events[0].0, events[0].1, events[0].2).0;
        lemma_run_keeps_invariant(next, events.skip(1));
    }
}

/// A stopped worker never does anything again: whatever it hears, it stays
/// as it is and says that the thread should leave.
pub proof fn lemma_stopped_is_terminal(worker: WorkerModel, event: WorkerEvent, now: u64, stop: bool)
    requires
        worker.phase == WorkerPhase::Stopped,
    ensures
        worker.step(event, now, stop) == (worker, Ok::<WorkerAction, OutOfTurn>(WorkerAction::Exit)),
{
}

/// The stop signal is obeyed at once. The step that sees it begins no chunk
/// and asks for no sleep and no wait: it ends the loop, or it offers the
/// chunk that was just rendered to the handoff. In that case the step after
/// it ends the loop, whatever it hears.
pub proof fn lemma_stop_is_obeyed(
    worker: WorkerModel,
    event: WorkerEvent,
    now: u64,
    later_event: WorkerEvent,
    later: u64,
    later_stop: bool,
)
    ensures
        ({
            let (next, action) = worker.step(event, now, true);
            &&& next.next_chunk == worker.next_chunk
            &&& next.phase == WorkerPhase::Stopped && action == Ok::<WorkerAction, OutOfTurn>(
                WorkerAction::Exit,
            ) || next.phase == WorkerPhase::Draining && action == Ok::<WorkerAction, OutOfTurn>(
                WorkerAction::Push,
            )
            &&& next.step(later_event, later, later_stop).0.phase == WorkerPhase::Stopped
            &&& next.step(later_event, later, later_stop).1 == Ok::<WorkerAction, OutOfTurn>(
                WorkerAction::Exit,
            )
        }),
{
}

/// The worker never asks the thread to block for longer than one chunk
/// lasts, so the stop signal is seen within that time. A sleep ends when
/// the next chunk is due, and a wait for the handoff ends no later than the
/// time for which the chunk is held.
pub proof fn lemma_blocking_is_bounded(worker: WorkerModel, event: WorkerEvent, now: u64, stop: bool)
    ensures
        worker.step(event, now, stop).1 matches Ok(WorkerAction::Sleep { nanos }) ==> 0 < nanos
            <= worker.chunk_nanos,
        worker.step(event, now, stop).1 matches Ok(WorkerAction::Wait { nanos }) ==> nanos
            <= worker.chunk_nanos && now + nanos <= worker.push_deadline,
{
}

/// Chunks are begun no faster than they are played: a chunk is begun only
/// when a chunk's duration has passed since the one before it was begun, and
/// the time at which it is begun is where the next one counts from.
pub proof fn lemma_renders_are_paced(worker: WorkerModel, event: WorkerEvent, now: u64, stop: bool)
    ensures
        ({
            let (next, action) = worker.step(event, now, stop);
            if action is Ok && action->Ok_0 is Render {
                &&& next.last_start == now
                &&& worker.phase != WorkerPhase::Idle ==> elapsed_nanos(worker.last_start, now)
                    >= worker.chunk_nanos
                &&& worker.phase == WorkerPhase::Idle ==> worker.chunk_nanos == 0
            } else {
                worker.phase != WorkerPhase::Idle ==> next.last_start == worker.last_start
            }
        }),
{
}

/// Chunks are taken from the source one by one and in order: a step that
/// asks for a chunk asks for the next one, and no other step moves on in the
/// source.
pub proof fn lemma_chunks_in_order(worker: WorkerModel, event: WorkerEvent, now: u64, stop: bool)
    requires
        worker.inv(),
    ensures
        ({
            let (next, action) = worker.step(event, now, stop);
            if let Ok(WorkerAction::Render { chunk }) = action {
                chunk == worker.next_chunk && chunk < worker.total_chunks && next.next_chunk
                    == chunk + 1
            } else {
                next.next_chunk == worker.next_chunk
            }
        }),
{
}

/// Over any course of events the worker asks for consecutive chunks: the
/// first one that it has not taken yet, then the one after it, and so on up
/// to the last one that it has taken in the end.
pub proof fn lemma_renders_are_consecutive(
    worker: WorkerModel,
    events: Seq<(WorkerEvent, u64, bool)>,
)
    requires
        worker.inv(),
    ensures
        worker.next_chunk <= worker.run(events).next_chunk,
        renders(worker, events) == Seq::new(
            (worker.run(events).next_chunk - worker.next_chunk) as nat,
            |i: int| (worker.next_chunk + i) as usize,
        ),
    decreases events.len(),
{
    if events.len() > 0 {
        let next = worker.step(events[0].0, events[0].1, events[0].2).0;
        lemma_chunks_in_order(worker, events[0].0, events[0].1, events[0].2);
        lemma_renders_are_consecutive(next, events.skip(1));
    }
}

/// A full handoff cannot hold the worker up for good. The chunk in hand is
/// held until a fixed time, `push_timeout_nanos` after it was rendered; when
/// the handoff is still full at that time the chunk is given up and the
/// worker goes on with its loop.
pub proof fn lemma_full_handoff_is_given_up(worker: WorkerModel, rendered_at: u64, now: u64)
    requires
        worker.inv(),
        worker.phase == WorkerPhase::Rendering,
    ensures
        ({
            let pushing = worker.step(WorkerEvent::Rendered, rendered_at, false).0;
            let (next, action) = pushing.step(WorkerEvent::HandoffFull, now, false);
            &&& pushing.phase == WorkerPhase::Pushing
            &&& pushing.push_deadline == deadline_after(rendered_at, worker.push_timeout_nanos)
            &&& now >= pushing.push_deadline ==> action == Ok::<WorkerAction, OutOfTurn>(
                WorkerAction::DropChunk,
            ) && next.phase == WorkerPhase::Pacing && next.dropped == worker.dropped + 1
            &&& now < pushing.push_deadline ==> next.phase == WorkerPhase::Waiting
                && next.push_deadline == pushing.push_deadline && next.step(
                WorkerEvent::Resumed,
                now,
                false,
            ) == (pushing, Ok::<WorkerAction, OutOfTurn>(WorkerAction::Push))
        }),
{
}

/// A worker that has stopped without ever seeing the stop signal has taken
/// every chunk of the source, and each of them was delivered or given up. If
/// none was given up, the handoff took exactly as many chunks as the source
/// has.
pub proof fn lemma_undisturbed_worker_finishes_the_source(worker: WorkerModel)
    requires
        worker.inv(),
        worker.phase == WorkerPhase::Stopped,
        !worker.stop_seen,
    ensures
        worker.next_chunk == worker.total_chunks,
        worker.delivered + worker.dropped == worker.total_chunks,
        worker.dropped == 0 ==> worker.delivered == worker.total_chunks,
{
}

/// A worker that ran from its start to its end without ever seeing the stop
/// signal has asked for every chunk of the source, each one once and in
/// order, and each of them was delivered or given up.
pub proof fn lemma_undisturbed_run_renders_every_chunk(
    total_chunks: usize,
    chunk_nanos: u64,
    push_timeout_nanos: u64,
    events: Seq<(WorkerEvent, u64, bool)>,
)
    requires
        ({
            let end = WorkerModel::initial(total_chunks, chunk_nanos, push_timeout_nanos).run(
                events,
            );
            end.phase == WorkerPhase::Stopped && !end.stop_seen
        }),
    ensures
        ({
            let start = WorkerModel::initial(total_chunks, chunk_nanos, push_timeout_nanos);
            &&& renders(start, events) == Seq::new(total_chunks as nat, |i: int| i as usize)
            &&& start.run(events).delivered + start.run(events).dropped == total_chunks
        }),
{
    let start = WorkerModel::initial(total_chunks, chunk_nanos, push_timeout_nanos);
    lemma_run_keeps_invariant(start, events);
    lemma_renders_are_consecutive(start, events);
}

} // verus!
