//! The capture worker of one source, as a state machine.
//!
//! A worker alternates between blocking work (waiting, capturing, encoding)
//! and decisions. The blocking work is the driver's; every decision is taken
//! by [`Worker::step`]: the driver reports what it observed as a
//! [`WorkerEvent`] and is told what to do next as a [`WorkerAction`].

use vstd::prelude::*;

use crate::stats::{wrap_add, SourceStats};
use crate::types::FrameType;

verus! {

/// How long a worker without subscribers waits before it looks again and exits.
pub const IDLE_GRACE_MS: u64 = 100;

/// How long one capture call may block.
pub const CAPTURE_TIMEOUT_MS: u32 = 1000;

/// The least distance in milliseconds between two published frames under a
/// cap of `max_fps` frames per second; a cap of zero is no cap.
pub open spec fn min_interval_ms(max_fps: u32) -> u64 {
    if max_fps > 0 {
        (1000int / max_fps as int) as u64
    } else {
        0
    }
}

/// Time that has passed at `now_ms` since `since_ms`; a clock read out of
/// order counts as no time passed.
pub open spec fn elapsed_ms(now_ms: u64, since_ms: u64) -> u64 {
    if now_ms >= since_ms {
        (now_ms - since_ms) as u64
    } else {
        0
    }
}

/// Where the worker stands in its loop, that is which report it waits for.
#[derive(Debug, Clone, Copy, PartialEq, Eq, Structural)]
pub enum WorkerPhase {
    /// At the top of the loop, waiting for the stop flag and receiver count.
    Polling,
    /// Found no subscriber; waiting for the grace period to pass.
    IdleWait,
    /// Waiting for a capture call to return.
    Capturing,
    /// Holding a video frame that is being encoded.
    Encoding,
    /// Finished; the receiver is to be destroyed and the registry entry removed.
    Stopped,
}

/// How the encoding of the held frame ended.
#[derive(Debug, Clone, Copy, PartialEq, Eq, Structural)]
pub enum EncodeOutcome {
    /// A JPEG of `bytes` bytes came out after `encode_us` microseconds.
    Jpeg { bytes: u64, encode_us: u64 },
    /// The frame's layout is not supported or the encoder failed.
    Failed,
    /// The frame carried no pixel data.
    NoData,
}

/// What the driver observed.
#[derive(Debug, Clone, Copy, PartialEq, Eq, Structural)]
pub enum WorkerEvent {
    /// The stop flag and the channel's live receivers, read at the top of the loop.
    Polled { stop: bool, receivers: usize },
    /// The grace period has passed; the channel's live receivers read again.
    IdleElapsed { receivers: usize },
    /// A capture call returned `frame_type` at time `now_ms`.
    Captured { frame_type: FrameType, now_ms: u64 },
    /// Encoding of the held frame ended at time `now_ms`.
    Encoded { outcome: EncodeOutcome, now_ms: u64 },
}

/// What the driver has to do next.
#[derive(Debug, Clone, Copy, PartialEq, Eq, Structural)]
pub enum WorkerAction {
    /// Read the stop flag and the receiver count and report `Polled`.
    Poll,
    /// Sleep for `ms` milliseconds, read the receiver count and report `IdleElapsed`.
    Sleep { ms: u64 },
    /// Capture with the given timeout and report `Captured`.
    Capture { timeout_ms: u32 },
    /// Encode the frame just captured and report `Encoded`.
    Encode,
    /// Publish the JPEG if `publish` is set, give the frame buffer back, then poll.
    Release { publish: bool },
    /// Leave the loop.
    Exit,
}

/// Decision state of one capture worker.
#[derive(Debug, Clone, Copy, PartialEq, Eq, Structural)]
pub struct Worker {
    pub phase: WorkerPhase,
    /// Least time between two published frames.
    pub min_interval_ms: u64,
    /// When the last frame was published, or when the worker started.
    pub last_send_ms: u64,
}

/// The result of one step: the worker, its counters and the action answered.
pub struct Transition {
    pub worker: Worker,
    pub stats: SourceStats,
    pub action: WorkerAction,
}

impl Worker {
    /// Nobody is attached: no live receiver on the channel and no client counted.
    pub open spec fn idle(receivers: usize, stats: SourceStats) -> bool {
        receivers == 0 && stats.clients == 0
    }

    /// The action that asks again for the report the worker is waiting for.
    pub open spec fn pending(self) -> WorkerAction {
        match self.phase {
            WorkerPhase::Polling => WorkerAction::Poll,
            WorkerPhase::IdleWait => WorkerAction::Sleep { ms: IDLE_GRACE_MS },
            WorkerPhase::Capturing => WorkerAction::Capture { timeout_ms: CAPTURE_TIMEOUT_MS },
            WorkerPhase::Encoding => WorkerAction::Encode,
            WorkerPhase::Stopped => WorkerAction::Exit,
        }
    }

    /// Whether the rate cap lets a frame captured at `now_ms` through.
    pub open spec fn admits(self, now_ms: u64) -> bool {
        elapsed_ms(now_ms, self.last_send_ms) >= self.min_interval_ms
    }

    /// The whole transition relation: the worker and counters after `event`,
    /// and the action answered. A report the worker is not waiting for
    /// changes nothing and is answered with the pending action.
    pub open spec fn step_spec(self, stats: SourceStats, event: WorkerEvent) -> Transition {
        match (self.phase, event) {
            (WorkerPhase::Polling, WorkerEvent::Polled { stop, receivers }) => {
                if stop {
                    Transition {
                        worker: Worker { phase: WorkerPhase::Stopped, ..self },
                        stats,
                        action: WorkerAction::Exit,
                    }
                } else if Self::idle(receivers, stats) {
                    Transition {
                        worker: Worker { phase: WorkerPhase::IdleWait, ..self },
                        stats,
                        action: WorkerAction::Sleep { ms: IDLE_GRACE_MS },
                    }
                } else {
                    Transition {
                        worker: Worker { phase: WorkerPhase::Capturing, ..self },
                        stats,
                        action: WorkerAction::Capture { timeout_ms: CAPTURE_TIMEOUT_MS },
                    }
                }
            },
            (WorkerPhase::IdleWait, WorkerEvent::IdleElapsed { receivers }) => {
                if Self::idle(receivers, stats) {
                    Transition {
                        worker: Worker { phase: WorkerPhase::Stopped, ..self },
                        stats,
                        action: WorkerAction::Exit,
                    }
                } else {
                    Transition {
                        worker: Worker { phase: WorkerPhase::Capturing, ..self },
                        stats,
                        action: WorkerAction::Capture { timeout_ms: CAPTURE_TIMEOUT_MS },
                    }
                }
            },
            (WorkerPhase::Capturing, WorkerEvent::Captured { frame_type, now_ms }) => {
                match frame_type {
                    FrameType::Video => {
                        let seen = SourceStats { frames_in: wrap_add(stats.frames_in, 1), ..stats };
                        if self.admits(now_ms) {
                            Transition {
                                worker: Worker { phase: WorkerPhase::Encoding, ..self },
                                stats: seen,
                                action: WorkerAction::Encode,
                            }
                        } else {
                            Transition {
                                worker: Worker { phase: WorkerPhase::Polling, ..self },
                                stats: SourceStats { dropped: wrap_add(seen.dropped, 1), ..seen },
                                action: WorkerAction::Release { publish: false },
                            }
                        }
                    },
                    FrameType::Error => Transition {
                        worker: Worker { phase: WorkerPhase::Stopped, ..self },
                        stats,
                        action: WorkerAction::Exit,
                    },
                    _ => Transition {
                        worker: Worker { phase: WorkerPhase::Polling, ..self },
                        stats,
                        action: WorkerAction::Poll,
                    },
                }
            },
            (WorkerPhase::Encoding, WorkerEvent::Encoded { outcome, now_ms }) => {
                match outcome {
                    EncodeOutcome::Jpeg { bytes, encode_us } => Transition {
                        worker: Worker {
                            phase: WorkerPhase::Polling,
                            last_send_ms: now_ms,
                            ..self
                        },
                        stats: SourceStats {
                            frames_out: wrap_add(stats.frames_out, 1),
                            encode_time_us: wrap_add(stats.encode_time_us, encode_us),
                            encode_count: wrap_add(stats.encode_count, 1),
                            bytes_out: wrap_add(stats.bytes_out, bytes),
                            ..stats
                        },
                        action: WorkerAction::Release { publish: true },
                    },
                    EncodeOutcome::Failed => Transition {
                        worker: Worker { phase: WorkerPhase::Polling, ..self },
                        stats: SourceStats { dropped: wrap_add(stats.dropped, 1), ..stats },
                        action: WorkerAction::Release { publish: false },
                    },
                    EncodeOutcome::NoData => Transition {
                        worker: Worker { phase: WorkerPhase::Polling, ..self },
                        stats,
                        action: WorkerAction::Release { publish: false },
                    },
                }
            },
            _ => Transition { worker: self, stats, action: self.pending() },
        }
    }

    /// A worker about to poll for the first time at time `now_ms`, capped at
    /// `max_fps` frames per second.
    pub fn new(max_fps: u32, now_ms: u64) -> (worker: Worker)
        ensures
            worker == (Worker {
                phase: WorkerPhase::Polling,
                min_interval_ms: min_interval_ms(max_fps),
                last_send_ms: now_ms,
            }),
    {
        let min_interval_ms: u64 = if max_fps > 0 {
            (1000 / max_fps) as u64
        } else {
            0
        };
        Worker { phase: WorkerPhase::Polling, min_interval_ms, last_send_ms: now_ms }
    }

    /// Whether the worker has left its loop.
    pub fn is_stopped(&self) -> (stopped: bool)
        ensures
            stopped == (self.phase == WorkerPhase::Stopped),
    {
        self.phase == WorkerPhase::Stopped
    }

    /// Takes one report from the driver, updates the worker and the source's
    /// counters, and answers with the next action.
    pub fn step(&mut self, stats: &mut SourceStats, event: WorkerEvent) -> (action: WorkerAction)
        ensures
            *final(self) == old(self).step_spec(*old(stats), event).worker,
            *final(stats) == old(self).step_spec(*old(stats), event).stats,
            action == old(self).step_spec(*old(stats), event).action,
    {
        match (self.phase, event) {
            (WorkerPhase::Polling, WorkerEvent::Polled { stop, receivers }) => {
                if stop {
                    self.phase = WorkerPhase::Stopped;
                    WorkerAction::Exit
                } else if receivers == 0 && stats.clients == 0 {
                    self.phase = WorkerPhase::IdleWait;
                    WorkerAction::Sleep { ms: IDLE_GRACE_MS }
                } else {
                    self.phase = WorkerPhase::Capturing;
                    WorkerAction::Capture { timeout_ms: CAPTURE_TIMEOUT_MS }
                }
            },
            (WorkerPhase::IdleWait, WorkerEvent::IdleElapsed { receivers }) => {
                if receivers == 0 && stats.clients == 0 {
                    self.phase = WorkerPhase::Stopped;
                    WorkerAction::Exit
                } else {
                    self.phase = WorkerPhase::Capturing;
                    WorkerAction::Capture { timeout_ms: CAPTURE_TIMEOUT_MS }
                }
            },
            (WorkerPhase::Capturing, WorkerEvent::Captured { frame_type, now_ms }) => {
                match frame_type {
                    FrameType::Video => {
                        stats.record_frame_in();
                        let elapsed: u64 = now_ms.saturating_sub(self.last_send_ms);
                        if elapsed < self.min_interval_ms {
                            stats.record_drop();
                            self.phase = WorkerPhase::Polling;
                            WorkerAction::Release { publish: false }
                        } else {
                            self.phase = WorkerPhase::Encoding;
                            WorkerAction::Encode
                        }
                    },
                    FrameType::Error => {
                        self.phase = WorkerPhase::Stopped;
                        WorkerAction::Exit
                    },
                    _ => {
                        self.phase = WorkerPhase::Polling;
                        WorkerAction::Poll
                    },
                }
            },
            (WorkerPhase::Encoding, WorkerEvent::Encoded { outcome, now_ms }) => {
                self.phase = WorkerPhase::Polling;
                match outcome {
                    EncodeOutcome::Jpeg { bytes, encode_us } => {
                        stats.record_encoded(encode_us, bytes);
                        self.last_send_ms = now_ms;
                        WorkerAction::Release { publish: true }
                    },
                    EncodeOutcome::Failed => {
                        stats.record_drop();
                        WorkerAction::Release { publish: false }
                    },
                    EncodeOutcome::NoData => WorkerAction::Release { publish: false },
                }
            },
            (WorkerPhase::Polling, _) => WorkerAction::Poll,
            (WorkerPhase::IdleWait, _) => WorkerAction::Sleep { ms: IDLE_GRACE_MS },
            (WorkerPhase::Capturing, _) => WorkerAction::Capture { timeout_ms: CAPTURE_TIMEOUT_MS },
            (WorkerPhase::Encoding, _) => WorkerAction::Encode,
            (WorkerPhase::Stopped, _) => WorkerAction::Exit,
        }
    }
}

/// What a worker did over a sequence of reports.
pub struct Run {
    /// The worker after the last report.
    pub worker: Worker,
    /// The counters after the last report.
    pub stats: SourceStats,
    /// The actions answered, one per report.
    pub actions: Seq<WorkerAction>,
    /// Capture calls that returned a video frame.
    pub videos: nat,
    /// Frame buffers given back.
    pub released: nat,
    /// Frames published.
    pub published: nat,
    /// Frames skipped by the rate cap.
    pub capped: nat,
    /// Frames lost to an encode failure.
    pub failed: nat,
    /// Frames that carried no pixel data.
    pub empty: nat,
}

/// One if the condition holds, else zero.
pub open spec fn one_if(b: bool) -> nat {
    if b {
        1
    } else {
        0
    }
}

impl Worker {
    /// Whether the worker holds a frame buffer that it still has to give back.
    pub open spec fn holds_frame(self) -> bool {
        self.phase == WorkerPhase::Encoding
    }

    /// Whether `event` reports a capture that returned a video frame to a
    /// worker waiting for one.
    pub open spec fn takes_video(self, event: WorkerEvent) -> bool {
        self.phase == WorkerPhase::Capturing && event matches WorkerEvent::Captured {
            frame_type: FrameType::Video,
            ..
        }
    }

    /// Whether `event` reports to a worker that holds a frame that encoding
    /// ended with `outcome`.
    pub open spec fn takes_outcome(self, event: WorkerEvent, outcome: EncodeOutcome) -> bool {
        self.phase == WorkerPhase::Encoding && match event {
            WorkerEvent::Encoded { outcome: o, .. } => o == outcome,
            _ => false,
        }
    }

    /// The worker, its counters and the tallies after `events`, taken in order.
    pub open spec fn run(self, stats: SourceStats, events: Seq<WorkerEvent>) -> Run
        decreases events.len(),
    {
        if events.len() == 0 {
            Run {
                worker: self,
                stats,
                actions: Seq::empty(),
                videos: 0,
                released: 0,
                published: 0,
                capped: 0,
                failed: 0,
                empty: 0,
            }
        } else {
            let before = self.run(stats, events.drop_last());
            let event = events.last();
            let out = before.worker.step_spec(before.stats, event);
            Run {
                worker: out.worker,
                stats: out.stats,
                actions: before.actions.push(out.action),
                videos: before.videos + one_if(before.worker.takes_video(event)),
                released: before.released + one_if(out.action is Release),
                published: before.published + one_if(
                    out.action == (WorkerAction::Release { publish: true }),
                ),
                capped: before.capped + one_if(
                    before.worker.takes_video(event) && out.action is Release,
                ),
                failed: before.failed + one_if(
                    before.worker.takes_outcome(event, EncodeOutcome::Failed),
                ),
                empty: before.empty + one_if(
                    before.worker.takes_outcome(event, EncodeOutcome::NoData),
                ),
            }
        }
    }
}

/// The time an event carries, if it carries one.
pub open spec fn event_time(event: WorkerEvent) -> Option<u64> {
    match event {
        WorkerEvent::Captured { now_ms, .. } => Some(now_ms),
        WorkerEvent::Encoded { now_ms, .. } => Some(now_ms),
        _ => None,
    }
}

/// The latest clock reading among `events`, or `start` if there is none.
pub open spec fn latest_time(start: u64, events: Seq<WorkerEvent>) -> u64
    decreases events.len(),
{
    if events.len() == 0 {
        start
    } else {
        match event_time(events.last()) {
            Some(t) => t,
            None => latest_time(start, events.drop_last()),
        }
    }
}

/// The clock readings in `events` never go back, nor before `start`.
pub open spec fn clock_ordered(start: u64, events: Seq<WorkerEvent>) -> bool
    decreases events.len(),
{
    if events.len() == 0 {
        true
    } else {
        &&& clock_ordered(start, events.drop_last())
        &&& match event_time(events.last()) {
            Some(t) => t >= latest_time(start, events.drop_last()),
            None => true,
        }
    }
}

/// Buffer discipline: over any run that starts without a held frame, the
/// buffers given back plus the one still held equal the captures that
/// returned a video frame; nothing else is ever given back. A worker that
/// has stopped holds nothing, so it gave back exactly what it was lent.
pub proof fn lemma_buffers_released_once(
    worker: Worker,
    stats: SourceStats,
    events: Seq<WorkerEvent>,
)
    requires
        !worker.holds_frame(),
    ensures
        ({
            let run = worker.run(stats, events);
            &&& run.released + one_if(run.worker.holds_frame()) == run.videos
            &&& run.worker.phase == WorkerPhase::Stopped ==> run.released == run.videos
            &&& run.actions.len() == events.len()
        }),
    decreases events.len(),
{
    if events.len() > 0 {
        lemma_buffers_released_once(worker, stats, events.drop_last());
    }
}

/// Every video frame seen ends in exactly one way: skipped by the rate cap,
/// lost to an encode failure, without data, published, or still held.
pub proof fn lemma_every_video_is_accounted(
    worker: Worker,
    stats: SourceStats,
    events: Seq<WorkerEvent>,
)
    requires
        !worker.holds_frame(),
    ensures
        ({
            let run = worker.run(stats, events);
            run.videos == run.capped + run.failed + run.empty + run.published + one_if(
                run.worker.holds_frame(),
            )
        }),
    decreases events.len(),
{
    if events.len() > 0 {
        lemma_every_video_is_accounted(worker, stats, events.drop_last());
    }
}

/// As long as no counter wraps around, the counters move by the tallies of
/// the run: frames in by the videos seen, frames out by the frames
/// published, dropped by the frames capped or failed.
pub proof fn lemma_counters_follow_run(
    worker: Worker,
    stats: SourceStats,
    events: Seq<WorkerEvent>,
)
    requires
        stats.frames_in + events.len() <= u64::MAX,
        stats.frames_out + events.len() <= u64::MAX,
        stats.dropped + events.len() <= u64::MAX,
    ensures
        ({
            let run = worker.run(stats, events);
            &&& run.stats.frames_in == stats.frames_in + run.videos
            &&& run.stats.frames_out == stats.frames_out + run.published
            &&& run.stats.dropped == stats.dropped + run.capped + run.failed
            &&& run.stats.clients == stats.clients
            &&& run.videos <= events.len()
            &&& run.published <= events.len()
            &&& run.capped + run.failed <= events.len()
        }),
    decreases events.len(),
{
    if events.len() > 0 {
        lemma_counters_follow_run(worker, stats, events.drop_last());
    }
}

/// Rate cap, in counters: in a run that starts from fresh counters without
/// a held frame, ends without one and met no frame without data, the
/// dropped frames are exactly the frames seen and not published.
pub proof fn lemma_dropped_covers_unpublished(
    worker: Worker,
    stats: SourceStats,
    events: Seq<WorkerEvent>,
)
    requires
        !worker.holds_frame(),
        stats.frames_in == 0 && stats.frames_out == 0 && stats.dropped == 0,
        events.len() <= u64::MAX,
        !worker.run(stats, events).worker.holds_frame(),
        worker.run(stats, events).empty == 0,
    ensures
        ({
            let run = worker.run(stats, events);
            run.stats.dropped == run.stats.frames_in - run.stats.frames_out
        }),
{
    lemma_every_video_is_accounted(worker, stats, events);
    lemma_counters_follow_run(worker, stats, events);
}

/// Rate cap, in time: while the clock never goes back, each published frame
/// moves the time of the last send forward by at least the least interval.
/// So over any stretch of time the frames published number at most the
/// stretch divided by the interval.
pub proof fn lemma_rate_cap(worker: Worker, stats: SourceStats, events: Seq<WorkerEvent>)
    requires
        !worker.holds_frame(),
        clock_ordered(worker.last_send_ms, events),
    ensures
        ({
            let run = worker.run(stats, events);
            &&& run.worker.min_interval_ms == worker.min_interval_ms
            &&& run.worker.last_send_ms >= worker.last_send_ms + run.published
                * worker.min_interval_ms
            &&& run.worker.last_send_ms <= latest_time(worker.last_send_ms, events)
            &&& run.worker.holds_frame() ==> run.worker.last_send_ms + worker.min_interval_ms
                <= latest_time(worker.last_send_ms, events)
        }),
    decreases events.len(),
{
    let interval = worker.min_interval_ms as int;
    if events.len() > 0 {
        let before = worker.run(stats, events.drop_last());
        lemma_rate_cap(worker, stats, events.drop_last());
        let run = worker.run(stats, events);
        assert(run.published == before.published || run.published == before.published + 1);
        assert((before.published + 1) * interval == before.published * interval + interval)
            by (nonlinear_arith);
    } else {
        assert(0 * interval == 0) by (nonlinear_arith);
    }
}

/// A worker leaves its loop for exactly three causes: the stop flag was
/// found set, a capture returned an error, or the grace period passed with
/// nobody attached.
pub proof fn lemma_stops_only_for_cause(worker: Worker, stats: SourceStats, event: WorkerEvent)
    requires
        worker.phase != WorkerPhase::Stopped,
    ensures
        worker.step_spec(stats, event).worker.phase == WorkerPhase::Stopped <==> {
            ||| worker.phase == WorkerPhase::Polling && event matches WorkerEvent::Polled {
                stop: true,
                ..
            }
            ||| worker.phase == WorkerPhase::Capturing && event matches WorkerEvent::Captured {
                frame_type: FrameType::Error,
                ..
            }
            ||| worker.phase == WorkerPhase::IdleWait && match event {
                WorkerEvent::IdleElapsed { receivers } => Worker::idle(receivers, stats),
                _ => false,
            }
        },
        worker.step_spec(stats, event).worker.phase == WorkerPhase::Stopped ==> worker.step_spec(
            stats,
            event,
        ).action == WorkerAction::Exit,
{
}

/// A stopped worker stays stopped and keeps answering `Exit`, whatever is reported.
pub proof fn lemma_stopped_is_final(worker: Worker, stats: SourceStats, event: WorkerEvent)
    requires
        worker.phase == WorkerPhase::Stopped,
    ensures
        worker.step_spec(stats, event).worker == worker,
        worker.step_spec(stats, event).stats == stats,
        worker.step_spec(stats, event).action == WorkerAction::Exit,
{
}

/// Idle reap: a polling worker that is not told to stop and finds nobody
/// attached, before and after the grace period, sleeps once for the grace
/// period and then leaves its loop.
pub proof fn lemma_idle_worker_exits(worker: Worker, stats: SourceStats)
    requires
        worker.phase == WorkerPhase::Polling,
        stats.clients == 0,
    ensures
        ({
            let events = seq![
                WorkerEvent::Polled { stop: false, receivers: 0 },
                WorkerEvent::IdleElapsed { receivers: 0 },
            ];
            let run = worker.run(stats, events);
            &&& run.actions == seq![WorkerAction::Sleep { ms: IDLE_GRACE_MS }, WorkerAction::Exit]
            &&& run.worker.phase == WorkerPhase::Stopped
            &&& run.stats == stats
        }),
{
    let events = seq![
        WorkerEvent::Polled { stop: false, receivers: 0 },
        WorkerEvent::IdleElapsed { receivers: 0 },
    ];
    let first = events.drop_last();
    assert(first.drop_last().len() == 0);
    assert(first.last() == (WorkerEvent::Polled { stop: false, receivers: 0 }));
    assert(events.last() == (WorkerEvent::IdleElapsed { receivers: 0 }));
    reveal_with_fuel(Worker::run, 3);
    let run = worker.run(stats, events);
    assert(run.actions =~= seq![WorkerAction::Sleep { ms: IDLE_GRACE_MS }, WorkerAction::Exit]);
}


} // verus!
