//! The sessions of a process: their decoders, their events and frames, and their statistics.

use std::collections::VecDeque;

use vstd::prelude::*;

use crate::backend::DecodedFrame;
use crate::bounded::{drain, drain_to_last, place_bounded, push_bounded, queue_of};
use crate::callbacks::{frame_notice, FrameCounter, FrameNotice};
use crate::decode_pipeline::{
    DecodeFrame, ScrcpyDecodeConfig, ScrcpyDecodeEvent, ScrcpyDecodePipeline,
};
use crate::error::{other_error_with, ScrcpyError};
use crate::model::{ErrorCode, SessionEvent, SessionStats};
use crate::pipeline::PipelineStats;
use crate::session::Session;
use crate::session_manager::SessionManager;
use crate::table::Table;
use crate::text::concat;

verus! {

/// How many events of a session wait for their reader at most.
pub const RUNTIME_EVENT_QUEUE_LIMIT: usize = 512;

/// How many events of a decoder wait for their reader at most.
pub const RUNTIME_DECODE_EVENT_QUEUE_LIMIT: usize = 256;

/// How many frames of a session wait for their reader at most.
pub const RUNTIME_FRAME_QUEUE_LIMIT: usize = 2;

/// The shortest time over which a frame rate is taken, in nanoseconds.
pub const FPS_WINDOW_NANOS: u64 = 1_000_000_000;

/// The frames counted since a time in nanoseconds, and the generation and size of the last frame.
#[derive(Debug, Clone, Copy, PartialEq, Eq)]
pub struct RuntimePerfState {
    pub fps_tick: u64,
    pub fps_frames: u64,
    pub active_generation: u64,
    pub last_size: (u32, u32),
}

impl RuntimePerfState {
    /// The counts at the start of a session.
    pub open spec fn spec_new(now: u64) -> RuntimePerfState {
        RuntimePerfState {
            fps_tick: now,
            fps_frames: 0,
            active_generation: 1,
            last_size: (0u32, 0u32),
        }
    }

    /// The counts at the start of a session.
    pub fn new(now: u64) -> (r: Self)
        ensures
            r == RuntimePerfState::spec_new(now),
    {
        RuntimePerfState { fps_tick: now, fps_frames: 0, active_generation: 1, last_size: (0, 0) }
    }
}

/// What the outside is told: an event of a session, or a frame.
#[derive(Debug)]
pub enum RuntimeNotice {
    Event(SessionEvent),
    Frame(FrameNotice),
}

/// What the outside is told, as a mathematical value.
pub enum RuntimeNoticeView {
    Event(crate::model::EventView),
    Frame(crate::callbacks::NoticeView),
}

impl View for RuntimeNotice {
    type V = RuntimeNoticeView;

    open spec fn view(&self) -> RuntimeNoticeView {
        match *self {
            RuntimeNotice::Event(e) => RuntimeNoticeView::Event(e@),
            RuntimeNotice::Frame(f) => RuntimeNoticeView::Frame(f@),
        }
    }
}

/// Notices in order, as mathematical values.
pub open spec fn runtime_notices_view(s: Seq<RuntimeNotice>) -> Seq<RuntimeNoticeView> {
    s.map_values(|n: RuntimeNotice| n@)
}

/// The event of a session that an event of its decoder means, if any.
pub open spec fn mapped_event(event: crate::decode_pipeline::DecodeEventView) -> Option<
    crate::model::EventView,
> {
    match event {
        crate::decode_pipeline::DecodeEventView::DecoderStarted { .. } => None,
        crate::decode_pipeline::DecodeEventView::DecoderDegraded { from, to, reason } => Some(
            crate::model::EventView::Error {
                code: ErrorCode::DecodeFailed,
                message: "decoder degraded: "@ + from.spec_name() + " -> "@ + to.spec_name()
                    + ", reason="@ + reason,
            },
        ),
        crate::decode_pipeline::DecodeEventView::ResolutionChanged { generation, width, height } =>
            Some(
            crate::model::EventView::ResolutionChanged { width, height, new_handle: 0, generation },
        ),
        crate::decode_pipeline::DecodeEventView::ReconnectRequired { .. } => Some(
            crate::model::EventView::Reconnecting,
        ),
        crate::decode_pipeline::DecodeEventView::Warning { message } => Some(
            crate::model::EventView::Error { code: ErrorCode::Internal, message },
        ),
    }
}

/// What events of a decoder mean, in order.
pub open spec fn mapped_events(events: Seq<crate::decode_pipeline::DecodeEventView>) -> Seq<
    crate::model::EventView,
>
    decreases events.len(),
{
    if events.len() == 0 {
        Seq::empty()
    } else {
        match mapped_event(events.last()) {
            Some(e) => mapped_events(events.drop_last()).push(e),
            None => mapped_events(events.drop_last()),
        }
    }
}

/// The notices that tell of events.
pub open spec fn told(events: Seq<crate::model::EventView>) -> Seq<RuntimeNoticeView> {
    events.map_values(|e: crate::model::EventView| RuntimeNoticeView::Event(e))
}

/// The view of an event that may be missing.
pub open spec fn event_option(e: Option<SessionEvent>) -> Option<crate::model::EventView> {
    match e {
        Some(e) => Some(e@),
        None => None,
    }
}

/// The event of a session that an event of its decoder means, if any.
pub fn map_decode_event(event: &ScrcpyDecodeEvent) -> (r: Option<SessionEvent>)
    ensures
        event_option(r) == mapped_event(event@),
{
    match event {
        ScrcpyDecodeEvent::DecoderStarted { .. } => None,
        ScrcpyDecodeEvent::DecoderDegraded { from, to, reason } => {
            let mut message: String = concat("decoder degraded: ", from.name());
            message.append(" -> ");
            message.append(to.name());
            message.append(", reason=");
            message.append(reason.as_str());
            Some(SessionEvent::Error { code: ErrorCode::DecodeFailed, message })
        },
        ScrcpyDecodeEvent::ResolutionChanged { generation, width, height } => Some(
            SessionEvent::ResolutionChanged {
                width: *width,
                height: *height,
                new_handle: 0,
                generation: *generation,
            },
        ),
        ScrcpyDecodeEvent::ReconnectRequired { .. } => Some(SessionEvent::Reconnecting),
        ScrcpyDecodeEvent::Warning { message } => Some(
            SessionEvent::Error { code: ErrorCode::Internal, message: message.clone() },
        ),
    }
}

/// What is kept of a session while its frames are shown.
#[derive(Debug)]
pub struct LiveState {
    decode_events: VecDeque<ScrcpyDecodeEvent>,
    frames: VecDeque<DecodeFrame>,
    perf: RuntimePerfState,
}

/// What is kept of a session while its frames are shown, as a mathematical value.
#[verifier::ext_equal]
pub struct LiveView {
    pub decode_events: Seq<crate::decode_pipeline::DecodeEventView>,
    pub frames: Seq<DecodeFrame>,
    pub perf: RuntimePerfState,
}

impl View for LiveState {
    type V = LiveView;

    closed spec fn view(&self) -> LiveView {
        LiveView {
            decode_events: crate::decode_pipeline::decode_events_view(self.decode_events@),
            frames: self.frames@,
            perf: self.perf,
        }
    }
}

/// What is kept of a session: its events and statistics, which outlive it, and the rest.
#[derive(Debug)]
pub struct SessionRecord {
    events: VecDeque<SessionEvent>,
    stats: SessionStats,
    live: Option<LiveState>,
}

/// What is kept of a session, as a mathematical value.
#[verifier::ext_equal]
pub struct RecordView {
    pub events: Seq<crate::model::EventView>,
    pub stats: SessionStats,
    pub live: Option<LiveView>,
}

impl View for SessionRecord {
    type V = RecordView;

    closed spec fn view(&self) -> RecordView {
        RecordView {
            events: crate::model::events_view(self.events@),
            stats: self.stats,
            live: match self.live {
                Some(l) => Some(l@),
                None => None,
            },
        }
    }
}

/// The handle of the texture that a frame is in, or zero.
pub open spec fn handle_of(frame: DecodedFrame) -> i64 {
    match frame {
        DecodedFrame::GpuShared { handle, .. } => handle,
        DecodedFrame::CpuBgra(_) => 0,
    }
}

/// A count that stays at the largest number.
pub open spec fn counted(n: u64) -> u64 {
    if n == u64::MAX {
        n
    } else {
        (n + 1) as u64
    }
}

fn count(n: u64) -> (r: u64)
    ensures
        r == counted(n),
{
    if n == u64::MAX {
        n
    } else {
        n + 1
    }
}

/// The frames after a new one, which takes the place of an older one of its generation.
pub open spec fn frames_with(s: Seq<DecodeFrame>, frame: DecodeFrame) -> Seq<DecodeFrame> {
    crate::bounded::placed(
        s,
        frame,
        s.len() > 0 && s.last().generation == frame.generation,
        RUNTIME_FRAME_QUEUE_LIMIT as nat,
    )
}

/// A record, the notices so far, and the next number for a frame.
#[verifier::ext_equal]
pub struct RecordRun {
    pub record: RecordView,
    pub notices: Seq<RuntimeNoticeView>,
    pub next_id: u64,
}

impl RecordView {
    /// The record of a session that starts at a time.
    pub open spec fn fresh(now: u64) -> RecordView {
        RecordView {
            events: Seq::empty(),
            stats: SessionStats::spec_zero(),
            live: Some(
                LiveView {
                    decode_events: Seq::empty(),
                    frames: Seq::empty(),
                    perf: RuntimePerfState::spec_new(now),
                },
            ),
        }
    }

    /// The record with one more event.
    pub open spec fn with_event(self, event: crate::model::EventView) -> RecordView {
        RecordView {
            events: crate::bounded::last_n(self.events.push(event), RUNTIME_EVENT_QUEUE_LIMIT as nat),
            ..self
        }
    }

    /// The record with more events, in order.
    pub open spec fn with_events(self, events: Seq<crate::model::EventView>) -> RecordView
        decreases events.len(),
    {
        if events.len() == 0 {
            self
        } else {
            self.with_events(events.drop_last()).with_event(events.last())
        }
    }

    /// The record with more events of the decoder, in order, and with what they mean.
    pub open spec fn with_decode_events(
        self,
        events: Seq<crate::decode_pipeline::DecodeEventView>,
    ) -> RecordView
        decreases events.len(),
    {
        if events.len() == 0 {
            self
        } else {
            let r = self.with_decode_events(events.drop_last()).with_decode_event(events.last());
            match mapped_event(events.last()) {
                Some(e) => r.with_event(e),
                None => r,
            }
        }
    }

    /// The record with one more event of the decoder.
    pub open spec fn with_decode_event(
        self,
        event: crate::decode_pipeline::DecodeEventView,
    ) -> RecordView {
        RecordView {
            live: Some(
                LiveView {
                    decode_events: crate::bounded::last_n(
                        self.live->0.decode_events.push(event),
                        RUNTIME_DECODE_EVENT_QUEUE_LIMIT as nat,
                    ),
                    ..self.live->0
                },
            ),
            ..self
        }
    }

    /// The record with other counts.
    pub open spec fn with_perf(self, perf: RuntimePerfState) -> RecordView {
        RecordView { live: Some(LiveView { perf, ..self.live->0 }), ..self }
    }

    /// The record after the frames of a round: the frame rate is taken where enough time has
    /// passed.
    pub open spec fn after_round(self, now: u64) -> RecordView {
        let perf = self.live->0.perf;
        if now >= perf.fps_tick && now - perf.fps_tick >= FPS_WINDOW_NANOS {
            RecordView {
                stats: SessionStats {
                    fps_frames: perf.fps_frames,
                    fps_window_nanos: (now - perf.fps_tick) as u64,
                    ..self.stats
                },
                ..self.with_perf(RuntimePerfState { fps_tick: now, fps_frames: 0, ..perf })
            }
        } else {
            self
        }
    }

    /// The record with the counts of the decoder.
    pub open spec fn with_stats(self, stats: PipelineStats) -> RecordView {
        RecordView {
            stats: SessionStats {
                decode_latency_ms: (stats.last_decode_ms % 0x1_0000_0000) as u32,
                upload_latency_ms: (stats.last_upload_ms % 0x1_0000_0000) as u32,
                dropped_frames: stats.dropped_frames,
                ..self.stats
            },
            ..self
        }
    }
}

impl RecordRun {
    /// One more event, which is told to the outside.
    pub open spec fn event(self, event: crate::model::EventView) -> RecordRun {
        RecordRun {
            record: self.record.with_event(event),
            notices: self.notices.push(RuntimeNoticeView::Event(event)),
            ..self
        }
    }

    /// One more frame. A frame of an older generation than the last is left out. A new size or
    /// generation is an event.
    pub open spec fn frame(self, frame: DecodeFrame) -> RecordRun {
        let perf = self.record.live->0.perf;
        if frame.generation < perf.active_generation {
            self
        } else {
            let size = crate::decode_pipeline::size_of_frame(frame.frame);
            let told = RecordRun {
                notices: self.notices.push(
                    RuntimeNoticeView::Frame(
                        crate::callbacks::notice_for(frame.frame, frame.generation, self.next_id),
                    ),
                ),
                next_id: crate::callbacks::id_after(frame.frame, self.next_id),
                ..self
            };
            let noted = if size != perf.last_size || frame.generation != perf.active_generation {
                told.event(
                    crate::model::EventView::ResolutionChanged {
                        width: size.0,
                        height: size.1,
                        new_handle: handle_of(frame.frame),
                        generation: frame.generation,
                    },
                )
            } else {
                told
            };
            RecordRun {
                record: RecordView {
                    stats: SessionStats {
                        total_frames: counted(noted.record.stats.total_frames),
                        ..noted.record.stats
                    },
                    live: Some(
                        LiveView {
                            frames: frames_with(noted.record.live->0.frames, frame),
                            perf: RuntimePerfState {
                                fps_frames: counted(perf.fps_frames),
                                active_generation: frame.generation,
                                last_size: size,
                                ..perf
                            },
                            ..noted.record.live->0
                        },
                    ),
                    ..noted.record
                },
                ..noted
            }
        }
    }

    /// More frames, in order.
    pub open spec fn frames(self, frames: Seq<DecodeFrame>) -> RecordRun
        decreases frames.len(),
    {
        if frames.len() == 0 {
            self
        } else {
            self.frames(frames.drop_last()).frame(frames.last())
        }
    }

    /// The frames of a round; without any, nothing changes.
    pub open spec fn round(self, frames: Seq<DecodeFrame>, now: u64) -> RecordRun {
        if frames.len() == 0 {
            self
        } else {
            let run = self.frames(frames);
            RecordRun { record: run.record.after_round(now), ..run }
        }
    }
}

/// A record, the notices so far and the next number, from what holds them.
spec fn run_of(record: SessionRecord, out: Seq<RuntimeNotice>, ids: FrameCounter) -> RecordRun {
    RecordRun { record: record@, notices: runtime_notices_view(out), next_id: ids@ }
}

impl SessionRecord {
    fn fresh(now: u64) -> (r: Self)
        ensures
            r@ == RecordView::fresh(now),
    {
        let r = SessionRecord {
            events: VecDeque::new(),
            stats: SessionStats::zero(),
            live: Some(
                LiveState {
                    decode_events: VecDeque::new(),
                    frames: VecDeque::new(),
                    perf: RuntimePerfState::new(now),
                },
            ),
        };
        assert(r@ =~= RecordView::fresh(now));
        assert(r@.live->0 =~= RecordView::fresh(now).live->0);
        r
    }

    fn push_event(&mut self, event: SessionEvent, out: &mut Vec<RuntimeNotice>)
        ensures
            final(self)@ == old(self)@.with_event(event@),
            runtime_notices_view(final(out)@) == runtime_notices_view(old(out)@).push(
                RuntimeNoticeView::Event(event@),
            ),
    {
        out.push(RuntimeNotice::Event(event.copied()));
        push_bounded(&mut self.events, event, RUNTIME_EVENT_QUEUE_LIMIT);
        assert(self@ =~= old(self)@.with_event(event@));
        assert(runtime_notices_view(out@) =~= runtime_notices_view(old(out)@).push(
            RuntimeNoticeView::Event(event@),
        ));
    }

    fn process_frame(
        &mut self,
        frame: DecodeFrame,
        ids: &mut FrameCounter,
        out: &mut Vec<RuntimeNotice>,
    )
        requires
            old(self)@.live is Some,
        ensures
            run_of(*final(self), final(out)@, *final(ids)) == run_of(
                *old(self),
                old(out)@,
                *old(ids),
            ).frame(frame),
            final(self)@.live is Some,
    {
        let ghost run = run_of(*self, out@, *ids);
        let perf: RuntimePerfState = match &self.live {
            Some(l) => l.perf,
            None => RuntimePerfState::new(0),
        };
        if frame.generation < perf.active_generation {
            return;
        }
        let size: (u32, u32) = ScrcpyDecodePipeline::frame_size(&frame.frame);
        let handle: i64 = match &frame.frame {
            DecodedFrame::GpuShared { handle, .. } => *handle,
            DecodedFrame::CpuBgra(_) => 0,
        };
        let notice = frame_notice(&frame.frame, frame.generation, ids);
        out.push(RuntimeNotice::Frame(notice));
        let ghost told = RecordRun {
            notices: run.notices.push(
                RuntimeNoticeView::Frame(
                    crate::callbacks::notice_for(frame.frame, frame.generation, run.next_id),
                ),
            ),
            next_id: crate::callbacks::id_after(frame.frame, run.next_id),
            ..run
        };
        assert(runtime_notices_view(out@) =~= told.notices);
        if size.0 != perf.last_size.0 || size.1 != perf.last_size.1 || frame.generation
            != perf.active_generation {
            self.push_event(
                SessionEvent::ResolutionChanged {
                    width: size.0,
                    height: size.1,
                    new_handle: handle,
                    generation: frame.generation,
                },
                out,
            );
        }
        let generation: u64 = frame.generation;
        if let Some(l) = &mut self.live {
            let waiting: usize = l.frames.len();
            let replace: bool = waiting > 0 && l.frames[waiting - 1].generation == generation;
            place_bounded(&mut l.frames, frame, replace, RUNTIME_FRAME_QUEUE_LIMIT);
            l.perf = RuntimePerfState {
                fps_tick: perf.fps_tick,
                fps_frames: count(perf.fps_frames),
                active_generation: generation,
                last_size: size,
            };
        }
        self.stats.total_frames = count(self.stats.total_frames);
        assert(self@.live->0 =~= run.frame(frame).record.live->0);
        assert(self@ =~= run.frame(frame).record);
        assert(run_of(*self, out@, *ids) =~= run.frame(frame));
    }

    fn process_new_frames(
        &mut self,
        frames: Vec<DecodeFrame>,
        now: u64,
        ids: &mut FrameCounter,
        out: &mut Vec<RuntimeNotice>,
    )
        requires
            old(self)@.live is Some,
        ensures
            run_of(*final(self), final(out)@, *final(ids)) == run_of(
                *old(self),
                old(out)@,
                *old(ids),
            ).round(frames@, now),
            final(self)@.live is Some,
    {
        let ghost run = run_of(*self, out@, *ids);
        if frames.len() == 0 {
            return;
        }
        let mut rest: VecDeque<DecodeFrame> = queue_of(frames);
        let mut done: Ghost<int> = Ghost(0);
        assert(frames@.take(0) =~= Seq::empty());
        while rest.len() > 0
            invariant
                0 <= done@ <= frames@.len(),
                rest@ == frames@.skip(done@),
                self@.live is Some,
                run == run_of(*old(self), old(out)@, *old(ids)),
                run_of(*self, out@, *ids) == run.frames(frames@.take(done@)),
            decreases rest.len(),
        {
            if let Some(frame) = rest.pop_front() {
                proof {
                    assert(frame == frames@[done@]);
                    assert(frames@.take(done@ + 1).drop_last() =~= frames@.take(done@));
                    assert(frames@.take(done@ + 1).last() == frame);
                    assert(rest@ =~= frames@.skip(done@ + 1));
                }
                self.process_frame(frame, ids, out);
                proof {
                    done@ = done@ + 1;
                }
            }
        }
        assert(frames@.take(frames@.len() as int) =~= frames@);
        let ghost counted_run = run_of(*self, out@, *ids);
        if let Some(l) = &mut self.live {
            let perf: RuntimePerfState = l.perf;
            if now >= perf.fps_tick && now - perf.fps_tick >= FPS_WINDOW_NANOS {
                self.stats.fps_frames = perf.fps_frames;
                self.stats.fps_window_nanos = now - perf.fps_tick;
                l.perf = RuntimePerfState {
                    fps_tick: now,
                    fps_frames: 0,
                    active_generation: perf.active_generation,
                    last_size: perf.last_size,
                };
            }
        }
        assert(self@.live->0 =~= counted_run.record.after_round(now).live->0);
        assert(self@ =~= counted_run.record.after_round(now));
        assert(run_of(*self, out@, *ids) =~= run.round(frames@, now));
    }

    fn sync_stats(&mut self, stats: PipelineStats)
        ensures
            final(self)@ == old(self)@.with_stats(stats),
    {
        self.stats.decode_latency_ms = (stats.last_decode_ms % 0x1_0000_0000) as u32;
        self.stats.upload_latency_ms = (stats.last_upload_ms % 0x1_0000_0000) as u32;
        self.stats.dropped_frames = stats.dropped_frames;
    }

    fn push_events(&mut self, events: Vec<SessionEvent>, out: &mut Vec<RuntimeNotice>)
        ensures
            final(self)@ == old(self)@.with_events(crate::model::events_view(events@)),
            final(self)@.live == old(self)@.live,
            runtime_notices_view(final(out)@) == runtime_notices_view(old(out)@) + told(
                crate::model::events_view(events@),
            ),
    {
        let ghost all = crate::model::events_view(events@);
        let mut rest: VecDeque<SessionEvent> = queue_of(events);
        let mut done: Ghost<int> = Ghost(0);
        assert(all.take(0) =~= Seq::empty());
        assert(runtime_notices_view(out@) =~= runtime_notices_view(out@) + told(all.take(0)));
        while rest.len() > 0
            invariant
                all == crate::model::events_view(events@),
                0 <= done@ <= events@.len(),
                rest@ == events@.skip(done@),
                self@.live == old(self)@.live,
                self@ == old(self)@.with_events(all.take(done@)),
                runtime_notices_view(out@) == runtime_notices_view(old(out)@) + told(
                    all.take(done@),
                ),
            decreases rest.len(),
        {
            if let Some(event) = rest.pop_front() {
                proof {
                    assert(event == events@[done@]);
                    assert(all.take(done@ + 1).drop_last() =~= all.take(done@));
                    assert(all.take(done@ + 1).last() == event@);
                    assert(told(all.take(done@ + 1)) =~= told(all.take(done@)).push(
                        RuntimeNoticeView::Event(event@),
                    ));
                    assert(rest@ =~= events@.skip(done@ + 1));
                }
                self.push_event(event, out);
                proof {
                    done@ = done@ + 1;
                    assert(runtime_notices_view(out@) =~= runtime_notices_view(old(out)@) + told(
                        all.take(done@),
                    ));
                }
            }
        }
        assert(all.take(events@.len() as int) =~= all);
    }

    fn push_decode_event(&mut self, event: ScrcpyDecodeEvent)
        requires
            old(self)@.live is Some,
        ensures
            final(self)@ == old(self)@.with_decode_event(event@),
            final(self)@.live is Some,
    {
        if let Some(l) = &mut self.live {
            push_bounded(&mut l.decode_events, event, RUNTIME_DECODE_EVENT_QUEUE_LIMIT);
        }
        assert(self@.live->0 =~= old(self)@.with_decode_event(event@).live->0);
        assert(self@ =~= old(self)@.with_decode_event(event@));
    }

    fn push_decode_events(&mut self, events: Vec<ScrcpyDecodeEvent>, out: &mut Vec<RuntimeNotice>)
        requires
            old(self)@.live is Some,
        ensures
            final(self)@ == old(self)@.with_decode_events(
                crate::decode_pipeline::decode_events_view(events@),
            ),
            final(self)@.live is Some,
            runtime_notices_view(final(out)@) == runtime_notices_view(old(out)@) + told(
                mapped_events(crate::decode_pipeline::decode_events_view(events@)),
            ),
    {
        let ghost all = crate::decode_pipeline::decode_events_view(events@);
        let mut rest: VecDeque<ScrcpyDecodeEvent> = queue_of(events);
        let mut done: Ghost<int> = Ghost(0);
        assert(all.take(0) =~= Seq::empty());
        assert(runtime_notices_view(out@) =~= runtime_notices_view(out@) + told(
            mapped_events(all.take(0)),
        ));
        while rest.len() > 0
            invariant
                all == crate::decode_pipeline::decode_events_view(events@),
                0 <= done@ <= events@.len(),
                rest@ == events@.skip(done@),
                self@.live is Some,
                self@ == old(self)@.with_decode_events(all.take(done@)),
                runtime_notices_view(out@) == runtime_notices_view(old(out)@) + told(
                    mapped_events(all.take(done@)),
                ),
            decreases rest.len(),
        {
            if let Some(event) = rest.pop_front() {
                let ghost before = mapped_events(all.take(done@));
                proof {
                    assert(event == events@[done@]);
                    assert(all.take(done@ + 1).drop_last() =~= all.take(done@));
                    assert(all.take(done@ + 1).last() == event@);
                    assert(rest@ =~= events@.skip(done@ + 1));
                }
                let meaning: Option<SessionEvent> = map_decode_event(&event);
                self.push_decode_event(event);
                if let Some(e) = meaning {
                    self.push_event(e, out);
                    assert(told(before.push(e@)) =~= told(before).push(
                        RuntimeNoticeView::Event(e@),
                    ));
                }
                proof {
                    done@ = done@ + 1;
                    assert(runtime_notices_view(out@) =~= runtime_notices_view(old(out)@) + told(
                        mapped_events(all.take(done@)),
                    ));
                }
            }
        }
        assert(all.take(events@.len() as int) =~= all);
    }
}

/// The sessions of a process, each with its decoder and its record.
pub struct ScrcpyCoreRuntime {
    session_manager: SessionManager<Session>,
    decode_pipelines: Table<ScrcpyDecodePipeline>,
    records: Table<SessionRecord>,
    decode_config: ScrcpyDecodeConfig,
}

/// The sessions of a process, as a mathematical value.
#[verifier::ext_equal]
pub struct RuntimeView {
    pub sessions: Map<Seq<char>, crate::session::SessionView>,
    pub pipelines: Map<Seq<char>, crate::decode_pipeline::DecodeView>,
    pub records: Map<Seq<char>, RecordView>,
    pub config: ScrcpyDecodeConfig,
}

impl View for ScrcpyCoreRuntime {
    type V = RuntimeView;

    closed spec fn view(&self) -> RuntimeView {
        RuntimeView {
            sessions: self.session_manager@.map_values(|s: Session| s@),
            pipelines: self.decode_pipelines@.map_values(|p: ScrcpyDecodePipeline| p@),
            records: self.records@.map_values(|r: SessionRecord| r@),
            config: self.decode_config,
        }
    }
}

impl RuntimeView {
    /// A decoder belongs to a session, and a session has a record that is live.
    pub open spec fn valid(self) -> bool {
        &&& self.pipelines.dom().subset_of(self.sessions.dom())
        &&& forall|id: Seq<char>| #[trigger]
            self.sessions.dom().contains(id) ==> self.sessions[id].valid()
                && self.records.dom().contains(id) && self.records[id].live is Some
    }

    /// The events that a session has not told of yet.
    pub open spec fn own_events(self, id: Seq<char>) -> Seq<crate::model::EventView> {
        if self.sessions.dom().contains(id) {
            self.sessions[id].events
        } else {
            Seq::empty()
        }
    }

    /// The events that the decoder of a session has not told of yet.
    pub open spec fn decoder_events(self, id: Seq<char>) -> Seq<
        crate::decode_pipeline::DecodeEventView,
    > {
        if self.pipelines.dom().contains(id) {
            self.pipelines[id].events
        } else {
            Seq::empty()
        }
    }

    /// What the outside is told when the events of a session are collected.
    pub open spec fn collected_notices(self, id: Seq<char>) -> Seq<RuntimeNoticeView> {
        told(self.own_events(id)) + told(mapped_events(self.decoder_events(id)))
    }

    /// The state after the events of a session were collected into its record.
    pub open spec fn collected(self, id: Seq<char>) -> RuntimeView {
        if self.sessions.dom().contains(id) {
            RuntimeView {
                sessions: self.sessions.insert(
                    id,
                    crate::session::SessionView { events: Seq::empty(), ..self.sessions[id] },
                ),
                pipelines: if self.pipelines.dom().contains(id) {
                    self.pipelines.insert(
                        id,
                        crate::decode_pipeline::DecodeView {
                            events: Seq::empty(),
                            ..self.pipelines[id]
                        },
                    )
                } else {
                    self.pipelines
                },
                records: self.records.insert(
                    id,
                    self.records[id].with_events(self.own_events(id)).with_decode_events(
                        self.decoder_events(id),
                    ),
                ),
                ..self
            }
        } else {
            self
        }
    }

    /// The decoder of a session after its output and its statistics were looked at.
    pub open spec fn decoder_after(
        self,
        id: Seq<char>,
        frames: Seq<DecodedFrame>,
        ended: bool,
    ) -> crate::decode_pipeline::DecodeView {
        if ended {
            self.pipelines[id].with_outputs(frames).output_ended()
        } else {
            self.pipelines[id].with_outputs(frames)
        }
    }

    /// The record of a session after the frames of its decoder were taken over.
    pub open spec fn frames_taken(self, id: Seq<char>, now: u64, next_id: u64) -> RecordRun {
        (RecordRun { record: self.records[id], notices: Seq::empty(), next_id }).round(
            self.pipelines[id].frames,
            now,
        )
    }

    /// The state after the frames of a session's decoder were taken over, before its events are
    /// collected.
    pub open spec fn pumped(
        self,
        id: Seq<char>,
        stats: PipelineStats,
        now: u64,
        next_id: u64,
    ) -> RuntimeView {
        RuntimeView {
            pipelines: self.pipelines.insert(
                id,
                crate::decode_pipeline::DecodeView { frames: Seq::empty(), ..self.pipelines[id] },
            ),
            records: self.records.insert(
                id,
                self.frames_taken(id, now, next_id).record.with_stats(stats),
            ),
            ..self
        }
    }

    /// The state with another record of a session.
    pub open spec fn with_record(self, id: Seq<char>, record: RecordView) -> RuntimeView {
        RuntimeView { records: self.records.insert(id, record), ..self }
    }
}

/// The notices that a list holds, as mathematical values.
pub open spec fn told_by(r: Result<Vec<RuntimeNotice>, ScrcpyError>) -> Seq<RuntimeNoticeView> {
    runtime_notices_view(r->Ok_0@)
}

impl ScrcpyCoreRuntime {
    /// The tables hold each name once, and fit each other.
    pub closed spec fn tables_valid(&self) -> bool {
        &&& self.session_manager.valid()
        &&& self.decode_pipelines.valid()
        &&& self.records.valid()
    }

    /// The tables hold each name once, and fit each other.
    pub open spec fn valid(&self) -> bool {
        self.tables_valid() && self@.valid()
    }

    /// No session yet.
    pub fn new() -> (r: Self)
        ensures
            r.valid(),
            r@ == (RuntimeView {
                sessions: Map::empty(),
                pipelines: Map::empty(),
                records: Map::empty(),
                config: ScrcpyDecodeConfig::spec_default(),
            }),
    {
        let r = ScrcpyCoreRuntime {
            session_manager: SessionManager::new(),
            decode_pipelines: Table::new(),
            records: Table::new(),
            decode_config: ScrcpyDecodeConfig::default(),
        };
        assert(r@.sessions =~= Map::empty());
        assert(r@.pipelines =~= Map::empty());
        assert(r@.records =~= Map::empty());
        r
    }

    /// Sets up the decoders of sessions that start from now on.
    pub fn set_decode_config(&mut self, config: ScrcpyDecodeConfig)
        requires
            old(self).valid(),
        ensures
            final(self).valid(),
            final(self)@ == (RuntimeView { config, ..old(self)@ }),
    {
        self.decode_config = config;
    }

    /// How the decoder of a session that starts now is set up.
    pub fn decode_config(&self) -> (r: ScrcpyDecodeConfig)
        ensures
            r == self@.config,
    {
        self.decode_config
    }

    /// Adds an event to a record.
    fn push_runtime_event(&mut self, session_id: &str, event: SessionEvent) -> (r: Vec<
        RuntimeNotice,
    >)
        requires
            old(self).valid(),
            old(self)@.records.dom().contains(session_id@),
        ensures
            final(self).valid(),
            final(self)@ == old(self)@.with_record(
                session_id@,
                old(self)@.records[session_id@].with_event(event@),
            ),
            runtime_notices_view(r@) == seq![RuntimeNoticeView::Event(event@)],
    {
        let mut out: Vec<RuntimeNotice> = Vec::new();
        assert(self.records@.dom().contains(session_id@));
        if let Some(record) = self.records.get_mut(session_id) {
            record.push_event(event, &mut out);
        }
        assert(runtime_notices_view(out@) =~= seq![RuntimeNoticeView::Event(event@)]);
        assert(self@.records =~= old(self)@.records.insert(
            session_id@,
            old(self)@.records[session_id@].with_event(event@),
        ));
        out
    }

    /// Begins to start a session: its record begins anew. A name that is taken is an error.
    pub fn begin_start(&mut self, session_id: &str, now: u64) -> (r: Result<
        Vec<RuntimeNotice>,
        ScrcpyError,
    >)
        requires
            old(self).valid(),
        ensures
            final(self).valid(),
            match r {
                Ok(_) => {
                    &&& !old(self)@.sessions.dom().contains(session_id@)
                    &&& final(self)@ == old(self)@.with_record(
                        session_id@,
                        RecordView::fresh(now).with_event(crate::model::EventView::Starting),
                    )
                    &&& told_by(r) == seq![RuntimeNoticeView::Event(crate::model::EventView::Starting)]
                },
                Err(e) => old(self)@.sessions.dom().contains(session_id@) && final(self)@
                    == old(self)@ && e@ == crate::error::ErrorView::Other(
                    "session already exists: "@ + session_id@,
                ),
            },
    {
        if self.session_manager.get(session_id).is_some() {
            return Err(other_error_with("session already exists: ", session_id));
        }
        self.records.insert(session_id.to_owned(), SessionRecord::fresh(now));
        assert(self@.records =~= old(self)@.records.insert(session_id@, RecordView::fresh(now)));
        let out = self.push_runtime_event(session_id, SessionEvent::Starting);
        assert(self@ =~= old(self)@.with_record(
            session_id@,
            RecordView::fresh(now).with_event(crate::model::EventView::Starting),
        ));
        Ok(out)
    }

    /// Takes in that the connection of a session could not be made.
    pub fn on_connect_failed(&mut self, session_id: &str, error: &ScrcpyError) -> (r: Vec<
        RuntimeNotice,
    >)
        requires
            old(self).valid(),
            old(self)@.records.dom().contains(session_id@),
        ensures
            final(self).valid(),
            ({
                let event = crate::model::EventView::Error {
                    code: ErrorCode::Internal,
                    message: "start session failed: "@ + error@.text(),
                };
                &&& final(self)@ == old(self)@.with_record(
                    session_id@,
                    old(self)@.records[session_id@].with_event(event),
                )
                &&& runtime_notices_view(r@) == seq![RuntimeNoticeView::Event(event)]
            }),
    {
        let message: String = concat("start session failed: ", error.message().as_str());
        self.push_runtime_event(
            session_id,
            SessionEvent::Error { code: ErrorCode::Internal, message },
        )
    }

    /// Takes in the connected session, and whether a decoder could be made. Without a decoder the
    /// session stays, but does not run.
    pub fn on_connected(
        &mut self,
        session_id: &str,
        session: Session,
        decoder: Result<(), ScrcpyError>,
    ) -> (r: Result<Vec<RuntimeNotice>, ScrcpyError>)
        requires
            old(self).valid(),
            session@.valid(),
            old(self)@.records.dom().contains(session_id@),
            old(self)@.records[session_id@].live is Some,
        ensures
            final(self).valid(),
            ({
                let taken = old(self)@.sessions.dom().contains(session_id@);
                let joined = RuntimeView {
                    sessions: old(self)@.sessions.insert(session_id@, session@),
                    ..old(self)@
                };
                match r {
                    Ok(_) => {
                        &&& !taken && decoder is Ok
                        &&& final(self)@ == (RuntimeView {
                            pipelines: joined.pipelines.insert(
                                session_id@,
                                crate::decode_pipeline::DecodeView::at_start(joined.config),
                            ),
                            ..joined
                        }).with_record(
                            session_id@,
                            joined.records[session_id@].with_event(
                                crate::model::EventView::Running,
                            ),
                        )
                        &&& told_by(r) == seq![
                            RuntimeNoticeView::Event(crate::model::EventView::Running),
                        ]
                    },
                    Err(e) => if taken {
                        final(self)@ == old(self)@ && e@ == crate::error::ErrorView::Other(
                            "session already exists: "@ + session_id@,
                        )
                    } else {
                        final(self)@ == joined && decoder == Err::<(), ScrcpyError>(e)
                    },
                }
            }),
    {
        if let Err(e) = self.session_manager.insert(session_id.to_owned(), session) {
            return Err(e);
        }
        assert(self@.sessions =~= old(self)@.sessions.insert(session_id@, session@));
        let ghost joined = self@;
        assert(joined.valid());
        if let Err(e) = decoder {
            return Err(e);
        }
        let pipeline = ScrcpyDecodePipeline::new(&self.decode_config);
        self.decode_pipelines.insert(session_id.to_owned(), pipeline);
        assert(self@.pipelines =~= joined.pipelines.insert(session_id@, pipeline@));
        Ok(self.push_runtime_event(session_id, SessionEvent::Running))
    }

    /// Begins to stop a session: it and its decoder leave the tables.
    pub fn begin_stop(&mut self, session_id: &str) -> (r: Result<Session, ScrcpyError>)
        requires
            old(self).valid(),
        ensures
            final(self).valid(),
            match r {
                Ok(s) => {
                    &&& old(self)@.sessions.dom().contains(session_id@)
                    &&& s@ == old(self)@.sessions[session_id@]
                    &&& final(self)@ == (RuntimeView {
                        sessions: old(self)@.sessions.remove(session_id@),
                        pipelines: old(self)@.pipelines.remove(session_id@),
                        ..old(self)@
                    })
                },
                Err(e) => !old(self)@.sessions.dom().contains(session_id@) && final(self)@
                    == old(self)@ && e@ == crate::error::ErrorView::Other(
                    "invalid session id: "@ + session_id@,
                ),
            },
    {
        let _ = self.decode_pipelines.remove(session_id);
        assert(self@.pipelines =~= old(self)@.pipelines.remove(session_id@));
        match self.session_manager.remove(session_id) {
            Some(session) => {
                assert(self@.sessions =~= old(self)@.sessions.remove(session_id@));
                Ok(session)
            },
            None => {
                assert(!old(self)@.sessions.dom().contains(session_id@));
                assert(self@ =~= old(self)@);
                Err(other_error_with("invalid session id: ", session_id))
            },
        }
    }

    /// Takes in how stopping a session went. Its frames and the events of its decoder are dropped
    /// once that worked; its own events and statistics stay.
    pub fn on_stopped(&mut self, session_id: &str, outcome: Result<(), ScrcpyError>) -> (r: Result<
        Vec<RuntimeNotice>,
        ScrcpyError,
    >)
        requires
            old(self).valid(),
            old(self)@.records.dom().contains(session_id@),
            !old(self)@.sessions.dom().contains(session_id@),
        ensures
            final(self).valid(),
            match r {
                Ok(_) => {
                    &&& outcome is Ok
                    &&& final(self)@ == old(self)@.with_record(
                        session_id@,
                        RecordView {
                            live: None,
                            ..old(self)@.records[session_id@].with_event(
                                crate::model::EventView::Stopped,
                            )
                        },
                    )
                    &&& told_by(r) == seq![RuntimeNoticeView::Event(crate::model::EventView::Stopped)]
                },
                Err(e) => outcome == Err::<(), ScrcpyError>(e) && final(self)@ == old(self)@,
            },
    {
        if let Err(e) = outcome {
            return Err(e);
        }
        let out = self.push_runtime_event(session_id, SessionEvent::Stopped);
        let ghost told = self@;
        let ghost noted = self.records@[session_id@];
        assert(told.records.dom().contains(session_id@));
        assert(self.records@.dom().contains(session_id@));
        assert(told.records[session_id@] == noted@);
        if let Some(record) = self.records.get_mut(session_id) {
            record.live = None;
        }
        let ghost ended = RecordView { live: None, ..told.records[session_id@] };
        assert(self.records@[session_id@]@ =~= ended);
        assert(self@.records =~= told.records.insert(session_id@, ended));
        assert(self@.records =~= old(self)@.records.insert(session_id@, ended));
        Ok(out)
    }

    /// Takes the events of a session out, oldest first.
    pub fn drain_session_events(&mut self, session_id: &str) -> (r: Result<
        Vec<SessionEvent>,
        ScrcpyError,
    >)
        requires
            old(self).valid(),
        ensures
            final(self).valid(),
            match r {
                Ok(events) => {
                    &&& old(self)@.records.dom().contains(session_id@)
                    &&& crate::model::events_view(events@) == old(self)@.records[session_id@].events
                    &&& final(self)@ == old(self)@.with_record(
                        session_id@,
                        RecordView { events: Seq::empty(), ..old(self)@.records[session_id@] },
                    )
                },
                Err(e) => !old(self)@.records.dom().contains(session_id@) && final(self)@
                    == old(self)@ && e@ == crate::error::ErrorView::Other(
                    "session events not found: "@ + session_id@,
                ),
            },
    {
        match self.records.get_mut(session_id) {
            Some(record) => {
                let events = drain(&mut record.events);
                assert(crate::model::events_view(record.events@) =~= Seq::empty());
                assert(self@.records =~= old(self)@.records.insert(
                    session_id@,
                    RecordView { events: Seq::empty(), ..old(self)@.records[session_id@] },
                ));
                Ok(events)
            },
            None => Err(other_error_with("session events not found: ", session_id)),
        }
    }

    /// Takes the frames of a session out and gives back the newest, if there is one.
    pub fn drain_decoded_frames(&mut self, session_id: &str) -> (r: Result<
        Vec<DecodeFrame>,
        ScrcpyError,
    >)
        requires
            old(self).valid(),
        ensures
            final(self).valid(),
            ({
                let known = old(self)@.records.dom().contains(session_id@)
                    && old(self)@.records[session_id@].live is Some;
                match r {
                    Ok(frames) => {
                        let live = old(self)@.records[session_id@].live->0;
                        &&& known
                        &&& frames@ == (if live.frames.len() == 0 {
                            Seq::empty()
                        } else {
                            seq![live.frames.last()]
                        })
                        &&& final(self)@ == old(self)@.with_record(
                            session_id@,
                            RecordView {
                                live: Some(LiveView { frames: Seq::empty(), ..live }),
                                ..old(self)@.records[session_id@]
                            },
                        )
                    },
                    Err(e) => !known && final(self)@ == old(self)@ && e@
                        == crate::error::ErrorView::Other("decoded frames not found: "@ + session_id@),
                }
            }),
    {
        let ghost before = self@;
        if let Some(record) = self.records.get_mut(session_id) {
            if let Some(live) = &mut record.live {
                let latest = drain_to_last(&mut live.frames);
                let mut out: Vec<DecodeFrame> = Vec::new();
                if let Some(frame) = latest {
                    out.push(frame);
                }
                assert(self@.records =~= before.records.insert(
                    session_id@,
                    RecordView {
                        live: Some(
                            LiveView {
                                frames: Seq::empty(),
                                ..before.records[session_id@].live->0
                            },
                        ),
                        ..before.records[session_id@]
                    },
                ));
                return Ok(out);
            }
        }
        assert(self@.records =~= before.records);
        Err(other_error_with("decoded frames not found: ", session_id))
    }

    /// Takes the events of a session's decoder out, oldest first.
    pub fn drain_decode_events(&mut self, session_id: &str) -> (r: Result<
        Vec<ScrcpyDecodeEvent>,
        ScrcpyError,
    >)
        requires
            old(self).valid(),
        ensures
            final(self).valid(),
            ({
                let known = old(self)@.records.dom().contains(session_id@)
                    && old(self)@.records[session_id@].live is Some;
                match r {
                    Ok(events) => {
                        let live = old(self)@.records[session_id@].live->0;
                        &&& known
                        &&& crate::decode_pipeline::decode_events_view(events@) == live.decode_events
                        &&& final(self)@ == old(self)@.with_record(
                            session_id@,
                            RecordView {
                                live: Some(LiveView { decode_events: Seq::empty(), ..live }),
                                ..old(self)@.records[session_id@]
                            },
                        )
                    },
                    Err(e) => !known && final(self)@ == old(self)@ && e@
                        == crate::error::ErrorView::Other("decode events not found: "@ + session_id@),
                }
            }),
    {
        let ghost before = self@;
        if let Some(record) = self.records.get_mut(session_id) {
            if let Some(live) = &mut record.live {
                let out = drain(&mut live.decode_events);
                assert(crate::decode_pipeline::decode_events_view(live.decode_events@)
                    =~= Seq::empty());
                assert(self@.records =~= before.records.insert(
                    session_id@,
                    RecordView {
                        live: Some(
                            LiveView {
                                decode_events: Seq::empty(),
                                ..before.records[session_id@].live->0
                            },
                        ),
                        ..before.records[session_id@]
                    },
                ));
                return Ok(out);
            }
        }
        assert(self@.records =~= before.records);
        Err(other_error_with("decode events not found: ", session_id))
    }

    /// The statistics of a session.
    pub fn session_stats(&self, session_id: &str) -> (r: Result<SessionStats, ScrcpyError>)
        requires
            self.valid(),
        ensures
            match r {
                Ok(stats) => self@.records.dom().contains(session_id@) && stats
                    == self@.records[session_id@].stats,
                Err(e) => !self@.records.dom().contains(session_id@) && e@
                    == crate::error::ErrorView::Other("session stats not found: "@ + session_id@),
            },
    {
        match self.records.get(session_id) {
            Some(record) => Ok(record.stats),
            None => Err(other_error_with("session stats not found: ", session_id)),
        }
    }

    /// Whether a session needs a new connection.
    pub fn decode_reconnect_required(&self, session_id: &str) -> (r: Result<bool, ScrcpyError>)
        requires
            self.valid(),
        ensures
            match r {
                Ok(b) => self@.pipelines.dom().contains(session_id@) && b
                    == self@.pipelines[session_id@].reconnect,
                Err(e) => !self@.pipelines.dom().contains(session_id@) && e@
                    == crate::error::ErrorView::Other("decode pipeline not found: "@ + session_id@),
            },
    {
        match self.decode_pipelines.get(session_id) {
            Some(pipeline) => Ok(pipeline.reconnect_required()),
            None => Err(other_error_with("decode pipeline not found: ", session_id)),
        }
    }

    /// The counts of a session's decoder, which `read` reads.
    pub fn decode_stats<F: Fn() -> PipelineStats>(&self, session_id: &str, read: F) -> (r: Result<
        PipelineStats,
        ScrcpyError,
    >)
        requires
            self.valid(),
            call_requires(read, ()),
        ensures
            match r {
                Ok(s) => self@.pipelines.dom().contains(session_id@) && call_ensures(read, (), s),
                Err(e) => !self@.pipelines.dom().contains(session_id@) && e@
                    == crate::error::ErrorView::Other("decode pipeline not found: "@ + session_id@),
            },
    {
        match self.decode_pipelines.get(session_id) {
            Some(_) => Ok(read()),
            None => Err(other_error_with("decode pipeline not found: ", session_id)),
        }
    }

    /// How many sessions there are.
    pub fn session_count(&self) -> (r: usize)
        requires
            self.valid(),
        ensures
            r == self@.sessions.len(),
    {
        assert(self@.sessions.dom() =~= self.session_manager@.dom());
        self.session_manager.len()
    }

    /// The names of the sessions, in order.
    pub fn list_session_ids(&self) -> (r: Vec<String>)
        requires
            self.valid(),
        ensures
            crate::table::sorted_texts(r@),
            forall|k: Seq<char>|
                self@.sessions.dom().contains(k) <==> crate::text::strings_view(r@).contains(k),
    {
        self.session_manager.list_session_ids()
    }

    /// The session with a name. What is done to it must leave it valid.
    pub fn session_mut(&mut self, session_id: &str) -> (r: Result<&mut Session, ScrcpyError>)
        requires
            old(self).valid(),
        ensures
            final(self).tables_valid(),
            match r {
                Ok(s) => {
                    &&& old(self)@.sessions.dom().contains(session_id@)
                    &&& (*s)@ == old(self)@.sessions[session_id@]
                    &&& (*s)@.valid()
                    &&& final(self)@ == (RuntimeView {
                        sessions: old(self)@.sessions.insert(session_id@, (*final(s))@),
                        ..old(self)@
                    })
                    &&& (*final(s))@.valid() ==> final(self)@.valid()
                },
                Err(e) => !old(self)@.sessions.dom().contains(session_id@) && final(self)@
                    == old(self)@ && e@ == crate::error::ErrorView::Other(
                    "invalid session id: "@ + session_id@,
                ),
            },
    {
        let ghost before = self@;
        match self.session_manager.get_mut(session_id) {
            Some(session) => {
                assert(before.sessions.dom().contains(session_id@));
                Ok(session)
            },
            None => Err(other_error_with("invalid session id: ", session_id)),
        }
    }

    /// Moves the events of a session and of its decoder into its record, and tells of them.
    pub fn collect_session_events(&mut self, session_id: &str) -> (r: Vec<RuntimeNotice>)
        requires
            old(self).valid(),
        ensures
            final(self).valid(),
            runtime_notices_view(r@) == old(self)@.collected_notices(session_id@),
            final(self)@ == old(self)@.collected(session_id@),
    {
        let mut out: Vec<RuntimeNotice> = Vec::new();
        let ghost v = self@;
        let ghost id = session_id@;
        let own: Vec<SessionEvent> = match self.session_manager.get_mut(session_id) {
            Some(session) => session.drain_events(),
            None => Vec::new(),
        };
        let decoder: Vec<ScrcpyDecodeEvent> = match self.decode_pipelines.get_mut(session_id) {
            Some(pipeline) => pipeline.drain_events(),
            None => Vec::new(),
        };
        let ghost own_view = crate::model::events_view(own@);
        let ghost decoder_view = crate::decode_pipeline::decode_events_view(decoder@);
        if self.session_manager.get(session_id).is_some() {
            if let Some(record) = self.records.get_mut(session_id) {
                record.push_events(own, &mut out);
                record.push_decode_events(decoder, &mut out);
            }
            assert(self@.sessions =~= v.sessions.insert(
                id,
                crate::session::SessionView { events: Seq::empty(), ..v.sessions[id] },
            ));
            assert(self@.records =~= v.records.insert(
                id,
                v.records[id].with_events(own_view).with_decode_events(decoder_view),
            ));
            proof {
                if v.pipelines.dom().contains(id) {
                    assert(self@.pipelines =~= v.pipelines.insert(
                        id,
                        crate::decode_pipeline::DecodeView {
                            events: Seq::empty(),
                            ..v.pipelines[id]
                        },
                    ));
                } else {
                    assert(self@.pipelines =~= v.pipelines);
                }
            }
        } else {
            assert(self@ =~= v);
        }
        assert(runtime_notices_view(out@) =~= told(own_view) + told(mapped_events(decoder_view)));
        out
    }

    /// Whether packets of a session are still to be read.
    pub fn begin_pump(&self, session_id: &str) -> (r: Result<bool, ScrcpyError>)
        requires
            self.valid(),
        ensures
            match r {
                Ok(b) => self@.pipelines.dom().contains(session_id@) && b
                    == !self@.pipelines[session_id@].reconnect,
                Err(e) => !self@.pipelines.dom().contains(session_id@) && e@
                    == crate::error::ErrorView::Other(
                    if self@.sessions.dom().contains(session_id@) {
                        "decode pipeline not found: "@ + session_id@
                    } else {
                        "invalid session id: "@ + session_id@
                    },
                ),
            },
    {
        assert(self@.sessions.dom() =~= self.session_manager@.dom());
        if self.session_manager.get(session_id).is_none() {
            assert(!self@.pipelines.dom().contains(session_id@));
            return Err(other_error_with("invalid session id: ", session_id));
        }
        match self.decode_pipelines.get(session_id) {
            Some(pipeline) => Ok(pipeline.may_pump()),
            None => Err(other_error_with("decode pipeline not found: ", session_id)),
        }
    }

    /// Takes in what the decoder of a session has given out and its statistics. The result says
    /// whether a key frame is to be asked for.
    pub fn on_pump_outputs(
        &mut self,
        session_id: &str,
        frames: Vec<DecodedFrame>,
        ended: bool,
        stats: PipelineStats,
        now: u64,
    ) -> (r: Result<bool, ScrcpyError>)
        requires
            old(self).valid(),
            old(self)@.pipelines.dom().contains(session_id@) ==> old(
                self,
            )@.pipelines[session_id@].generation < u64::MAX
                && old(self)@.pipelines[session_id@].valid(now),
            now + crate::decode_pipeline::HW_RECOVERY_WAIT_NANOS <= u64::MAX,
        ensures
            final(self).valid(),
            match r {
                Ok(ask) => {
                    let after = old(self)@.decoder_after(session_id@, frames@, ended);
                    &&& old(self)@.pipelines.dom().contains(session_id@)
                    &&& ask == after.after_resync(stats).asks_for_idr(stats)
                    &&& final(self)@ == (RuntimeView {
                        pipelines: old(self)@.pipelines.insert(
                            session_id@,
                            after.after_signals(stats, now),
                        ),
                        ..old(self)@
                    })
                },
                Err(e) => !old(self)@.pipelines.dom().contains(session_id@) && final(self)@
                    == old(self)@ && e@ == crate::error::ErrorView::Other(
                    "decode pipeline not found: "@ + session_id@,
                ),
            },
    {
        let ghost before = self@;
        match self.decode_pipelines.get_mut(session_id) {
            Some(pipeline) => {
                assert(before.pipelines.dom().contains(session_id@));
                assert((*pipeline)@ == before.pipelines[session_id@]);
                pipeline.on_outputs(frames, ended);
                let ask: bool = pipeline.handle_pipeline_stats(stats, now);
                assert(self@.pipelines =~= before.pipelines.insert(
                    session_id@,
                    before.decoder_after(session_id@, frames@, ended).after_signals(stats, now),
                ));
                Ok(ask)
            },
            None => Err(other_error_with("decode pipeline not found: ", session_id)),
        }
    }

    /// Looks at the clock for the decoder of a session, after a key frame was asked for where one
    /// was needed.
    pub fn check_recovery(&mut self, session_id: &str, now: u64) -> (r: Result<(), ScrcpyError>)
        requires
            old(self).valid(),
            old(self)@.pipelines.dom().contains(session_id@) ==> old(
                self,
            )@.pipelines[session_id@].valid(now),
        ensures
            final(self).valid(),
            match r {
                Ok(_) => {
                    &&& old(self)@.pipelines.dom().contains(session_id@)
                    &&& final(self)@ == (RuntimeView {
                        pipelines: old(self)@.pipelines.insert(
                            session_id@,
                            old(self)@.pipelines[session_id@].after_clock(now),
                        ),
                        ..old(self)@
                    })
                },
                Err(e) => !old(self)@.pipelines.dom().contains(session_id@) && final(self)@
                    == old(self)@ && e@ == crate::error::ErrorView::Other(
                    "decode pipeline not found: "@ + session_id@,
                ),
            },
    {
        let ghost before = self@;
        match self.decode_pipelines.get_mut(session_id) {
            Some(pipeline) => {
                assert(before.pipelines.dom().contains(session_id@));
                assert((*pipeline)@ == before.pipelines[session_id@]);
                pipeline.check_recovery(now);
                assert(self@.pipelines =~= before.pipelines.insert(
                    session_id@,
                    before.pipelines[session_id@].after_clock(now),
                ));
                Ok(())
            },
            None => Err(other_error_with("decode pipeline not found: ", session_id)),
        }
    }

    /// Takes the frames of a session's decoder over, notes its statistics and collects the events.
    pub fn finish_pump(
        &mut self,
        session_id: &str,
        stats: PipelineStats,
        now: u64,
        ids: &mut FrameCounter,
    ) -> (r: Result<Vec<RuntimeNotice>, ScrcpyError>)
        requires
            old(self).valid(),
        ensures
            final(self).valid(),
            match r {
                Ok(_) => {
                    let v = old(self)@;
                    let taken = v.frames_taken(session_id@, now, old(ids)@);
                    let mid = v.pumped(session_id@, stats, now, old(ids)@);
                    &&& v.pipelines.dom().contains(session_id@)
                    &&& final(ids)@ == taken.next_id
                    &&& final(self)@ == mid.collected(session_id@)
                    &&& told_by(r) == taken.notices + mid.collected_notices(session_id@)
                },
                Err(e) => !old(self)@.pipelines.dom().contains(session_id@) && final(self)@
                    == old(self)@ && final(ids)@ == old(ids)@ && e@
                    == crate::error::ErrorView::Other("decode pipeline not found: "@ + session_id@),
            },
    {
        let ghost v = self@;
        let ghost id = session_id@;
        let frames: Vec<DecodeFrame> = match self.decode_pipelines.get_mut(session_id) {
            Some(pipeline) => pipeline.drain_frames(),
            None => {
                return Err(other_error_with("decode pipeline not found: ", session_id));
            },
        };
        assert(v.pipelines.dom().contains(id));
        assert(v.sessions.dom().contains(id));
        assert(v.records.dom().contains(id));
        assert(self.records@.dom().contains(id));
        let mut out: Vec<RuntimeNotice> = Vec::new();
        assert(runtime_notices_view(out@) =~= Seq::empty());
        if let Some(record) = self.records.get_mut(session_id) {
            record.process_new_frames(frames, now, ids, &mut out);
            record.sync_stats(stats);
        }
        let ghost mid = v.pumped(id, stats, now, old(ids)@);
        assert(self@.pipelines =~= mid.pipelines);
        assert(self@.records =~= mid.records);
        assert(self@ =~= mid);
        let mut collected: Vec<RuntimeNotice> = self.collect_session_events(session_id);
        let ghost first = out@;
        let ghost second = collected@;
        out.append(&mut collected);
        assert(runtime_notices_view(out@) =~= runtime_notices_view(first) + runtime_notices_view(
            second,
        ));
        Ok(out)
    }
}

/// One more round of pumping: how many rounds did work so far, and whether another one follows.
/// Pumping stops after a round without work, or when the budget is used up.
pub fn after_pump(worked: usize, budget: usize, did_work: bool) -> (r: (usize, bool))
    requires
        worked < budget,
    ensures
        r.0 == if did_work {
            worked + 1
        } else {
            worked as int
        },
        r.1 == (did_work && r.0 < budget),
{
    if did_work {
        (worked + 1, worked + 1 < budget)
    } else {
        (worked, false)
    }
}

/// The frames that wait are in order of their generations, at most one of each, and none is newer
/// than the last frame.
pub open spec fn frames_in_order(live: LiveView) -> bool {
    &&& live.frames.len() <= RUNTIME_FRAME_QUEUE_LIMIT
    &&& forall|i: int, j: int|
        0 <= i < j < live.frames.len() ==> (#[trigger] live.frames[i]).generation < (
        #[trigger] live.frames[j]).generation
    &&& live.frames.len() > 0 ==> live.frames.last().generation <= live.perf.active_generation
}

/// Frames leave the record in order, and the generation never goes back.
pub proof fn law_frames_in_order(run: RecordRun, frames: Seq<DecodeFrame>)
    requires
        run.record.live is Some,
        frames_in_order(run.record.live->0),
    ensures
        run.frames(frames).record.live is Some,
        frames_in_order(run.frames(frames).record.live->0),
        run.frames(frames).record.live->0.perf.active_generation
            >= run.record.live->0.perf.active_generation,
    decreases frames.len(),
{
    if frames.len() > 0 {
        law_frames_in_order(run, frames.drop_last());
        let before = run.frames(frames.drop_last()).record.live->0;
        let frame = frames.last();
        if frame.generation >= before.perf.active_generation {
            let after = run.frames(frames).record.live->0;
            let replace = before.frames.len() > 0 && before.frames.last().generation
                == frame.generation;
            let n = before.frames.len() as int;
            if replace {
                assert(after.frames =~= before.frames.drop_last().push(frame));
            } else {
                let all = before.frames.push(frame);
                if n == 2 {
                    assert(after.frames =~= seq![before.frames[1], frame]);
                } else {
                    assert(after.frames =~= all);
                }
            }
        }
    }
}

/// A frame of an older generation than the last one changes nothing and is told to nobody.
pub proof fn law_old_frames_stay_out(run: RecordRun, frame: DecodeFrame)
    requires
        frame.generation < run.record.live->0.perf.active_generation,
    ensures
        run.frame(frame) == run,
{
}

/// A frame that is not too old is told to the renderer before anything else that it causes, and is
/// then the newest of those that wait.
pub proof fn law_every_frame_is_told(run: RecordRun, frame: DecodeFrame)
    requires
        frame.generation >= run.record.live->0.perf.active_generation,
    ensures
        run.frame(frame).notices.len() == run.notices.len() + 1 || run.frame(frame).notices.len()
            == run.notices.len() + 2,
        run.frame(frame).notices[run.notices.len() as int] == RuntimeNoticeView::Frame(
            crate::callbacks::notice_for(frame.frame, frame.generation, run.next_id),
        ),
        run.frame(frame).record.live->0.frames.last() == frame,
{
}

/// What an event of a decoder means: its start nothing, a change of size the same change, the need
/// for a new connection that one is made, and the rest an error with its text.
pub proof fn law_mapped_event(event: crate::decode_pipeline::DecodeEventView)
    ensures
        mapped_event(event) is None <==> event is DecoderStarted,
        event matches crate::decode_pipeline::DecodeEventView::ResolutionChanged {
            generation,
            width,
            height,
        } ==> mapped_event(event) == Some(
            crate::model::EventView::ResolutionChanged { width, height, new_handle: 0, generation },
        ),
        mapped_event(event) == Some(crate::model::EventView::Reconnecting) <==> event
            is ReconnectRequired,
        event matches crate::decode_pipeline::DecodeEventView::Warning { message }
            ==> mapped_event(event) == Some(
            crate::model::EventView::Error { code: ErrorCode::Internal, message },
        ),
        event matches crate::decode_pipeline::DecodeEventView::DecoderDegraded { from, to, reason }
            ==> mapped_event(event) == Some(
            crate::model::EventView::Error {
                code: ErrorCode::DecodeFailed,
                message: "decoder degraded: "@ + from.spec_name() + " -> "@ + to.spec_name()
                    + ", reason="@ + reason,
            },
        ),
{
}

/// What events of a decoder mean, they mean in their order, each by itself.
pub proof fn law_mapped_in_order(
    a: Seq<crate::decode_pipeline::DecodeEventView>,
    b: Seq<crate::decode_pipeline::DecodeEventView>,
)
    ensures
        mapped_events(a + b) == mapped_events(a) + mapped_events(b),
        a.len() == 1 ==> mapped_events(a) == (match mapped_event(a[0]) {
            Some(e) => seq![e],
            None => Seq::empty(),
        }),
    decreases b.len(),
{
    if b.len() == 0 {
        assert(a + b =~= a);
        assert(mapped_events(a) + mapped_events(b) =~= mapped_events(a));
    } else {
        law_mapped_in_order(a, b.drop_last());
        assert((a + b).drop_last() =~= a + b.drop_last());
        assert((a + b).last() == b.last());
        assert(mapped_events(a + b) =~= mapped_events(a) + mapped_events(b));
    }
    if a.len() == 1 {
        assert(a.drop_last() =~= Seq::empty());
        reveal_with_fuel(mapped_events, 2);
        assert(mapped_events(a) =~= (match mapped_event(a[0]) {
            Some(e) => seq![e],
            None => Seq::empty(),
        }));
    }
}

/// A count goes up by one, and stays at the largest number. Pixels have no handle.
pub proof fn law_counts_and_handles(n: u64, frame: DecodedFrame)
    ensures
        n < u64::MAX ==> counted(n) == n + 1,
        counted(u64::MAX) == u64::MAX,
        frame is CpuBgra ==> handle_of(frame) == 0,
        frame is GpuShared ==> handle_of(frame) == frame->handle,
{
}

/// A frame takes the place of the last one where that is of its generation, and else goes behind it,
/// where the two newest stay.
pub proof fn law_frames_with(s: Seq<DecodeFrame>, frame: DecodeFrame)
    requires
        s.len() <= 2,
    ensures
        frames_with(s, frame).last() == frame,
        s.len() > 0 && s.last().generation == frame.generation ==> frames_with(s, frame)
            == s.drop_last().push(frame),
        s.len() > 0 && s.last().generation != frame.generation ==> frames_with(s, frame) == seq![
            s.last(),
            frame,
        ],
        s.len() == 0 ==> frames_with(s, frame) == seq![frame],
{
    if s.len() == 2 {
        assert(s.push(frame).skip(1) =~= seq![s.last(), frame]);
    } else if s.len() == 1 {
        assert(s.push(frame) =~= seq![s.last(), frame]);
    } else {
        assert(s.push(frame) =~= seq![frame]);
    }
}

/// A frame that is not too old counts once, in both counts, and sets size and generation. Where
/// either is new, one event tells of them, right behind the frame; else none does.
pub proof fn law_what_a_frame_does(run: RecordRun, frame: DecodeFrame)
    requires
        run.record.live is Some,
        frame.generation >= run.record.live->0.perf.active_generation,
        run.record.stats.total_frames < u64::MAX,
        run.record.live->0.perf.fps_frames < u64::MAX,
    ensures
        ({
            let live = run.record.live->0;
            let next = run.frame(frame);
            let size = crate::decode_pipeline::size_of_frame(frame.frame);
            let changed = size != live.perf.last_size || frame.generation
                > live.perf.active_generation;
            let event = crate::model::EventView::ResolutionChanged {
                width: size.0,
                height: size.1,
                new_handle: handle_of(frame.frame),
                generation: frame.generation,
            };
            let notice = RuntimeNoticeView::Frame(
                crate::callbacks::notice_for(frame.frame, frame.generation, run.next_id),
            );
            &&& next.record.stats == (SessionStats {
                total_frames: (run.record.stats.total_frames + 1) as u64,
                ..run.record.stats
            })
            &&& next.record.live is Some
            &&& next.record.live->0.perf == (RuntimePerfState {
                fps_tick: live.perf.fps_tick,
                fps_frames: (live.perf.fps_frames + 1) as u64,
                active_generation: frame.generation,
                last_size: size,
            })
            &&& next.record.live->0.frames == frames_with(live.frames, frame)
            &&& next.record.live->0.decode_events == live.decode_events
            &&& next.next_id == crate::callbacks::id_after(frame.frame, run.next_id)
            &&& changed ==> next.notices == run.notices.push(notice).push(
                RuntimeNoticeView::Event(event),
            ) && next.record.events == crate::bounded::last_n(run.record.events.push(event), 512)
            &&& !changed ==> next.notices == run.notices.push(notice) && next.record.events
                == run.record.events
        }),
{
}

/// The frame rate is taken after a round with frames, over at least a second: the frames since the
/// last time and the time since then are noted, and counting starts again. Before that, and in a
/// round without frames, nothing is noted.
pub proof fn law_frame_rate_of_record(record: RecordView, run: RecordRun, now: u64)
    requires
        record.live is Some,
        now >= record.live->0.perf.fps_tick,
    ensures
        ({
            let perf = record.live->0.perf;
            let next = record.after_round(now);
            &&& now - perf.fps_tick >= 1_000_000_000 ==> {
                &&& next.stats == (SessionStats {
                    fps_frames: perf.fps_frames,
                    fps_window_nanos: (now - perf.fps_tick) as u64,
                    ..record.stats
                })
                &&& next.live->0.perf == (RuntimePerfState { fps_tick: now, fps_frames: 0, ..perf })
                &&& next.live->0.frames == record.live->0.frames
                &&& next.events == record.events
            }
            &&& now - perf.fps_tick < 1_000_000_000 ==> next == record
        }),
        run.round(Seq::empty(), now) == run,
{
}

/// The counts of the decoder are noted as they are, as far as 32 bits hold a time.
pub proof fn law_decoder_counts_noted(record: RecordView, stats: PipelineStats)
    requires
        stats.last_decode_ms < 0x1_0000_0000,
        stats.last_upload_ms < 0x1_0000_0000,
    ensures
        record.with_stats(stats).stats.decode_latency_ms == stats.last_decode_ms,
        record.with_stats(stats).stats.upload_latency_ms == stats.last_upload_ms,
        record.with_stats(stats).stats.dropped_frames == stats.dropped_frames,
        record.with_stats(stats).stats.total_frames == record.stats.total_frames,
        record.with_stats(stats).stats.fps_frames == record.stats.fps_frames,
        record.with_stats(stats).events == record.events,
        record.with_stats(stats).live == record.live,
{
}

/// A record keeps the newest 512 events that it was given, in order.
pub proof fn law_record_keeps_newest_events(record: RecordView, events: Seq<crate::model::EventView>)
    requires
        record.events.len() <= 512,
    ensures
        record.with_events(events) == (RecordView {
            events: crate::bounded::last_n(record.events + events, 512),
            ..record
        }),
    decreases events.len(),
{
    if events.len() == 0 {
        assert(record.events + events =~= record.events);
    } else {
        law_record_keeps_newest_events(record, events.drop_last());
        let t = record.events + events.drop_last();
        assert(record.events + events =~= t.push(events.last()));
        assert(crate::bounded::last_n(crate::bounded::last_n(t, 512).push(events.last()), 512)
            =~= crate::bounded::last_n(t.push(events.last()), 512));
    }
}

/// A record keeps the newest 256 events of the decoder that it was given, and what they all mean
/// among its own, in order.
pub proof fn law_record_keeps_decode_events(
    record: RecordView,
    events: Seq<crate::decode_pipeline::DecodeEventView>,
)
    requires
        record.live is Some,
        record.events.len() <= 512,
        record.live->0.decode_events.len() <= 256,
    ensures
        record.with_decode_events(events) == (RecordView {
            events: crate::bounded::last_n(record.events + mapped_events(events), 512),
            live: Some(
                LiveView {
                    decode_events: crate::bounded::last_n(
                        record.live->0.decode_events + events,
                        256,
                    ),
                    ..record.live->0
                },
            ),
            ..record
        }),
    decreases events.len(),
{
    let live = record.live->0;
    if events.len() == 0 {
        assert(record.events + mapped_events(events) =~= record.events);
        assert(live.decode_events + events =~= live.decode_events);
    } else {
        let init = events.drop_last();
        law_record_keeps_decode_events(record, init);
        let t = live.decode_events + init;
        assert(live.decode_events + events =~= t.push(events.last()));
        assert(crate::bounded::last_n(crate::bounded::last_n(t, 256).push(events.last()), 256)
            =~= crate::bounded::last_n(t.push(events.last()), 256));
        let u = record.events + mapped_events(init);
        if let Some(e) = mapped_event(events.last()) {
            assert(record.events + mapped_events(events) =~= u.push(e));
            assert(crate::bounded::last_n(crate::bounded::last_n(u, 512).push(e), 512)
                =~= crate::bounded::last_n(u.push(e), 512));
        } else {
            assert(record.events + mapped_events(events) =~= u);
        }
    }
}

/// Collecting tells of the events of the session itself first and then of what those of its decoder
/// mean. Nothing is told twice: afterwards neither has events left. Other sessions stay as they are.
pub proof fn law_nothing_is_told_twice(v: RuntimeView, id: Seq<char>, other: Seq<char>)
    requires
        v.valid(),
        v.sessions.dom().contains(id),
        other != id,
    ensures
        v.collected_notices(id) == told(v.sessions[id].events) + told(
            mapped_events(v.decoder_events(id)),
        ),
        v.collected(id).collected_notices(id).len() == 0,
        v.collected(id).collected_notices(other) == v.collected_notices(other),
        v.sessions.dom().contains(other) ==> v.collected(id).sessions[other] == v.sessions[other],
        v.pipelines.dom().contains(other) ==> v.collected(id).pipelines[other]
            == v.pipelines[other],
        v.records.dom().contains(other) ==> v.collected(id).records[other] == v.records[other],
        v.collected(id).sessions.dom() == v.sessions.dom(),
        v.collected(id).pipelines.dom() == v.pipelines.dom(),
{
    let w = v.collected(id);
    assert(w.own_events(id).len() == 0);
    assert(w.decoder_events(id).len() == 0);
    assert(w.sessions.dom() =~= v.sessions.dom());
    assert(w.pipelines.dom() =~= v.pipelines.dom());
    assert(w.own_events(other) == v.own_events(other));
    assert(w.decoder_events(other) == v.decoder_events(other));
}

/// What a notice of events tells are the events, in order.
pub proof fn law_told_in_order(events: Seq<crate::model::EventView>, k: int)
    requires
        0 <= k < events.len(),
    ensures
        told(events).len() == events.len(),
        told(events)[k] == RuntimeNoticeView::Event(events[k]),
{
}

/// The frames of a decoder go over to the record of its session, and none is left behind; its other
/// state stays, and so do other sessions.
pub proof fn law_frames_go_over(
    v: RuntimeView,
    id: Seq<char>,
    stats: PipelineStats,
    now: u64,
    next_id: u64,
    other: Seq<char>,
)
    requires
        v.valid(),
        v.pipelines.dom().contains(id),
        other != id,
    ensures
        v.pumped(id, stats, now, next_id).pipelines[id].frames.len() == 0,
        v.pumped(id, stats, now, next_id).pipelines[id].generation == v.pipelines[id].generation,
        v.pumped(id, stats, now, next_id).pipelines[id].events == v.pipelines[id].events,
        v.pumped(id, stats, now, next_id).sessions == v.sessions,
        v.pipelines.dom().contains(other) ==> v.pumped(id, stats, now, next_id).pipelines[other]
            == v.pipelines[other],
        v.records.dom().contains(other) ==> v.pumped(id, stats, now, next_id).records[other]
            == v.records[other],
        v.pipelines[id].frames.len() == 0 ==> v.pumped(id, stats, now, next_id).records[id]
            == v.records[id].with_stats(stats) && v.frames_taken(id, now, next_id).notices.len() == 0,
{
}

/// A session starts with an empty record, in its first generation, and counts from its start.
pub proof fn law_fresh_record(now: u64)
    ensures
        RecordView::fresh(now).events.len() == 0,
        RecordView::fresh(now).live is Some,
        RecordView::fresh(now).live->0.frames.len() == 0,
        RecordView::fresh(now).live->0.decode_events.len() == 0,
        RecordView::fresh(now).live->0.perf == (RuntimePerfState {
            fps_tick: now,
            fps_frames: 0,
            active_generation: 1,
            last_size: (0u32, 0u32),
        }),
        RecordView::fresh(now).stats.total_frames == 0,
        RecordView::fresh(now).stats.dropped_frames == 0,
        RUNTIME_EVENT_QUEUE_LIMIT == 512,
        RUNTIME_DECODE_EVENT_QUEUE_LIMIT == 256,
        RUNTIME_FRAME_QUEUE_LIMIT == 2,
        FPS_WINDOW_NANOS == 1_000_000_000,
{
}

/// Another round of pumping follows exactly a round that did work within the budget.
pub proof fn law_pump_rounds(worked: usize, budget: usize, did_work: bool, r: (usize, bool))
    requires
        call_ensures(after_pump, (worked, budget, did_work), r),
        worked < budget,
    ensures
        r.1 ==> did_work && r.0 < budget,
        did_work ==> r.0 == worked + 1,
        !did_work ==> r.0 == worked && !r.1,
        did_work && worked + 1 < budget ==> r.1,
{
}

} // verus!
