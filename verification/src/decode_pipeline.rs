//! The decode side of a session: frames with their generation, recovery after decode errors, and
//! the decision to reconnect.

use std::collections::VecDeque;

use vstd::prelude::*;

use crate::backend::{DecodedFrame, DecoderOutputMode, DecoderPreference};
use crate::bounded::{drain, push_bounded, queue_of};
use crate::error::ScrcpyError;
use crate::model::DecoderMode;
use crate::pipeline::{hand_on, PipelineConfig, PipelineStats, SendOutcome};
use crate::text::{concat, to_decimal};

verus! {

/// How many frames wait for the renderer at most.
pub const FRAME_QUEUE_LIMIT: usize = 2;

/// How many events wait for their reader at most.
pub const EVENT_QUEUE_LIMIT: usize = 256;

/// How many nanoseconds a hardware decoder has to find back into step.
pub const HW_RECOVERY_WAIT_NANOS: u64 = 220_000_000;

/// A frame of the decoder was handed to the session, unless the session is behind.
pub fn frame_handed_on(outcome: SendOutcome) -> (r: Result<(), ScrcpyError>)
    ensures
        match outcome {
            SendOutcome::Sent | SendOutcome::Full => r is Ok,
            SendOutcome::Disconnected => r matches Err(e) && e@ == crate::error::ErrorView::Other(
                "decode frame hook disconnected"@,
            ),
        },
{
    hand_on(outcome, "decode frame hook disconnected")
}

/// A frame with the generation of the video that it belongs to.
#[derive(Debug, Clone)]
pub struct DecodeFrame {
    pub generation: u64,
    pub frame: DecodedFrame,
}

/// What the decode side reports.
#[derive(Debug, Clone)]
pub enum ScrcpyDecodeEvent {
    DecoderStarted { decoder_mode: DecoderMode },
    DecoderDegraded { from: DecoderMode, to: DecoderMode, reason: String },
    ResolutionChanged { generation: u64, width: u32, height: u32 },
    ReconnectRequired { reason: String },
    Warning { message: String },
}

/// What the decode side reports, as a mathematical value.
pub enum DecodeEventView {
    DecoderStarted { decoder_mode: DecoderMode },
    DecoderDegraded { from: DecoderMode, to: DecoderMode, reason: Seq<char> },
    ResolutionChanged { generation: u64, width: u32, height: u32 },
    ReconnectRequired { reason: Seq<char> },
    Warning { message: Seq<char> },
}

impl View for ScrcpyDecodeEvent {
    type V = DecodeEventView;

    open spec fn view(&self) -> DecodeEventView {
        match *self {
            ScrcpyDecodeEvent::DecoderStarted { decoder_mode } => DecodeEventView::DecoderStarted {
                decoder_mode,
            },
            ScrcpyDecodeEvent::DecoderDegraded { from, to, reason } =>
                DecodeEventView::DecoderDegraded { from, to, reason: reason@ },
            ScrcpyDecodeEvent::ResolutionChanged { generation, width, height } =>
                DecodeEventView::ResolutionChanged { generation, width, height },
            ScrcpyDecodeEvent::ReconnectRequired { reason } => DecodeEventView::ReconnectRequired {
                reason: reason@,
            },
            ScrcpyDecodeEvent::Warning { message } => DecodeEventView::Warning {
                message: message@,
            },
        }
    }
}

/// Events in order, as mathematical values.
pub open spec fn decode_events_view(s: Seq<ScrcpyDecodeEvent>) -> Seq<DecodeEventView> {
    s.map_values(|e: ScrcpyDecodeEvent| e@)
}

/// How the decode side of a session is set up.
#[derive(Debug, Clone, Copy, PartialEq, Eq, Structural)]
pub struct ScrcpyDecodeConfig {
    pub decoder_mode: DecoderMode,
    pub output_mode: DecoderOutputMode,
    pub frame_queue_capacity: usize,
    pub nal_queue_capacity: usize,
    pub drop_nal_on_full: bool,
}

impl Default for ScrcpyDecodeConfig {
    fn default() -> (r: Self)
        ensures
            r == ScrcpyDecodeConfig::spec_default(),
    {
        ScrcpyDecodeConfig {
            decoder_mode: DecoderMode::PreferHardware,
            output_mode: DecoderOutputMode::GpuShared,
            frame_queue_capacity: 2,
            nal_queue_capacity: 128,
            drop_nal_on_full: false,
        }
    }
}

impl ScrcpyDecodeConfig {
    /// The set-up where nothing else is said.
    pub open spec fn spec_default() -> ScrcpyDecodeConfig {
        ScrcpyDecodeConfig {
            decoder_mode: DecoderMode::PreferHardware,
            output_mode: DecoderOutputMode::GpuShared,
            frame_queue_capacity: 2,
            nal_queue_capacity: 128,
            drop_nal_on_full: false,
        }
    }

    /// The set-up of the pipeline underneath.
    pub fn pipeline_config(&self) -> (r: PipelineConfig)
        ensures
            r == (PipelineConfig {
                frame_queue_capacity: self.frame_queue_capacity,
                nal_queue_capacity: self.nal_queue_capacity,
                decoder_preference: preference_for(self.decoder_mode),
                drop_nal_on_full: self.drop_nal_on_full,
                decoder_output_mode: self.output_mode,
            }),
    {
        PipelineConfig {
            frame_queue_capacity: self.frame_queue_capacity,
            nal_queue_capacity: self.nal_queue_capacity,
            decoder_preference: decoder_preference(self.decoder_mode),
            drop_nal_on_full: self.drop_nal_on_full,
            decoder_output_mode: self.output_mode,
        }
    }
}

/// The preference of the same name.
pub open spec fn preference_for(mode: DecoderMode) -> DecoderPreference {
    match mode {
        DecoderMode::PreferHardware => DecoderPreference::PreferHardware,
        DecoderMode::ForceHardware => DecoderPreference::ForceHardware,
        DecoderMode::ForceSoftware => DecoderPreference::ForceSoftware,
    }
}

/// The preference of the same name.
pub fn decoder_preference(mode: DecoderMode) -> (r: DecoderPreference)
    ensures
        r == preference_for(mode),
{
    match mode {
        DecoderMode::PreferHardware => DecoderPreference::PreferHardware,
        DecoderMode::ForceHardware => DecoderPreference::ForceHardware,
        DecoderMode::ForceSoftware => DecoderPreference::ForceSoftware,
    }
}

/// The time in which a hardware decoder has to find back into step, in nanoseconds of a clock
/// that never goes back.
#[derive(Debug, Clone, Copy, PartialEq, Eq, Structural)]
pub struct HwRecoveryState {
    pub fail_signal: u64,
    pub start_at: u64,
    pub deadline_at: u64,
}

/// The state of the decode side of a session.
pub struct ScrcpyDecodePipeline {
    active_decoder_mode: DecoderMode,
    generation: u64,
    frames: VecDeque<DecodeFrame>,
    events: VecDeque<ScrcpyDecodeEvent>,
    handled_need_idr_signals: u64,
    handled_resync_signals: u64,
    hw_recovery: Option<HwRecoveryState>,
    last_resolution: Option<(u32, u32)>,
    reconnect_required: bool,
}

/// The state of the decode side, as a mathematical value.
#[verifier::ext_equal]
pub struct DecodeView {
    pub mode: DecoderMode,
    pub generation: u64,
    pub frames: Seq<DecodeFrame>,
    pub events: Seq<DecodeEventView>,
    pub handled_need: u64,
    pub handled_resync: u64,
    pub recovery: Option<HwRecoveryState>,
    pub resolution: Option<(u32, u32)>,
    pub reconnect: bool,
}

/// The size of a frame.
pub open spec fn size_of_frame(frame: DecodedFrame) -> (u32, u32) {
    match frame {
        DecodedFrame::GpuShared { width, height, .. } => (width, height),
        DecodedFrame::CpuBgra(b) => (b.width, b.height),
    }
}

impl DecodeView {
    /// The state at the start of a session. That it has started is its first event.
    pub open spec fn at_start(config: ScrcpyDecodeConfig) -> DecodeView {
        DecodeView {
            mode: config.decoder_mode,
            generation: 1,
            frames: Seq::empty(),
            events: seq![DecodeEventView::DecoderStarted { decoder_mode: config.decoder_mode }],
            handled_need: 0,
            handled_resync: 0,
            recovery: None,
            resolution: None,
            reconnect: false,
        }
    }

    /// The state with one more event.
    pub open spec fn with_event(self, event: DecodeEventView) -> DecodeView {
        DecodeView {
            events: crate::bounded::last_n(self.events.push(event), EVENT_QUEUE_LIMIT as nat),
            ..self
        }
    }

    /// The state after the decision to reconnect, which is reported once.
    pub open spec fn marked(self, reason: Seq<char>) -> DecodeView {
        if self.reconnect {
            self
        } else {
            DecodeView { reconnect: true, ..self }.with_event(
                DecodeEventView::ReconnectRequired { reason },
            )
        }
    }

    /// The state after a frame of the current size.
    pub open spec fn with_frame(self, frame: DecodedFrame) -> DecodeView {
        DecodeView {
            frames: crate::bounded::last_n(
                self.frames.push(DecodeFrame { generation: self.generation, frame }),
                FRAME_QUEUE_LIMIT as nat,
            ),
            ..self
        }
    }

    /// The state after the size of the video changed: a new generation, without frames of the
    /// old one.
    pub open spec fn resized(self, size: (u32, u32)) -> DecodeView {
        let next = (self.generation + 1) as u64;
        DecodeView { generation: next, frames: Seq::empty(), resolution: Some(size), ..self }.with_event(
            DecodeEventView::ResolutionChanged { generation: next, width: size.0, height: size.1 },
        )
    }

    /// The state after frames from the decoder, in order. The first frame of another size begins
    /// a new generation; what waits behind it is dropped.
    pub open spec fn with_outputs(self, frames: Seq<DecodedFrame>) -> DecodeView
        decreases frames.len(),
    {
        if frames.len() == 0 {
            self
        } else if self.resolution != Some(size_of_frame(frames[0])) {
            self.resized(size_of_frame(frames[0])).with_frame(frames[0])
        } else {
            self.with_frame(frames[0]).with_outputs(frames.drop_first())
        }
    }

    /// The state after the decoder's output ended.
    pub open spec fn output_ended(self) -> DecodeView {
        DecodeView { reconnect: true, ..self }.with_event(
            DecodeEventView::ReconnectRequired { reason: "decode output disconnected"@ },
        )
    }

    /// The state after key frames that put decoding back in step: the recovery is over.
    pub open spec fn after_resync(self, stats: PipelineStats) -> DecodeView {
        if stats.resync_signals > self.handled_resync {
            DecodeView { handled_resync: stats.resync_signals, recovery: None, ..self }
        } else {
            self
        }
    }

    /// Whether decode errors ask for a key frame: a hardware decoder gets one chance at a time.
    pub open spec fn asks_for_idr(self, stats: PipelineStats) -> bool {
        &&& stats.need_idr_signals > self.handled_need
        &&& self.mode != DecoderMode::ForceSoftware
        &&& self.recovery is None
    }

    /// The state after decode errors. A hardware decoder gets time to recover; a software decoder
    /// means a new connection.
    pub open spec fn after_errors(self, stats: PipelineStats, now: u64) -> DecodeView {
        if stats.need_idr_signals > self.handled_need {
            let noted = DecodeView { handled_need: stats.need_idr_signals, ..self };
            if self.mode == DecoderMode::ForceSoftware {
                noted.marked(
                    "software decode failed: need_idr_signals="@ + crate::text::decimal(
                        stats.need_idr_signals as nat,
                    ),
                )
            } else if self.recovery is None {
                DecodeView {
                    recovery: Some(
                        HwRecoveryState {
                            fail_signal: stats.need_idr_signals,
                            start_at: now,
                            deadline_at: (now + HW_RECOVERY_WAIT_NANOS) as u64,
                        },
                    ),
                    ..noted
                }
            } else {
                noted
            }
        } else {
            self
        }
    }

    /// The state after a look at the clock: a recovery that took too long means a new connection.
    pub open spec fn after_clock(self, now: u64) -> DecodeView {
        match self.recovery {
            Some(r) => if now >= r.deadline_at {
                DecodeView { recovery: None, ..self }.marked(
                    "hardware recovery timeout: fail_signal="@ + crate::text::decimal(
                        r.fail_signal as nat,
                    ) + ", waited="@ + crate::text::decimal(
                        ((now - r.start_at) / 1_000_000) as nat,
                    ) + "ms"@,
                )
            } else {
                self
            },
            None => self,
        }
    }

    /// The state after a look at what the pipeline has signalled.
    pub open spec fn after_signals(self, stats: PipelineStats, now: u64) -> DecodeView {
        self.after_resync(stats).after_errors(stats, now)
    }

    /// The state after a round: a look at what the pipeline has signalled, and a later one at the
    /// clock. A key frame is asked for in between.
    pub open spec fn after_round(self, stats: PipelineStats, now: u64, later: u64) -> DecodeView {
        self.after_signals(stats, now).after_clock(later)
    }

    /// A recovery began in the past and ends after it began.
    pub open spec fn valid(self, now: u64) -> bool {
        &&& self.frames.len() <= FRAME_QUEUE_LIMIT
        &&& self.events.len() <= EVENT_QUEUE_LIMIT
        &&& self.recovery matches Some(r) ==> r.start_at <= now && r.deadline_at == r.start_at
            + HW_RECOVERY_WAIT_NANOS
    }
}

impl View for ScrcpyDecodePipeline {
    type V = DecodeView;

    closed spec fn view(&self) -> DecodeView {
        DecodeView {
            mode: self.active_decoder_mode,
            generation: self.generation,
            frames: self.frames@,
            events: decode_events_view(self.events@),
            handled_need: self.handled_need_idr_signals,
            handled_resync: self.handled_resync_signals,
            recovery: self.hw_recovery,
            resolution: self.last_resolution,
            reconnect: self.reconnect_required,
        }
    }
}

impl ScrcpyDecodePipeline {
    /// The decode side of a new session. That it has started is its first event.
    pub fn new(config: &ScrcpyDecodeConfig) -> (r: Self)
        ensures
            r@ == DecodeView::at_start(*config),
    {
        let mut events: VecDeque<ScrcpyDecodeEvent> = VecDeque::new();
        events.push_back(ScrcpyDecodeEvent::DecoderStarted { decoder_mode: config.decoder_mode });
        let r = ScrcpyDecodePipeline {
            active_decoder_mode: config.decoder_mode,
            generation: 1,
            frames: VecDeque::new(),
            events,
            handled_need_idr_signals: 0,
            handled_resync_signals: 0,
            hw_recovery: None,
            last_resolution: None,
            reconnect_required: false,
        };
        assert(r@.events =~= seq![
            DecodeEventView::DecoderStarted { decoder_mode: config.decoder_mode },
        ]);
        r
    }

    fn push_event(&mut self, event: ScrcpyDecodeEvent)
        ensures
            final(self)@ == old(self)@.with_event(event@),
    {
        push_bounded(&mut self.events, event, EVENT_QUEUE_LIMIT);
        assert(self@ =~= old(self)@.with_event(event@));
    }

    fn push_frame(&mut self, frame: DecodedFrame)
        ensures
            final(self)@ == old(self)@.with_frame(frame),
    {
        let generation: u64 = self.generation;
        push_bounded(&mut self.frames, DecodeFrame { generation, frame }, FRAME_QUEUE_LIMIT);
        assert(self@ =~= old(self)@.with_frame(frame));
    }

    /// The size of a frame.
    pub fn frame_size(frame: &DecodedFrame) -> (r: (u32, u32))
        ensures
            r == size_of_frame(*frame),
    {
        match frame {
            DecodedFrame::GpuShared { width, height, .. } => (*width, *height),
            DecodedFrame::CpuBgra(b) => (b.width, b.height),
        }
    }

    fn mark_reconnect_required(&mut self, reason: String)
        ensures
            final(self)@ == old(self)@.marked(reason@),
    {
        if self.reconnect_required {
            return;
        }
        self.reconnect_required = true;
        self.push_event(ScrcpyDecodeEvent::ReconnectRequired { reason });
    }

    /// Whether packets are still to be read: not once a new connection is needed.
    pub fn may_pump(&self) -> (r: bool)
        ensures
            r == !self@.reconnect,
    {
        !self.reconnect_required
    }

    /// Takes in what the decoder has given out so far, and whether its output has ended.
    pub fn on_outputs(&mut self, frames: Vec<DecodedFrame>, ended: bool)
        requires
            old(self)@.generation < u64::MAX,
        ensures
            forall|now: u64| old(self)@.valid(now) ==> final(self)@.valid(now),
            final(self)@ == (if ended {
                old(self)@.with_outputs(frames@).output_ended()
            } else {
                old(self)@.with_outputs(frames@)
            }),
    {
        let mut rest: VecDeque<DecodedFrame> = queue_of(frames);
        let mut done: Ghost<int> = Ghost(0);
        let mut resized: bool = false;
        assert(frames@.skip(0) =~= frames@);
        while rest.len() > 0 && !resized
            invariant
                0 <= done@ <= frames@.len(),
                rest@ == frames@.skip(done@),
                !resized ==> self@.generation < u64::MAX && self@.with_outputs(rest@)
                    == old(self)@.with_outputs(frames@),
                resized ==> self@ == old(self)@.with_outputs(frames@),
            decreases rest.len(),
        {
            let ghost waiting = rest@;
            if let Some(frame) = rest.pop_front() {
                assert(rest@ =~= waiting.drop_first());
                assert(rest@ =~= frames@.skip(done@ + 1));
                let size: (u32, u32) = Self::frame_size(&frame);
                let same: bool = match self.last_resolution {
                    Some((w, h)) => w == size.0 && h == size.1,
                    None => false,
                };
                if !same {
                    let next: u64 = self.generation + 1;
                    self.generation = next;
                    self.frames = VecDeque::new();
                    self.last_resolution = Some(size);
                    self.push_event(
                        ScrcpyDecodeEvent::ResolutionChanged {
                            generation: next,
                            width: size.0,
                            height: size.1,
                        },
                    );
                    resized = true;
                }
                self.push_frame(frame);
                proof {
                    done@ = done@ + 1;
                }
            }
        }
        if ended {
            self.reconnect_required = true;
            self.push_event(
                ScrcpyDecodeEvent::ReconnectRequired {
                    reason: "decode output disconnected".to_owned(),
                },
            );
        }
        proof {
            assert forall|now: u64| old(self)@.valid(now) implies self@.valid(now) by {
                lemma_outputs_valid(old(self)@, frames@, now);
            }
        }
    }

    /// Looks at what the pipeline has signalled. The result says whether a key frame is to be asked
    /// for; the clock is looked at after that (`check_recovery`).
    pub fn handle_pipeline_stats(&mut self, stats: PipelineStats, now: u64) -> (r: bool)
        requires
            old(self)@.valid(now),
            now + HW_RECOVERY_WAIT_NANOS <= u64::MAX,
        ensures
            final(self)@ == old(self)@.after_signals(stats, now),
            final(self)@.valid(now),
            r == old(self)@.after_resync(stats).asks_for_idr(stats),
    {
        if stats.resync_signals > self.handled_resync_signals {
            self.handled_resync_signals = stats.resync_signals;
            self.hw_recovery = None;
        }
        let ghost resynced = self@;
        assert(resynced =~= old(self)@.after_resync(stats));
        let mut ask: bool = false;
        if stats.need_idr_signals > self.handled_need_idr_signals {
            self.handled_need_idr_signals = stats.need_idr_signals;
            match self.active_decoder_mode {
                DecoderMode::PreferHardware | DecoderMode::ForceHardware => {
                    if self.hw_recovery.is_none() {
                        self.hw_recovery = Some(
                            HwRecoveryState {
                                fail_signal: stats.need_idr_signals,
                                start_at: now,
                                deadline_at: now + HW_RECOVERY_WAIT_NANOS,
                            },
                        );
                        ask = true;
                    }
                },
                DecoderMode::ForceSoftware => {
                    let reason: String = concat(
                        "software decode failed: need_idr_signals=",
                        to_decimal(stats.need_idr_signals).as_str(),
                    );
                    self.mark_reconnect_required(reason);
                },
            }
        }
        assert(self@ =~= resynced.after_errors(stats, now));
        ask
    }

    /// Looks at the clock, after a key frame was asked for where one was needed. A recovery that
    /// has taken too long means a new connection.
    pub fn check_recovery(&mut self, now: u64)
        requires
            old(self)@.valid(now),
        ensures
            final(self)@ == old(self)@.after_clock(now),
            final(self)@.valid(now),
    {
        if let Some(state) = self.hw_recovery {
            if now >= state.deadline_at {
                self.hw_recovery = None;
                let mut reason: String = concat(
                    "hardware recovery timeout: fail_signal=",
                    to_decimal(state.fail_signal).as_str(),
                );
                reason.append(", waited=");
                reason.append(to_decimal((now - state.start_at) / 1_000_000).as_str());
                reason.append("ms");
                self.mark_reconnect_required(reason);
            }
        }
        assert(self@ =~= old(self)@.after_clock(now));
    }

    /// Whether a new connection is needed.
    pub fn reconnect_required(&self) -> (r: bool)
        ensures
            r == self@.reconnect,
    {
        self.reconnect_required
    }

    /// Takes the frames out, oldest first.
    pub fn drain_frames(&mut self) -> (r: Vec<DecodeFrame>)
        ensures
            r@ == old(self)@.frames,
            final(self)@ == (DecodeView { frames: Seq::empty(), ..old(self)@ }),
    {
        drain(&mut self.frames)
    }

    /// Takes the events out, oldest first.
    pub fn drain_events(&mut self) -> (r: Vec<ScrcpyDecodeEvent>)
        ensures
            decode_events_view(r@) == old(self)@.events,
            final(self)@ == (DecodeView { events: Seq::empty(), ..old(self)@ }),
    {
        let r = drain(&mut self.events);
        assert(self@.events =~= Seq::empty());
        r
    }

    /// Drops what waits for its reader and ends a recovery.
    pub fn stop(&mut self)
        ensures
            final(self)@ == (DecodeView {
                frames: Seq::empty(),
                events: Seq::empty(),
                recovery: None,
                ..old(self)@
            }),
    {
        self.frames = VecDeque::new();
        self.events = VecDeque::new();
        self.hw_recovery = None;
        assert(self@.events =~= Seq::empty());
    }
}

proof fn lemma_outputs_valid(v: DecodeView, frames: Seq<DecodedFrame>, now: u64)
    requires
        v.valid(now),
    ensures
        v.with_outputs(frames).valid(now),
    decreases frames.len(),
{
    if frames.len() > 0 && v.resolution == Some(size_of_frame(frames[0])) {
        lemma_outputs_valid(v.with_frame(frames[0]), frames.drop_first(), now);
    }
}

/// The generation never goes back: frames either keep it or, on a change of size, raise it by
/// one, and then no frame of the old generation is left.
pub proof fn law_generation_grows(v: DecodeView, frames: Seq<DecodedFrame>)
    requires
        v.generation < u64::MAX,
        forall|i: int| 0 <= i < v.frames.len() ==> (#[trigger] v.frames[i]).generation
            <= v.generation,
    ensures
        ({
            let w = v.with_outputs(frames);
            &&& w.generation == v.generation || w.generation == v.generation + 1
            &&& forall|i: int| 0 <= i < w.frames.len() ==> (#[trigger] w.frames[i]).generation
                <= w.generation
            &&& w.generation == v.generation + 1 ==> w.frames.len() == 1 && w.frames[0].generation
                == w.generation
        }),
    decreases frames.len(),
{
    if frames.len() > 0 {
        let size = size_of_frame(frames[0]);
        if v.resolution == Some(size) {
            let w = v.with_frame(frames[0]);
            assert forall|i: int| 0 <= i < w.frames.len() implies (
            #[trigger] w.frames[i]).generation <= w.generation by {
                let all = v.frames.push(DecodeFrame { generation: v.generation, frame: frames[0] });
                let k = if all.len() <= 2 {
                    i
                } else {
                    i + all.len() - 2
                };
                assert(w.frames[i] == all[k]);
                if k < v.frames.len() {
                    assert(all[k] == v.frames[k]);
                }
            }
            law_generation_grows(w, frames.drop_first());
        } else {
            assert(v.resized(size).frames =~= Seq::empty());
            assert(v.with_outputs(frames).frames =~= seq![
                DecodeFrame { generation: (v.generation + 1) as u64, frame: frames[0] },
            ]);
        }
    }
}

/// Once a new connection is needed it stays needed, and the statistics report it no second time.
pub proof fn law_reconnect_is_final(v: DecodeView, stats: PipelineStats, now: u64, later: u64)
    requires
        v.reconnect,
    ensures
        v.after_round(stats, now, later).reconnect,
        v.after_round(stats, now, later).events == v.events,
{
}

/// A key frame that puts decoding back in step before the time is up ends the recovery: no new
/// connection follows from it.
pub proof fn law_resync_ends_recovery(v: DecodeView, stats: PipelineStats, now: u64, later: u64)
    requires
        !v.reconnect,
        stats.resync_signals > v.handled_resync,
        stats.need_idr_signals <= v.handled_need,
    ensures
        v.after_round(stats, now, later).recovery is None,
        !v.after_round(stats, now, later).reconnect,
{
}

/// A recovery that nothing ends means a new connection as soon as its time is up, and not before.
pub proof fn law_recovery_times_out(v: DecodeView, stats: PipelineStats, now: u64, later: u64)
    requires
        !v.reconnect,
        v.recovery is Some,
        stats.resync_signals <= v.handled_resync,
        stats.need_idr_signals <= v.handled_need,
    ensures
        v.after_round(stats, now, later).reconnect <==> later >= v.recovery->0.deadline_at,
{
}

/// A recovery begins before its key frame is asked for. Where asking takes up the whole time, the
/// same round ends with a new connection.
pub proof fn law_slow_request_reconnects(
    v: DecodeView,
    stats: PipelineStats,
    now: u64,
    later: u64,
)
    requires
        !v.reconnect,
        v.after_resync(stats).asks_for_idr(stats),
        now + HW_RECOVERY_WAIT_NANOS <= u64::MAX,
    ensures
        v.after_round(stats, now, later).reconnect <==> later >= now + HW_RECOVERY_WAIT_NANOS,
{
}

/// A session starts in its first generation, with the event of its start alone, and in step.
pub proof fn law_start_of_decoding(config: ScrcpyDecodeConfig)
    ensures
        ({
            let v = DecodeView::at_start(config);
            &&& v.mode == config.decoder_mode
            &&& v.generation == 1
            &&& v.frames.len() == 0
            &&& v.events == seq![
                DecodeEventView::DecoderStarted { decoder_mode: config.decoder_mode },
            ]
            &&& v.handled_need == 0 && v.handled_resync == 0
            &&& v.recovery is None && v.resolution is None
            &&& !v.reconnect
        }),
{
}

/// The preference of a mode has its name: hardware is forced, or software, or neither, by both.
pub proof fn law_preference_of_mode(mode: DecoderMode)
    ensures
        preference_for(mode) is PreferHardware <==> mode is PreferHardware,
        preference_for(mode) is ForceHardware <==> mode is ForceHardware,
        preference_for(mode) is ForceSoftware <==> mode is ForceSoftware,
{
}

/// The size of a frame is its width and its height, wherever its pixels are.
pub proof fn law_size_of_frame(frame: DecodedFrame)
    ensures
        frame matches DecodedFrame::CpuBgra(b) ==> size_of_frame(frame) == (b.width, b.height),
        frame is GpuShared ==> size_of_frame(frame) == (frame->width, frame->height),
{
}

/// Frames, each with a generation.
pub open spec fn of_generation(generation: u64, frames: Seq<DecodedFrame>) -> Seq<DecodeFrame> {
    frames.map_values(|frame: DecodedFrame| DecodeFrame { generation, frame })
}

/// Frames of the size that the video has join those that wait, of which the newest two are kept, in
/// the generation that the video has; nothing else changes.
pub proof fn law_frames_of_same_size(v: DecodeView, frames: Seq<DecodedFrame>)
    requires
        v.frames.len() <= 2,
        forall|i: int|
            0 <= i < frames.len() ==> v.resolution == Some(size_of_frame(#[trigger] frames[i])),
    ensures
        v.with_outputs(frames) == (DecodeView {
            frames: crate::bounded::last_n(v.frames + of_generation(v.generation, frames), 2),
            ..v
        }),
    decreases frames.len(),
{
    let all = v.frames + of_generation(v.generation, frames);
    if frames.len() == 0 {
        assert(all =~= v.frames);
    } else {
        assert(v.resolution == Some(size_of_frame(frames[0])));
        let w = v.with_frame(frames[0]);
        let rest = frames.drop_first();
        assert forall|i: int| 0 <= i < rest.len() implies w.resolution == Some(
            size_of_frame(#[trigger] rest[i]),
        ) by {
            assert(rest[i] == frames[i + 1]);
        }
        law_frames_of_same_size(w, rest);
        let first = DecodeFrame { generation: v.generation, frame: frames[0] };
        assert(all =~= v.frames.push(first) + of_generation(v.generation, rest));
        assert(crate::bounded::last_n(w.frames + of_generation(v.generation, rest), 2)
            =~= crate::bounded::last_n(all, 2));
    }
}

/// The first frame of another size begins a new generation: it alone waits then, and its size is
/// reported with the generation, width before height. Frames behind it are dropped.
pub proof fn law_frame_of_other_size(v: DecodeView, frames: Seq<DecodedFrame>, k: int)
    requires
        v.frames.len() <= 2,
        v.generation < u64::MAX,
        0 <= k < frames.len(),
        forall|i: int| 0 <= i < k ==> v.resolution == Some(size_of_frame(#[trigger] frames[i])),
        v.resolution != Some(size_of_frame(frames[k])),
    ensures
        v.with_outputs(frames) == (DecodeView {
            generation: (v.generation + 1) as u64,
            frames: seq![DecodeFrame { generation: (v.generation + 1) as u64, frame: frames[k] }],
            resolution: Some(size_of_frame(frames[k])),
            events: crate::bounded::last_n(
                v.events.push(
                    DecodeEventView::ResolutionChanged {
                        generation: (v.generation + 1) as u64,
                        width: size_of_frame(frames[k]).0,
                        height: size_of_frame(frames[k]).1,
                    },
                ),
                256,
            ),
            ..v
        }),
    decreases k,
{
    if k == 0 {
        let w = v.with_outputs(frames);
        assert(w.frames =~= seq![
            DecodeFrame { generation: (v.generation + 1) as u64, frame: frames[0] },
        ]);
    } else {
        assert(v.resolution == Some(size_of_frame(frames[0])));
        let w = v.with_frame(frames[0]);
        let rest = frames.drop_first();
        assert forall|i: int| 0 <= i < k - 1 implies w.resolution == Some(
            size_of_frame(#[trigger] rest[i]),
        ) by {
            assert(rest[i] == frames[i + 1]);
        }
        assert(rest[k - 1] == frames[k]);
        law_frame_of_other_size(w, rest, k - 1);
    }
}

/// A decode error of a hardware decoder asks for a key frame exactly when no recovery is going on,
/// and the recovery that then begins lasts 220 milliseconds. An error during a recovery does not
/// make it longer, and no error of a hardware decoder means a new connection by itself.
pub proof fn law_hardware_errors(v: DecodeView, stats: PipelineStats, now: u64)
    requires
        !(v.mode is ForceSoftware),
        stats.need_idr_signals > v.handled_need,
        now + 220_000_000 <= u64::MAX,
    ensures
        v.asks_for_idr(stats) <==> v.recovery is None,
        v.recovery is None ==> v.after_errors(stats, now).recovery == Some(
            HwRecoveryState {
                fail_signal: stats.need_idr_signals,
                start_at: now,
                deadline_at: (now + 220_000_000) as u64,
            },
        ),
        v.recovery is Some ==> v.after_errors(stats, now).recovery == v.recovery,
        v.after_errors(stats, now).reconnect == v.reconnect,
        v.after_errors(stats, now).events == v.events,
{
}

/// A decode error of a software decoder means a new connection, and asks for no key frame.
pub proof fn law_software_errors(v: DecodeView, stats: PipelineStats, now: u64)
    requires
        v.mode is ForceSoftware,
        stats.need_idr_signals > v.handled_need,
        !v.reconnect,
    ensures
        !v.asks_for_idr(stats),
        v.after_errors(stats, now).reconnect,
        v.after_errors(stats, now).recovery == v.recovery,
        v.after_errors(stats, now).events == crate::bounded::last_n(
            v.events.push(
                DecodeEventView::ReconnectRequired {
                    reason: "software decode failed: need_idr_signals="@ + crate::text::decimal(
                        stats.need_idr_signals as nat,
                    ),
                },
            ),
            256,
        ),
{
}

/// Each signal counts once: the same statistics again change nothing and ask for nothing.
pub proof fn law_signals_count_once(v: DecodeView, stats: PipelineStats, now: u64, later: u64)
    ensures
        v.after_signals(stats, now).after_signals(stats, later) == v.after_signals(stats, now),
        !v.after_signals(stats, now).after_resync(stats).asks_for_idr(stats),
        v.after_signals(stats, now).handled_need >= stats.need_idr_signals,
        v.after_signals(stats, now).handled_need >= v.handled_need,
        v.after_signals(stats, now).handled_resync >= stats.resync_signals,
        v.after_signals(stats, now).handled_resync >= v.handled_resync,
{
}

/// Without new signals nothing happens before the end of a recovery, and nothing ever without one.
pub proof fn law_quiet_round(v: DecodeView, stats: PipelineStats, now: u64, later: u64)
    requires
        stats.need_idr_signals <= v.handled_need,
        stats.resync_signals <= v.handled_resync,
        v.recovery is None || later < v.recovery->0.deadline_at,
    ensures
        v.after_round(stats, now, later) == v,
        !v.asks_for_idr(stats),
{
}

/// A new connection is reported with its reason, once. The end of the decoder's output is reported
/// whatever was reported before.
pub proof fn law_reconnect_is_reported(v: DecodeView, reason: Seq<char>)
    ensures
        v.marked(reason).reconnect,
        v.marked(reason).marked(reason) == v.marked(reason),
        !v.reconnect ==> v.marked(reason).events == crate::bounded::last_n(
            v.events.push(DecodeEventView::ReconnectRequired { reason }),
            256,
        ),
        v.output_ended().reconnect,
        v.output_ended().events == crate::bounded::last_n(
            v.events.push(
                DecodeEventView::ReconnectRequired { reason: "decode output disconnected"@ },
            ),
            256,
        ),
        v.output_ended().frames == v.frames,
        v.output_ended().recovery == v.recovery,
{
}

/// Where nothing else is said, hardware is preferred, frames are shared textures, and 128 inputs and
/// two frames wait at most, of which no input is dropped.
pub proof fn law_default_set_up()
    ensures
        ScrcpyDecodeConfig::spec_default().decoder_mode is PreferHardware,
        ScrcpyDecodeConfig::spec_default().output_mode is GpuShared,
        ScrcpyDecodeConfig::spec_default().frame_queue_capacity == 2,
        ScrcpyDecodeConfig::spec_default().nal_queue_capacity == 128,
        !ScrcpyDecodeConfig::spec_default().drop_nal_on_full,
        FRAME_QUEUE_LIMIT == 2,
        EVENT_QUEUE_LIMIT == 256,
        HW_RECOVERY_WAIT_NANOS == 220 * 1_000_000,
{
}

} // verus!
