//! A session of the API with a worker of its own: what the worker decides at each step, and what
//! the API sees of it.

use std::collections::VecDeque;

use vstd::prelude::*;

use crate::backend::DecodedFrame;
use crate::bounded::{drain, drain_to_last, place_bounded, push_bounded};
use crate::callbacks::{frame_notice, FrameCounter};
use crate::control::ControlChannel;
use crate::core_runtime::{RuntimeNotice, FPS_WINDOW_NANOS};
use crate::decode_pipeline::{decoder_preference, HwRecoveryState, HW_RECOVERY_WAIT_NANOS};
use crate::error::{other_error, other_error_with, ScrcpyError};
use crate::model::{
    DecoderMode, ErrorCode, OrientationChangeSource, OrientationMode, RenderPipelineMode,
    SessionConfig, SessionConfigV2, SessionEvent, SessionStats, SystemKey, TextureFrame,
};
use crate::pipeline::{hand_on, PipelineConfig, PipelineEvent, PipelineStats, SendOutcome};
use crate::server::EncodingProfile;
use crate::service::{
    map_key_event, map_scroll_event, map_touch_event, output_mode, RuntimeCommand, SessionTable,
};
use crate::text::concat;

verus! {

/// How many events wait for their reader at most.
pub const API_EVENT_QUEUE_LIMIT: usize = 256;

/// How many frames wait for their reader at most.
pub const API_FRAME_QUEUE_LIMIT: usize = 2;

/// How often the reader is warned at most that it is slow, in milliseconds.
pub const CONSUMER_WARN_MS: u64 = 3000;

/// What became of the frames of a session. Every count starts again at zero after the largest
/// number.
#[derive(Debug, Clone, Copy, PartialEq, Eq, Structural)]
pub struct FlowMonitor {
    pub enqueued_total: u64,
    pub replaced_same_generation: u64,
    pub queue_trim_dropped: u64,
    pub invalid_frame_dropped: u64,
    pub stale_generation_dropped: u64,
    pub polled_total: u64,
    pub polled_latest_returned: u64,
    pub polled_stale_dropped: u64,
    pub last_consumer_warn_ms: u64,
}

impl FlowMonitor {
    /// Nothing has happened.
    pub open spec fn spec_zero() -> FlowMonitor {
        FlowMonitor {
            enqueued_total: 0,
            replaced_same_generation: 0,
            queue_trim_dropped: 0,
            invalid_frame_dropped: 0,
            stale_generation_dropped: 0,
            polled_total: 0,
            polled_latest_returned: 0,
            polled_stale_dropped: 0,
            last_consumer_warn_ms: 0,
        }
    }
}

impl Default for FlowMonitor {
    fn default() -> (r: Self)
        ensures
            r == FlowMonitor::spec_zero(),
    {
        FlowMonitor {
            enqueued_total: 0,
            replaced_same_generation: 0,
            queue_trim_dropped: 0,
            invalid_frame_dropped: 0,
            stale_generation_dropped: 0,
            polled_total: 0,
            polled_latest_returned: 0,
            polled_stale_dropped: 0,
            last_consumer_warn_ms: 0,
        }
    }
}

fn next_count(n: u64) -> (r: u64)
    ensures
        r == crate::callbacks::next_number(n),
{
    if n == u64::MAX {
        0
    } else {
        n + 1
    }
}

fn saturating_count(n: u64) -> (r: u64)
    ensures
        r == crate::core_runtime::counted(n),
{
    if n == u64::MAX {
        n
    } else {
        n + 1
    }
}

/// What a worker remembers from step to step. Times are in nanoseconds.
#[derive(Debug, Clone, Copy, PartialEq, Eq)]
pub struct WorkState {
    pub orientation: OrientationMode,
    pub fps_frames: u64,
    pub fps_tick: u64,
    pub last_size: (u32, u32),
    pub active_generation: u64,
    pub handled_need_idr_signals: u64,
    pub handled_resync_signals: u64,
    pub hw_recovery: Option<HwRecoveryState>,
}

impl WorkState {
    /// What a worker begins with.
    pub open spec fn at_start(generation: u64, now: u64) -> WorkState {
        WorkState {
            orientation: OrientationMode::Auto,
            fps_frames: 0,
            fps_tick: now,
            last_size: (0u32, 0u32),
            active_generation: generation,
            handled_need_idr_signals: 0,
            handled_resync_signals: 0,
            hw_recovery: None,
        }
    }

    fn new(generation: u64, now: u64) -> (r: Self)
        ensures
            r == WorkState::at_start(generation, now),
    {
        WorkState {
            orientation: OrientationMode::Auto,
            fps_frames: 0,
            fps_tick: now,
            last_size: (0, 0),
            active_generation: generation,
            handled_need_idr_signals: 0,
            handled_resync_signals: 0,
            hw_recovery: None,
        }
    }
}

/// Where a worker can fail before it runs.
#[derive(Debug, Clone, Copy, PartialEq, Eq, Structural)]
pub enum InitStage {
    Runtime,
    Manager,
    Connect,
    Decoder,
}

impl InitStage {
    /// The kind of error that a failure is.
    pub open spec fn spec_code(self) -> ErrorCode {
        match self {
            InitStage::Runtime => ErrorCode::Internal,
            InitStage::Manager => ErrorCode::Internal,
            InitStage::Connect => ErrorCode::DeviceDisconnected,
            InitStage::Decoder => ErrorCode::DecodeFailed,
        }
    }

    /// What the report of a failure begins with.
    pub open spec fn failure(self) -> Seq<char> {
        match self {
            InitStage::Runtime => "创建 tokio runtime 失败: "@,
            InitStage::Manager => "会话管理器创建失败: "@,
            InitStage::Connect => "connect_v2 失败: "@,
            InitStage::Decoder => "解码流水线初始化失败: "@,
        }
    }

    fn parts(self) -> (r: (ErrorCode, &'static str))
        ensures
            r.0 == self.spec_code(),
            r.1@ == self.failure(),
    {
        match self {
            InitStage::Runtime => (ErrorCode::Internal, "创建 tokio runtime 失败: "),
            InitStage::Manager => (ErrorCode::Internal, "会话管理器创建失败: "),
            InitStage::Connect => (ErrorCode::DeviceDisconnected, "connect_v2 失败: "),
            InitStage::Decoder => (ErrorCode::DecodeFailed, "解码流水线初始化失败: "),
        }
    }
}

/// What waiting for a packet gave.
#[derive(Debug)]
pub enum PacketOutcome {
    TimedOut,
    Packet,
    EndOfStream,
    Failed(ScrcpyError),
}

/// What a worker does for a command, in this order: the orientation to ask the device for, which
/// is reported (`on_orientation_set`) once that was tried; the clipboard text to set; and the
/// messages to send, in groups. A message that fails ends its group.
#[derive(Debug)]
pub struct CommandPlan {
    pub orientation: Option<OrientationMode>,
    pub clipboard: Option<(String, bool)>,
    pub groups: Vec<Vec<Vec<u8>>>,
}

/// Groups of messages, as mathematical values.
pub open spec fn groups_view(s: Seq<Vec<Vec<u8>>>) -> Seq<Seq<Seq<u8>>> {
    s.map_values(|g: Vec<Vec<u8>>| crate::wire::buffers_view(g@))
}

/// The group of one message.
pub open spec fn alone(message: Seq<u8>) -> Seq<Seq<Seq<u8>>> {
    seq![seq![message]]
}

/// The message that asks for a key frame.
pub open spec fn reset_video() -> Seq<u8> {
    seq![17u8]
}

/// The orientation that a rotation leads to.
pub open spec fn rotated(mode: OrientationMode) -> OrientationMode {
    if mode == OrientationMode::Landscape {
        OrientationMode::Portrait
    } else {
        OrientationMode::Landscape
    }
}

/// The orientation that a command asks for, if it does.
pub open spec fn orientation_wanted(command: RuntimeCommand, current: OrientationMode) -> Option<
    OrientationMode,
> {
    match command {
        RuntimeCommand::SystemKey(SystemKey::RotateScreen) => Some(rotated(current)),
        RuntimeCommand::SetOrientation(mode) => Some(mode),
        _ => None,
    }
}

/// The messages of a command. A key that changes the whole picture is followed by a request for a
/// key frame, and so is a change of orientation.
pub open spec fn command_groups(command: RuntimeCommand) -> Seq<Seq<Seq<u8>>> {
    match command {
        RuntimeCommand::Stop => Seq::empty(),
        RuntimeCommand::Touch(e) => alone(
            crate::control::touch_bytes(crate::service::mapped_touch(e)),
        ),
        RuntimeCommand::Key(e) => alone(crate::control::key_bytes(crate::service::mapped_key(e))),
        RuntimeCommand::Scroll(e) => alone(
            crate::control::scroll_bytes(crate::service::mapped_scroll(e)),
        ),
        RuntimeCommand::Text(t) => alone(
            crate::control::text_bytes(vstd::utf8::encode_utf8(t@)),
        ),
        RuntimeCommand::Clipboard { .. } => Seq::empty(),
        RuntimeCommand::SystemKey(key) => match key {
            SystemKey::RotateScreen => alone(reset_video()),
            SystemKey::Home => seq![crate::control::tap_bytes(3), seq![reset_video()]],
            SystemKey::Back => seq![crate::control::tap_bytes(4), seq![reset_video()]],
            SystemKey::Recent => seq![crate::control::tap_bytes(187), seq![reset_video()]],
            SystemKey::PowerMenu => seq![crate::control::tap_bytes(26)],
            SystemKey::VolumeUp => seq![crate::control::tap_bytes(24)],
            SystemKey::VolumeDown => seq![crate::control::tap_bytes(25)],
        },
        RuntimeCommand::SetOrientation(_) => alone(reset_video()),
        RuntimeCommand::RequestIdr => alone(reset_video()),
    }
}

fn push_alone(groups: &mut Vec<Vec<Vec<u8>>>, message: Vec<u8>)
    ensures
        groups_view(final(groups)@) == groups_view(old(groups)@).push(seq![message@]),
{
    let mut group: Vec<Vec<u8>> = Vec::new();
    group.push(message);
    assert(crate::wire::buffers_view(group@) =~= seq![message@]);
    groups.push(group);
    assert(groups_view(groups@) =~= groups_view(old(groups)@).push(seq![message@]));
}

fn push_tap(groups: &mut Vec<Vec<Vec<u8>>>, keycode: u32)
    ensures
        groups_view(final(groups)@) == groups_view(old(groups)@).push(
            crate::control::tap_bytes(keycode),
        ),
{
    groups.push(ControlChannel::tap_key(keycode));
    assert(groups_view(groups@) =~= groups_view(old(groups)@).push(
        crate::control::tap_bytes(keycode),
    ));
}

/// A session with a worker.
#[derive(Debug)]
pub struct RealSessionRuntime {
    session_id: String,
    config: SessionConfig,
    decoder_mode: DecoderMode,
    render_pipeline_mode: RenderPipelineMode,
    running: bool,
    connected: bool,
    events: VecDeque<SessionEvent>,
    frames: VecDeque<TextureFrame>,
    monitor: FlowMonitor,
    stats: SessionStats,
    generation: u64,
    work: WorkState,
}

/// A session with a worker, as a mathematical value. `connected` says whether the worker can be
/// sent commands.
#[verifier::ext_equal]
pub struct ApiView {
    pub id: Seq<char>,
    pub config: SessionConfig,
    pub decoder_mode: DecoderMode,
    pub render_mode: RenderPipelineMode,
    pub running: bool,
    pub connected: bool,
    pub events: Seq<crate::model::EventView>,
    pub frames: Seq<TextureFrame>,
    pub monitor: FlowMonitor,
    pub stats: SessionStats,
    pub generation: u64,
    pub work: WorkState,
}

/// A session, the notices so far, and the next number for a frame.
#[verifier::ext_equal]
pub struct ApiRun {
    pub view: ApiView,
    pub notices: Seq<crate::core_runtime::RuntimeNoticeView>,
    pub next_id: u64,
}

/// The texture that a frame is shown by. Pixels have no handle.
pub open spec fn texture_of(frame: DecodedFrame, generation: u64) -> TextureFrame {
    match frame {
        DecodedFrame::GpuShared { handle, width, height, pts } => TextureFrame {
            handle,
            width,
            height,
            generation,
            pts,
        },
        DecodedFrame::CpuBgra(b) => TextureFrame {
            handle: 0,
            width: b.width,
            height: b.height,
            generation,
            pts: b.pts,
        },
    }
}

/// Whether a frame is of the kind that a way of rendering takes.
pub open spec fn frame_fits(frame: DecodedFrame, mode: RenderPipelineMode) -> bool {
    match frame {
        DecodedFrame::GpuShared { .. } => mode == RenderPipelineMode::Original,
        DecodedFrame::CpuBgra(_) => mode == RenderPipelineMode::CpuPixelBufferV2,
    }
}

/// Whether a frame can be shown: it has a size and, where it is a texture, a handle.
pub open spec fn frame_shows(frame: DecodedFrame) -> bool {
    match frame {
        DecodedFrame::GpuShared { handle, width, height, .. } => handle > 0 && width > 0 && height
            > 0,
        DecodedFrame::CpuBgra(b) => b.width > 0 && b.height > 0,
    }
}

impl ApiView {
    /// No more frames and events wait than there is room for.
    pub open spec fn valid(self) -> bool {
        &&& self.frames.len() <= API_FRAME_QUEUE_LIMIT
        &&& self.events.len() <= API_EVENT_QUEUE_LIMIT
    }

    /// The session with one more event.
    pub open spec fn with_event(self, event: crate::model::EventView) -> ApiView {
        ApiView {
            events: crate::bounded::last_n(self.events.push(event), API_EVENT_QUEUE_LIMIT as nat),
            ..self
        }
    }

    /// The session with one more frame, which takes the place of an older one of its generation.
    pub open spec fn with_frame(self, frame: TextureFrame) -> ApiView {
        let replace = self.frames.len() > 0 && self.frames.last().generation == frame.generation;
        ApiView {
            frames: crate::bounded::placed(
                self.frames,
                frame,
                replace,
                API_FRAME_QUEUE_LIMIT as nat,
            ),
            monitor: FlowMonitor {
                enqueued_total: crate::callbacks::next_number(self.monitor.enqueued_total),
                replaced_same_generation: if replace {
                    crate::callbacks::next_number(self.monitor.replaced_same_generation)
                } else {
                    self.monitor.replaced_same_generation
                },
                queue_trim_dropped: if !replace && self.frames.len() == API_FRAME_QUEUE_LIMIT {
                    crate::callbacks::next_number(self.monitor.queue_trim_dropped)
                } else {
                    self.monitor.queue_trim_dropped
                },
                ..self.monitor
            },
            ..self
        }
    }

    /// The session after key frames that put decoding back in step.
    pub open spec fn after_resync(self, stats: PipelineStats) -> ApiView {
        if stats.resync_signals > self.work.handled_resync_signals {
            ApiView {
                work: WorkState {
                    handled_resync_signals: stats.resync_signals,
                    hw_recovery: None,
                    ..self.work
                },
                ..self
            }
        } else {
            self
        }
    }

    /// Whether decode errors ask for a key frame: always with a software decoder, and otherwise
    /// where no recovery is under way.
    pub open spec fn asks_for_idr(self, stats: PipelineStats) -> bool {
        &&& stats.need_idr_signals > self.work.handled_need_idr_signals
        &&& self.decoder_mode == DecoderMode::ForceSoftware || self.work.hw_recovery is None
    }

    /// The session after decode errors.
    pub open spec fn after_errors(self, stats: PipelineStats, now: u64) -> ApiView {
        if stats.need_idr_signals > self.work.handled_need_idr_signals {
            ApiView {
                work: WorkState {
                    handled_need_idr_signals: stats.need_idr_signals,
                    hw_recovery: if self.decoder_mode != DecoderMode::ForceSoftware
                        && self.work.hw_recovery is None {
                        Some(
                            HwRecoveryState {
                                fail_signal: stats.need_idr_signals,
                                start_at: now,
                                deadline_at: (now + HW_RECOVERY_WAIT_NANOS) as u64,
                            },
                        )
                    } else {
                        self.work.hw_recovery
                    },
                    ..self.work
                },
                ..self
            }
        } else {
            self
        }
    }

    /// Whether a recovery has taken too long.
    pub open spec fn timed_out(self, now: u64) -> bool {
        self.work.hw_recovery matches Some(r) && now >= r.deadline_at
    }

    /// The session with the counts of the decoder, and with a new frame rate where enough time has
    /// passed.
    pub open spec fn with_stats(self, stats: PipelineStats, now: u64) -> ApiView {
        let due = now >= self.work.fps_tick && now - self.work.fps_tick >= FPS_WINDOW_NANOS;
        ApiView {
            stats: SessionStats {
                fps_frames: if due {
                    self.work.fps_frames
                } else {
                    self.stats.fps_frames
                },
                fps_window_nanos: if due {
                    (now - self.work.fps_tick) as u64
                } else {
                    self.stats.fps_window_nanos
                },
                decode_latency_ms: (stats.last_decode_ms % 0x1_0000_0000) as u32,
                upload_latency_ms: (stats.last_upload_ms % 0x1_0000_0000) as u32,
                dropped_frames: stats.dropped_frames,
                ..self.stats
            },
            work: if due {
                WorkState { fps_frames: 0, fps_tick: now, ..self.work }
            } else {
                self.work
            },
            ..self
        }
    }

    /// The session after a look at what the decoder has signalled.
    pub open spec fn after_signals(self, stats: PipelineStats, now: u64) -> ApiView {
        self.after_resync(stats).after_errors(stats, now)
    }

    /// The session after a look at the clock. A recovery that has taken too long ends the worker,
    /// which asks for a new connection.
    pub open spec fn after_clock(self, stats: PipelineStats, now: u64) -> ApiView {
        if self.timed_out(now) {
            ApiView { running: false, ..self.with_event(crate::model::EventView::Reconnecting) }
        } else {
            self.with_stats(stats, now)
        }
    }

    /// The session after a command.
    pub open spec fn after_command(self, command: RuntimeCommand) -> ApiView {
        if command is Stop {
            ApiView { running: false, ..self }
        } else {
            self
        }
    }

    /// The session after the device was asked for an orientation.
    pub open spec fn turned(self, mode: OrientationMode) -> ApiView {
        ApiView { work: WorkState { orientation: mode, ..self.work }, ..self }.with_event(
            crate::model::EventView::OrientationChanged {
                mode,
                source: OrientationChangeSource::ManualApi,
            },
        )
    }
}

impl ApiRun {
    /// One more frame from the decoder. A frame of the wrong kind is passed over; one that cannot
    /// be shown is counted as dropped. A new size is an event.
    pub open spec fn frame(self, frame: DecodedFrame) -> ApiRun {
        let v = self.view;
        let generation = v.work.active_generation;
        if !frame_fits(frame, v.render_mode) {
            self
        } else if !frame_shows(frame) {
            ApiRun {
                view: ApiView {
                    monitor: FlowMonitor {
                        invalid_frame_dropped: crate::callbacks::next_number(
                            v.monitor.invalid_frame_dropped,
                        ),
                        ..v.monitor
                    },
                    ..v
                },
                ..self
            }
        } else {
            let texture = texture_of(frame, generation);
            let told = self.notices.push(
                crate::core_runtime::RuntimeNoticeView::Frame(
                    crate::callbacks::notice_for(frame, generation, self.next_id),
                ),
            );
            let event = crate::model::EventView::ResolutionChanged {
                width: texture.width,
                height: texture.height,
                new_handle: texture.handle,
                generation,
            };
            let changed = (texture.width, texture.height) != v.work.last_size;
            let kept = v.with_frame(texture);
            let noted = if changed {
                kept.with_event(event)
            } else {
                kept
            };
            ApiRun {
                view: ApiView {
                    stats: SessionStats {
                        total_frames: crate::core_runtime::counted(v.stats.total_frames),
                        ..v.stats
                    },
                    work: WorkState {
                        fps_frames: crate::core_runtime::counted(v.work.fps_frames),
                        last_size: (texture.width, texture.height),
                        ..v.work
                    },
                    ..noted
                },
                notices: if changed {
                    told.push(crate::core_runtime::RuntimeNoticeView::Event(event))
                } else {
                    told
                },
                next_id: crate::callbacks::id_after(frame, self.next_id),
            }
        }
    }
}

impl View for RealSessionRuntime {
    type V = ApiView;

    closed spec fn view(&self) -> ApiView {
        ApiView {
            id: self.session_id@,
            config: self.config,
            decoder_mode: self.decoder_mode,
            render_mode: self.render_pipeline_mode,
            running: self.running,
            connected: self.connected,
            events: crate::model::events_view(self.events@),
            frames: self.frames@,
            monitor: self.monitor,
            stats: self.stats,
            generation: self.generation,
            work: self.work,
        }
    }
}

impl RealSessionRuntime {
    /// A session that does not run, with a software decoder and shared textures.
    pub fn new(session_id: String, config: SessionConfig) -> (r: Self)
        ensures
            r@ == RealSessionRuntime::created(
                session_id@,
                config,
                DecoderMode::ForceSoftware,
                RenderPipelineMode::Original,
            ),
            r@.valid(),
    {
        Self::new_with_options(
            session_id,
            config,
            DecoderMode::ForceSoftware,
            RenderPipelineMode::Original,
        )
    }

    /// A session that does not run yet, as a mathematical value.
    pub open spec fn created(
        id: Seq<char>,
        config: SessionConfig,
        decoder_mode: DecoderMode,
        render_mode: RenderPipelineMode,
    ) -> ApiView {
        ApiView {
            id,
            config,
            decoder_mode,
            render_mode,
            running: false,
            connected: false,
            events: Seq::empty(),
            frames: Seq::empty(),
            monitor: FlowMonitor::spec_zero(),
            stats: SessionStats::spec_zero(),
            generation: 1,
            work: WorkState::at_start(1, 0),
        }
    }

    /// A session that does not run yet.
    pub fn new_with_options(
        session_id: String,
        config: SessionConfig,
        decoder_mode: DecoderMode,
        render_pipeline_mode: RenderPipelineMode,
    ) -> (r: Self)
        ensures
            r@ == RealSessionRuntime::created(
                session_id@,
                config,
                decoder_mode,
                render_pipeline_mode,
            ),
            r@.valid(),
    {
        let r = RealSessionRuntime {
            session_id,
            config,
            decoder_mode,
            render_pipeline_mode,
            running: false,
            connected: false,
            events: VecDeque::new(),
            frames: VecDeque::new(),
            monitor: FlowMonitor::default(),
            stats: SessionStats::zero(),
            generation: 1,
            work: WorkState::new(1, 0),
        };
        assert(r@.events =~= Seq::empty());
        r
    }

    fn push_event(&mut self, event: SessionEvent, out: &mut Vec<RuntimeNotice>)
        ensures
            final(self)@ == old(self)@.with_event(event@),
            crate::core_runtime::runtime_notices_view(final(out)@)
                == crate::core_runtime::runtime_notices_view(old(out)@).push(
                crate::core_runtime::RuntimeNoticeView::Event(event@),
            ),
    {
        out.push(RuntimeNotice::Event(event.copied()));
        push_bounded(&mut self.events, event, API_EVENT_QUEUE_LIMIT);
        assert(self@ =~= old(self)@.with_event(event@));
        assert(crate::core_runtime::runtime_notices_view(out@)
            =~= crate::core_runtime::runtime_notices_view(old(out)@).push(
            crate::core_runtime::RuntimeNoticeView::Event(event@),
        ));
    }

    /// How the session was set up.
    pub fn config(&self) -> (r: &SessionConfig)
        ensures
            *r == self@.config,
    {
        &self.config
    }

    /// How the device is to encode the picture. The orientation is left as it is.
    pub fn encoding_profile(&self) -> (r: EncodingProfile)
        ensures
            r.max_size == self@.config.max_size,
            r.bit_rate == self@.config.bit_rate,
            r.max_fps == self@.config.max_fps,
            r.intra_refresh_period == self@.config.intra_refresh_period,
            r.video_encoder == self@.config.video_encoder,
            r.turn_screen_off == self@.config.turn_screen_off,
            r.stay_awake == self@.config.stay_awake,
            !r.force_landscape,
            r.scrcpy_log_level@ == self@.config.scrcpy_verbosity@,
    {
        let video_encoder: Option<String> = match &self.config.video_encoder {
            Some(e) => Some(e.clone()),
            None => None,
        };
        EncodingProfile {
            max_size: self.config.max_size,
            bit_rate: self.config.bit_rate,
            max_fps: self.config.max_fps,
            intra_refresh_period: self.config.intra_refresh_period,
            video_encoder,
            turn_screen_off: self.config.turn_screen_off,
            stay_awake: self.config.stay_awake,
            force_landscape: false,
            scrcpy_log_level: self.config.scrcpy_verbosity.clone(),
        }
    }

    /// The message right after the connection: it turns the screen off, where that is asked for.
    pub fn message_after_connect(&self) -> (r: Option<Vec<u8>>)
        ensures
            match r {
                Some(m) => self@.config.turn_screen_off && m@ == seq![10u8, 0u8],
                None => !self@.config.turn_screen_off,
            },
    {
        if self.config.turn_screen_off {
            Some(ControlChannel::set_display_power(false))
        } else {
            None
        }
    }

    /// How the decoder of the session is set up.
    pub fn pipeline_config(&self) -> (r: PipelineConfig)
        ensures
            r == (PipelineConfig {
                frame_queue_capacity: 2,
                nal_queue_capacity: 128,
                decoder_preference: crate::decode_pipeline::preference_for(self@.decoder_mode),
                drop_nal_on_full: false,
                decoder_output_mode: crate::service::output_for(self@.render_mode),
            }),
    {
        PipelineConfig {
            frame_queue_capacity: 2,
            nal_queue_capacity: 128,
            decoder_preference: decoder_preference(self.decoder_mode),
            drop_nal_on_full: false,
            decoder_output_mode: output_mode(self.render_pipeline_mode),
        }
    }

    /// Begins to run, unless the session runs. The result says whether a worker is to be made. One
    /// that is left from before is waited for before this, since its end would end the new run.
    pub fn start(&mut self, out: &mut Vec<RuntimeNotice>) -> (r: bool)
        requires
            old(self)@.valid(),
        ensures
            final(self)@.valid(),
            r == !old(self)@.running,
            if r {
                &&& final(self)@ == (ApiView { running: true, connected: true, ..old(self)@ }).with_event(
                    crate::model::EventView::Starting,
                )
                &&& crate::core_runtime::runtime_notices_view(final(out)@)
                    == crate::core_runtime::runtime_notices_view(old(out)@).push(
                    crate::core_runtime::RuntimeNoticeView::Event(
                        crate::model::EventView::Starting,
                    ),
                )
            } else {
                final(self)@ == old(self)@ && final(out)@ == old(out)@
            },
    {
        if self.running {
            return false;
        }
        self.running = true;
        self.connected = true;
        self.push_event(SessionEvent::Starting, out);
        true
    }

    /// Takes in that the worker failed before it ran.
    pub fn on_init_failed(&mut self, stage: InitStage, detail: &str, out: &mut Vec<RuntimeNotice>)
        requires
            old(self)@.valid(),
        ensures
            final(self)@.valid(),
            ({
                let event = crate::model::EventView::Error {
                    code: stage.spec_code(),
                    message: stage.failure() + detail@,
                };
                &&& final(self)@ == (ApiView { running: false, ..old(self)@ }).with_event(event)
                &&& crate::core_runtime::runtime_notices_view(final(out)@)
                    == crate::core_runtime::runtime_notices_view(old(out)@).push(
                    crate::core_runtime::RuntimeNoticeView::Event(event),
                )
            }),
    {
        let (code, prefix) = stage.parts();
        let message: String = concat(prefix, detail);
        self.push_event(SessionEvent::Error { code, message }, out);
        self.running = false;
    }

    /// Takes in that the worker runs.
    pub fn on_running(&mut self, now: u64, out: &mut Vec<RuntimeNotice>)
        requires
            old(self)@.valid(),
        ensures
            final(self)@.valid(),
            final(self)@ == (ApiView {
                work: WorkState::at_start(old(self)@.generation, now),
                ..old(self)@
            }).with_event(crate::model::EventView::Running),
            crate::core_runtime::runtime_notices_view(final(out)@)
                == crate::core_runtime::runtime_notices_view(old(out)@).push(
                crate::core_runtime::RuntimeNoticeView::Event(crate::model::EventView::Running),
            ),
    {
        self.work = WorkState::new(self.generation, now);
        self.push_event(SessionEvent::Running, out);
    }

    /// Takes in a command, and says what is to be done for it.
    pub fn on_command(&mut self, command: RuntimeCommand) -> (r: CommandPlan)
        requires
            old(self)@.valid(),
            command matches RuntimeCommand::Scroll(e) ==> crate::control::scroll_fits(e.hscroll)
                && crate::control::scroll_fits(e.vscroll),
        ensures
            final(self)@.valid(),
            final(self)@ == old(self)@.after_command(command),
            groups_view(r.groups@) == command_groups(command),
            r.orientation == orientation_wanted(command, old(self)@.work.orientation),
            r.clipboard == (match command {
                RuntimeCommand::Clipboard { text, paste } => Some((text, paste)),
                _ => None,
            }),
    {
        let ghost asked = command;
        let wanted: Option<OrientationMode> = match &command {
            RuntimeCommand::SystemKey(SystemKey::RotateScreen) => match self.work.orientation {
                OrientationMode::Landscape => Some(OrientationMode::Portrait),
                _ => Some(OrientationMode::Landscape),
            },
            RuntimeCommand::SetOrientation(mode) => Some(*mode),
            _ => None,
        };
        let mut groups: Vec<Vec<Vec<u8>>> = Vec::new();
        assert(groups_view(groups@) =~= Seq::empty());
        let mut clipboard: Option<(String, bool)> = None;
        match command {
            RuntimeCommand::Stop => {
                self.running = false;
            },
            RuntimeCommand::Touch(e) => {
                push_alone(&mut groups, ControlChannel::send_touch_event(&map_touch_event(e)));
            },
            RuntimeCommand::Key(e) => {
                push_alone(&mut groups, ControlChannel::send_key_event(&map_key_event(e)));
            },
            RuntimeCommand::Scroll(e) => {
                push_alone(&mut groups, ControlChannel::send_scroll_event(&map_scroll_event(e)));
            },
            RuntimeCommand::Text(t) => {
                push_alone(&mut groups, ControlChannel::send_text(t.as_str()));
            },
            RuntimeCommand::Clipboard { text, paste } => {
                clipboard = Some((text, paste));
            },
            RuntimeCommand::SystemKey(key) => match key {
                SystemKey::RotateScreen => {
                    push_alone(&mut groups, ControlChannel::send_reset_video());
                },
                SystemKey::Home => {
                    push_tap(&mut groups, 3);
                    push_alone(&mut groups, ControlChannel::send_reset_video());
                },
                SystemKey::Back => {
                    push_tap(&mut groups, 4);
                    push_alone(&mut groups, ControlChannel::send_reset_video());
                },
                SystemKey::Recent => {
                    push_tap(&mut groups, 187);
                    push_alone(&mut groups, ControlChannel::send_reset_video());
                },
                SystemKey::PowerMenu => {
                    push_tap(&mut groups, 26);
                },
                SystemKey::VolumeUp => {
                    push_tap(&mut groups, 24);
                },
                SystemKey::VolumeDown => {
                    push_tap(&mut groups, 25);
                },
            },
            RuntimeCommand::SetOrientation(_) => {
                push_alone(&mut groups, ControlChannel::send_reset_video());
            },
            RuntimeCommand::RequestIdr => {
                push_alone(&mut groups, ControlChannel::send_reset_video());
            },
        }
        assert(groups_view(groups@) =~= command_groups(asked));
        CommandPlan { orientation: wanted, clipboard, groups }
    }

    /// Takes in that the device was asked for an orientation, whether or not that worked.
    pub fn on_orientation_set(&mut self, mode: OrientationMode, out: &mut Vec<RuntimeNotice>)
        requires
            old(self)@.valid(),
        ensures
            final(self)@.valid(),
            final(self)@ == old(self)@.turned(mode),
            crate::core_runtime::runtime_notices_view(final(out)@)
                == crate::core_runtime::runtime_notices_view(old(out)@).push(
                crate::core_runtime::RuntimeNoticeView::Event(
                    crate::model::EventView::OrientationChanged {
                        mode,
                        source: OrientationChangeSource::ManualApi,
                    },
                ),
            ),
    {
        self.work.orientation = mode;
        self.push_event(
            SessionEvent::OrientationChanged { mode, source: OrientationChangeSource::ManualApi },
            out,
        );
    }

    /// Takes in that nobody can send commands any more.
    pub fn on_channel_closed(&mut self)
        ensures
            final(self)@ == (ApiView { running: false, ..old(self)@ }),
    {
        self.running = false;
    }

    /// Takes in what waiting for a packet gave. The result says whether the decoder is looked at
    /// in this round: not where time ran out. The end of the stream and an error end the worker.
    pub fn on_packet(&mut self, outcome: PacketOutcome, out: &mut Vec<RuntimeNotice>) -> (r: bool)
        requires
            old(self)@.valid(),
        ensures
            final(self)@.valid(),
            r == !(outcome is TimedOut),
            ({
                let event = match outcome {
                    PacketOutcome::EndOfStream => Some(
                        crate::model::EventView::Error {
                            code: ErrorCode::DeviceDisconnected,
                            message: "视频流结束"@,
                        },
                    ),
                    PacketOutcome::Failed(e) => Some(
                        crate::model::EventView::Error {
                            code: ErrorCode::DecodeFailed,
                            message: "读取视频包失败: "@ + e@.text(),
                        },
                    ),
                    _ => None,
                };
                match event {
                    Some(e) => {
                        &&& final(self)@ == (ApiView { running: false, ..old(self)@ }).with_event(e)
                        &&& crate::core_runtime::runtime_notices_view(final(out)@)
                            == crate::core_runtime::runtime_notices_view(old(out)@).push(
                            crate::core_runtime::RuntimeNoticeView::Event(e),
                        )
                    },
                    None => final(self)@ == old(self)@ && final(out)@ == old(out)@,
                }
            }),
    {
        match outcome {
            PacketOutcome::TimedOut => false,
            PacketOutcome::Packet => true,
            PacketOutcome::EndOfStream => {
                self.push_event(
                    SessionEvent::Error {
                        code: ErrorCode::DeviceDisconnected,
                        message: "视频流结束".to_owned(),
                    },
                    out,
                );
                self.running = false;
                true
            },
            PacketOutcome::Failed(e) => {
                let message: String = concat("读取视频包失败: ", e.message().as_str());
                self.push_event(
                    SessionEvent::Error { code: ErrorCode::DecodeFailed, message },
                    out,
                );
                self.running = false;
                true
            },
        }
    }

    /// Takes in an event of the decoder: from now on frames are of its generation.
    pub fn on_pipeline_event(&mut self, event: PipelineEvent)
        requires
            old(self)@.valid(),
        ensures
            final(self)@.valid(),
            final(self)@ == (ApiView {
                generation: event.spec_generation(),
                work: WorkState {
                    active_generation: event.spec_generation(),
                    ..old(self)@.work
                },
                ..old(self)@
            }),
    {
        let generation: u64 = event.generation();
        self.work.active_generation = generation;
        self.generation = generation;
    }

    /// Takes in a frame from the decoder.
    pub fn on_frame(
        &mut self,
        frame: &DecodedFrame,
        ids: &mut FrameCounter,
        out: &mut Vec<RuntimeNotice>,
    )
        requires
            old(self)@.valid(),
        ensures
            final(self)@.valid(),
            (ApiRun {
                view: final(self)@,
                notices: crate::core_runtime::runtime_notices_view(final(out)@),
                next_id: final(ids)@,
            }) == (ApiRun {
                view: old(self)@,
                notices: crate::core_runtime::runtime_notices_view(old(out)@),
                next_id: old(ids)@,
            }).frame(*frame),
    {
        let ghost run = ApiRun {
            view: self@,
            notices: crate::core_runtime::runtime_notices_view(out@),
            next_id: ids@,
        };
        let generation: u64 = self.work.active_generation;
        let (fits, shows, texture): (bool, bool, TextureFrame) = match frame {
            DecodedFrame::GpuShared { handle, width, height, pts } => (
                match self.render_pipeline_mode {
                    RenderPipelineMode::Original => true,
                    RenderPipelineMode::CpuPixelBufferV2 => false,
                },
                *handle > 0 && *width > 0 && *height > 0,
                TextureFrame {
                    handle: *handle,
                    width: *width,
                    height: *height,
                    generation,
                    pts: *pts,
                },
            ),
            DecodedFrame::CpuBgra(b) => (
                match self.render_pipeline_mode {
                    RenderPipelineMode::Original => false,
                    RenderPipelineMode::CpuPixelBufferV2 => true,
                },
                b.width > 0 && b.height > 0,
                TextureFrame {
                    handle: 0,
                    width: b.width,
                    height: b.height,
                    generation,
                    pts: b.pts,
                },
            ),
        };
        if !fits {
            return;
        }
        if !shows {
            self.monitor.invalid_frame_dropped = next_count(self.monitor.invalid_frame_dropped);
            return;
        }
        let notice = frame_notice(frame, generation, ids);
        out.push(RuntimeNotice::Frame(notice));
        assert(crate::core_runtime::runtime_notices_view(out@) =~= run.notices.push(
            crate::core_runtime::RuntimeNoticeView::Frame(
                crate::callbacks::notice_for(*frame, generation, run.next_id),
            ),
        ));
        self.push_frame(texture);
        if texture.width != self.work.last_size.0 || texture.height != self.work.last_size.1 {
            self.push_event(
                SessionEvent::ResolutionChanged {
                    width: texture.width,
                    height: texture.height,
                    new_handle: texture.handle,
                    generation,
                },
                out,
            );
            self.work.last_size = (texture.width, texture.height);
        }
        self.work.fps_frames = saturating_count(self.work.fps_frames);
        self.stats.total_frames = saturating_count(self.stats.total_frames);
        assert(self@ =~= run.frame(*frame).view);
    }

    fn push_frame(&mut self, frame: TextureFrame)
        requires
            old(self)@.valid(),
        ensures
            final(self)@.valid(),
            final(self)@ == old(self)@.with_frame(frame),
    {
        self.monitor.enqueued_total = next_count(self.monitor.enqueued_total);
        let waiting: usize = self.frames.len();
        let replace: bool = waiting > 0 && self.frames[waiting - 1].generation == frame.generation;
        if replace {
            self.monitor.replaced_same_generation = next_count(
                self.monitor.replaced_same_generation,
            );
        } else if waiting == API_FRAME_QUEUE_LIMIT {
            self.monitor.queue_trim_dropped = next_count(self.monitor.queue_trim_dropped);
        }
        place_bounded(&mut self.frames, frame, replace, API_FRAME_QUEUE_LIMIT);
        assert(self@ =~= old(self)@.with_frame(frame));
    }

    /// Looks at what the decoder has signalled. The result says whether a key frame is to be asked
    /// for; the clock is looked at after that (`on_clock`).
    pub fn on_stats(&mut self, stats: PipelineStats, now: u64) -> (r: bool)
        requires
            old(self)@.valid(),
            now + HW_RECOVERY_WAIT_NANOS <= u64::MAX,
        ensures
            final(self)@.valid(),
            r == old(self)@.after_resync(stats).asks_for_idr(stats),
            final(self)@ == old(self)@.after_signals(stats, now),
    {
        if stats.resync_signals > self.work.handled_resync_signals {
            self.work.handled_resync_signals = stats.resync_signals;
            self.work.hw_recovery = None;
        }
        let mut ask: bool = false;
        if stats.need_idr_signals > self.work.handled_need_idr_signals {
            self.work.handled_need_idr_signals = stats.need_idr_signals;
            match self.decoder_mode {
                DecoderMode::PreferHardware | DecoderMode::ForceHardware => {
                    if self.work.hw_recovery.is_none() {
                        self.work.hw_recovery = Some(
                            HwRecoveryState {
                                fail_signal: stats.need_idr_signals,
                                start_at: now,
                                deadline_at: now + HW_RECOVERY_WAIT_NANOS,
                            },
                        );
                        ask = true;
                    }
                },
                DecoderMode::ForceSoftware => {
                    ask = true;
                },
            }
        }
        assert(self@ =~= old(self)@.after_signals(stats, now));
        ask
    }

    /// Looks at the clock, after a key frame was asked for where one was needed, and notes the
    /// counts of the decoder.
    pub fn on_clock(&mut self, stats: PipelineStats, now: u64, out: &mut Vec<RuntimeNotice>)
        requires
            old(self)@.valid(),
        ensures
            final(self)@.valid(),
            final(self)@ == old(self)@.after_clock(stats, now),
            crate::core_runtime::runtime_notices_view(final(out)@) == (if old(self)@.timed_out(
                now,
            ) {
                crate::core_runtime::runtime_notices_view(old(out)@).push(
                    crate::core_runtime::RuntimeNoticeView::Event(
                        crate::model::EventView::Reconnecting,
                    ),
                )
            } else {
                crate::core_runtime::runtime_notices_view(old(out)@)
            }),
    {
        if let Some(state) = self.work.hw_recovery {
            if now >= state.deadline_at {
                self.push_event(SessionEvent::Reconnecting, out);
                self.running = false;
                return;
            }
        }
        self.stats.decode_latency_ms = (stats.last_decode_ms % 0x1_0000_0000) as u32;
        self.stats.upload_latency_ms = (stats.last_upload_ms % 0x1_0000_0000) as u32;
        self.stats.dropped_frames = stats.dropped_frames;
        let tick: u64 = self.work.fps_tick;
        if now >= tick && now - tick >= FPS_WINDOW_NANOS {
            self.stats.fps_frames = self.work.fps_frames;
            self.stats.fps_window_nanos = now - tick;
            self.work.fps_frames = 0;
            self.work.fps_tick = now;
        }
        assert(self@ =~= old(self)@.with_stats(stats, now));
    }

    /// Takes in that the worker has ended.
    pub fn on_worker_ended(&mut self, out: &mut Vec<RuntimeNotice>)
        requires
            old(self)@.valid(),
        ensures
            final(self)@.valid(),
            final(self)@ == (ApiView { running: false, ..old(self)@ }).with_event(
                crate::model::EventView::Stopped,
            ),
            crate::core_runtime::runtime_notices_view(final(out)@)
                == crate::core_runtime::runtime_notices_view(old(out)@).push(
                crate::core_runtime::RuntimeNoticeView::Event(crate::model::EventView::Stopped),
            ),
    {
        self.push_event(SessionEvent::Stopped, out);
        self.running = false;
    }

    /// Begins to stop, where the session runs. The result says whether there is a worker to tell
    /// and to wait for.
    pub fn begin_stop(&mut self) -> (r: bool)
        ensures
            r == old(self)@.running,
            final(self)@ == (ApiView { running: false, ..old(self)@ }),
    {
        let was: bool = self.running;
        self.running = false;
        was
    }

    /// Takes in that the worker is gone: what waits for a reader is dropped.
    pub fn finish_stop(&mut self)
        ensures
            final(self)@ == (ApiView {
                connected: false,
                frames: Seq::empty(),
                events: Seq::empty(),
                ..old(self)@
            }),
    {
        self.connected = false;
        self.frames.clear();
        self.events.clear();
        assert(self@.events =~= Seq::empty());
    }

    /// Takes the frames out and gives back the newest, if there is one. Frames that were not newest
    /// are counted, and the reader is to be warned of them now and then: the second part of the
    /// result says of how many.
    pub fn poll_texture_frames(&mut self, now_ms: u64) -> (r: (Vec<TextureFrame>, Option<u64>))
        requires
            old(self)@.valid(),
        ensures
            final(self)@.valid(),
            ({
                let v = old(self)@;
                let stale = if v.frames.len() > 1 {
                    (v.frames.len() - 1) as u64
                } else {
                    0u64
                };
                let warn = stale > 0 && now_ms - v.monitor.last_consumer_warn_ms
                    >= CONSUMER_WARN_MS;
                &&& r.0@ == (if v.frames.len() == 0 {
                    Seq::empty()
                } else {
                    seq![v.frames.last()]
                })
                &&& r.1 == (if warn {
                    Some(stale)
                } else {
                    None
                })
                &&& final(self)@ == (ApiView {
                    frames: Seq::empty(),
                    monitor: FlowMonitor {
                        polled_total: crate::callbacks::next_number(v.monitor.polled_total),
                        polled_latest_returned: if v.frames.len() > 0 {
                            crate::callbacks::next_number(v.monitor.polled_latest_returned)
                        } else {
                            v.monitor.polled_latest_returned
                        },
                        polled_stale_dropped: crate::pipeline::wrapped_sum(
                            v.monitor.polled_stale_dropped,
                            stale as nat,
                        ),
                        last_consumer_warn_ms: if warn {
                            now_ms
                        } else {
                            v.monitor.last_consumer_warn_ms
                        },
                        ..v.monitor
                    },
                    ..v
                })
            }),
    {
        self.monitor.polled_total = next_count(self.monitor.polled_total);
        let popped: usize = self.frames.len();
        let latest = drain_to_last(&mut self.frames);
        let mut warning: Option<u64> = None;
        if popped > 1 {
            let stale: u64 = (popped - 1) as u64;
            self.monitor.polled_stale_dropped = self.monitor.polled_stale_dropped.wrapping_add(
                stale,
            );
            let last: u64 = self.monitor.last_consumer_warn_ms;
            if now_ms >= last && now_ms - last >= CONSUMER_WARN_MS {
                self.monitor.last_consumer_warn_ms = now_ms;
                warning = Some(stale);
            }
        }
        let mut out: Vec<TextureFrame> = Vec::new();
        if let Some(frame) = latest {
            self.monitor.polled_latest_returned = next_count(self.monitor.polled_latest_returned);
            out.push(frame);
        }
        (out, warning)
    }

    /// Takes the events out, oldest first.
    pub fn poll_session_events(&mut self) -> (r: Vec<SessionEvent>)
        ensures
            crate::model::events_view(r@) == old(self)@.events,
            final(self)@ == (ApiView { events: Seq::empty(), ..old(self)@ }),
    {
        let r = drain(&mut self.events);
        assert(self@.events =~= Seq::empty());
        r
    }

    /// The statistics of the session.
    pub fn stats(&self) -> (r: SessionStats)
        ensures
            r == self@.stats,
    {
        self.stats
    }

    /// Whether the session runs.
    pub fn is_running(&self) -> (r: bool)
        ensures
            r == self@.running,
    {
        self.running
    }

    /// Hands a command to the worker through `send`, which says what went wrong.
    pub fn send_runtime_cmd<F: Fn() -> Result<(), String>>(&self, send: F) -> (r: Result<
        (),
        ScrcpyError,
    >)
        requires
            call_requires(send, ()),
        ensures
            if !self@.connected {
                r matches Err(e) && e@ == crate::error::ErrorView::Other(
                    "session runtime not started"@,
                )
            } else {
                exists|sent: Result<(), String>| #[trigger] call_ensures(send, (), sent) && match sent {
                    Ok(_) => r is Ok,
                    Err(detail) => r matches Err(e) && e@ == crate::error::ErrorView::Other(
                        "runtime command send failed: "@ + detail@,
                    ),
                }
            },
    {
        if !self.connected {
            return Err(other_error("session runtime not started"));
        }
        match send() {
            Ok(_) => Ok(()),
            Err(detail) => Err(other_error_with("runtime command send failed: ", detail.as_str())),
        }
    }
}

/// A frame of the decoder was handed to the worker, unless the worker is behind.
pub fn frame_handed_on(outcome: SendOutcome) -> (r: Result<(), ScrcpyError>)
    ensures
        match outcome {
            SendOutcome::Sent | SendOutcome::Full => r is Ok,
            SendOutcome::Disconnected => r matches Err(e) && e@ == crate::error::ErrorView::Other(
                "decoded frame send disconnected"@,
            ),
        },
{
    hand_on(outcome, "decoded frame send disconnected")
}

/// An event of the decoder was handed to the worker, unless the worker is behind.
pub fn event_handed_on(outcome: SendOutcome) -> (r: Result<(), ScrcpyError>)
    ensures
        match outcome {
            SendOutcome::Sent | SendOutcome::Full => r is Ok,
            SendOutcome::Disconnected => r matches Err(e) && e@ == crate::error::ErrorView::Other(
                "pipeline event send disconnected"@,
            ),
        },
{
    hand_on(outcome, "pipeline event send disconnected")
}

impl SessionTable<RealSessionRuntime> {
    /// Puts a session in with a software decoder and shared textures. It does not run yet.
    pub fn create_session(&mut self, config: SessionConfig) -> (r: String)
        requires
            old(self).valid(),
            old(self)@.next < u64::MAX,
        ensures
            final(self).valid(),
            r@ == crate::service::session_name(old(self)@.next),
            !old(self)@.sessions.dom().contains(r@),
            final(self)@ == old(self)@.created(final(self)@.sessions[r@]),
            final(self)@.sessions[r@]@ == RealSessionRuntime::created(
                r@,
                config,
                DecoderMode::ForceSoftware,
                RenderPipelineMode::Original,
            ),
    {
        let name: String = self.next_name();
        self.create(RealSessionRuntime::new(name, config))
    }

    /// Puts a session in with the decoder and renderer that were asked for. It does not run yet.
    pub fn create_session_v2(&mut self, config: SessionConfigV2) -> (r: String)
        requires
            old(self).valid(),
            old(self)@.next < u64::MAX,
        ensures
            final(self).valid(),
            r@ == crate::service::session_name(old(self)@.next),
            !old(self)@.sessions.dom().contains(r@),
            final(self)@ == old(self)@.created(final(self)@.sessions[r@]),
            final(self)@.sessions[r@]@ == RealSessionRuntime::created(
                r@,
                config.base,
                config.decoder_mode,
                config.render_pipeline_mode,
            ),
    {
        let name: String = self.next_name();
        self.create(
            RealSessionRuntime::new_with_options(
                name,
                config.base,
                config.decoder_mode,
                config.render_pipeline_mode,
            ),
        )
    }
}

/// The newest frame of a session is the one that its reader gets: a frame that fits and shows is
/// the last of those that wait.
pub proof fn law_newest_frame_waits(run: ApiRun, frame: DecodedFrame)
    requires
        frame_fits(frame, run.view.render_mode),
        frame_shows(frame),
    ensures
        run.frame(frame).view.frames.len() > 0,
        run.frame(frame).view.frames.last() == texture_of(
            frame,
            run.view.work.active_generation,
        ),
{
}

/// No two frames of one generation wait side by side.
pub proof fn law_one_frame_per_generation(run: ApiRun, frame: DecodedFrame)
    requires
        run.view.valid(),
        run.view.frames.len() == 2 ==> run.view.frames[0].generation
            != run.view.frames[1].generation,
    ensures
        run.frame(frame).view.frames.len() <= 2,
        run.frame(frame).view.frames.len() == 2 ==> run.frame(frame).view.frames[0].generation
            != run.frame(frame).view.frames[1].generation,
{
    let v = run.view;
    if frame_fits(frame, v.render_mode) && frame_shows(frame) {
        let texture = texture_of(frame, v.work.active_generation);
        let after = run.frame(frame).view.frames;
        if v.frames.len() > 0 && v.frames.last().generation == texture.generation {
            assert(after =~= v.frames.drop_last().push(texture));
        } else if v.frames.len() == 2 {
            assert(after =~= seq![v.frames[1], texture]);
        } else {
            assert(after =~= v.frames.push(texture));
        }
    }
}

/// Whatever the decoder reports, the worker asks for a key frame at most once while one recovery
/// of a hardware decoder is under way.
pub proof fn law_one_request_per_recovery(
    v: ApiView,
    first: PipelineStats,
    second: PipelineStats,
    now: u64,
    later: u64,
)
    requires
        v.decoder_mode != DecoderMode::ForceSoftware,
        v.after_resync(first).asks_for_idr(first),
        second.resync_signals <= v.after_resync(first).work.handled_resync_signals,
    ensures
        ({
            let w = v.after_signals(first, now).after_clock(first, later);
            !w.after_resync(second).asks_for_idr(second)
        }),
{
}

/// Rotating twice from an upright or sideways device leads back to where it was.
pub proof fn law_rotate_twice(mode: OrientationMode)
    requires
        mode != OrientationMode::Auto,
    ensures
        rotated(rotated(mode)) == mode,
{
}

/// A rotation leads to landscape, and from there to upright; it never lets the sensor choose.
pub proof fn law_rotation(mode: OrientationMode)
    ensures
        rotated(mode) is Landscape <==> !(mode is Landscape),
        rotated(mode) is Portrait <==> mode is Landscape,
{
}

/// An orientation is asked for by its own command and by the key that rotates, and by no other; an
/// event tells of it and of no other change, and the next rotation starts from it.
pub proof fn law_orientation_changes(v: ApiView, command: RuntimeCommand, mode: OrientationMode)
    ensures
        orientation_wanted(command, mode) is Some <==> command is SetOrientation || command
            == RuntimeCommand::SystemKey(SystemKey::RotateScreen),
        orientation_wanted(RuntimeCommand::SetOrientation(mode), v.work.orientation) == Some(mode),
        orientation_wanted(RuntimeCommand::SystemKey(SystemKey::RotateScreen), mode) == Some(
            rotated(mode),
        ),
        v.turned(mode).work == (WorkState { orientation: mode, ..v.work }),
        v.turned(mode).events == crate::bounded::last_n(
            v.events.push(
                crate::model::EventView::OrientationChanged {
                    mode,
                    source: OrientationChangeSource::ManualApi,
                },
            ),
            256,
        ),
        v.turned(mode).running == v.running,
        v.turned(mode).frames == v.frames,
{
}

/// The system keys and their key codes, and which of them change the whole picture.
pub open spec fn system_key(key: SystemKey) -> Option<(u32, bool)> {
    match key {
        SystemKey::Home => Some((3u32, true)),
        SystemKey::Back => Some((4u32, true)),
        SystemKey::VolumeUp => Some((24u32, false)),
        SystemKey::VolumeDown => Some((25u32, false)),
        SystemKey::PowerMenu => Some((26u32, false)),
        SystemKey::Recent => Some((187u32, true)),
        SystemKey::RotateScreen => None,
    }
}

/// A system key is tapped by its key code, and a request for a key frame follows exactly where it
/// changes the whole picture. A rotation, an orientation and a request for a key frame send that
/// request alone. Stopping and setting the clipboard send nothing here, and any other command sends
/// its one message.
pub proof fn law_commands_send(command: RuntimeCommand, key: SystemKey)
    ensures
        system_key(key) matches Some((code, whole)) ==> {
            let groups = command_groups(RuntimeCommand::SystemKey(key));
            &&& groups.len() == (if whole {
                2int
            } else {
                1
            })
            &&& groups[0] == crate::control::tap_bytes(code)
            &&& whole ==> groups[1] == seq![seq![17u8]]
        },
        command is SetOrientation || command is RequestIdr || command == RuntimeCommand::SystemKey(
            SystemKey::RotateScreen,
        ) ==> command_groups(command) == seq![seq![seq![17u8]]],
        command is Stop || command is Clipboard ==> command_groups(command).len() == 0,
        command matches RuntimeCommand::Touch(e) ==> command_groups(command) == seq![
            seq![crate::control::touch_bytes(crate::service::mapped_touch(e))],
        ],
        command matches RuntimeCommand::Key(e) ==> command_groups(command) == seq![
            seq![crate::control::key_bytes(crate::service::mapped_key(e))],
        ],
        command matches RuntimeCommand::Scroll(e) ==> command_groups(command) == seq![
            seq![crate::control::scroll_bytes(crate::service::mapped_scroll(e))],
        ],
        command matches RuntimeCommand::Text(t) ==> command_groups(command) == seq![
            seq![crate::control::text_bytes(vstd::utf8::encode_utf8(t@))],
        ],
{
}

/// Only the command to stop ends the worker, and no command changes anything else.
pub proof fn law_only_stop_ends(v: ApiView, command: RuntimeCommand)
    ensures
        v.after_command(command) == (ApiView { running: v.running && !(command is Stop), ..v }),
{
}

/// Textures fit one way of rendering and pixels the other. A frame without a size does not show,
/// nor does a texture without a handle; any other frame does.
pub proof fn law_frames_that_count(frame: DecodedFrame, mode: RenderPipelineMode)
    ensures
        frame_fits(frame, mode) <==> (frame is GpuShared && mode is Original) || (frame is CpuBgra
            && mode is CpuPixelBufferV2),
        frame is GpuShared ==> (frame_shows(frame) <==> frame->handle > 0 && frame->width != 0
            && frame->height != 0),
        frame matches DecodedFrame::CpuBgra(b) ==> (frame_shows(frame) <==> b.width != 0 && b.height
            != 0),
{
}

/// A texture has the handle of the frame, or zero for pixels, and its size, generation and time.
pub proof fn law_texture_of(frame: DecodedFrame, generation: u64)
    ensures
        texture_of(frame, generation).generation == generation,
        frame is GpuShared ==> {
            &&& texture_of(frame, generation).handle == frame->handle
            &&& texture_of(frame, generation).width == frame->width
            &&& texture_of(frame, generation).height == frame->height
            &&& texture_of(frame, generation).pts == frame->pts
        },
        frame matches DecodedFrame::CpuBgra(b) ==> {
            &&& texture_of(frame, generation).handle == 0
            &&& texture_of(frame, generation).width == b.width
            &&& texture_of(frame, generation).height == b.height
            &&& texture_of(frame, generation).pts == b.pts
        },
{
}

/// Frames are conserved: each that comes in waits afterwards, and for each one that waits no longer
/// one is counted, as replaced by one of its generation or as dropped for want of room.
pub proof fn law_frames_are_conserved(v: ApiView, frame: TextureFrame)
    requires
        v.valid(),
        v.monitor.enqueued_total < u64::MAX,
        v.monitor.replaced_same_generation < u64::MAX,
        v.monitor.queue_trim_dropped < u64::MAX,
    ensures
        ({
            let w = v.with_frame(frame);
            let replaced = w.monitor.replaced_same_generation - v.monitor.replaced_same_generation;
            let trimmed = w.monitor.queue_trim_dropped - v.monitor.queue_trim_dropped;
            &&& w.monitor.enqueued_total == v.monitor.enqueued_total + 1
            &&& 0 <= replaced <= 1 && 0 <= trimmed <= 1
            &&& w.frames.len() + replaced + trimmed == v.frames.len() + 1
            &&& w.frames.last() == frame
            &&& replaced == 1 <==> v.frames.len() > 0 && v.frames.last().generation
                == frame.generation
            &&& trimmed == 1 ==> v.frames.len() == 2 && w.frames == seq![v.frames[1], frame]
            &&& w.monitor.invalid_frame_dropped == v.monitor.invalid_frame_dropped
            &&& w.monitor.polled_total == v.monitor.polled_total
            &&& w.stats == v.stats && w.work == v.work && w.events == v.events
        }),
{
    let w = v.with_frame(frame);
    if v.frames.len() == 2 {
        assert(v.frames.push(frame).skip(1) =~= seq![v.frames[1], frame]);
    }
}

/// A frame of the wrong kind changes nothing. One that cannot be shown is counted and changes
/// nothing else. Any other is told of, once, and a new size right after it; it counts once.
pub proof fn law_what_a_frame_does(run: ApiRun, frame: DecodedFrame)
    requires
        run.view.valid(),
        run.view.stats.total_frames < u64::MAX,
        run.view.work.fps_frames < u64::MAX,
        run.view.monitor.invalid_frame_dropped < u64::MAX,
    ensures
        ({
            let v = run.view;
            let next = run.frame(frame);
            let texture = texture_of(frame, v.work.active_generation);
            let sized = (texture.width, texture.height) != v.work.last_size;
            let fits = frame_fits(frame, v.render_mode);
            let shows = frame_shows(frame);
            &&& !fits ==> next == run
            &&& fits && !shows ==> {
                &&& next.notices == run.notices && next.next_id == run.next_id
                &&& next.view.monitor.invalid_frame_dropped == v.monitor.invalid_frame_dropped + 1
                &&& next.view.frames == v.frames && next.view.events == v.events
                &&& next.view.stats == v.stats && next.view.work == v.work
            }
            &&& fits && shows ==> {
                let event = crate::model::EventView::ResolutionChanged {
                    width: texture.width,
                    height: texture.height,
                    new_handle: texture.handle,
                    generation: v.work.active_generation,
                };
                let notice = crate::core_runtime::RuntimeNoticeView::Frame(
                    crate::callbacks::notice_for(frame, v.work.active_generation, run.next_id),
                );
                &&& next.view.stats.total_frames == v.stats.total_frames + 1
                &&& next.view.work.fps_frames == v.work.fps_frames + 1
                &&& next.view.work.last_size == (texture.width, texture.height)
                &&& next.view.frames == v.with_frame(texture).frames
                &&& !sized ==> next.notices == run.notices.push(notice) && next.view.events
                    == v.events
                &&& sized ==> next.notices == run.notices.push(notice).push(
                    crate::core_runtime::RuntimeNoticeView::Event(event),
                ) && next.view.events == crate::bounded::last_n(v.events.push(event), 256)
            }
        }),
{
}

/// Decode errors of a software decoder ask for a key frame each time and never begin a recovery; of
/// a hardware decoder they do so where no recovery is under way, and then one of 220 milliseconds
/// begins, which later errors do not make longer.
pub proof fn law_errors_ask_for_key_frames(v: ApiView, stats: PipelineStats, now: u64)
    requires
        stats.need_idr_signals > v.work.handled_need_idr_signals,
        now + 220_000_000 <= u64::MAX,
    ensures
        v.decoder_mode is ForceSoftware ==> v.asks_for_idr(stats) && v.after_errors(
            stats,
            now,
        ).work.hw_recovery == v.work.hw_recovery,
        !(v.decoder_mode is ForceSoftware) ==> (v.asks_for_idr(stats) <==> v.work.hw_recovery is None),
        !(v.decoder_mode is ForceSoftware) && v.work.hw_recovery is None ==> v.after_errors(
            stats,
            now,
        ).work.hw_recovery == Some(
            HwRecoveryState {
                fail_signal: stats.need_idr_signals,
                start_at: now,
                deadline_at: (now + 220_000_000) as u64,
            },
        ),
        v.work.hw_recovery is Some ==> v.after_errors(stats, now).work.hw_recovery
            == v.work.hw_recovery,
        v.after_errors(stats, now).running == v.running,
{
}

/// Each signal counts once, and a key frame that puts decoding back in step ends a recovery.
pub proof fn law_signals_are_handled_once(v: ApiView, stats: PipelineStats, now: u64, later: u64)
    ensures
        v.after_signals(stats, now).after_signals(stats, later) == v.after_signals(stats, now),
        !v.after_signals(stats, now).after_resync(stats).asks_for_idr(stats),
        stats.need_idr_signals <= v.work.handled_need_idr_signals ==> !v.asks_for_idr(stats),
        stats.resync_signals > v.work.handled_resync_signals ==> v.after_resync(
            stats,
        ).work.hw_recovery is None,
        stats.resync_signals <= v.work.handled_resync_signals ==> v.after_resync(stats) == v,
{
}

/// A recovery ends the worker as soon as its time is up, and not before; an event then asks for a
/// new connection. Otherwise the clock ends nothing and is told of by no event.
pub proof fn law_recovery_ends_worker(v: ApiView, stats: PipelineStats, now: u64)
    ensures
        v.timed_out(now) <==> v.work.hw_recovery is Some && now
            >= v.work.hw_recovery->Some_0.deadline_at,
        v.timed_out(now) ==> !v.after_clock(stats, now).running && v.after_clock(stats, now).events
            == crate::bounded::last_n(v.events.push(crate::model::EventView::Reconnecting), 256),
        !v.timed_out(now) ==> v.after_clock(stats, now).running == v.running && v.after_clock(
            stats,
            now,
        ).events == v.events,
{
}

/// The frame rate is taken over at least a second: then the frames since the last time and the time
/// since then are noted, and counting starts again. Before that both are left as they are. The
/// counts of the decoder are noted each time.
pub proof fn law_frame_rate(v: ApiView, stats: PipelineStats, now: u64)
    requires
        now >= v.work.fps_tick,
        stats.last_decode_ms < 0x1_0000_0000,
        stats.last_upload_ms < 0x1_0000_0000,
    ensures
        ({
            let w = v.with_stats(stats, now);
            &&& now - v.work.fps_tick >= 1_000_000_000 ==> {
                &&& w.stats.fps_frames == v.work.fps_frames
                &&& w.stats.fps_window_nanos == now - v.work.fps_tick
                &&& w.work.fps_frames == 0
                &&& w.work.fps_tick == now
            }
            &&& now - v.work.fps_tick < 1_000_000_000 ==> {
                &&& w.stats.fps_frames == v.stats.fps_frames
                &&& w.stats.fps_window_nanos == v.stats.fps_window_nanos
                &&& w.work == v.work
            }
            &&& w.stats.decode_latency_ms == stats.last_decode_ms
            &&& w.stats.upload_latency_ms == stats.last_upload_ms
            &&& w.stats.dropped_frames == stats.dropped_frames
            &&& w.stats.total_frames == v.stats.total_frames
            &&& w.events == v.events && w.frames == v.frames && w.running == v.running
        }),
{
}

/// What went wrong before a worker ran is told by its stage: inside, on the way to the device, or in
/// the decoder.
pub proof fn law_init_failures(stage: InitStage)
    ensures
        stage.spec_code() is DeviceDisconnected <==> stage is Connect,
        stage.spec_code() is DecodeFailed <==> stage is Decoder,
        stage.spec_code() is Internal <==> stage is Runtime || stage is Manager,
        InitStage::Runtime.failure() == "创建 tokio runtime 失败: "@,
        InitStage::Manager.failure() == "会话管理器创建失败: "@,
        InitStage::Connect.failure() == "connect_v2 失败: "@,
        InitStage::Decoder.failure() == "解码流水线初始化失败: "@,
{
}

/// A worker begins without frames, errors or a size, letting the sensor choose the orientation, and
/// a session begins in its first generation, at rest.
pub proof fn law_start_of_worker(
    generation: u64,
    now: u64,
    id: Seq<char>,
    config: SessionConfig,
    decoder_mode: DecoderMode,
    render_mode: RenderPipelineMode,
)
    ensures
        ({
            let w = WorkState::at_start(generation, now);
            let v = RealSessionRuntime::created(id, config, decoder_mode, render_mode);
            &&& w.orientation is Auto
            &&& w.fps_frames == 0 && w.fps_tick == now
            &&& w.last_size == (0u32, 0u32)
            &&& w.active_generation == generation
            &&& w.handled_need_idr_signals == 0 && w.handled_resync_signals == 0
            &&& w.hw_recovery is None
            &&& v.generation == 1 && v.work.active_generation == 1
            &&& !v.running && !v.connected
            &&& v.events.len() == 0 && v.frames.len() == 0
            &&& v.decoder_mode == decoder_mode && v.render_mode == render_mode
            &&& v.id == id && v.config == config
        }),
{
}

/// Two frames and 256 events wait at most, and a reader is warned at most every three seconds. What
/// became of frames is counted from zero.
pub proof fn law_api_limits()
    ensures
        API_FRAME_QUEUE_LIMIT == 2,
        API_EVENT_QUEUE_LIMIT == 256,
        CONSUMER_WARN_MS == 3000,
        FlowMonitor::spec_zero().last_consumer_warn_ms == 0,
        FlowMonitor::spec_zero().enqueued_total == 0,
        FlowMonitor::spec_zero().polled_total == 0,
        FlowMonitor::spec_zero().replaced_same_generation == 0,
        FlowMonitor::spec_zero().queue_trim_dropped == 0,
        FlowMonitor::spec_zero().invalid_frame_dropped == 0,
        FlowMonitor::spec_zero().stale_generation_dropped == 0,
        FlowMonitor::spec_zero().polled_latest_returned == 0,
        FlowMonitor::spec_zero().polled_stale_dropped == 0,
{
}

} // verus!
