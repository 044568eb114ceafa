//! The values that the library and its callers exchange.

use vstd::prelude::*;

verus! {

/// A connected device.
#[derive(Debug, Clone)]
pub struct DeviceInfo {
    pub device_id: String,
    pub model: String,
    pub android_version: String,
    pub width: u32,
    pub height: u32,
    pub ip: Option<String>,
}

/// The kind of a session error.
#[derive(Debug, Clone, Copy, PartialEq, Eq, Structural)]
pub enum ErrorCode {
    InvalidSession,
    AlreadyRunning,
    NotRunning,
    DeviceDisconnected,
    DecodeFailed,
    TextureFailed,
    ControlFailed,
    Internal,
}

/// A log level.
#[derive(Debug, Clone, Copy, PartialEq, Eq, Structural)]
pub enum LogLevel {
    Trace,
    Debug,
    Info,
    Warn,
    Error,
}

/// A log line for the user interface.
#[derive(Debug, Clone)]
pub struct LogEvent {
    pub level: String,
    pub target: String,
    pub message: String,
    pub ts_millis: i64,
}

/// What a session is created with. Zero for `max_size`, `max_fps` or `intra_refresh_period`
/// leaves the choice to the device.
#[derive(Debug, Clone)]
pub struct SessionConfig {
    pub adb_path: String,
    pub server_path: String,
    pub device_id: String,
    pub max_size: u32,
    pub bit_rate: u32,
    pub max_fps: u32,
    pub video_port: u16,
    pub control_port: u16,
    pub video_encoder: Option<String>,
    pub turn_screen_off: bool,
    pub stay_awake: bool,
    pub scrcpy_verbosity: String,
    pub intra_refresh_period: u32,
}

/// How frames reach the renderer: as shared texture handles, or as pixels in memory.
#[derive(Debug, Clone, Copy, PartialEq, Eq, Structural)]
pub enum RenderPipelineMode {
    Original,
    CpuPixelBufferV2,
}

/// Which decoder a session asks for.
#[derive(Debug, Clone, Copy, PartialEq, Eq, Structural)]
pub enum DecoderMode {
    PreferHardware,
    ForceHardware,
    ForceSoftware,
}

/// A session configuration with explicit decoder and renderer.
#[derive(Debug, Clone)]
pub struct SessionConfigV2 {
    pub base: SessionConfig,
    pub render_pipeline_mode: RenderPipelineMode,
    pub decoder_mode: DecoderMode,
}

/// The orientation that a session asks the device for.
#[derive(Debug, Clone, Copy, PartialEq, Eq, Structural)]
pub enum OrientationMode {
    Auto,
    Portrait,
    Landscape,
}

/// Who changed the orientation.
#[derive(Debug, Clone, Copy, PartialEq, Eq, Structural)]
pub enum OrientationChangeSource {
    ManualApi,
    AutoSensor,
}

/// What a session reports to its owner.
#[derive(Debug, Clone)]
pub enum SessionEvent {
    Starting,
    Running,
    Reconnecting,
    Stopped,
    Error { code: ErrorCode, message: String },
    OrientationChanged { mode: OrientationMode, source: OrientationChangeSource },
    ResolutionChanged { width: u32, height: u32, new_handle: i64, generation: u64 },
}

/// A session event as a mathematical value.
pub enum EventView {
    Starting,
    Running,
    Reconnecting,
    Stopped,
    Error { code: ErrorCode, message: Seq<char> },
    OrientationChanged { mode: OrientationMode, source: OrientationChangeSource },
    ResolutionChanged { width: u32, height: u32, new_handle: i64, generation: u64 },
}

impl View for SessionEvent {
    type V = EventView;

    open spec fn view(&self) -> EventView {
        match *self {
            SessionEvent::Starting => EventView::Starting,
            SessionEvent::Running => EventView::Running,
            SessionEvent::Reconnecting => EventView::Reconnecting,
            SessionEvent::Stopped => EventView::Stopped,
            SessionEvent::Error { code, message } => EventView::Error { code, message: message@ },
            SessionEvent::OrientationChanged { mode, source } => EventView::OrientationChanged {
                mode,
                source,
            },
            SessionEvent::ResolutionChanged { width, height, new_handle, generation } =>
                EventView::ResolutionChanged { width, height, new_handle, generation },
        }
    }
}

impl SessionEvent {
    /// The same event once more.
    pub fn copied(&self) -> (r: SessionEvent)
        ensures
            r@ == self@,
    {
        match self {
            SessionEvent::Starting => SessionEvent::Starting,
            SessionEvent::Running => SessionEvent::Running,
            SessionEvent::Reconnecting => SessionEvent::Reconnecting,
            SessionEvent::Stopped => SessionEvent::Stopped,
            SessionEvent::Error { code, message } => SessionEvent::Error {
                code: *code,
                message: message.clone(),
            },
            SessionEvent::OrientationChanged { mode, source } => SessionEvent::OrientationChanged {
                mode: *mode,
                source: *source,
            },
            SessionEvent::ResolutionChanged { width, height, new_handle, generation } =>
                SessionEvent::ResolutionChanged {
                width: *width,
                height: *height,
                new_handle: *new_handle,
                generation: *generation,
            },
        }
    }
}

impl DecoderMode {
    /// The name of the mode.
    pub open spec fn spec_name(self) -> Seq<char> {
        match self {
            DecoderMode::PreferHardware => "PreferHardware"@,
            DecoderMode::ForceHardware => "ForceHardware"@,
            DecoderMode::ForceSoftware => "ForceSoftware"@,
        }
    }

    /// The name of the mode.
    pub fn name(self) -> (r: &'static str)
        ensures
            r@ == self.spec_name(),
    {
        match self {
            DecoderMode::PreferHardware => "PreferHardware",
            DecoderMode::ForceHardware => "ForceHardware",
            DecoderMode::ForceSoftware => "ForceSoftware",
        }
    }
}

/// Events in order, as mathematical values.
pub open spec fn events_view(s: Seq<SessionEvent>) -> Seq<EventView> {
    s.map_values(|e: SessionEvent| e@)
}

/// Session statistics. The frame rate is kept as the frames counted in the last full window and
/// the window's length in nanoseconds; both are zero before the first full window.
#[derive(Debug, Clone, Copy, PartialEq, Eq, Structural)]
pub struct SessionStats {
    pub fps_frames: u64,
    pub fps_window_nanos: u64,
    pub decode_latency_ms: u32,
    pub upload_latency_ms: u32,
    pub total_frames: u64,
    pub dropped_frames: u64,
}

impl SessionStats {
    /// Statistics before anything has happened.
    pub open spec fn spec_zero() -> SessionStats {
        SessionStats {
            fps_frames: 0,
            fps_window_nanos: 0,
            decode_latency_ms: 0,
            upload_latency_ms: 0,
            total_frames: 0,
            dropped_frames: 0,
        }
    }

    /// Statistics before anything has happened.
    pub fn zero() -> (r: SessionStats)
        ensures
            r == SessionStats::spec_zero(),
    {
        SessionStats {
            fps_frames: 0,
            fps_window_nanos: 0,
            decode_latency_ms: 0,
            upload_latency_ms: 0,
            total_frames: 0,
            dropped_frames: 0,
        }
    }
}

/// A key by its meaning.
#[derive(Debug, Clone, Copy, PartialEq, Eq, Structural)]
pub enum SystemKey {
    Home,
    Back,
    Recent,
    PowerMenu,
    VolumeUp,
    VolumeDown,
    RotateScreen,
}

/// A frame for the renderer.
#[derive(Debug, Clone, Copy, PartialEq, Eq, Structural)]
pub struct TextureFrame {
    pub handle: i64,
    pub width: u32,
    pub height: u32,
    pub generation: u64,
    pub pts: i64,
}

/// A touch action, by Android's names.
#[derive(Debug, Clone, Copy, PartialEq, Eq, Structural)]
pub enum AndroidMotionEventAction {
    Down,
    Up,
    Move,
    Cancel,
    PointerDown,
    PointerUp,
    HoverMove,
    HoverEnter,
    HoverExit,
}

/// Whether a key goes down or up.
#[derive(Debug, Clone, Copy, PartialEq, Eq, Structural)]
pub enum AndroidKeyEventAction {
    Down,
    Up,
}

/// A touch event in pixels. The pressure runs from 0 to 0xFFFF.
#[derive(Debug, Clone, Copy, PartialEq, Eq, Structural)]
pub struct TouchEvent {
    pub action: AndroidMotionEventAction,
    pub pointer_id: i64,
    pub x: u32,
    pub y: u32,
    pub pressure: u16,
    pub width: u32,
    pub height: u32,
    pub buttons: u32,
}

/// A key event.
#[derive(Debug, Clone, Copy, PartialEq, Eq, Structural)]
pub struct KeyEvent {
    pub action: AndroidKeyEventAction,
    pub keycode: u32,
    pub repeat: u32,
    pub metastate: u32,
}

/// A scroll event at a position in pixels, in wheel steps.
#[derive(Debug, Clone, Copy, PartialEq, Eq, Structural)]
pub struct ScrollEvent {
    pub x: i32,
    pub y: i32,
    pub width: u32,
    pub height: u32,
    pub hscroll: i32,
    pub vscroll: i32,
}

/// An event of the library as a whole.
#[derive(Debug, Clone)]
pub enum GhEvent {
    Session { session_id: String, event: SessionEvent },
    InferenceJson { session_id: String, payload_json: String },
    Diagnostics { session_id: String, message: String },
}

/// The name of a mode is that of its variant, and a session starts with all counts at zero.
pub proof fn law_names_and_zeros(mode: DecoderMode)
    ensures
        mode is PreferHardware ==> mode.spec_name() == "PreferHardware"@,
        mode is ForceHardware ==> mode.spec_name() == "ForceHardware"@,
        mode is ForceSoftware ==> mode.spec_name() == "ForceSoftware"@,
        SessionStats::spec_zero().total_frames == 0,
        SessionStats::spec_zero().dropped_frames == 0,
        SessionStats::spec_zero().fps_frames == 0,
        SessionStats::spec_zero().fps_window_nanos == 0,
        SessionStats::spec_zero().decode_latency_ms == 0,
        SessionStats::spec_zero().upload_latency_ms == 0,
{
}

} // verus!
