//! The server on the device: how it is put there, started, connected to and stopped.

use vstd::prelude::*;

use crate::adb::{AdbClient, CommandOutcome};
use crate::control::ControlChannel;
use crate::error::ScrcpyError;
use crate::input::ScrcpyInputMode;
use crate::model::OrientationMode;
use crate::port::{find_session_ports, SessionPorts};
use crate::text::{concat, lossy_text, to_decimal};

verus! {

/// Whether sessions ask the server for packets with headers.
pub const DEFAULT_USE_FRAMED_STREAM: bool = true;

/// How long the server has to show that it is ready, in milliseconds.
pub const READY_WAIT_MS: u64 = 3000;

/// How often the server is looked at while it gets ready, in milliseconds.
pub const READY_POLL_MS: u64 = 100;

/// How many times a connection for video is tried.
pub const CONNECT_ATTEMPTS: u32 = 5;

/// How long to wait before a connection for video is tried again, in milliseconds.
pub const CONNECT_RETRY_MS: u64 = 500;

/// How long a new video stream is watched, in milliseconds.
pub const PROBE_WAIT_MS: u64 = 800;

/// What the device is asked to send.
#[derive(Debug, Clone)]
pub struct EncodingProfile {
    pub max_size: u32,
    pub bit_rate: u32,
    pub max_fps: u32,
    pub intra_refresh_period: u32,
    pub video_encoder: Option<String>,
    pub turn_screen_off: bool,
    pub stay_awake: bool,
    pub force_landscape: bool,
    pub scrcpy_log_level: String,
}

impl Default for EncodingProfile {
    fn default() -> (r: Self)
        ensures
            r.max_size == 0,
            r.bit_rate == 8_000_000,
            r.max_fps == 60,
            r.intra_refresh_period == 1,
            r.video_encoder is None,
            !r.turn_screen_off,
            !r.stay_awake,
            !r.force_landscape,
            r.scrcpy_log_level@ == "info"@,
    {
        EncodingProfile {
            max_size: 0,
            bit_rate: 8_000_000,
            max_fps: 60,
            intra_refresh_period: 1,
            video_encoder: None,
            turn_screen_off: false,
            stay_awake: false,
            force_landscape: false,
            scrcpy_log_level: "info".to_owned(),
        }
    }
}

/// What a client is created with.
#[derive(Debug, Clone)]
pub struct ScrcpyClientConfig {
    pub adb_path: String,
    pub server_path: String,
    pub device_id: String,
    pub video_port: u16,
    pub control_port: u16,
    pub max_size: u32,
    pub bit_rate: u32,
    pub max_fps: u32,
    pub intra_refresh_period: u32,
    pub video_encoder: Option<String>,
    pub turn_screen_off: bool,
    pub stay_awake: bool,
    pub scrcpy_log_level: String,
    pub input_mode: ScrcpyInputMode,
}

impl Default for ScrcpyClientConfig {
    fn default() -> (r: Self)
        ensures
            r.adb_path@ == ""@,
            r.server_path@ == ""@,
            r.device_id@ == ""@,
            r.video_port == 27183,
            r.control_port == 27184,
            r.max_size == 0,
            r.bit_rate == 8_000_000,
            r.max_fps == 60,
            r.intra_refresh_period == 1,
            r.video_encoder is None,
            !r.turn_screen_off,
            !r.stay_awake,
            r.scrcpy_log_level@ == "info"@,
            r.input_mode == ScrcpyInputMode::Auto,
    {
        ScrcpyClientConfig {
            adb_path: "".to_owned(),
            server_path: "".to_owned(),
            device_id: "".to_owned(),
            video_port: 27183,
            control_port: 27184,
            max_size: 0,
            bit_rate: 8_000_000,
            max_fps: 60,
            intra_refresh_period: 1,
            video_encoder: None,
            turn_screen_off: false,
            stay_awake: false,
            scrcpy_log_level: "info".to_owned(),
            input_mode: ScrcpyInputMode::Auto,
        }
    }
}

/// The orientation that the device is held in.
#[derive(Debug, Clone, Copy, PartialEq, Eq, Structural)]
pub enum ScreenOrientationMode {
    Auto,
    Portrait,
    Landscape,
}

/// The orientation of the same name.
pub fn map_orientation(mode: OrientationMode) -> (r: ScreenOrientationMode)
    ensures
        r == match mode {
            OrientationMode::Auto => ScreenOrientationMode::Auto,
            OrientationMode::Portrait => ScreenOrientationMode::Portrait,
            OrientationMode::Landscape => ScreenOrientationMode::Landscape,
        },
{
    match mode {
        OrientationMode::Auto => ScreenOrientationMode::Auto,
        OrientationMode::Portrait => ScreenOrientationMode::Portrait,
        OrientationMode::Landscape => ScreenOrientationMode::Landscape,
    }
}

/// The commands on the device that hold it in an orientation, in order. Each is run only where
/// those before it worked.
pub open spec fn orientation_commands(mode: ScreenOrientationMode) -> Seq<Seq<char>> {
    match mode {
        ScreenOrientationMode::Auto => seq!["settings put system accelerometer_rotation 1"@],
        ScreenOrientationMode::Portrait => seq![
            "settings put system accelerometer_rotation 0"@,
            "settings put system user_rotation 0"@,
        ],
        ScreenOrientationMode::Landscape => seq![
            "settings put system accelerometer_rotation 0"@,
            "settings put system user_rotation 1"@,
        ],
    }
}

/// The commands on the device that hold it in an orientation, in order.
pub fn set_screen_orientation_mode(mode: ScreenOrientationMode) -> (r: Vec<String>)
    ensures
        crate::text::strings_view(r@) == orientation_commands(mode),
{
    let mut out: Vec<String> = Vec::new();
    match mode {
        ScreenOrientationMode::Auto => {
            out.push("settings put system accelerometer_rotation 1".to_owned());
        },
        ScreenOrientationMode::Portrait => {
            out.push("settings put system accelerometer_rotation 0".to_owned());
            out.push("settings put system user_rotation 0".to_owned());
        },
        ScreenOrientationMode::Landscape => {
            out.push("settings put system accelerometer_rotation 0".to_owned());
            out.push("settings put system user_rotation 1".to_owned());
        },
    }
    assert(crate::text::strings_view(out@) =~= orientation_commands(mode));
    out
}

/// The command on the device that keeps it awake, or lets it sleep.
pub open spec fn stay_awake_command(enabled: bool) -> Seq<char> {
    "svc power stayon "@ + flag(enabled)
}

/// The commands on the device once a connection stands: the orientation first, if it is to be
/// landscape, and then wakefulness, if that is wanted.
pub open spec fn profile_commands(profile: EncodingProfile) -> Seq<Seq<char>> {
    (if profile.force_landscape {
        orientation_commands(ScreenOrientationMode::Landscape)
    } else {
        Seq::empty()
    }) + (if profile.stay_awake {
        seq![stay_awake_command(true)]
    } else {
        Seq::empty()
    })
}

/// The commands on the device once a connection stands.
pub fn commands_after_connect(profile: &EncodingProfile) -> (r: Vec<String>)
    ensures
        crate::text::strings_view(r@) == profile_commands(*profile),
{
    let mut out: Vec<String> = if profile.force_landscape {
        set_screen_orientation_mode(ScreenOrientationMode::Landscape)
    } else {
        Vec::new()
    };
    if profile.stay_awake {
        out.push(concat("svc power stayon ", flag_text(true)));
    }
    assert(crate::text::strings_view(out@) =~= profile_commands(*profile));
    out
}

/// A yes or no, in words.
pub open spec fn flag(b: bool) -> Seq<char> {
    if b {
        "true"@
    } else {
        "false"@
    }
}

fn flag_text(b: bool) -> (r: &'static str)
    ensures
        r@ == flag(b),
{
    if b {
        "true"
    } else {
        "false"
    }
}

/// In which words a server speaks of what went wrong.
#[derive(Debug, Clone, Copy, PartialEq, Eq, Structural)]
pub enum Wording {
    English,
    Chinese,
}

/// The server on the device and the ports on this side.
#[derive(Debug)]
pub struct ScrcpyConnect {
    pub wording: Wording,
    pub device_id: String,
    pub server_path: String,
    pub requested: SessionPorts,
    pub ports: SessionPorts,
    pub max_size: u32,
    pub bit_rate: u32,
    pub max_fps: u32,
    pub intra_refresh_period: u32,
    pub video_encoder: Option<String>,
    pub use_framed_stream: bool,
}

/// The server as the older way of connecting knows it.
pub type ScrcpyServer = ScrcpyConnect;

/// A setting with a number, which is left out where the number is zero.
pub open spec fn setting(name: Seq<char>, n: u32) -> Seq<char> {
    if n > 0 {
        name + crate::text::decimal(n as nat) + " "@
    } else {
        Seq::empty()
    }
}

/// The setting that names the encoder, if one is named.
pub open spec fn encoder_setting(encoder: Option<String>) -> Seq<char> {
    match encoder {
        Some(e) => "video_encoder="@ + e@ + " "@,
        None => Seq::empty(),
    }
}

/// The command on the device that starts the server.
pub open spec fn server_command(c: ScrcpyConnect) -> Seq<char> {
    "CLASSPATH=/data/local/tmp/scrcpy-server.jar app_process / com.genymobile.scrcpy.Server 3.3.4 log_level=info "@
        + setting("max_size="@, c.max_size)
        + "video_bit_rate="@ + crate::text::decimal(c.bit_rate as nat) + " "@
        + setting("max_fps="@, c.max_fps)
        + setting("video_codec_options=i-frame-interval="@, c.intra_refresh_period)
        + encoder_setting(c.video_encoder)
        + "tunnel_forward=true send_device_meta=false send_frame_meta="@
        + flag(c.use_framed_stream)
        + " send_dummy_byte=true send_codec_meta="@
        + flag(c.use_framed_stream)
        + " raw_stream="@
        + flag(!c.use_framed_stream)
        + " audio=false control=true cleanup=true"@
}

fn append_setting(out: &mut String, name: &str, n: u32)
    ensures
        final(out)@ == old(out)@ + setting(name@, n),
{
    if n > 0 {
        out.append(name);
        out.append(to_decimal(n as u64).as_str());
        out.append(" ");
    }
    assert(out@ =~= old(out)@ + setting(name@, n));
}

/// A port that is forwarded before the server is run.
#[derive(Debug, Clone, Copy, PartialEq, Eq, Structural)]
pub enum StartStage {
    ForwardVideo,
    ForwardControl,
}

/// What comes next while the server is started: a port to forward, the command that runs the
/// server, or the end.
#[derive(Debug)]
pub enum StartStep {
    Forward { stage: StartStage, args: Vec<String> },
    RunServer { args: Vec<String> },
    Failed(ScrcpyError),
}

/// What comes next while the server is started, as a mathematical value.
pub enum StartStepView {
    Forward { stage: StartStage, args: Seq<Seq<char>> },
    RunServer { args: Seq<Seq<char>> },
    Failed(crate::error::ErrorView),
}

impl View for StartStep {
    type V = StartStepView;

    open spec fn view(&self) -> StartStepView {
        match *self {
            StartStep::Forward { stage, args } => StartStepView::Forward {
                stage,
                args: crate::text::strings_view(args@),
            },
            StartStep::RunServer { args } => StartStepView::RunServer {
                args: crate::text::strings_view(args@),
            },
            StartStep::Failed(e) => StartStepView::Failed(e@),
        }
    }
}

/// What comes next while the server gets ready.
#[derive(Debug)]
pub enum ReadyStep {
    PollAgainAfter(u64),
    SettleFor(u64),
    Failed(ScrcpyError),
}

/// What comes next after a connection was tried.
#[derive(Debug)]
pub enum ConnectStep {
    Connected,
    RetryAfter(u64),
    Failed(ScrcpyError),
}

/// What watching a new stream showed: nothing in time, so many bytes, or an error.
#[derive(Debug)]
pub enum PeekOutcome {
    TimedOut,
    Bytes(usize),
    Failed(String),
}

/// The two parts of what a stream begins with.
#[derive(Debug, Clone, Copy, PartialEq, Eq, Structural)]
pub enum HeaderPart {
    DummyByte,
    CodecMeta,
}

impl ScrcpyConnect {
    /// A server on a device, with free ports on this side.
    pub fn with_config<F: Fn(u16) -> bool>(
        wording: Wording,
        device_id: String,
        server_path: String,
        max_size: u32,
        bit_rate: u32,
        max_fps: u32,
        requested: SessionPorts,
        intra_refresh_period: u32,
        video_encoder: Option<String>,
        is_port_available: F,
    ) -> (r: Result<Self, ScrcpyError>)
        requires
            forall|p: u16| call_requires(is_port_available, (p,)),
            crate::port::port_behind_video(is_port_available, requested.video),
        ensures
            match r {
                Ok(c) => {
                    &&& crate::port::ports_found(
                        is_port_available,
                        requested.video,
                        requested.control,
                        Ok(c.ports),
                    )
                    &&& c == (ScrcpyConnect {
                        wording,
                        device_id,
                        server_path,
                        requested,
                        ports: c.ports,
                        max_size,
                        bit_rate,
                        max_fps,
                        intra_refresh_period,
                        video_encoder,
                        use_framed_stream: false,
                    })
                },
                Err(e) => crate::port::ports_found(
                    is_port_available,
                    requested.video,
                    requested.control,
                    Err(e),
                ),
            },
    {
        match find_session_ports(requested.video, requested.control, is_port_available) {
            Ok(ports) => Ok(
                ScrcpyConnect {
                    wording,
                    device_id,
                    server_path,
                    requested,
                    ports,
                    max_size,
                    bit_rate,
                    max_fps,
                    intra_refresh_period,
                    video_encoder,
                    use_framed_stream: false,
                },
            ),
            Err(e) => Err(e),
        }
    }

    /// The seconds between key frames; zero leaves them to the device.
    pub fn intra_refresh_period(&self) -> (r: u32)
        ensures
            r == self.intra_refresh_period,
    {
        self.intra_refresh_period
    }

    /// Sets the seconds between key frames.
    pub fn set_intra_refresh_period(&mut self, value: u32)
        ensures
            *final(self) == (ScrcpyConnect { intra_refresh_period: value, ..*old(self) }),
    {
        self.intra_refresh_period = value;
    }

    /// Sets whether packets come with headers.
    pub fn set_framed_stream_enabled(&mut self, enabled: bool)
        ensures
            *final(self) == (ScrcpyConnect { use_framed_stream: enabled, ..*old(self) }),
    {
        self.use_framed_stream = enabled;
    }

    /// Whether packets come with headers.
    pub fn is_framed_stream_enabled(&self) -> (r: bool)
        ensures
            r == self.use_framed_stream,
    {
        self.use_framed_stream
    }

    /// The command on the device that keeps it awake, or lets it sleep.
    pub fn set_stay_awake(&self, enabled: bool) -> (r: Vec<String>)
        ensures
            crate::text::strings_view(r@) == seq![
                "-s"@,
                self.device_id@,
                "shell"@,
                stay_awake_command(enabled),
            ],
    {
        let command: String = concat("svc power stayon ", flag_text(enabled));
        AdbClient::shell(self.device_id.as_str(), command.as_str())
    }

    /// The error that the outcome of a command means, where it failed or did not run.
    pub open spec fn adb_error(self, outcome: CommandOutcome) -> Option<crate::error::ErrorView> {
        match outcome {
            CommandOutcome::Finished { success, stderr, .. } => if success {
                None
            } else {
                Some(
                    crate::error::ErrorView::Adb(
                        match self.wording {
                            Wording::English => "ADB command failed: "@,
                            Wording::Chinese => "ADB 命令失败: "@,
                        } + crate::text::lossy(stderr@),
                    ),
                )
            },
            CommandOutcome::NotRun(m) => Some(
                crate::error::ErrorView::Adb(
                    match self.wording {
                        Wording::English => "Failed to execute ADB: "@,
                        Wording::Chinese => "执行 ADB 失败: "@,
                    } + m@,
                ),
            ),
        }
    }

    /// What the outcome of a command means: its output, or an error where it failed or did not
    /// run.
    pub fn adb_execute(&self, outcome: CommandOutcome) -> (r: Result<String, ScrcpyError>)
        ensures
            match r {
                Ok(out) => self.adb_error(outcome) is None && out@ == crate::text::lossy(
                    outcome->stdout@,
                ),
                Err(e) => self.adb_error(outcome) == Some(e@),
            },
    {
        match self.wording {
            Wording::English => AdbClient::execute(outcome),
            Wording::Chinese => match outcome {
                CommandOutcome::Finished { success, stdout, stderr } => {
                    if success {
                        Ok(lossy_text(stdout.as_slice()))
                    } else {
                        let text = lossy_text(stderr.as_slice());
                        Err(ScrcpyError::Adb(concat("ADB 命令失败: ", text.as_str())))
                    }
                },
                CommandOutcome::NotRun(m) => Err(
                    ScrcpyError::Adb(concat("执行 ADB 失败: ", m.as_str())),
                ),
            },
        }
    }

    /// The commands on the device that let it turn with its sensor.
    pub fn set_orientation_auto(&self) -> (r: Vec<String>)
        ensures
            crate::text::strings_view(r@) == orientation_commands(ScreenOrientationMode::Auto),
    {
        set_screen_orientation_mode(ScreenOrientationMode::Auto)
    }

    /// The commands on the device that hold it upright.
    pub fn set_orientation_portrait(&self) -> (r: Vec<String>)
        ensures
            crate::text::strings_view(r@) == orientation_commands(ScreenOrientationMode::Portrait),
    {
        set_screen_orientation_mode(ScreenOrientationMode::Portrait)
    }

    /// The commands on the device that hold it sideways.
    pub fn set_orientation_landscape(&self) -> (r: Vec<String>)
        ensures
            crate::text::strings_view(r@) == orientation_commands(ScreenOrientationMode::Landscape),
    {
        set_screen_orientation_mode(ScreenOrientationMode::Landscape)
    }

    /// The arguments that put the server on the device, from what the file system says of its
    /// file: whether it is there, how it is shown, and its path as text.
    pub fn deploy(&self, exists: bool, shown: &str, path: Option<&str>) -> (r: Result<
        Vec<String>,
        ScrcpyError,
    >)
        ensures
            match r {
                Ok(args) => exists && path is Some && crate::text::strings_view(args@) == seq![
                    "-s"@,
                    self.device_id@,
                    "push"@,
                    path->0@,
                    "/data/local/tmp/scrcpy-server.jar"@,
                ],
                Err(e) => if exists {
                    path is None && e@ == crate::error::ErrorView::Parse(
                        match self.wording {
                            Wording::English => "Invalid server path"@,
                            Wording::Chinese => "server 路径无效"@,
                        },
                    )
                } else {
                    e@ == crate::error::ErrorView::Io(
                        match self.wording {
                            Wording::English => "Server file not found: "@,
                            Wording::Chinese => "未找到 server 文件: "@,
                        } + shown@,
                    )
                },
            },
    {
        if !exists {
            let prefix: &str = match self.wording {
                Wording::English => "Server file not found: ",
                Wording::Chinese => "未找到 server 文件: ",
            };
            return Err(ScrcpyError::Io(concat(prefix, shown)));
        }
        match path {
            Some(p) => Ok(
                AdbClient::push(
                    self.device_id.as_str(),
                    p,
                    "/data/local/tmp/scrcpy-server.jar",
                ),
            ),
            None => {
                let text: &str = match self.wording {
                    Wording::English => "Invalid server path",
                    Wording::Chinese => "server 路径无效",
                };
                Err(ScrcpyError::Parse(text.to_owned()))
            },
        }
    }

    /// The arguments that forward a port on this side to the server.
    pub open spec fn forward_args(self, port: u16) -> Seq<Seq<char>> {
        seq![
            "-s"@,
            self.device_id@,
            "forward"@,
            crate::adb::local_end(port),
            "localabstract:scrcpy"@,
        ]
    }

    /// The first step of starting the server.
    pub open spec fn start_step(self) -> StartStepView {
        StartStepView::Forward {
            stage: StartStage::ForwardVideo,
            args: self.forward_args(self.ports.video),
        }
    }

    /// The step after a port was forwarded, with the error where that failed.
    pub open spec fn step_after(
        self,
        stage: StartStage,
        error: Option<crate::error::ErrorView>,
    ) -> StartStepView {
        match error {
            Some(e) => StartStepView::Failed(e),
            None => match stage {
                StartStage::ForwardVideo => StartStepView::Forward {
                    stage: StartStage::ForwardControl,
                    args: self.forward_args(self.ports.control),
                },
                StartStage::ForwardControl => StartStepView::RunServer {
                    args: seq!["-s"@, self.device_id@, "shell"@, server_command(self)],
                },
            },
        }
    }

    /// Where starting the server leads, with the errors of forwarding the two ports.
    pub open spec fn start_leads_to(
        self,
        video: Option<crate::error::ErrorView>,
        control: Option<crate::error::ErrorView>,
    ) -> StartStepView {
        match self.step_after(StartStage::ForwardVideo, video) {
            StartStepView::Forward { stage, .. } => self.step_after(stage, control),
            last => last,
        }
    }

    fn forward_to_server(&self, port: u16) -> (r: Vec<String>)
        ensures
            crate::text::strings_view(r@) == self.forward_args(port),
    {
        AdbClient::forward(self.device_id.as_str(), port, "localabstract:scrcpy")
    }

    /// The command on the device that starts the server.
    pub fn server_args(&self) -> (r: String)
        ensures
            r@ == server_command(*self),
    {
        let mut out: String = "CLASSPATH=/data/local/tmp/scrcpy-server.jar app_process / com.genymobile.scrcpy.Server 3.3.4 log_level=info ".to_owned();
        append_setting(&mut out, "max_size=", self.max_size);
        out.append("video_bit_rate=");
        out.append(to_decimal(self.bit_rate as u64).as_str());
        out.append(" ");
        append_setting(&mut out, "max_fps=", self.max_fps);
        append_setting(
            &mut out,
            "video_codec_options=i-frame-interval=",
            self.intra_refresh_period,
        );
        let ghost before = out@;
        if let Some(encoder) = &self.video_encoder {
            out.append("video_encoder=");
            out.append(encoder.as_str());
            out.append(" ");
        }
        assert(out@ =~= before + encoder_setting(self.video_encoder));
        out.append("tunnel_forward=true send_device_meta=false send_frame_meta=");
        out.append(flag_text(self.use_framed_stream));
        out.append(" send_dummy_byte=true send_codec_meta=");
        out.append(flag_text(self.use_framed_stream));
        out.append(" raw_stream=");
        out.append(flag_text(!self.use_framed_stream));
        out.append(" audio=false control=true cleanup=true");
        out
    }

    /// The first command that starts the server: it forwards the port for video.
    pub fn start(&self) -> (r: StartStep)
        ensures
            r@ == self.start_step(),
    {
        StartStep::Forward {
            stage: StartStage::ForwardVideo,
            args: self.forward_to_server(self.ports.video),
        }
    }

    /// Takes in how forwarding a port went. The port for control follows the one for video, and
    /// the server is run when both are forwarded. A failure ends the start.
    pub fn on_forwarded(&self, stage: StartStage, outcome: CommandOutcome) -> (r: StartStep)
        ensures
            r@ == self.step_after(stage, self.adb_error(outcome)),
    {
        match self.adb_execute(outcome) {
            Ok(_) => match stage {
                StartStage::ForwardVideo => StartStep::Forward {
                    stage: StartStage::ForwardControl,
                    args: self.forward_to_server(self.ports.control),
                },
                StartStage::ForwardControl => StartStep::RunServer {
                    args: AdbClient::shell(self.device_id.as_str(), self.server_args().as_str()),
                },
            },
            Err(e) => StartStep::Failed(e),
        }
    }

    /// The error for a server that could not be run.
    pub fn start_error(&self, detail: &str) -> (r: ScrcpyError)
        ensures
            r@ == crate::error::ErrorView::Adb(
                match self.wording {
                    Wording::English => "Failed to start server: "@,
                    Wording::Chinese => "启动 server 失败: "@,
                } + detail@,
            ),
    {
        let prefix: &str = match self.wording {
            Wording::English => "Failed to start server: ",
            Wording::Chinese => "启动 server 失败: ",
        };
        ScrcpyError::Adb(concat(prefix, detail))
    }

    /// One look at a server that gets ready, so many milliseconds after it was run: whether it has
    /// said something, and how it ended where it has ended. Silence does no harm in the end.
    pub fn on_ready_poll(&self, waited_ms: u64, ready: bool, ended: Option<&str>) -> (r: ReadyStep)
        ensures
            if waited_ms >= READY_WAIT_MS {
                r == ReadyStep::SettleFor(500)
            } else if ready {
                r == ReadyStep::SettleFor(120)
            } else {
                match ended {
                    Some(status) => {
                        &&& r matches ReadyStep::Failed(e)
                        &&& e@ == crate::error::ErrorView::Adb(
                            match self.wording {
                                Wording::English =>
                                    "scrcpy-server exited unexpectedly before ready: "@,
                                Wording::Chinese => "server 在就绪前异常退出: "@,
                            } + status@,
                        )
                    },
                    None => r == ReadyStep::PollAgainAfter(READY_POLL_MS),
                }
            },
    {
        if waited_ms >= READY_WAIT_MS {
            ReadyStep::SettleFor(500)
        } else if ready {
            ReadyStep::SettleFor(120)
        } else {
            match ended {
                Some(status) => {
                    let prefix: &str = match self.wording {
                        Wording::English => "scrcpy-server exited unexpectedly before ready: ",
                        Wording::Chinese => "server 在就绪前异常退出: ",
                    };
                    ReadyStep::Failed(ScrcpyError::Adb(concat(prefix, status)))
                },
                None => ReadyStep::PollAgainAfter(READY_POLL_MS),
            }
        }
    }

    /// Takes in how a connection for video went, `attempt` being 1 for the first.
    pub fn connect_video(&self, attempt: u32, failure: Option<&str>) -> (r: ConnectStep)
        ensures
            match failure {
                None => r is Connected,
                Some(detail) => if attempt < CONNECT_ATTEMPTS {
                    r == ConnectStep::RetryAfter(CONNECT_RETRY_MS)
                } else {
                    &&& r matches ConnectStep::Failed(e)
                    &&& e@ == crate::error::ErrorView::Network(
                        match self.wording {
                            Wording::English => "Failed to connect after 5 attempts: "@,
                            Wording::Chinese => "视频通道连接失败（重试5次后）: "@,
                        } + detail@,
                    )
                },
            },
    {
        match failure {
            None => ConnectStep::Connected,
            Some(detail) => if attempt < CONNECT_ATTEMPTS {
                ConnectStep::RetryAfter(CONNECT_RETRY_MS)
            } else {
                let prefix: &str = match self.wording {
                    Wording::English => "Failed to connect after 5 attempts: ",
                    Wording::Chinese => "视频通道连接失败（重试5次后）: ",
                };
                ConnectStep::Failed(ScrcpyError::Network(concat(prefix, detail)))
            },
        }
    }

    /// The error for a connection for control that could not be made.
    pub fn connect_control_error(&self, detail: &str) -> (r: ScrcpyError)
        ensures
            r@ == crate::error::ErrorView::Network(
                match self.wording {
                    Wording::English => "Failed to connect control: "@,
                    Wording::Chinese => "控制通道连接失败: "@,
                } + detail@,
            ),
    {
        let prefix: &str = match self.wording {
            Wording::English => "Failed to connect control: ",
            Wording::Chinese => "控制通道连接失败: ",
        };
        ScrcpyError::Network(concat(prefix, detail))
    }

    /// The error for a part of the stream's beginning that could not be read.
    pub fn read_video_header_error(&self, part: HeaderPart, detail: &str) -> (r: ScrcpyError)
        ensures
            r@ == crate::error::ErrorView::Network(
                match (part, self.wording) {
                    (HeaderPart::DummyByte, Wording::English) => "Failed to read dummy byte: "@,
                    (HeaderPart::CodecMeta, Wording::English) => "Failed to read codec meta: "@,
                    (HeaderPart::DummyByte, Wording::Chinese) => "读取 dummy byte 失败: "@,
                    (HeaderPart::CodecMeta, Wording::Chinese) => "读取 codec meta 失败: "@,
                } + detail@,
            ),
    {
        let prefix: &str = match (part, self.wording) {
            (HeaderPart::DummyByte, Wording::English) => "Failed to read dummy byte: ",
            (HeaderPart::CodecMeta, Wording::English) => "Failed to read codec meta: ",
            (HeaderPart::DummyByte, Wording::Chinese) => "读取 dummy byte 失败: ",
            (HeaderPart::CodecMeta, Wording::Chinese) => "读取 codec meta 失败: ",
        };
        ScrcpyError::Network(concat(prefix, detail))
    }

    /// Whether a new stream is alive: it is not where it has ended or fails. Silence is no sign of
    /// its end.
    pub fn probe_video_stream_alive(&self, outcome: PeekOutcome) -> (r: Result<(), ScrcpyError>)
        ensures
            match outcome {
                PeekOutcome::TimedOut => r is Ok,
                PeekOutcome::Bytes(n) => if n == 0 {
                    r matches Err(e) && e@ == crate::error::ErrorView::Network(
                        match self.wording {
                            Wording::English => "video stream closed during startup probe"@,
                            Wording::Chinese => "视频流在启动探测阶段已关闭"@,
                        },
                    )
                } else {
                    r is Ok
                },
                PeekOutcome::Failed(detail) => r matches Err(e) && e@
                    == crate::error::ErrorView::Network(
                    match self.wording {
                        Wording::English => "video stream startup probe failed: "@,
                        Wording::Chinese => "视频流启动探测失败: "@,
                    } + detail@,
                ),
            },
    {
        match outcome {
            PeekOutcome::TimedOut => Ok(()),
            PeekOutcome::Bytes(n) => if n == 0 {
                let text: &str = match self.wording {
                    Wording::English => "video stream closed during startup probe",
                    Wording::Chinese => "视频流在启动探测阶段已关闭",
                };
                Err(ScrcpyError::Network(text.to_owned()))
            } else {
                Ok(())
            },
            PeekOutcome::Failed(detail) => {
                let prefix: &str = match self.wording {
                    Wording::English => "video stream startup probe failed: ",
                    Wording::Chinese => "视频流启动探测失败: ",
                };
                Err(ScrcpyError::Network(concat(prefix, detail.as_str())))
            },
        }
    }

    /// The arguments of the two commands that take the forwarded ports back, video first.
    pub fn stop(&self) -> (r: (Vec<String>, Vec<String>))
        ensures
            crate::text::strings_view(r.0@) == seq![
                "-s"@,
                self.device_id@,
                "forward"@,
                "--remove"@,
                crate::adb::local_end(self.ports.video),
            ],
            crate::text::strings_view(r.1@) == seq![
                "-s"@,
                self.device_id@,
                "forward"@,
                "--remove"@,
                crate::adb::local_end(self.ports.control),
            ],
    {
        (
            AdbClient::forward_remove(self.device_id.as_str(), self.ports.video),
            AdbClient::forward_remove(self.device_id.as_str(), self.ports.control),
        )
    }
}

/// The period between key frames with which a failed connection is tried again: some devices do
/// not bear one second, and with that the choice is left to them.
pub open spec fn retry_period(used: u32) -> Option<u32> {
    if used == 1 {
        Some(0u32)
    } else {
        None
    }
}

/// The period between key frames with which a failed connection is tried again, if at all.
pub fn period_after_failure(used: u32) -> (r: Option<u32>)
    ensures
        r == retry_period(used),
{
    if used == 1 {
        Some(0)
    } else {
        None
    }
}

/// The server is run exactly when both ports are forwarded. A port that cannot be forwarded ends the
/// start with its own error, the one for video before the one for control.
pub proof fn law_server_needs_both_ports(
    connect: ScrcpyConnect,
    video: Option<crate::error::ErrorView>,
    control: Option<crate::error::ErrorView>,
)
    ensures
        connect.start_leads_to(video, control) is RunServer <==> video is None && control is None,
        video matches Some(e) ==> connect.start_leads_to(video, control) == StartStepView::Failed(e),
        video is None ==> (control matches Some(e) ==> connect.start_leads_to(video, control)
            == StartStepView::Failed(e)),
{
}

/// A failed connection is tried again at most once.
pub proof fn law_one_retry(used: u32)
    ensures
        retry_period(used) matches Some(p) ==> retry_period(p) is None,
{
}

/// The port for control never is the port for video, whichever ports are free.
pub proof fn law_ports_differ<F: Fn(u16) -> bool>(
    is_port_available: F,
    video_port: u16,
    control_port: u16,
    ports: SessionPorts,
)
    requires
        crate::port::ports_found(is_port_available, video_port, control_port, Ok(ports)),
    ensures
        ports.control > ports.video,
{
}

/// The client: it makes connections as it was set up to.
#[derive(Debug, Clone)]
pub struct ScrcpyClient {
    config: ScrcpyClientConfig,
}

impl ScrcpyClient {
    /// What the client was created with.
    pub closed spec fn spec_config(&self) -> ScrcpyClientConfig {
        self.config
    }

    /// A client.
    pub fn new(config: ScrcpyClientConfig) -> (r: Self)
        ensures
            r.spec_config() == config,
    {
        ScrcpyClient { config }
    }

    /// What the client was created with.
    pub fn config(&self) -> (r: &ScrcpyClientConfig)
        ensures
            *r == self.spec_config(),
    {
        &self.config
    }

    /// A server with free ports, whose packets come with headers.
    pub fn build_scrcpy_connect<F: Fn(u16) -> bool>(&self, is_port_available: F) -> (r: Result<
        ScrcpyConnect,
        ScrcpyError,
    >)
        requires
            forall|p: u16| call_requires(is_port_available, (p,)),
            crate::port::port_behind_video(is_port_available, self.spec_config().video_port),
        ensures
            ({
                let cfg = self.spec_config();
                match r {
                    Ok(c) => {
                        &&& crate::port::ports_found(
                            is_port_available,
                            cfg.video_port,
                            cfg.control_port,
                            Ok(c.ports),
                        )
                        &&& c.wording == Wording::Chinese
                        &&& c.device_id@ == cfg.device_id@
                        &&& c.server_path@ == cfg.server_path@
                        &&& c.requested == (SessionPorts {
                            video: cfg.video_port,
                            control: cfg.control_port,
                        })
                        &&& c.max_size == cfg.max_size
                        &&& c.bit_rate == cfg.bit_rate
                        &&& c.max_fps == cfg.max_fps
                        &&& c.intra_refresh_period == cfg.intra_refresh_period
                        &&& encoder_setting(c.video_encoder) == encoder_setting(cfg.video_encoder)
                        &&& c.video_encoder is Some <==> cfg.video_encoder is Some
                        &&& c.use_framed_stream
                    },
                    Err(e) => crate::port::ports_found(
                        is_port_available,
                        cfg.video_port,
                        cfg.control_port,
                        Err(e),
                    ),
                }
            }),
    {
        let cfg: &ScrcpyClientConfig = &self.config;
        let video_encoder: Option<String> = match &cfg.video_encoder {
            Some(e) => Some(e.clone()),
            None => None,
        };
        match ScrcpyConnect::with_config(
            Wording::Chinese,
            cfg.device_id.clone(),
            cfg.server_path.clone(),
            cfg.max_size,
            cfg.bit_rate,
            cfg.max_fps,
            SessionPorts { video: cfg.video_port, control: cfg.control_port },
            cfg.intra_refresh_period,
            video_encoder,
            is_port_available,
        ) {
            Ok(mut conn) => {
                conn.set_framed_stream_enabled(true);
                Ok(conn)
            },
            Err(e) => Err(e),
        }
    }

    /// The command to run on the device before a session is made of its connection, if any.
    pub fn command_before_session(&self, conn: &ScrcpyConnect) -> (r: Option<Vec<String>>)
        ensures
            match r {
                Some(args) => self.spec_config().stay_awake && crate::text::strings_view(args@)
                    == seq!["-s"@, conn.device_id@, "shell"@, stay_awake_command(true)],
                None => !self.spec_config().stay_awake,
            },
    {
        if self.config.stay_awake {
            Some(conn.set_stay_awake(true))
        } else {
            None
        }
    }

    /// The message to send once a session is made, if any.
    pub fn message_after_session(&self) -> (r: Option<Vec<u8>>)
        ensures
            match r {
                Some(m) => self.spec_config().turn_screen_off && m@ == seq![10u8, 0u8],
                None => !self.spec_config().turn_screen_off,
            },
    {
        if self.config.turn_screen_off {
            Some(ControlChannel::set_display_power(false))
        } else {
            None
        }
    }
}

/// Holding the device in an orientation turns its sensor off first and then says how it is held;
/// the two ways to hold it differ in the last digit alone, which is one for landscape. Letting it
/// turn with its sensor is one command, which differs from turning the sensor off in the last digit
/// alone.
pub proof fn law_orientation_commands()
    ensures
        ({
            let auto = orientation_commands(ScreenOrientationMode::Auto);
            let upright = orientation_commands(ScreenOrientationMode::Portrait);
            let sideways = orientation_commands(ScreenOrientationMode::Landscape);
            &&& auto.len() == 1 && upright.len() == 2 && sideways.len() == 2
            &&& auto[0] == "settings put system accelerometer_rotation "@.push('1')
            &&& upright[0] == "settings put system accelerometer_rotation "@.push('0')
            &&& sideways[0] == upright[0]
            &&& upright[1] == "settings put system user_rotation "@.push('0')
            &&& sideways[1] == "settings put system user_rotation "@.push('1')
        }),
{
    reveal_strlit("settings put system accelerometer_rotation 1");
    reveal_strlit("settings put system accelerometer_rotation 0");
    reveal_strlit("settings put system accelerometer_rotation ");
    reveal_strlit("settings put system user_rotation 0");
    reveal_strlit("settings put system user_rotation 1");
    reveal_strlit("settings put system user_rotation ");
    assert("settings put system accelerometer_rotation 1"@
        =~= "settings put system accelerometer_rotation "@.push('1'));
    assert("settings put system accelerometer_rotation 0"@
        =~= "settings put system accelerometer_rotation "@.push('0'));
    assert("settings put system user_rotation 0"@ =~= "settings put system user_rotation "@.push('0'));
    assert("settings put system user_rotation 1"@ =~= "settings put system user_rotation "@.push('1'));
}

/// A profile that asks for nothing runs no command. Landscape is asked for before wakefulness, and
/// each of them whatever the other says.
pub proof fn law_profile_commands(profile: EncodingProfile)
    ensures
        profile_commands(profile).len() == (if profile.force_landscape {
            2int
        } else {
            0
        }) + (if profile.stay_awake {
            1int
        } else {
            0
        }),
        profile.force_landscape ==> profile_commands(profile).take(2) == orientation_commands(
            ScreenOrientationMode::Landscape,
        ),
        profile.stay_awake ==> profile_commands(profile).last() == "svc power stayon true"@,
        stay_awake_command(true) == "svc power stayon true"@,
        stay_awake_command(false) == "svc power stayon false"@,
{
    reveal_strlit("svc power stayon true");
    reveal_strlit("svc power stayon false");
    reveal_strlit("svc power stayon ");
    reveal_strlit("true");
    reveal_strlit("false");
    assert(stay_awake_command(true) =~= "svc power stayon true"@);
    assert(stay_awake_command(false) =~= "svc power stayon false"@);
    if profile.force_landscape {
        assert(profile_commands(profile).take(2) =~= orientation_commands(
            ScreenOrientationMode::Landscape,
        ));
    }
}

/// The text in front of the settings of the server.
pub open spec fn command_front() -> Seq<char> {
    "CLASSPATH=/data/local/tmp/scrcpy-server.jar app_process / com.genymobile.scrcpy.Server 3.3.4 log_level=info "@
}

/// The text behind the settings of the server: what the stream holds, which is packets with headers
/// and codec information, or neither.
pub open spec fn command_back(framed: bool) -> Seq<char> {
    if framed {
        "tunnel_forward=true send_device_meta=false send_frame_meta=true send_dummy_byte=true send_codec_meta=true raw_stream=false audio=false control=true cleanup=true"@
    } else {
        "tunnel_forward=true send_device_meta=false send_frame_meta=false send_dummy_byte=true send_codec_meta=false raw_stream=true audio=false control=true cleanup=true"@
    }
}

proof fn lemma_command_back(framed: bool)
    ensures
        command_back(framed) == "tunnel_forward=true send_device_meta=false send_frame_meta="@ + flag(
            framed,
        ) + " send_dummy_byte=true send_codec_meta="@ + flag(framed) + " raw_stream="@ + flag(!framed)
            + " audio=false control=true cleanup=true"@,
{
    reveal_strlit("tunnel_forward=true send_device_meta=false send_frame_meta=");
    reveal_strlit(" send_dummy_byte=true send_codec_meta=");
    reveal_strlit(" raw_stream=");
    reveal_strlit(" audio=false control=true cleanup=true");
    reveal_strlit("true");
    reveal_strlit("false");
    reveal_strlit(
        "tunnel_forward=true send_device_meta=false send_frame_meta=true send_dummy_byte=true send_codec_meta=true raw_stream=false audio=false control=true cleanup=true",
    );
    reveal_strlit(
        "tunnel_forward=true send_device_meta=false send_frame_meta=false send_dummy_byte=true send_codec_meta=false raw_stream=true audio=false control=true cleanup=true",
    );
    assert(command_back(framed) =~= "tunnel_forward=true send_device_meta=false send_frame_meta="@
        + flag(framed) + " send_dummy_byte=true send_codec_meta="@ + flag(framed) + " raw_stream="@
        + flag(!framed) + " audio=false control=true cleanup=true"@);
}

/// The command starts and ends with fixed texts, of which the latter says what the stream holds. In
/// between stand the settings, each behind its name and in front of a space: those whose number is
/// zero, and an encoder that is not named, are left out, the bit rate never.
pub proof fn law_server_command(c: ScrcpyConnect)
    ensures
        ({
            let size = if c.max_size == 0 {
                Seq::empty()
            } else {
                ("max_size="@ + crate::text::decimal(c.max_size as nat)).push(' ')
            };
            let rate = ("video_bit_rate="@ + crate::text::decimal(c.bit_rate as nat)).push(' ');
            let fps = if c.max_fps == 0 {
                Seq::empty()
            } else {
                ("max_fps="@ + crate::text::decimal(c.max_fps as nat)).push(' ')
            };
            let period = if c.intra_refresh_period == 0 {
                Seq::empty()
            } else {
                ("video_codec_options=i-frame-interval="@ + crate::text::decimal(
                    c.intra_refresh_period as nat,
                )).push(' ')
            };
            let encoder = match c.video_encoder {
                Some(e) => ("video_encoder="@ + e@).push(' '),
                None => Seq::empty(),
            };
            server_command(c) == command_front() + size + rate + fps + period + encoder
                + command_back(c.use_framed_stream)
        }),
{
    reveal_strlit(" ");
    lemma_command_back(c.use_framed_stream);
    let size = if c.max_size == 0 {
        Seq::empty()
    } else {
        ("max_size="@ + crate::text::decimal(c.max_size as nat)).push(' ')
    };
    let rate = ("video_bit_rate="@ + crate::text::decimal(c.bit_rate as nat)).push(' ');
    let fps = if c.max_fps == 0 {
        Seq::empty()
    } else {
        ("max_fps="@ + crate::text::decimal(c.max_fps as nat)).push(' ')
    };
    let period = if c.intra_refresh_period == 0 {
        Seq::empty()
    } else {
        ("video_codec_options=i-frame-interval="@ + crate::text::decimal(
            c.intra_refresh_period as nat,
        )).push(' ')
    };
    let encoder = match c.video_encoder {
        Some(e) => ("video_encoder="@ + e@).push(' '),
        None => Seq::empty(),
    };
    let digits = crate::text::decimal(c.bit_rate as nat);
    assert(setting("max_size="@, c.max_size) =~= size);
    assert("video_bit_rate="@ + digits + " "@ =~= rate);
    assert(setting("max_fps="@, c.max_fps) =~= fps);
    assert(setting("video_codec_options=i-frame-interval="@, c.intra_refresh_period) =~= period);
    assert(encoder_setting(c.video_encoder) =~= encoder);
    lemma_group_three(command_front() + size, "video_bit_rate="@, digits, " "@);
    lemma_group_seven(
        command_front() + size + rate + fps + period + encoder,
        "tunnel_forward=true send_device_meta=false send_frame_meta="@,
        flag(c.use_framed_stream),
        " send_dummy_byte=true send_codec_meta="@,
        flag(c.use_framed_stream),
        " raw_stream="@,
        flag(!c.use_framed_stream),
        " audio=false control=true cleanup=true"@,
    );
}

proof fn lemma_group_three(a: Seq<char>, b: Seq<char>, c: Seq<char>, d: Seq<char>)
    ensures
        a + b + c + d == a + (b + c + d),
{
    assert(a + b + c + d =~= a + (b + c + d));
}

proof fn lemma_group_seven(
    a: Seq<char>,
    b: Seq<char>,
    c: Seq<char>,
    d: Seq<char>,
    e: Seq<char>,
    f: Seq<char>,
    g: Seq<char>,
    h: Seq<char>,
)
    ensures
        a + b + c + d + e + f + g + h == a + (b + c + d + e + f + g + h),
{
    lemma_group_three(a, b, c, d);
    lemma_group_three(a, b + c + d, e, f);
    lemma_group_three(a, b + c + d + e + f, g, h);
}

/// A failed connection is tried again exactly when the period was one second, and then without a
/// period of its own.
pub proof fn law_retry_leaves_period_to_device(used: u32)
    ensures
        retry_period(used) is Some <==> used == 1,
        retry_period(used) matches Some(p) ==> p == 0,
{
}

/// A command counts as an error exactly when it did not run or did not succeed.
pub proof fn law_command_errors(c: ScrcpyConnect, outcome: CommandOutcome)
    ensures
        c.adb_error(outcome) is None <==> outcome is Finished && outcome->success,
        c.adb_error(outcome) matches Some(e) ==> e is Adb,
        outcome is Finished && !outcome->success ==> c.adb_error(outcome)
            == Some(
            crate::error::ErrorView::Adb(
                (if c.wording is English {
                    "ADB command failed: "@
                } else {
                    "ADB 命令失败: "@
                }) + crate::text::lossy(outcome->stderr@),
            ),
        ),
        outcome matches CommandOutcome::NotRun(m) ==> c.adb_error(outcome)
            == Some(
            crate::error::ErrorView::Adb(
                (if c.wording is English {
                    "Failed to execute ADB: "@
                } else {
                    "执行 ADB 失败: "@
                }) + m@,
            ),
        ),
{
}

/// The port for video is forwarded first, then the one for control, both to the same place of the
/// device, and only then the server is run, on the same device.
pub proof fn law_start_order(c: ScrcpyConnect)
    ensures
        c.start_step() == (StartStepView::Forward {
            stage: StartStage::ForwardVideo,
            args: seq![
                "-s"@,
                c.device_id@,
                "forward"@,
                crate::adb::local_end(c.ports.video),
                "localabstract:scrcpy"@,
            ],
        }),
        c.step_after(StartStage::ForwardVideo, None) == (StartStepView::Forward {
            stage: StartStage::ForwardControl,
            args: seq![
                "-s"@,
                c.device_id@,
                "forward"@,
                crate::adb::local_end(c.ports.control),
                "localabstract:scrcpy"@,
            ],
        }),
        c.step_after(StartStage::ForwardControl, None) == (StartStepView::RunServer {
            args: seq!["-s"@, c.device_id@, "shell"@, server_command(c)],
        }),
{
}

/// A server that says nothing is looked at thirty times, every tenth of a second. A connection is
/// tried five times, twice a second.
pub proof fn law_waits()
    ensures
        READY_WAIT_MS == 3000,
        READY_POLL_MS == 100,
        READY_WAIT_MS == 30 * READY_POLL_MS,
        CONNECT_ATTEMPTS == 5,
        CONNECT_RETRY_MS == 500,
        PROBE_WAIT_MS == 800,
        DEFAULT_USE_FRAMED_STREAM,
{
}

/// A server that has not been heard is looked at again every tenth of a second for three seconds, and
/// fails only where it has ended; once it is heard or the time is up, it gets time to settle.
pub proof fn law_ready_polls(
    c: ScrcpyConnect,
    waited_ms: u64,
    ready: bool,
    ended: Option<&str>,
    r: ReadyStep,
)
    requires
        call_ensures(ScrcpyConnect::on_ready_poll, (&c, waited_ms, ready, ended), r),
    ensures
        r is Failed <==> waited_ms < 3000 && !ready && ended is Some,
        r == ReadyStep::PollAgainAfter(100) <==> waited_ms < 3000 && !ready && ended is None,
        waited_ms >= 3000 ==> r == ReadyStep::SettleFor(500),
        waited_ms < 3000 && ready ==> r == ReadyStep::SettleFor(120),
{
}

/// A connection that fails is tried again half a second later, up to the fifth time.
pub proof fn law_connection_attempts(
    c: ScrcpyConnect,
    attempt: u32,
    failure: Option<&str>,
    r: ConnectStep,
)
    requires
        call_ensures(ScrcpyConnect::connect_video, (&c, attempt, failure), r),
    ensures
        r is Connected <==> failure is None,
        r is Failed <==> failure is Some && attempt >= 5,
        r matches ConnectStep::RetryAfter(ms) ==> ms == 500 && attempt < 5,
{
}

/// A new stream is dead exactly when it has ended or watching it failed; silence does not count.
pub proof fn law_streams_alive(c: ScrcpyConnect, outcome: PeekOutcome, r: Result<(), ScrcpyError>)
    requires
        call_ensures(ScrcpyConnect::probe_video_stream_alive, (&c, outcome), r),
    ensures
        r is Err <==> outcome is Failed || outcome == PeekOutcome::Bytes(0),
        r matches Err(e) ==> e@ is Network,
{
}

/// The server is put on the device exactly when its file is there and its path is a text, at a fixed
/// place; a missing file is reported first.
pub proof fn law_deployment(
    c: ScrcpyConnect,
    exists: bool,
    shown: &str,
    path: Option<&str>,
    r: Result<Vec<String>, ScrcpyError>,
)
    requires
        call_ensures(ScrcpyConnect::deploy, (&c, exists, shown, path), r),
    ensures
        r is Ok <==> exists && path is Some,
        r matches Ok(args) ==> args@.len() == 5 && args@[1]@ == c.device_id@ && args@[2]@ == "push"@
            && args@[3]@ == path->0@ && args@[4]@ == "/data/local/tmp/scrcpy-server.jar"@,
        !exists ==> (r matches Err(e) && e@ is Io),
        exists && path is None ==> (r matches Err(e) && e@ is Parse),
{
    if let Ok(args) = r {
        let v = crate::text::strings_view(args@);
        assert(v.len() == 5);
        assert(v[1] == args@[1]@ && v[2] == args@[2]@ && v[3] == args@[3]@ && v[4] == args@[4]@);
    }
}

/// What was forwarded at the start is taken back at the end: the same two ports of the same device.
pub proof fn law_stop_takes_ports_back(c: ScrcpyConnect, r: (Vec<String>, Vec<String>))
    requires
        call_ensures(ScrcpyConnect::stop, (&c,), r),
    ensures
        r.0@.len() == 5 && r.1@.len() == 5,
        r.0@[3]@ == "--remove"@ && r.1@[3]@ == "--remove"@,
        r.0@[1]@ == c.device_id@ && r.1@[1]@ == c.device_id@,
        r.0@[4]@ == c.forward_args(c.ports.video)[3],
        r.1@[4]@ == c.forward_args(c.ports.control)[3],
{
    let v = crate::text::strings_view(r.0@);
    let w = crate::text::strings_view(r.1@);
    assert(v.len() == 5 && w.len() == 5);
    assert(v[1] == r.0@[1]@ && v[3] == r.0@[3]@ && v[4] == r.0@[4]@);
    assert(w[1] == r.1@[1]@ && w[3] == r.1@[3]@ && w[4] == r.1@[4]@);
}

} // verus!
