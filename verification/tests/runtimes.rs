use rust_scrcpy::adb::CommandOutcome;
use rust_scrcpy::api_runtime::{
    event_handed_on, frame_handed_on, InitStage, PacketOutcome, RealSessionRuntime,
};
use rust_scrcpy::backend::{BgraFrame, DecodedFrame, DecoderOutputMode, DecoderPreference};
use rust_scrcpy::callbacks::{FrameCounter, FrameNotice};
use rust_scrcpy::control::{self, ControlChannel};
use rust_scrcpy::core_runtime::{after_pump, map_decode_event, RuntimeNotice, ScrcpyCoreRuntime};
use rust_scrcpy::decode_pipeline::{ScrcpyDecodeConfig, ScrcpyDecodeEvent};
use rust_scrcpy::error::ScrcpyError;
use rust_scrcpy::framed_video::FramedVideoStreamReader;
use rust_scrcpy::input::ScrcpyInputMode;
use rust_scrcpy::model::{
    AndroidKeyEventAction, AndroidMotionEventAction, DecoderMode, ErrorCode, KeyEvent,
    OrientationChangeSource, OrientationMode, RenderPipelineMode, ScrollEvent, SessionConfig,
    SessionConfigV2, SessionEvent, SessionStats, SystemKey, TouchEvent,
};
use rust_scrcpy::pipeline::{PipelineEvent, PipelineStats, SendOutcome};
use rust_scrcpy::service::{
    adb_execute, adb_set_orientation_mode, handle_runtime_command, invalid_session_error,
    log_line, map_client_config, map_decode_config, map_key_event, map_scroll_event,
    map_touch_event, orientation_event, output_mode, runtime_init_event,
    stay_awake_args, system_key_to_keycode, worker_step, ApiCommand, ApiSession, LoggerState, RuntimeCommand,
    SessionTable, WorkerAction, WorkerEvent, WorkerStep,
};
use rust_scrcpy::session::{Session, SessionCommand};

fn gpu(handle: i64, width: u32, height: u32) -> DecodedFrame {
    DecodedFrame::GpuShared { handle, width, height, pts: 7 }
}

fn session() -> Session {
    Session::from_connected(
        ControlChannel::new(),
        FramedVideoStreamReader::new(),
        ScrcpyInputMode::Inject,
    )
}

fn config() -> SessionConfig {
    SessionConfig {
        adb_path: "adb".to_string(),
        server_path: "server.jar".to_string(),
        device_id: "dev".to_string(),
        max_size: 0,
        bit_rate: 1,
        max_fps: 2,
        video_port: 3,
        control_port: 4,
        video_encoder: None,
        turn_screen_off: false,
        stay_awake: true,
        scrcpy_verbosity: "debug".to_string(),
        intra_refresh_period: 5,
    }
}

fn started() -> ScrcpyCoreRuntime {
    let mut runtime = ScrcpyCoreRuntime::new();
    assert_eq!(runtime.begin_start("a", 0).unwrap().len(), 1);
    runtime.on_connected("a", session(), Ok(())).unwrap();
    runtime
}

#[test]
fn a_session_starts_and_stops() {
    let mut runtime = started();
    assert_eq!(runtime.session_count(), 1);
    assert_eq!(runtime.list_session_ids(), ["a"]);
    assert_eq!(
        runtime.begin_start("a", 1).unwrap_err(),
        ScrcpyError::Other("session already exists: a".to_string())
    );
    let events = runtime.drain_session_events("a").unwrap();
    assert!(matches!(events[..], [SessionEvent::Starting, SessionEvent::Running]));
    assert!(runtime.session_mut("a").is_ok());
    assert!(runtime.begin_stop("a").is_ok());
    assert_eq!(
        runtime.session_mut("a").err(),
        Some(ScrcpyError::Other("invalid session id: a".to_string()))
    );
    runtime.on_stopped("a", Ok(())).unwrap();
    assert!(matches!(runtime.drain_session_events("a").unwrap().last(), Some(SessionEvent::Stopped)));
    assert_eq!(
        runtime.drain_decoded_frames("a").unwrap_err(),
        ScrcpyError::Other("decoded frames not found: a".to_string())
    );
    assert_eq!(
        runtime.drain_decode_events("a").unwrap_err(),
        ScrcpyError::Other("decode events not found: a".to_string())
    );
    assert!(runtime.session_stats("a").is_ok());
    assert_eq!(
        runtime.begin_stop("a").err(),
        Some(ScrcpyError::Other("invalid session id: a".to_string()))
    );
}

#[test]
fn unknown_sessions_are_errors() {
    let mut runtime = ScrcpyCoreRuntime::new();
    let other = |text: &str| ScrcpyError::Other(text.to_string());
    assert_eq!(
        runtime.drain_session_events("x").unwrap_err(),
        other("session events not found: x")
    );
    assert_eq!(runtime.session_stats("x").unwrap_err(), other("session stats not found: x"));
    assert_eq!(
        runtime.decode_reconnect_required("x").unwrap_err(),
        other("decode pipeline not found: x")
    );
    assert_eq!(runtime.begin_pump("x").unwrap_err(), other("invalid session id: x"));
    assert_eq!(
        runtime.finish_pump("x", PipelineStats::default(), 0, &mut FrameCounter::new()).err(),
        Some(other("decode pipeline not found: x"))
    );
}

#[test]
fn a_failed_start_is_an_event() {
    let mut runtime = ScrcpyCoreRuntime::new();
    runtime.begin_start("a", 0).unwrap();
    let notices = runtime.on_connect_failed("a", &ScrcpyError::DeviceNotFound);
    assert_eq!(notices.len(), 1);
    match &runtime.drain_session_events("a").unwrap()[..] {
        [SessionEvent::Starting, SessionEvent::Error { message, .. }] => {
            assert_eq!(message, "start session failed: Device not found")
        }
        other => panic!("{:?}", other),
    }
    assert_eq!(runtime.session_count(), 0);
}

#[test]
fn frames_pass_through_the_runtime_in_order() {
    let mut runtime = started();
    let mut ids = FrameCounter::new();
    assert_eq!(runtime.begin_pump("a"), Ok(true));
    let stats = PipelineStats { last_decode_ms: 3, dropped_frames: 4, ..PipelineStats::default() };
    let pixels = DecodedFrame::CpuBgra(BgraFrame { data: vec![0; 4], width: 1, height: 1, pts: 1 });
    assert_eq!(runtime.on_pump_outputs("a", vec![pixels], false, stats, 10), Ok(false));
    let notices = runtime.finish_pump("a", stats, 1_500_000_000, &mut ids).unwrap();
    let frames: Vec<u64> = notices
        .iter()
        .filter_map(|n| match n {
            RuntimeNotice::Frame(FrameNotice::Pixels { frame_id, .. }) => Some(*frame_id),
            _ => None,
        })
        .collect();
    assert_eq!(frames, [1]);
    let frames = runtime.drain_decoded_frames("a").unwrap();
    assert_eq!(frames.len(), 1);
    assert_eq!(frames[0].generation, 2);
    let stats = runtime.session_stats("a").unwrap();
    assert_eq!(stats.total_frames, 1);
    assert_eq!((stats.fps_frames, stats.fps_window_nanos), (1, 1_500_000_000));
    assert_eq!((stats.decode_latency_ms, stats.dropped_frames), (3, 4));
    assert_eq!(runtime.drain_decode_events("a").unwrap().len(), 2);
    assert!(runtime.drain_session_events("a").unwrap().iter().any(|e| matches!(
        e,
        SessionEvent::ResolutionChanged { width: 1, height: 1, new_handle: 0, generation: 2 }
    )));
}

#[test]
fn a_session_reports_through_the_runtime() {
    let mut runtime = started();
    runtime.drain_session_events("a").unwrap();
    let refused = Err(ScrcpyError::Network("down".to_string()));
    let _ = runtime.session_mut("a").unwrap().on_sent(SessionCommand::Touch, refused);
    assert_eq!(runtime.collect_session_events("a").len(), 1);
    assert_eq!(runtime.drain_session_events("a").unwrap().len(), 1);
    assert!(runtime.collect_session_events("b").is_empty());
}

#[test]
fn a_lost_decoder_asks_for_a_new_connection() {
    let mut runtime = started();
    assert_eq!(runtime.decode_reconnect_required("a"), Ok(false));
    let counts = PipelineStats { decoded_frames: 3, ..PipelineStats::default() };
    assert_eq!(runtime.decode_stats("a", || counts), Ok(counts));
    assert!(runtime.decode_stats("b", || counts).is_err());
    runtime.on_pump_outputs("a", Vec::new(), true, PipelineStats::default(), 0).unwrap();
    assert_eq!(runtime.decode_reconnect_required("a"), Ok(true));
    let notices =
        runtime.finish_pump("a", PipelineStats::default(), 0, &mut FrameCounter::new()).unwrap();
    assert!(notices.iter().any(|n| matches!(n, RuntimeNotice::Event(SessionEvent::Reconnecting))));
}

#[test]
fn decoder_settings_of_the_runtime() {
    let mut runtime = ScrcpyCoreRuntime::new();
    let settings = ScrcpyDecodeConfig {
        decoder_mode: DecoderMode::ForceSoftware,
        ..ScrcpyDecodeConfig::default()
    };
    runtime.set_decode_config(settings);
    assert_eq!(runtime.decode_config(), settings);
    assert_eq!(after_pump(0, 4, true), (1, true));
    assert_eq!(after_pump(3, 4, true), (4, false));
    assert!(!after_pump(1, 4, false).1);
}

#[test]
fn events_of_the_decoder_have_a_meaning() {
    let degraded = ScrcpyDecodeEvent::DecoderDegraded {
        from: DecoderMode::PreferHardware,
        to: DecoderMode::ForceSoftware,
        reason: "x".to_string(),
    };
    match map_decode_event(&degraded) {
        Some(SessionEvent::Error { code: ErrorCode::DecodeFailed, message }) => assert_eq!(
            message,
            "decoder degraded: PreferHardware -> ForceSoftware, reason=x"
        ),
        other => panic!("{:?}", other),
    }
    let started = ScrcpyDecodeEvent::DecoderStarted { decoder_mode: DecoderMode::ForceHardware };
    assert!(map_decode_event(&started).is_none());
}

fn worker() -> RealSessionRuntime {
    RealSessionRuntime::new_with_options(
        "s".to_string(),
        config(),
        DecoderMode::PreferHardware,
        RenderPipelineMode::Original,
    )
}

#[test]
fn a_worker_starts_once() {
    let mut w = worker();
    let mut out = Vec::new();
    assert!(!w.is_running());
    assert_eq!(
        w.send_runtime_cmd(|| Ok(())),
        Err(ScrcpyError::Other("session runtime not started".to_string()))
    );
    assert!(w.start(&mut out));
    assert!(!w.start(&mut out));
    w.on_running(0, &mut out);
    assert_eq!(out.len(), 2);
    assert!(matches!(
        w.poll_session_events()[..],
        [SessionEvent::Starting, SessionEvent::Running]
    ));
    assert_eq!(w.send_runtime_cmd(|| Ok(())), Ok(()));
    assert_eq!(
        w.send_runtime_cmd(|| Err("closed".to_string())),
        Err(ScrcpyError::Other("runtime command send failed: closed".to_string()))
    );
    w.on_channel_closed();
    assert!(!w.is_running());
    w.on_worker_ended(&mut out);
    assert!(matches!(w.poll_session_events()[..], [SessionEvent::Stopped]));
}

#[test]
fn a_worker_can_fail_to_begin() {
    let stages = [
        (InitStage::Runtime, ErrorCode::Internal, "创建 tokio runtime 失败: x"),
        (InitStage::Manager, ErrorCode::Internal, "会话管理器创建失败: x"),
        (InitStage::Connect, ErrorCode::DeviceDisconnected, "connect_v2 失败: x"),
        (InitStage::Decoder, ErrorCode::DecodeFailed, "解码流水线初始化失败: x"),
    ];
    for (stage, expected, text) in stages {
        let mut w = worker();
        let mut out = Vec::new();
        w.start(&mut out);
        w.on_init_failed(stage, "x", &mut out);
        assert!(!w.is_running());
        match w.poll_session_events().last() {
            Some(SessionEvent::Error { code, message }) => {
                assert_eq!(*code, expected);
                assert_eq!(message, text);
            }
            other => panic!("{:?}", other),
        }
    }
}

fn running() -> RealSessionRuntime {
    let mut w = worker();
    let mut out = Vec::new();
    w.start(&mut out);
    w.on_running(0, &mut out);
    w.poll_session_events();
    w
}

#[test]
fn only_the_newest_frame_is_handed_out() {
    let mut w = running();
    let mut ids = FrameCounter::new();
    let mut out = Vec::new();
    w.on_frame(&gpu(1, 2, 3), &mut ids, &mut out);
    w.on_frame(&gpu(2, 2, 3), &mut ids, &mut out);
    assert_eq!(out.len(), 3);
    let (frames, _) = w.poll_texture_frames(0);
    assert_eq!(frames.len(), 1);
    assert_eq!((frames[0].handle, frames[0].generation, frames[0].pts), (2, 1, 7));
    assert!(w.poll_texture_frames(0).0.is_empty());
    w.on_pipeline_event(PipelineEvent::ReconfigureReady { generation: 2, width: 4, height: 4 });
    w.on_frame(&gpu(3, 4, 4), &mut ids, &mut out);
    assert_eq!(w.poll_texture_frames(0).0[0].generation, 2);
    assert_eq!(w.stats().total_frames, 3);
    w.on_frame(&gpu(0, 4, 4), &mut ids, &mut out);
    let pixels = DecodedFrame::CpuBgra(BgraFrame { data: vec![], width: 1, height: 1, pts: 0 });
    w.on_frame(&pixels, &mut ids, &mut out);
    assert_eq!(w.stats().total_frames, 3);
}

#[test]
fn one_key_frame_is_asked_for_in_a_recovery() {
    let mut w = running();
    let mut out = Vec::new();
    let need = |n| PipelineStats { need_idr_signals: n, ..PipelineStats::default() };
    assert!(w.on_stats(need(1), 5));
    w.on_clock(need(1), 6, &mut out);
    assert!(!w.on_stats(need(2), 6));
    w.on_clock(need(2), 220_000_004, &mut out);
    assert!(w.is_running());
    assert!(!w.on_stats(need(2), 220_000_004));
    w.on_clock(need(2), 220_000_005, &mut out);
    assert!(!w.is_running());
    assert!(matches!(w.poll_session_events()[..], [SessionEvent::Reconnecting]));
}

#[test]
fn a_slow_request_ends_the_recovery_of_its_round() {
    let mut w = running();
    let mut out = Vec::new();
    let need = PipelineStats { need_idr_signals: 1, ..PipelineStats::default() };
    assert!(w.on_stats(need, 5));
    w.on_clock(need, 220_000_005, &mut out);
    assert!(!w.is_running());
    let mut runtime = started();
    assert_eq!(runtime.on_pump_outputs("a", Vec::new(), false, need, 5), Ok(true));
    assert_eq!(runtime.decode_reconnect_required("a"), Ok(false));
    assert_eq!(runtime.check_recovery("a", 220_000_005), Ok(()));
    assert_eq!(runtime.decode_reconnect_required("a"), Ok(true));
    assert_eq!(
        runtime.check_recovery("x", 0),
        Err(ScrcpyError::Other("decode pipeline not found: x".to_string()))
    );
}

#[test]
fn the_frame_rate_is_taken_every_second() {
    let mut w = running();
    let mut out = Vec::new();
    w.on_frame(&gpu(1, 2, 3), &mut FrameCounter::new(), &mut out);
    w.on_clock(PipelineStats::default(), 999_999_999, &mut out);
    assert_eq!(w.stats().fps_window_nanos, 0);
    w.on_clock(PipelineStats::default(), 1_000_000_000, &mut out);
    assert_eq!((w.stats().fps_frames, w.stats().fps_window_nanos), (1, 1_000_000_000));
}

#[test]
fn packets_end_or_feed_a_worker() {
    let mut w = running();
    let mut out = Vec::new();
    assert!(!w.on_packet(PacketOutcome::TimedOut, &mut out));
    assert!(w.is_running());
    assert!(w.on_packet(PacketOutcome::Packet, &mut out));
    w.on_packet(PacketOutcome::EndOfStream, &mut out);
    assert!(!w.is_running());
    match &w.poll_session_events()[..] {
        [SessionEvent::Error { message, .. }] => assert_eq!(message, "视频流结束"),
        other => panic!("{:?}", other),
    }
    let mut w = running();
    w.on_packet(PacketOutcome::Failed(ScrcpyError::DeviceNotFound), &mut out);
    match &w.poll_session_events()[..] {
        [SessionEvent::Error { message, .. }] => {
            assert_eq!(message, "读取视频包失败: Device not found")
        }
        other => panic!("{:?}", other),
    }
}

#[test]
fn rotating_twice_leads_back() {
    let mut w = running();
    let mut out = Vec::new();
    let plan = w.on_command(RuntimeCommand::SetOrientation(OrientationMode::Portrait));
    assert_eq!(plan.orientation, Some(OrientationMode::Portrait));
    assert!(w.poll_session_events().is_empty());
    w.on_orientation_set(OrientationMode::Portrait, &mut out);
    let plan = w.on_command(RuntimeCommand::SystemKey(SystemKey::RotateScreen));
    assert_eq!(plan.orientation, Some(OrientationMode::Landscape));
    assert_eq!(plan.groups, [[[17u8]]]);
    w.on_orientation_set(OrientationMode::Landscape, &mut out);
    let plan = w.on_command(RuntimeCommand::SystemKey(SystemKey::RotateScreen));
    assert_eq!(plan.orientation, Some(OrientationMode::Portrait));
    w.on_orientation_set(OrientationMode::Portrait, &mut out);
    assert_eq!(out.len(), 3);
    assert!(matches!(
        w.poll_session_events()[..],
        [
            SessionEvent::OrientationChanged { mode: OrientationMode::Portrait, .. },
            SessionEvent::OrientationChanged { mode: OrientationMode::Landscape, .. },
            SessionEvent::OrientationChanged {
                mode: OrientationMode::Portrait,
                source: OrientationChangeSource::ManualApi,
            },
        ]
    ));
}

#[test]
fn commands_become_messages() {
    let mut w = running();
    let plan = w.on_command(RuntimeCommand::SystemKey(SystemKey::Home));
    assert_eq!(plan.groups, [ControlChannel::tap_key(3), vec![vec![17]]]);
    let plan = w.on_command(RuntimeCommand::SystemKey(SystemKey::VolumeUp));
    assert_eq!(plan.groups, [ControlChannel::tap_key(24)]);
    let plan = w.on_command(RuntimeCommand::Text("x".to_string()));
    assert_eq!(plan.groups, [[ControlChannel::send_text("x")]]);
    let clipboard = RuntimeCommand::Clipboard { text: "x".to_string(), paste: true };
    let plan = w.on_command(clipboard);
    assert_eq!(plan.clipboard, Some(("x".to_string(), true)));
    assert!(plan.groups.is_empty());
    w.on_command(RuntimeCommand::Stop);
    assert!(!w.is_running());
    assert_eq!(w.pipeline_config().decoder_preference, DecoderPreference::PreferHardware);
    assert_eq!(w.config().device_id, "dev");
    let mut w = running();
    assert!(w.begin_stop());
    w.finish_stop();
    assert!(!w.is_running());
}

#[test]
fn session_names_differ() {
    let mut table: SessionTable<ApiSession<u8>> = SessionTable::new();
    assert_eq!(table.create_session(config()), "sess-1");
    let second = SessionConfigV2 {
        base: config(),
        render_pipeline_mode: RenderPipelineMode::CpuPixelBufferV2,
        decoder_mode: DecoderMode::ForceSoftware,
    };
    assert_eq!(table.create_session_v2(second), "sess-2");
    assert_eq!(table.next_name(), "sess-3");
    assert_eq!(table.session("sess-2").unwrap().decoder_mode, DecoderMode::ForceSoftware);
    assert!(table.dispose_session("sess-1").is_ok());
    assert_eq!(table.dispose_session("sess-1").err(), Some(invalid_session_error("sess-1")));
    assert_eq!(table.create_session(config()), "sess-3");
    let mut others: SessionTable<RealSessionRuntime> = SessionTable::new();
    assert_eq!(others.create_session(config()), "sess-1");
    assert!(others.session_mut("sess-1").is_ok());
    assert_eq!(
        others.session("x").err(),
        Some(ScrcpyError::Other("invalid session id: x".to_string()))
    );
}

#[test]
fn workers_are_sent_commands() {
    let mut table: SessionTable<ApiSession<u8>> = SessionTable::new();
    let id = table.create_session(config());
    assert_eq!(table.start_session(&id, |_| false), Ok(true));
    assert_eq!(
        table.dispatch(&id, ApiCommand::Touch, |_| Ok(())),
        Err(ScrcpyError::Other("session runtime not started".to_string()))
    );
    assert_eq!(table.get_session_stats(&id, |_| None), Ok(SessionStats::zero()));
    assert_eq!(table.set_worker(&id, 5), Ok(None));
    assert_eq!(table.start_session(&id, |_| true), Ok(false));
    assert_eq!(table.dispatch(&id, ApiCommand::Touch, |_| Ok(())), Ok(()));
    let names = [
        (ApiCommand::Touch, "touch"),
        (ApiCommand::Key, "key"),
        (ApiCommand::Scroll, "scroll"),
        (ApiCommand::Text, "text"),
        (ApiCommand::SystemKey, "system key"),
        (ApiCommand::Clipboard, "clipboard"),
        (ApiCommand::Orientation, "orientation"),
        (ApiCommand::RequestIdr, "request idr"),
    ];
    for (command, name) in names {
        assert_eq!(
            table.dispatch(&id, command, |w| Err(format!("closed {}", w))),
            Err(ScrcpyError::Other(format!("send {} command failed: closed 5", name)))
        );
    }
    assert_eq!(
        table.get_session_stats(&id, |_| None),
        Err(ScrcpyError::Other("session stats lock poisoned".to_string()))
    );
    assert_eq!(table.stop_session(&id), Ok(Some(5)));
    assert_eq!(table.stop_session(&id), Ok(None));
    assert!(table.dispatch("x", ApiCommand::Key, |_| Ok(())).is_err());
}

#[test]
fn settings_are_mapped() {
    let mapped = map_client_config(&config());
    assert_eq!((mapped.video_port, mapped.control_port, mapped.intra_refresh_period), (3, 4, 5));
    assert_eq!(mapped.scrcpy_log_level, "debug");
    assert_eq!(output_mode(RenderPipelineMode::CpuPixelBufferV2), DecoderOutputMode::CpuBgra);
    let decode = map_decode_config(DecoderMode::ForceHardware, RenderPipelineMode::Original);
    assert_eq!(decode.decoder_mode, DecoderMode::ForceHardware);
    assert_eq!(decode.output_mode, DecoderOutputMode::GpuShared);
    assert_eq!(
        stay_awake_args(&config()).unwrap(),
        ["-s", "dev", "shell", "svc power stayon true"]
    );
    assert!(stay_awake_args(&SessionConfig { stay_awake: false, ..config() }).is_none());
}

#[test]
fn events_are_mapped() {
    let touch = TouchEvent {
        action: AndroidMotionEventAction::HoverExit,
        pointer_id: 1,
        x: 2,
        y: 3,
        pressure: 4,
        width: 5,
        height: 6,
        buttons: 7,
    };
    let mapped = map_touch_event(touch);
    assert_eq!(mapped.action, control::AndroidMotionEventAction::HoverExit);
    assert_eq!((mapped.x, mapped.y, mapped.pressure, mapped.buttons), (2, 3, 4, 7));
    let key = KeyEvent { action: AndroidKeyEventAction::Up, keycode: 1, repeat: 2, metastate: 3 };
    assert_eq!(map_key_event(key).metastate, 3);
    let scroll = ScrollEvent { x: 1, y: 2, width: 3, height: 4, hscroll: 5, vscroll: -6 };
    assert_eq!(map_scroll_event(scroll).vscroll, -6);
    assert_eq!(system_key_to_keycode(SystemKey::Recent), Some(187));
    assert_eq!(system_key_to_keycode(SystemKey::RotateScreen), None);
    match handle_runtime_command(RuntimeCommand::SystemKey(SystemKey::Back)) {
        WorkerAction::Keys(keys) => {
            assert_eq!(keys.len(), 2);
            assert_eq!(keys[0].keycode, 4);
            assert_eq!(keys[1].action, control::AndroidKeyEventAction::Up);
        }
        other => panic!("{:?}", other),
    }
    match handle_runtime_command(RuntimeCommand::SystemKey(SystemKey::RotateScreen)) {
        WorkerAction::Keys(keys) => assert!(keys.is_empty()),
        other => panic!("{:?}", other),
    }
}

#[test]
fn orientation_commands_fall_back() {
    let plan = adb_set_orientation_mode(OrientationMode::Landscape);
    assert_eq!(plan.first, "cmd window user-rotation lock 1");
    assert_eq!(
        plan.fallback,
        [
            "settings put system accelerometer_rotation 0",
            "settings put system user_rotation 1"
        ]
    );
    assert!(matches!(
        orientation_event(OrientationMode::Auto, Ok(())),
        SessionEvent::OrientationChanged { mode: OrientationMode::Auto, .. }
    ));
    match orientation_event(OrientationMode::Auto, Err(ScrcpyError::DeviceNotFound)) {
        SessionEvent::Error { message, .. } => {
            assert_eq!(message, "set orientation failed: Device not found")
        }
        other => panic!("{:?}", other),
    }
    let failed = CommandOutcome::Finished {
        success: false,
        stdout: Vec::new(),
        stderr: b"bad".to_vec(),
    };
    assert_eq!(adb_execute(failed).unwrap_err().message(), "Other error: adb command failed: bad");
    let missing = CommandOutcome::NotRun("x".to_string());
    assert_eq!(adb_execute(missing).unwrap_err().message(), "Other error: adb execute failed: x");
}

#[test]
fn workers_go_on_reconnect_or_end() {
    let handled = WorkerEvent::Handled { stop: false };
    assert_eq!(worker_step(handled, true, false), WorkerStep::Continue);
    assert_eq!(worker_step(handled, true, true), WorkerStep::Reconnect { wait_ms: 120 });
    assert_eq!(worker_step(handled, false, true), WorkerStep::Exit);
    assert_eq!(worker_step(WorkerEvent::Handled { stop: true }, true, true), WorkerStep::Exit);
    assert_eq!(worker_step(WorkerEvent::ChannelClosed, true, false), WorkerStep::Exit);
    let restarted = |failed| WorkerEvent::Restarted { failed };
    assert_eq!(worker_step(restarted(true), true, false), WorkerStep::Exit);
    assert_eq!(worker_step(restarted(false), true, true), WorkerStep::Continue);
    assert_eq!(
        worker_step(WorkerEvent::Pumped { failed: true }, true, false),
        WorkerStep::Exit
    );
}

#[test]
fn log_lines() {
    assert_eq!(log_line("a::b", &[]), "target=a::b");
    assert_eq!(
        log_line("a", &["x=1".to_string(), "y=2".to_string()]),
        "target=a x=1, y=2"
    );
    let mut logger = LoggerState::new();
    assert_eq!(
        logger.on_logger_setup(Err("taken".to_string())),
        Err(ScrcpyError::Other("setup logger failed: taken".to_string()))
    );
    assert!(logger.needs_setup());
    assert_eq!(logger.on_logger_setup(Ok(())), Ok(()));
    assert!(!logger.needs_setup());
    match runtime_init_event("x") {
        SessionEvent::Error { message, .. } => assert_eq!(message, "runtime init failed: x"),
        other => panic!("{:?}", other),
    }
}

#[test]
fn what_a_worker_connects_with() {
    let mut asked = config();
    asked.turn_screen_off = false;
    let runtime = RealSessionRuntime::new("sess-1".to_string(), asked.clone());
    let profile = runtime.encoding_profile();
    assert_eq!(profile.max_size, asked.max_size);
    assert_eq!(profile.video_encoder, asked.video_encoder);
    assert_eq!(profile.scrcpy_log_level, asked.scrcpy_verbosity);
    assert!(!profile.force_landscape);
    assert_eq!(runtime.message_after_connect(), None);
    asked.turn_screen_off = true;
    let runtime = RealSessionRuntime::new("sess-1".to_string(), asked);
    assert_eq!(runtime.message_after_connect(), Some(vec![10, 0]));
}

#[test]
fn a_worker_that_is_behind_loses_frames() {
    let gone = |text: &str| Err(ScrcpyError::Other(text.to_string()));
    assert_eq!(frame_handed_on(SendOutcome::Sent), Ok(()));
    assert_eq!(frame_handed_on(SendOutcome::Full), Ok(()));
    assert_eq!(
        frame_handed_on(SendOutcome::Disconnected),
        gone("decoded frame send disconnected")
    );
    assert_eq!(event_handed_on(SendOutcome::Full), Ok(()));
    assert_eq!(
        event_handed_on(SendOutcome::Disconnected),
        gone("pipeline event send disconnected")
    );
}

#[test]
fn a_disposed_session_stays_unknown() {
    let mut table: SessionTable<ApiSession<u8>> = SessionTable::new();
    let id = table.create_session(config());
    let kept = table.create_session(config());
    assert!(table.dispose_session(&id).is_ok());
    let unknown = ScrcpyError::Other(format!("invalid session id: {}", id));
    for _ in 0..3 {
        assert_ne!(table.create_session(config()), id);
        assert_eq!(table.start_session(&id, |_| true), Err(unknown.clone()));
        assert_eq!(table.set_worker(&id, 1), Err(unknown.clone()));
        assert_eq!(table.stop_session(&id), Err(unknown.clone()));
        assert_eq!(table.dispose_session(&id), Err(unknown.clone()));
        assert_eq!(table.dispatch(&id, ApiCommand::Touch, |_| Ok(())), Err(unknown.clone()));
        assert_eq!(table.get_session_stats(&id, |_| None), Err(unknown.clone()));
    }
    assert_eq!(table.start_session(&kept, |_| true), Ok(true));
}
