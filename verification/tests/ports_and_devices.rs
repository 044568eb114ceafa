use rust_scrcpy::adb::{AdbClient, CommandOutcome};
use rust_scrcpy::device::{
    bare_device, cached_profile, get_basic_device_info, get_device_info, list_devices,
    parse_any_size, parse_wm_size, probed_profile, CacheRead, DeviceCache, DeviceProfileSnapshot,
    DeviceQuery, DeviceReadings, SaveStep,
};
use rust_scrcpy::error::ScrcpyError;
use rust_scrcpy::input::ScrcpyInputMode;
use rust_scrcpy::model::OrientationMode;
use rust_scrcpy::port::{find_available_port, find_session_ports, SessionPorts};
use rust_scrcpy::server::{
    commands_after_connect, map_orientation, period_after_failure, set_screen_orientation_mode,
    ConnectStep, EncodingProfile, HeaderPart, PeekOutcome, ReadyStep, ScreenOrientationMode,
    ScrcpyClient, ScrcpyClientConfig, ScrcpyConnect, ScrcpyServer, StartStage, StartStep, Wording,
};
use rust_scrcpy::text::{
    eq_ignoring_ascii_case, has_text, parse_u32, split_lines, split_words, to_ascii_lowercase,
    to_chars, to_decimal, trimmed,
};

#[test]
fn test_find_available_port() {
    let result = find_available_port(50000, 100, |_port| true);
    assert!(result.is_ok());
    let port = result.unwrap();
    assert!(port >= 50000 && port <= 50100);
    println!("Found available port: {}", port);
}

#[test]
fn port_test_find_available_port() {
    let result = find_available_port(50000, 100, |port| port > 50003);
    assert!(result.is_ok());
    let port = result.expect("expected available port");
    assert!((50000..=50100).contains(&port));
    assert_eq!(port, 50004);
}

#[test]
fn no_free_port_is_an_error_with_the_range() {
    assert_eq!(
        find_available_port(50000, 100, |_port| false),
        Err(ScrcpyError::NoAvailablePort(50000, 50100))
    );
    assert_eq!(
        find_available_port(65530, 100, |_port| false),
        Err(ScrcpyError::NoAvailablePort(65530, 65535))
    );
    assert_eq!(
        ScrcpyError::NoAvailablePort(1, 2).message(),
        "No available port found in range 1-2"
    );
    assert_eq!(find_available_port(65535, 100, |_port| true), Ok(65535));
}

#[test]
fn the_control_port_lies_behind_the_video_port() {
    let ports = find_session_ports(27183, 27184, |_port| true).unwrap();
    assert_eq!(ports, SessionPorts { video: 27183, control: 27184 });
    let ports = find_session_ports(27183, 27184, |port| port == 27185 || port == 27186).unwrap();
    assert_eq!(ports, SessionPorts { video: 27185, control: 27186 });
    let ports = find_session_ports(27183, 27183, |port| port != 27183).unwrap();
    assert_eq!(ports, SessionPorts { video: 27184, control: 27185 });
    let ports = find_session_ports(27183, 30000, |port| port != 30000).unwrap();
    assert_eq!(ports, SessionPorts { video: 27183, control: 30001 });
    assert_eq!(
        find_session_ports(27183, 27184, |port| port == 27200),
        Err(ScrcpyError::NoAvailablePort(27201, 27301))
    );
}

#[test]
fn error_texts() {
    let errors = [
        (ScrcpyError::Adb("x".to_string()), "ADB error: x"),
        (ScrcpyError::DeviceNotFound, "Device not found"),
        (ScrcpyError::Io("x".to_string()), "IO error: x"),
        (ScrcpyError::Network("x".to_string()), "Network error: x"),
        (ScrcpyError::VideoStream("x".to_string()), "Video stream error: x"),
        (ScrcpyError::Parse("x".to_string()), "Parse error: x"),
        (ScrcpyError::Decode("x".to_string()), "Decode error: x"),
        (ScrcpyError::Other("x".to_string()), "Other error: x"),
    ];
    for (error, text) in errors {
        assert_eq!(error.message(), text);
    }
}

#[test]
fn texts_are_taken_apart() {
    assert_eq!(trimmed(" \t a b\u{3000}"), "a b");
    assert_eq!(to_decimal(0), "0");
    assert_eq!(to_decimal(u64::MAX), u64::MAX.to_string());
    assert_eq!(parse_u32(&to_chars("+42")), Some(42));
    assert_eq!(parse_u32(&to_chars("4294967296")), None);
    assert_eq!(parse_u32(&to_chars("")), None);
    assert_eq!(split_lines(&to_chars("a\r\n\nb")).len(), 3);
    assert_eq!(split_words(&to_chars(" a  bc ")).len(), 2);
    assert!(has_text("an error here", "error"));
    assert!(eq_ignoring_ascii_case("UnKnown", "unknown"));
    assert_eq!(to_ascii_lowercase("AbÉ"), "abÉ");
}

#[test]
fn adb_arguments() {
    assert_eq!(AdbClient::devices_args(), ["devices"]);
    assert_eq!(AdbClient::push("d", "l", "r"), ["-s", "d", "push", "l", "r"]);
    assert_eq!(AdbClient::shell("d", "wm size"), ["-s", "d", "shell", "wm size"]);
    assert_eq!(
        AdbClient::forward("d", 27183, "localabstract:scrcpy"),
        ["-s", "d", "forward", "tcp:27183", "localabstract:scrcpy"]
    );
    assert_eq!(
        AdbClient::forward_remove("d", 27183),
        ["-s", "d", "forward", "--remove", "tcp:27183"]
    );
    assert_eq!(AdbClient::new("adb".to_string()).adb_path, "adb");
}

#[test]
fn adb_outcomes() {
    let good = CommandOutcome::Finished {
        success: true,
        stdout: vec![b'o', b'k', 0xff],
        stderr: Vec::new(),
    };
    assert_eq!(AdbClient::execute(good), Ok("ok\u{fffd}".to_string()));
    let bad = CommandOutcome::Finished {
        success: false,
        stdout: Vec::new(),
        stderr: b"no device".to_vec(),
    };
    assert_eq!(
        AdbClient::execute(bad),
        Err(ScrcpyError::Adb("ADB command failed: no device".to_string()))
    );
    assert_eq!(
        AdbClient::execute(CommandOutcome::NotRun("missing".to_string())),
        Err(ScrcpyError::Adb("Failed to execute ADB: missing".to_string()))
    );
}

#[test]
fn ready_devices_are_listed() {
    let output = "List of devices attached\nabc\tdevice\ndef\toffline\n192.168.0.2:5555\tdevice\n\n";
    assert_eq!(AdbClient::list_devices(output), ["abc", "192.168.0.2:5555"]);
    assert!(AdbClient::list_devices("").is_empty());
    let infos = list_devices(output);
    assert_eq!(infos.len(), 2);
    assert_eq!(infos[1].device_id, "192.168.0.2:5555");
    assert_eq!(infos[0].model, "Unknown");
    assert_eq!(bare_device("x".to_string()).android_version, "Unknown");
}

#[test]
fn screen_sizes() {
    let output = "Override size: 1080x2400\nPhysical size: 1440x3200\n";
    assert_eq!(parse_wm_size(output), Ok((1440, 3200)));
    assert_eq!(parse_any_size(output), Some((1080, 2400)));
    assert_eq!(parse_wm_size("1080x2400"), Ok((1080, 2400)));
    assert_eq!(
        parse_wm_size("nothing"),
        Err(ScrcpyError::Parse("无法解析 wm size 输出: nothing".to_string()))
    );
    assert_eq!(parse_any_size("Physical size: 0x10"), None);
}

#[test]
fn a_probed_device_is_remembered() {
    let mut cache = DeviceCache::new();
    assert!(cached_profile(&cache, "d").is_none());
    let profile =
        probed_profile(&mut cache, "d", " Pixel \n", "14\n", "Physical size: 1080x2400").unwrap();
    assert_eq!(profile.model, "Pixel");
    assert_eq!((profile.screen_width, profile.screen_height), (1080, 2400));
    let again = cached_profile(&cache, "d").unwrap();
    assert_eq!(again.android_version, "14");
    assert_eq!(cache.device_ids(), ["d"]);
    assert!(probed_profile(&mut cache, "e", "m", "1", "bad").is_err());
    assert!(cache.get("e").is_none());
    cache.upsert(DeviceProfileSnapshot {
        device_id: "d".to_string(),
        model: "Other".to_string(),
        android_version: "15".to_string(),
        screen_width: 1,
        screen_height: 2,
    });
    assert_eq!(cache.get("d").unwrap().model, "Other");
}

#[test]
fn a_saved_cache_loads_as_it_was() {
    let mut cache = DeviceCache::load(CacheRead::Missing).unwrap();
    assert!(cache.device_ids().is_empty());
    probed_profile(&mut cache, "b", "B", "14", "1x2").unwrap();
    probed_profile(&mut cache, "a", "A", "13", "3x4").unwrap();
    let loaded = DeviceCache::load(CacheRead::Entries(cache.entries())).unwrap();
    assert_eq!(loaded.device_ids(), ["a", "b"]);
    assert_eq!(loaded.get("a").unwrap().screen_width, 3);
    assert_eq!(
        DeviceCache::load(CacheRead::Unreadable("x".to_string())).unwrap_err(),
        ScrcpyError::Other("读取设备缓存失败: x".to_string())
    );
    assert_eq!(
        DeviceCache::load(CacheRead::Unparsable("x".to_string())).unwrap_err(),
        ScrcpyError::Other("解析设备缓存失败: x".to_string())
    );
    let texts = [
        (SaveStep::MakeDirectory, "创建设备缓存目录失败: x"),
        (SaveStep::MakeText, "序列化设备缓存失败: x"),
        (SaveStep::WriteFile, "写入设备缓存失败: x"),
    ];
    for (step, text) in texts {
        assert_eq!(DeviceCache::save_error(step, "x"), ScrcpyError::Other(text.to_string()));
    }
}

fn text(s: &str) -> Option<String> {
    Some(s.to_string())
}

#[test]
fn device_names() {
    let readings = DeviceReadings {
        brand: text("Google\n"),
        manufacturer: text("Google"),
        model: text("Pixel 8"),
        android_version: text("14"),
        sdk: text("34"),
        wm_size: text("Physical size: 1080x2400"),
    };
    let info = get_device_info("d".to_string(), &readings);
    assert_eq!(info.model, "Google Pixel 8");
    assert_eq!(info.android_version, "14 (SDK 34)");
    assert_eq!((info.width, info.height), (1080, 2400));
    let silent = DeviceReadings {
        brand: None,
        manufacturer: text("Acme"),
        model: None,
        android_version: None,
        sdk: text("34"),
        wm_size: None,
    };
    let info = get_device_info("d".to_string(), &silent);
    assert_eq!(info.model, "Acme");
    assert_eq!(info.android_version, "Unknown");
    assert_eq!((info.width, info.height), (0, 0));
    let branded = DeviceReadings {
        brand: text("GOOGLE"),
        manufacturer: None,
        model: text("google pixel"),
        android_version: text("14"),
        sdk: None,
        wm_size: None,
    };
    assert_eq!(get_device_info("d".to_string(), &branded).model, "google pixel");
    let basic = get_basic_device_info("d".to_string(), &text(" m "), &None, &text("1x2"));
    assert_eq!((basic.model.as_str(), basic.android_version.as_str()), ("m", "Unknown"));
}

fn server(wording: Wording) -> ScrcpyConnect {
    ScrcpyConnect::with_config(
        wording,
        "dev".to_string(),
        "/tmp/server.jar".to_string(),
        1920,
        4_000_000,
        60,
        SessionPorts { video: 27183, control: 27184 },
        1,
        None,
        |_port| true,
    )
    .unwrap()
}

#[test]
fn the_server_command_is_as_documented() {
    let mut s: ScrcpyServer = server(Wording::English);
    assert!(!s.is_framed_stream_enabled());
    assert_eq!(
        s.server_args(),
        "CLASSPATH=/data/local/tmp/scrcpy-server.jar app_process / \
         com.genymobile.scrcpy.Server 3.3.4 log_level=info max_size=1920 \
         video_bit_rate=4000000 max_fps=60 video_codec_options=i-frame-interval=1 \
         tunnel_forward=true send_device_meta=false send_frame_meta=false \
         send_dummy_byte=true send_codec_meta=false raw_stream=true audio=false \
         control=true cleanup=true"
    );
    s.set_framed_stream_enabled(true);
    s.set_intra_refresh_period(0);
    s.max_size = 0;
    s.max_fps = 0;
    s.video_encoder = Some("c2.enc".to_string());
    assert_eq!(s.intra_refresh_period(), 0);
    assert_eq!(
        s.server_args(),
        "CLASSPATH=/data/local/tmp/scrcpy-server.jar app_process / \
         com.genymobile.scrcpy.Server 3.3.4 log_level=info video_bit_rate=4000000 \
         video_encoder=c2.enc tunnel_forward=true send_device_meta=false \
         send_frame_meta=true send_dummy_byte=true send_codec_meta=true raw_stream=false \
         audio=false control=true cleanup=true"
    );
}

#[test]
fn starting_and_stopping_the_server() {
    let s = server(Wording::Chinese);
    let done = || CommandOutcome::Finished { success: true, stdout: vec![], stderr: vec![] };
    let failed = || CommandOutcome::Finished {
        success: false,
        stdout: vec![],
        stderr: b"cannot bind".to_vec(),
    };
    match s.start() {
        StartStep::Forward { stage: StartStage::ForwardVideo, args } => {
            assert_eq!(args, ["-s", "dev", "forward", "tcp:27183", "localabstract:scrcpy"])
        }
        other => panic!("{:?}", other),
    }
    match s.on_forwarded(StartStage::ForwardVideo, done()) {
        StartStep::Forward { stage: StartStage::ForwardControl, args } => {
            assert_eq!(args, ["-s", "dev", "forward", "tcp:27184", "localabstract:scrcpy"])
        }
        other => panic!("{:?}", other),
    }
    match s.on_forwarded(StartStage::ForwardControl, done()) {
        StartStep::RunServer { args } => {
            assert_eq!(args[..3], ["-s", "dev", "shell"]);
            assert_eq!(args[3], s.server_args());
        }
        other => panic!("{:?}", other),
    }
    for stage in [StartStage::ForwardVideo, StartStage::ForwardControl] {
        match s.on_forwarded(stage, failed()) {
            StartStep::Failed(e) => {
                assert_eq!(e, ScrcpyError::Adb("ADB 命令失败: cannot bind".to_string()))
            }
            other => panic!("{:?}", other),
        }
    }
    let (video, control) = s.stop();
    assert_eq!(video, ["-s", "dev", "forward", "--remove", "tcp:27183"]);
    assert_eq!(control, ["-s", "dev", "forward", "--remove", "tcp:27184"]);
    assert_eq!(s.set_stay_awake(false), ["-s", "dev", "shell", "svc power stayon false"]);
}

#[test]
fn putting_the_server_on_the_device() {
    let s = server(Wording::English);
    assert_eq!(
        s.deploy(true, "\"/tmp/server.jar\"", Some("/tmp/server.jar")).unwrap(),
        ["-s", "dev", "push", "/tmp/server.jar", "/data/local/tmp/scrcpy-server.jar"]
    );
    assert_eq!(
        s.deploy(false, "\"/x\"", Some("/x")).unwrap_err(),
        ScrcpyError::Io("Server file not found: \"/x\"".to_string())
    );
    assert_eq!(
        s.deploy(true, "\"/x\"", None).unwrap_err(),
        ScrcpyError::Parse("Invalid server path".to_string())
    );
    let c = server(Wording::Chinese);
    assert_eq!(
        c.deploy(false, "\"/x\"", None).unwrap_err(),
        ScrcpyError::Io("未找到 server 文件: \"/x\"".to_string())
    );
}

#[test]
fn a_server_gets_ready() {
    let s = server(Wording::English);
    assert!(matches!(s.on_ready_poll(0, false, None), ReadyStep::PollAgainAfter(100)));
    assert!(matches!(s.on_ready_poll(200, true, Some("1")), ReadyStep::SettleFor(120)));
    assert!(matches!(s.on_ready_poll(3000, false, Some("1")), ReadyStep::SettleFor(500)));
    match s.on_ready_poll(100, false, Some("exit status: 1")) {
        ReadyStep::Failed(e) => assert_eq!(
            e.message(),
            "ADB error: scrcpy-server exited unexpectedly before ready: exit status: 1"
        ),
        other => panic!("{:?}", other),
    }
    assert_eq!(s.start_error("x").message(), "ADB error: Failed to start server: x");
}

#[test]
fn connecting_is_tried_five_times() {
    let s = server(Wording::English);
    for attempt in 1..5 {
        assert!(matches!(s.connect_video(attempt, Some("refused")), ConnectStep::RetryAfter(500)));
    }
    match s.connect_video(5, Some("refused")) {
        ConnectStep::Failed(e) => assert_eq!(
            e,
            ScrcpyError::Network("Failed to connect after 5 attempts: refused".to_string())
        ),
        other => panic!("{:?}", other),
    }
    assert!(matches!(s.connect_video(5, None), ConnectStep::Connected));
    assert_eq!(
        s.connect_control_error("x").message(),
        "Network error: Failed to connect control: x"
    );
    assert_eq!(
        s.read_video_header_error(HeaderPart::CodecMeta, "x").message(),
        "Network error: Failed to read codec meta: x"
    );
    assert_eq!(
        server(Wording::Chinese).read_video_header_error(HeaderPart::DummyByte, "x").message(),
        "Network error: 读取 dummy byte 失败: x"
    );
}

#[test]
fn a_new_stream_is_watched() {
    let s = server(Wording::English);
    assert!(s.probe_video_stream_alive(PeekOutcome::TimedOut).is_ok());
    assert!(s.probe_video_stream_alive(PeekOutcome::Bytes(1)).is_ok());
    assert_eq!(
        s.probe_video_stream_alive(PeekOutcome::Bytes(0)).unwrap_err(),
        ScrcpyError::Network("video stream closed during startup probe".to_string())
    );
    let c = server(Wording::Chinese);
    assert_eq!(
        c.probe_video_stream_alive(PeekOutcome::Failed("x".to_string())).unwrap_err(),
        ScrcpyError::Network("视频流启动探测失败: x".to_string())
    );
    assert_eq!(
        c.adb_execute(CommandOutcome::NotRun("x".to_string())),
        Err(ScrcpyError::Adb("执行 ADB 失败: x".to_string()))
    );
}

#[test]
fn a_failed_connection_is_tried_once_more() {
    assert_eq!(period_after_failure(1), Some(0));
    assert_eq!(period_after_failure(0), None);
    assert_eq!(period_after_failure(2), None);
}

#[test]
fn orientations() {
    assert_eq!(map_orientation(OrientationMode::Landscape), ScreenOrientationMode::Landscape);
    assert_eq!(
        set_screen_orientation_mode(ScreenOrientationMode::Auto),
        ["settings put system accelerometer_rotation 1"]
    );
    assert_eq!(
        server(Wording::Chinese).set_orientation_portrait(),
        [
            "settings put system accelerometer_rotation 0",
            "settings put system user_rotation 0"
        ]
    );
    assert_eq!(
        server(Wording::Chinese).set_orientation_auto(),
        ["settings put system accelerometer_rotation 1"]
    );
    assert_eq!(
        server(Wording::Chinese).set_orientation_landscape(),
        [
            "settings put system accelerometer_rotation 0",
            "settings put system user_rotation 1"
        ]
    );
    let mut profile = EncodingProfile::default();
    assert!(commands_after_connect(&profile).is_empty());
    profile.force_landscape = true;
    profile.stay_awake = true;
    assert_eq!(
        commands_after_connect(&profile),
        [
            "settings put system accelerometer_rotation 0",
            "settings put system user_rotation 1",
            "svc power stayon true"
        ]
    );
}

#[test]
fn clients() {
    let config = ScrcpyClientConfig::default();
    assert_eq!((config.video_port, config.control_port), (27183, 27184));
    assert_eq!(config.input_mode, ScrcpyInputMode::Auto);
    assert_eq!(config.bit_rate, 8_000_000);
    let client = ScrcpyClient::new(ScrcpyClientConfig {
        device_id: "dev".to_string(),
        stay_awake: true,
        turn_screen_off: true,
        ..config
    });
    assert_eq!(client.config().scrcpy_log_level, "info");
    let conn = client.build_scrcpy_connect(|port| port != 27183).unwrap();
    assert!(conn.is_framed_stream_enabled());
    assert_eq!(conn.ports, SessionPorts { video: 27184, control: 27185 });
    assert_eq!(
        client.command_before_session(&conn).unwrap(),
        ["-s", "dev", "shell", "svc power stayon true"]
    );
    assert_eq!(client.message_after_session().unwrap(), [10, 0]);
    assert!(client.build_scrcpy_connect(|_port| false).is_err());
    let plain = ScrcpyClient::new(ScrcpyClientConfig::default());
    assert!(plain.command_before_session(&conn).is_none());
    assert!(plain.message_after_session().is_none());
}

#[test]
fn questions_to_a_device() {
    assert_eq!(DeviceQuery::Brand.command(), "getprop ro.product.brand");
    assert_eq!(DeviceQuery::Manufacturer.command(), "getprop ro.product.manufacturer");
    assert_eq!(DeviceQuery::Model.command(), "getprop ro.product.model");
    assert_eq!(DeviceQuery::AndroidVersion.command(), "getprop ro.build.version.release");
    assert_eq!(DeviceQuery::Sdk.command(), "getprop ro.build.version.sdk");
    assert_eq!(DeviceQuery::ScreenSize.command(), "wm size");
}
