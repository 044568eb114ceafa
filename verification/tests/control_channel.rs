use rust_scrcpy::control::{
    flush_error, AckStep, AckWait, AndroidKeyEventAction, AndroidMotionEventAction, ControlChannel,
    ControlMessageType, DeviceMessage, KeyEvent, ReadState, ScrollEvent, TouchEvent,
};
use rust_scrcpy::error::ScrcpyError;
use rust_scrcpy::framed_video::{
    codec_meta_len, parse_codec_meta, parse_header, parse_pts_flags, FramedVideoStreamReader,
    ReadOutcome, SC_PACKET_FLAG_CONFIG, SC_PACKET_FLAG_KEY_FRAME, SC_PACKET_PTS_MASK,
};
use rust_scrcpy::uhid::{
    android_keycode_to_hid_usage, android_modifier_keycode_to_mask, supports_android_keycode,
    UhidKeyboardState,
};
use rust_scrcpy::wire::{get_u16, get_u32, get_u64, put_i16, put_i64, put_u16, put_u32, put_u64};

fn key(action: AndroidKeyEventAction, keycode: u32) -> KeyEvent {
    KeyEvent { action, keycode, repeat: 0, metastate: 0 }
}

#[test]
fn parse_pts_flags_works() {
    let pts: u64 = 123456;
    let pts_flags = SC_PACKET_FLAG_KEY_FRAME | pts;
    let is_config = (pts_flags & SC_PACKET_FLAG_CONFIG) != 0;
    let is_keyframe = (pts_flags & SC_PACKET_FLAG_KEY_FRAME) != 0;
    let parsed_pts = pts_flags & SC_PACKET_PTS_MASK;

    assert!(!is_config);
    assert!(is_keyframe);
    assert_eq!(parsed_pts, pts);

    let parsed = parse_pts_flags(pts_flags);
    assert!(!parsed.is_config);
    assert!(parsed.is_keyframe);
    assert_eq!(parsed.pts, pts);
}

#[test]
fn big_endian_numbers_round_trip() {
    let mut out = Vec::new();
    put_u16(&mut out, 0x0102);
    put_u32(&mut out, 0x03040506);
    put_u64(&mut out, 0x0708090a0b0c0d0e);
    assert_eq!(out, (1u8..=14).collect::<Vec<u8>>());
    assert_eq!(get_u16(&out, 0), 0x0102);
    assert_eq!(get_u32(&out, 2), 0x03040506);
    assert_eq!(get_u64(&out, 6), 0x0708090a0b0c0d0e);
    let mut signed = Vec::new();
    put_i64(&mut signed, -1);
    put_i16(&mut signed, -2048);
    assert_eq!(signed, [255, 255, 255, 255, 255, 255, 255, 255, 0xf8, 0x00]);
}

#[test]
fn mouse_press_has_the_documented_bytes() {
    let message = ControlChannel::send_touch_event(&TouchEvent {
        action: AndroidMotionEventAction::Down,
        pointer_id: -1,
        x: 300,
        y: 600,
        pressure: 0xFFFF,
        width: 1080,
        height: 1920,
        buttons: 1,
    });
    assert_eq!(
        message,
        [
            0x02, 0x00, 0xff, 0xff, 0xff, 0xff, 0xff, 0xff, 0xff, 0xff, 0x00, 0x00, 0x01, 0x2c,
            0x00, 0x00, 0x02, 0x58, 0x04, 0x38, 0x07, 0x80, 0xff, 0xff, 0x00, 0x00, 0x00, 0x01,
            0x00, 0x00, 0x00, 0x01,
        ]
    );
}

#[test]
fn buttons_are_cleared_on_release_and_for_fingers() {
    let mut event = TouchEvent {
        action: AndroidMotionEventAction::Up,
        pointer_id: -1,
        x: 1,
        y: 2,
        pressure: 0,
        width: 70000,
        height: 4,
        buttons: 7,
    };
    let released = ControlChannel::send_touch_event(&event);
    assert_eq!(released.len(), 32);
    assert_eq!(released[24..], [0, 0, 0, 1, 0, 0, 0, 0]);
    assert_eq!(released[18..22], [0x11, 0x70, 0, 4]);
    event.pointer_id = 3;
    event.action = AndroidMotionEventAction::Move;
    let finger = ControlChannel::send_touch_event(&event);
    assert_eq!(finger[24..], [0; 8]);
    assert_eq!(finger[1], 2);
}

#[test]
fn scrolling_down_has_the_documented_bytes() {
    let message = ControlChannel::send_scroll_event(&ScrollEvent {
        x: 1063,
        y: 880,
        width: 1440,
        height: 2960,
        hscroll: 0,
        vscroll: -1,
    });
    assert_eq!(
        message,
        [
            0x03, 0x00, 0x00, 0x04, 0x27, 0x00, 0x00, 0x03, 0x70, 0x05, 0xa0, 0x0b, 0x90, 0x00,
            0x00, 0xf8, 0x00, 0x00, 0x00, 0x00, 0x00,
        ]
    );
}

#[test]
fn scrolling_is_kept_within_sixteen_bits() {
    let message = ControlChannel::send_scroll_event(&ScrollEvent {
        x: -1,
        y: 0,
        width: 1,
        height: 1,
        hscroll: 16,
        vscroll: -17,
    });
    assert_eq!(message[1..5], [0xff; 4]);
    assert_eq!(message[13..17], [0x7f, 0xff, 0x80, 0x00]);
}

#[test]
fn key_messages_have_fourteen_bytes() {
    let message = ControlChannel::send_key_event(&KeyEvent {
        action: AndroidKeyEventAction::Up,
        keycode: 66,
        repeat: 2,
        metastate: 0x1000,
    });
    assert_eq!(message, [0, 1, 0, 0, 0, 66, 0, 0, 0, 2, 0, 0, 0x10, 0]);
    let taps = ControlChannel::send_back_key();
    assert_eq!(taps.len(), 2);
    assert_eq!(taps[0], ControlChannel::send_key_event(&key(AndroidKeyEventAction::Down, 4)));
    assert_eq!(taps[1], ControlChannel::send_key_event(&key(AndroidKeyEventAction::Up, 4)));
    assert_eq!(ControlChannel::send_home_key()[0][5], 3);
}

#[test]
fn short_messages_are_as_documented() {
    assert_eq!(ControlChannel::send_text("aé"), [1, 0, 0, 0, 3, b'a', 0xc3, 0xa9]);
    assert_eq!(ControlChannel::set_display_power(false), [10, 0]);
    assert_eq!(ControlChannel::set_display_power(true), [10, 1]);
    assert_eq!(ControlChannel::send_rotate_device(), [11]);
    assert_eq!(ControlChannel::send_reset_video(), [17]);
    assert_eq!(ControlChannel::send_uhid_destroy(0x0102), [14, 1, 2]);
    assert_eq!(
        ControlChannel::send_uhid_input(1, &[9, 8]).unwrap(),
        [13, 0, 1, 0, 2, 9, 8]
    );
    assert_eq!(
        ControlChannel::send_uhid_create_keyboard(1, 0x18D1, 0x4EE7, "kb", &[5, 1]).unwrap(),
        [12, 0, 1, 0x18, 0xd1, 0x4e, 0xe7, 2, b'k', b'b', 0, 2, 5, 1]
    );
}

#[test]
fn oversized_reports_are_refused() {
    let name = "n".repeat(256);
    let error = ControlChannel::send_uhid_create_keyboard(1, 1, 1, &name, &[]).unwrap_err();
    assert_eq!(error, ScrcpyError::Other("UHID 键盘名称过长: 256".to_string()));
    let long = vec![0u8; 65536];
    let error = ControlChannel::send_uhid_create_keyboard(1, 1, 1, "n", &long).unwrap_err();
    assert_eq!(error, ScrcpyError::Other("UHID 报告描述符过长: 65536".to_string()));
    let error = ControlChannel::send_uhid_input(1, &long).unwrap_err();
    assert_eq!(error, ScrcpyError::Other("UHID 输入报告过长: 65536".to_string()));
    assert!(ControlChannel::send_uhid_input(1, &long[1..]).is_ok());
}

#[test]
fn clipboard_messages_are_numbered_unless_they_paste() {
    let mut control = ControlChannel::new();
    let pasted = control.set_clipboard("hi", true);
    assert_eq!(pasted.message, [9, 0, 0, 0, 0, 0, 0, 0, 0, 1, 0, 0, 0, 2, b'h', b'i']);
    assert_eq!(pasted.wait_for, None);
    let first = control.set_clipboard("hi", false);
    assert_eq!(first.message, [9, 0, 0, 0, 0, 0, 0, 0, 1, 0, 0, 0, 0, 2, b'h', b'i']);
    assert_eq!(first.wait_for, Some(1));
    assert_eq!(control.set_clipboard("", false).wait_for, Some(2));
}

#[test]
fn acknowledgements_and_clipboard_texts_are_kept() {
    let mut control = ControlChannel::new();
    control.poll_device_messages(vec![
        DeviceMessage::Clipboard("a".to_string()),
        DeviceMessage::AckClipboard(7),
    ]);
    assert!(control.take_ack(vec![DeviceMessage::Clipboard("b".to_string())], 7));
    assert!(!control.take_ack(Vec::new(), 7));
    assert_eq!(
        control.take_clipboard_updates(vec![DeviceMessage::Clipboard("c".to_string())]),
        ["a", "b", "c"]
    );
    assert!(control.take_clipboard_updates(Vec::new()).is_empty());
}

#[test]
fn waiting_for_an_acknowledgement() {
    let mut control = ControlChannel::new();
    let waited = |text: &str| AckStep::Done(Err(ScrcpyError::Network(text.to_string())));
    assert_eq!(control.wait_clipboard_ack(Vec::new(), 5), AckStep::WaitFor(500));
    let other = || AckWait::Message(DeviceMessage::AckClipboard(4));
    assert_eq!(control.on_ack_wait(5, 120, other()), AckStep::WaitFor(380));
    assert_eq!(
        control.on_ack_wait(5, 499, AckWait::Message(DeviceMessage::AckClipboard(5))),
        AckStep::Done(Ok(()))
    );
    assert_eq!(control.wait_clipboard_ack(Vec::new(), 4), AckStep::Done(Ok(())));
    assert_eq!(
        control.wait_clipboard_ack(vec![DeviceMessage::AckClipboard(9)], 9),
        AckStep::Done(Ok(()))
    );
    assert_eq!(control.on_ack_wait(5, 0, AckWait::Closed), waited("控制通道设备消息接收器已关闭"));
    let late = "等待剪贴板 ACK 超时: sequence=5";
    assert_eq!(control.on_ack_wait(5, 499, AckWait::TimedOut), AckStep::WaitFor(1));
    assert_eq!(control.on_ack_wait(5, 500, AckWait::TimedOut), waited(late));
    assert_eq!(control.on_ack_wait(5, 500, other()), waited(late));
}

fn read_all(bytes: &[u8]) -> (ReadState, Vec<DeviceMessage>) {
    let mut state = ReadState::Kind;
    let mut at = 0;
    let mut out = Vec::new();
    loop {
        let n = state.wanted();
        if matches!(state, ReadState::Stopped) || at + n > bytes.len() || at == bytes.len() {
            return (state, out);
        }
        let (next, message) = state.on_bytes(&bytes[at..at + n]);
        at += n;
        state = next;
        if let Some(m) = message {
            out.push(m);
        }
    }
}

#[test]
fn device_messages_are_read_back() {
    let mut bytes = vec![0, 0, 0, 0, 3];
    bytes.extend_from_slice("a€".as_bytes());
    bytes[4] = 4;
    bytes.extend_from_slice(&[2, 0, 1, 0, 2, 0xaa, 0xbb]);
    bytes.extend_from_slice(&[1, 0, 0, 0, 0, 0, 0, 1, 0]);
    let (state, messages) = read_all(&bytes);
    assert_eq!(state, ReadState::Kind);
    assert_eq!(
        messages,
        [DeviceMessage::Clipboard("a€".to_string()), DeviceMessage::AckClipboard(256)]
    );
}

#[test]
fn broken_clipboard_text_is_repaired() {
    let (_, messages) = read_all(&[0, 0, 0, 0, 2, b'x', 0xff]);
    assert_eq!(messages, [DeviceMessage::Clipboard("x\u{fffd}".to_string())]);
}

#[test]
fn an_unknown_device_message_ends_the_reading() {
    let (state, messages) = read_all(&[9, 1, 2]);
    assert_eq!(state, ReadState::Stopped);
    assert!(messages.is_empty());
}

#[test]
fn action_numbers_round_trip() {
    for code in 0u8..=12 {
        match AndroidMotionEventAction::from_code(code) {
            Ok(action) => assert_eq!(action.code(), code),
            Err(text) => {
                assert!([4, 8, 11, 12].contains(&code));
                assert_eq!(text, format!("Invalid action value: {}", code));
            }
        }
    }
    assert_eq!(AndroidKeyEventAction::from_code(1), Ok(AndroidKeyEventAction::Up));
    assert_eq!(
        AndroidKeyEventAction::from_code(2),
        Err("Invalid key action value: 2".to_string())
    );
}

#[test]
fn write_errors_name_the_message() {
    assert_eq!(
        ControlMessageType::InjectTouch.write_error("broken pipe"),
        ScrcpyError::Network("Failed to send touch event: broken pipe".to_string())
    );
    assert_eq!(
        ControlMessageType::UhidInput.write_error("x").message(),
        "Network error: 发送 UHID 输入报告失败: x"
    );
    assert_eq!(
        flush_error("x"),
        ScrcpyError::Network("刷新控制通道失败: x".to_string())
    );
    assert_eq!(ControlMessageType::ResetVideo.code(), 17);
}

#[test]
fn packet_headers_are_read() {
    let mut header = Vec::new();
    put_u64(&mut header, SC_PACKET_FLAG_KEY_FRAME | 77);
    put_u32(&mut header, 5);
    let parsed = parse_header(&header).unwrap();
    assert!(parsed.is_keyframe);
    assert!(!parsed.is_config);
    assert_eq!(parsed.pts_us, Some(77));
    assert_eq!(parsed.size, 5);
    let mut config = Vec::new();
    put_u64(&mut config, SC_PACKET_FLAG_CONFIG);
    put_u32(&mut config, 1);
    let parsed = parse_header(&config).unwrap();
    assert!(parsed.is_config);
    assert_eq!(parsed.pts_us, None);
    config[11] = 0;
    assert_eq!(
        parse_header(&config).unwrap_err(),
        ScrcpyError::VideoStream("invalid framed packet: size=0".to_string())
    );
}

#[test]
fn packets_are_read_and_counted() {
    let mut reader = FramedVideoStreamReader::new();
    let mut header = Vec::new();
    put_u64(&mut header, SC_PACKET_FLAG_CONFIG);
    put_u32(&mut header, 3);
    let parsed = reader.on_header(ReadOutcome::Data(header)).unwrap().unwrap();
    let packet = reader.on_payload(parsed, ReadOutcome::Data(vec![4, 5, 6])).unwrap().unwrap();
    assert!(packet.is_config);
    assert_eq!(packet.to_vec(), [4, 5, 6]);
    assert_eq!(reader.packet_count(), 1);
    assert!(reader.on_header(ReadOutcome::EndOfStream).unwrap().is_none());
    assert_eq!(
        reader.on_header(ReadOutcome::Failed("reset".to_string())).unwrap_err(),
        ScrcpyError::VideoStream("read packet header failed: reset".to_string())
    );
}

#[test]
fn the_beginning_of_a_stream_names_codec_and_size() {
    assert_eq!(codec_meta_len(true), 12);
    assert_eq!(codec_meta_len(false), 0);
    let meta = parse_codec_meta(&[b'h', b'2', b'6', b'4', 0, 0, 4, 0x38, 0, 0, 7, 0x80]);
    assert_eq!(meta.codec_id, 0x68323634);
    assert_eq!((meta.width, meta.height), (1080, 1920));
}

#[test]
fn key_tables() {
    let modifiers = [113, 59, 57, 117, 114, 60, 58, 118];
    for (bit, keycode) in modifiers.into_iter().enumerate() {
        assert_eq!(android_modifier_keycode_to_mask(keycode), Some(1 << bit));
    }
    assert_eq!(android_modifier_keycode_to_mask(29), None);
    assert_eq!(android_keycode_to_hid_usage(29), Some(0x04));
    assert_eq!(android_keycode_to_hid_usage(54), Some(0x1d));
    assert!(supports_android_keycode(59));
    assert!(supports_android_keycode(29));
    assert!(!supports_android_keycode(3));
}

#[test]
fn held_keys_show_in_the_report() {
    let mut keyboard = UhidKeyboardState::new();
    assert_eq!(keyboard.to_report(), [0; 8]);
    keyboard.update_key(AndroidKeyEventAction::Down, 59);
    keyboard.update_key(AndroidKeyEventAction::Down, 30);
    keyboard.update_key(AndroidKeyEventAction::Down, 29);
    keyboard.update_key(AndroidKeyEventAction::Down, 29);
    assert_eq!(keyboard.to_report(), [0x02, 0, 5, 4, 0, 0, 0, 0]);
    keyboard.update_key(AndroidKeyEventAction::Up, 30);
    keyboard.update_key(AndroidKeyEventAction::Up, 59);
    assert_eq!(keyboard.to_report()[0], 0);
    assert_eq!(keyboard.to_report()[2], 4);
    keyboard.release_all();
    assert_eq!(keyboard.to_report(), [0; 8]);
}

#[test]
fn the_oldest_of_six_keys_gives_way() {
    let mut keyboard = UhidKeyboardState::default();
    for keycode in 29..36 {
        keyboard.update_key(AndroidKeyEventAction::Down, keycode);
    }
    assert_eq!(keyboard.to_report(), [0, 0, 5, 6, 7, 8, 9, 10]);
}

#[test]
fn the_oldest_key_gives_way_after_another_was_let_go() {
    let mut keyboard = UhidKeyboardState::new();
    for keycode in [54, 29, 30, 31, 32, 33] {
        keyboard.update_key(AndroidKeyEventAction::Down, keycode);
    }
    keyboard.update_key(AndroidKeyEventAction::Up, 31);
    assert_eq!(keyboard.to_report(), [0, 0, 4, 5, 7, 8, 29, 0]);
    keyboard.update_key(AndroidKeyEventAction::Down, 34);
    keyboard.update_key(AndroidKeyEventAction::Down, 35);
    assert_eq!(keyboard.to_report(), [0, 0, 4, 5, 7, 8, 9, 10]);
}
