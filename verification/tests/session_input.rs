use rust_scrcpy::control::{
    AndroidKeyEventAction, AndroidMotionEventAction, ControlChannel, DeviceMessage, KeyEvent,
    ScrollEvent, TouchEvent,
};
use rust_scrcpy::error::ScrcpyError;
use rust_scrcpy::framed_video::FramedVideoStreamReader;
use rust_scrcpy::input::{
    InjectInputClient, InputStage, InputStep, ScrcpyInputMode, UhidInputClient,
};
use rust_scrcpy::model::{ErrorCode, SessionEvent};
use rust_scrcpy::session::{DisposeStep, InputTask, Session, SessionCommand};
use rust_scrcpy::session_manager::SessionManager;

fn session(mode: ScrcpyInputMode) -> Session {
    Session::from_connected(ControlChannel::new(), FramedVideoStreamReader::new(), mode)
}

fn press(keycode: u32) -> KeyEvent {
    KeyEvent { action: AndroidKeyEventAction::Down, keycode, repeat: 0, metastate: 0 }
}

fn sent(step: InputStep) -> (InputStage, Vec<u8>) {
    match step {
        InputStep::Send { stage, message } => (stage, message),
        InputStep::Done(r) => panic!("done: {:?}", r),
    }
}

fn done(step: InputStep) -> Result<(), ScrcpyError> {
    match step {
        InputStep::Done(r) => r,
        InputStep::Send { stage, .. } => panic!("sends {:?}", stage),
    }
}

fn failed() -> Result<(), ScrcpyError> {
    Err(ScrcpyError::Network("down".to_string()))
}

/// Brings the virtual keyboard of a session up.
fn warm(s: &mut Session) {
    let (stage, create) = sent(s.warmup_input_backend());
    assert_eq!(stage, InputStage::Create);
    assert_eq!(create[..7], [12, 0, 1, 0x18, 0xd1, 0x4e, 0xe7]);
    assert_eq!(create[7], 24);
    assert_eq!(create[8..32], *b"GameHelper UHID Keyboard");
    assert_eq!(create[32..34], [0, 45]);
    assert_eq!(create.len(), 34 + 45);
    assert_eq!(create[34..38], [0x05, 0x01, 0x09, 0x06]);
    let (stage, release) = sent(s.on_input_sent(InputTask::Warmup, stage, Ok(())));
    assert_eq!(stage, InputStage::Release);
    assert_eq!(release, [13, 0, 1, 0, 8, 0, 0, 0, 0, 0, 0, 0, 0]);
    assert_eq!(done(s.on_input_sent(InputTask::Warmup, stage, Ok(()))), Ok(()));
}

#[test]
fn the_default_mode_leaves_the_choice_open() {
    assert_eq!(ScrcpyInputMode::default(), ScrcpyInputMode::Auto);
}

#[test]
fn a_warm_keyboard_takes_one_message_for_a_key() {
    let mut s = session(ScrcpyInputMode::Uhid);
    warm(&mut s);
    let (stage, report) = sent(s.send_key(&press(29)));
    assert_eq!(stage, InputStage::Report);
    assert_eq!(report, [13, 0, 1, 0, 8, 0, 0, 4, 0, 0, 0, 0, 0]);
    assert_eq!(done(s.on_input_sent(InputTask::Key(press(29)), stage, Ok(()))), Ok(()));
    assert!(s.drain_events().is_empty());
    assert_eq!(done(s.warmup_input_backend()), Ok(()));
}

#[test]
fn unknown_keys_are_injected_in_every_mode() {
    for mode in [ScrcpyInputMode::Inject, ScrcpyInputMode::Uhid, ScrcpyInputMode::Auto] {
        let mut s = session(mode);
        let (stage, message) = sent(s.send_key(&press(3)));
        assert_eq!(stage, InputStage::Inject);
        assert_eq!(message, ControlChannel::send_key_event(&press(3)));
        assert_eq!(done(s.on_input_sent(InputTask::Key(press(3)), stage, Ok(()))), Ok(()));
    }
}

#[test]
fn a_failed_report_is_injected_where_the_choice_is_open() {
    let mut s = session(ScrcpyInputMode::Auto);
    warm(&mut s);
    let (stage, _) = sent(s.send_key(&press(29)));
    let (stage, message) = sent(s.on_input_sent(InputTask::Key(press(29)), stage, failed()));
    assert_eq!(stage, InputStage::Inject);
    assert_eq!(message, ControlChannel::send_key_event(&press(29)));
    assert_eq!(done(s.on_input_sent(InputTask::Key(press(29)), stage, Ok(()))), Ok(()));
    let (stage, _) = sent(s.send_key(&press(30)));
    assert_eq!(stage, InputStage::Inject);
    assert!(s.drain_events().is_empty());
}

#[test]
fn a_failed_creation_is_injected_where_the_choice_is_open() {
    let mut s = session(ScrcpyInputMode::Auto);
    let (stage, _) = sent(s.send_key(&press(29)));
    assert_eq!(stage, InputStage::Create);
    let (stage, _) = sent(s.on_input_sent(InputTask::Key(press(29)), stage, failed()));
    assert_eq!(stage, InputStage::Inject);
    assert_eq!(done(s.on_input_sent(InputTask::Key(press(29)), stage, failed())), failed());
    let events = s.drain_events();
    assert_eq!(events.len(), 1);
    match &events[0] {
        SessionEvent::Error { code, message } => {
            assert_eq!(*code, ErrorCode::ControlFailed);
            assert_eq!(message, "send_key failed: Network error: down");
        }
        other => panic!("{:?}", other),
    }
}

#[test]
fn a_failed_warmup_only_matters_where_the_keyboard_is_asked_for() {
    let mut s = session(ScrcpyInputMode::Auto);
    let (stage, _) = sent(s.warmup_input_backend());
    assert_eq!(done(s.on_input_sent(InputTask::Warmup, stage, failed())), Ok(()));
    let mut s = session(ScrcpyInputMode::Uhid);
    let (stage, _) = sent(s.warmup_input_backend());
    assert_eq!(done(s.on_input_sent(InputTask::Warmup, stage, failed())), failed());
    assert!(s.drain_events().is_empty());
    let mut s = session(ScrcpyInputMode::Inject);
    assert_eq!(done(s.warmup_input_backend()), Ok(()));
}

#[test]
fn a_failed_report_is_an_error_where_the_keyboard_is_asked_for() {
    let mut s = session(ScrcpyInputMode::Uhid);
    warm(&mut s);
    let (stage, _) = sent(s.send_key(&press(29)));
    assert_eq!(done(s.on_input_sent(InputTask::Key(press(29)), stage, failed())), failed());
    assert_eq!(s.drain_events().len(), 1);
}

#[test]
fn commands_give_messages_and_report_failures() {
    let mut s = session(ScrcpyInputMode::Inject);
    let touch = TouchEvent {
        action: AndroidMotionEventAction::Down,
        pointer_id: 0,
        x: 1,
        y: 2,
        pressure: 3,
        width: 4,
        height: 5,
        buttons: 6,
    };
    assert_eq!(s.send_touch(&touch).unwrap(), ControlChannel::send_touch_event(&touch));
    let scroll = ScrollEvent { x: 1, y: 2, width: 3, height: 4, hscroll: 0, vscroll: 1 };
    assert_eq!(s.send_scroll(&scroll).unwrap(), ControlChannel::send_scroll_event(&scroll));
    assert_eq!(s.send_text("x").unwrap(), [1, 0, 0, 0, 1, b'x']);
    assert_eq!(s.set_display_power(false).unwrap(), [10, 0]);
    assert_eq!(s.rotate_device().unwrap(), [11]);
    assert_eq!(s.request_idr().unwrap(), [17]);
    assert_eq!(s.set_clipboard("x", false).unwrap().wait_for, Some(1));
    assert_eq!(s.set_clipboard("x", false).unwrap().wait_for, Some(2));
    let names = [
        (SessionCommand::Touch, "send_touch"),
        (SessionCommand::Key, "send_key"),
        (SessionCommand::Scroll, "send_scroll"),
        (SessionCommand::Text, "send_text"),
        (SessionCommand::SetClipboard, "set_clipboard"),
        (SessionCommand::SetDisplayPower, "set_display_power"),
        (SessionCommand::RotateDevice, "rotate_device"),
        (SessionCommand::RequestIdr, "request_idr"),
    ];
    for (command, name) in names {
        assert_eq!(s.on_sent(command, Ok(())), Ok(()));
        assert_eq!(s.on_sent(command, failed()), failed());
        match &s.drain_events()[..] {
            [SessionEvent::Error { message, .. }] => {
                assert_eq!(*message, format!("{} failed: Network error: down", name))
            }
            other => panic!("{:?}", other),
        }
    }
}

#[test]
fn only_the_newest_events_are_kept() {
    let mut s = session(ScrcpyInputMode::Inject);
    for i in 0..300 {
        let _ = s.on_sent(SessionCommand::Text, Err(ScrcpyError::Other(i.to_string())));
    }
    let events = s.drain_events();
    assert_eq!(events.len(), 256);
    match &events[0] {
        SessionEvent::Error { message, .. } => {
            assert_eq!(message, "send_text failed: Other error: 44")
        }
        other => panic!("{:?}", other),
    }
}

#[test]
fn clipboard_texts_of_the_device_come_out_of_the_session() {
    let mut s = session(ScrcpyInputMode::Inject);
    let texts = s
        .take_clipboard_updates(vec![
            DeviceMessage::Clipboard("one".to_string()),
            DeviceMessage::AckClipboard(1),
            DeviceMessage::Clipboard("two".to_string()),
        ])
        .unwrap();
    assert_eq!(texts, ["one", "two"]);
    assert!(s.control_channel_mut().unwrap().take_ack(Vec::new(), 1));
}

#[test]
fn a_session_ends_once() {
    let mut s = session(ScrcpyInputMode::Uhid);
    warm(&mut s);
    match s.dispose() {
        DisposeStep::StopServer { messages } => {
            assert_eq!(messages.len(), 2);
            assert_eq!(messages[0], [13, 0, 1, 0, 8, 0, 0, 0, 0, 0, 0, 0, 0]);
            assert_eq!(messages[1], [14, 0, 1]);
        }
        other => panic!("{:?}", other),
    }
    assert!(!s.is_disposed());
    let error = ScrcpyError::Other("session control channel is not ready".to_string());
    assert_eq!(s.request_idr().unwrap_err(), error);
    assert_eq!(
        s.video_stream_mut().err(),
        Some(ScrcpyError::Other("session video stream is not ready".to_string()))
    );
    assert_eq!(s.on_server_stopped(failed()), failed());
    assert!(!s.is_disposed());
    match s.dispose() {
        DisposeStep::StopServer { messages } => assert!(messages.is_empty()),
        other => panic!("{:?}", other),
    }
    assert_eq!(s.on_server_stopped(Ok(())), Ok(()));
    assert!(s.is_disposed());
    assert!(matches!(s.dispose(), DisposeStep::AlreadyDisposed));
    assert!(matches!(&s.drain_events()[..], [SessionEvent::Stopped]));
    let error = ScrcpyError::Other("session has been disposed".to_string());
    assert_eq!(s.send_text("x").unwrap_err(), error);
    assert_eq!(done(s.send_key(&press(29))), Err(error));
    assert!(s.drain_events().is_empty());
}

#[test]
fn the_video_reader_belongs_to_the_session() {
    let mut s = session(ScrcpyInputMode::Inject);
    assert_eq!(s.video_stream_mut().unwrap().packet_count(), 0);
}

#[test]
fn a_keyboard_client_starts_before_it_types() {
    let mut client = UhidInputClient::new(ControlChannel::new());
    assert_eq!(
        client.send_key(&press(29)).unwrap_err(),
        ScrcpyError::Other("UHID input client not started".to_string())
    );
    let (stage, _) = sent(client.start());
    let (stage, _) = sent(client.on_start_sent(stage, Ok(())));
    assert_eq!(stage, InputStage::Release);
    assert_eq!(done(client.on_start_sent(stage, Ok(()))), Ok(()));
    assert_eq!(done(client.start()), Ok(()));
    assert_eq!(client.send_key(&press(29)).unwrap()[7], 4);
    assert_eq!(client.stop().len(), 2);
    assert!(client.stop().is_empty());
    let mut other = UhidInputClient::new(ControlChannel::new());
    let (stage, _) = sent(other.start());
    assert_eq!(done(other.on_start_sent(stage, failed())), failed());
    assert!(other.stop().is_empty());
    assert_eq!(other.request_idr(), [17]);
    assert_eq!(other.rotate_device(), [11]);
    assert_eq!(other.set_clipboard("x", false).wait_for, Some(1));
}

#[test]
fn an_injecting_client_types_at_once() {
    let mut client = InjectInputClient::new(ControlChannel::new());
    assert_eq!(client.send_key(&press(29)), ControlChannel::send_key_event(&press(29)));
    assert_eq!(client.send_text("x"), ControlChannel::send_text("x"));
    assert_eq!(client.set_clipboard("x", true).wait_for, None);
    assert_eq!(client.set_display_power(true), [10, 1]);
}

#[test]
fn sessions_are_kept_by_name() {
    let mut manager: SessionManager<u32> = SessionManager::new();
    assert!(manager.is_empty());
    manager.insert("b".to_string(), 1).unwrap();
    manager.insert("a".to_string(), 2).unwrap();
    assert_eq!(
        manager.insert("b".to_string(), 3).unwrap_err(),
        ScrcpyError::Other("session already exists: b".to_string())
    );
    assert_eq!(manager.list_session_ids(), ["a", "b"]);
    assert_eq!(manager.get("b"), Some(&1));
    *manager.get_mut("b").unwrap() = 9;
    assert_eq!(manager.remove("b"), Some(9));
    assert_eq!(manager.remove("b"), None);
    assert_eq!(manager.len(), 1);
    manager.clear();
    assert!(manager.get("a").is_none());
}
