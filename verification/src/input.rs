//! Keyboard input: the virtual keyboard, injected key codes, and what is sent for them.

use vstd::prelude::*;

use crate::control::{ClipboardRequest, ControlChannel, KeyEvent, ScrollEvent, TouchEvent};
use crate::error::{other_error, ScrcpyError};
use crate::uhid::UhidKeyboardState;

verus! {

/// The number under which the virtual keyboard is known to the device.
pub const UHID_DEVICE_ID: u16 = 0x01;

/// The vendor that the virtual keyboard names.
pub const UHID_VENDOR_ID: u16 = 0x18D1;

/// The product that the virtual keyboard names.
pub const UHID_PRODUCT_ID: u16 = 0x4EE7;

/// Where key events go: as injected key codes, as reports of a virtual keyboard, or as reports
/// as long as they get through.
#[derive(Debug, Clone, Copy, PartialEq, Eq, Structural)]
pub enum ScrcpyInputMode {
    Inject,
    Uhid,
    Auto,
}

impl Default for ScrcpyInputMode {
    fn default() -> (r: Self)
        ensures
            r == ScrcpyInputMode::Auto,
    {
        ScrcpyInputMode::Auto
    }
}

/// The report descriptor of a boot keyboard.
pub open spec fn keyboard_descriptor() -> Seq<u8> {
    seq![
        0x05u8, 0x01, 0x09, 0x06, 0xA1, 0x01, 0x05, 0x07, 0x19, 0xE0, 0x29, 0xE7,
        0x15, 0x00, 0x25, 0x01, 0x75, 0x01, 0x95, 0x08, 0x81, 0x02, 0x95, 0x01,
        0x75, 0x08, 0x81, 0x01, 0x95, 0x06, 0x75, 0x08, 0x15, 0x00, 0x25, 0x65,
        0x05, 0x07, 0x19, 0x00, 0x29, 0x65, 0x81, 0x00, 0xC0,
    ]
}

/// The message that creates the virtual keyboard.
pub open spec fn keyboard_create_bytes() -> Seq<u8> {
    crate::control::uhid_create_bytes(
        UHID_DEVICE_ID,
        UHID_VENDOR_ID,
        UHID_PRODUCT_ID,
        vstd::utf8::encode_utf8("GameHelper UHID Keyboard"@),
        keyboard_descriptor(),
    )
}

/// The message that creates the virtual keyboard.
pub fn keyboard_create_message() -> (r: Vec<u8>)
    ensures
        r@ == keyboard_create_bytes(),
{
    let descriptor: [u8; 45] = [
        0x05, 0x01, 0x09, 0x06, 0xA1, 0x01, 0x05, 0x07, 0x19, 0xE0, 0x29, 0xE7,
        0x15, 0x00, 0x25, 0x01, 0x75, 0x01, 0x95, 0x08, 0x81, 0x02, 0x95, 0x01,
        0x75, 0x08, 0x81, 0x01, 0x95, 0x06, 0x75, 0x08, 0x15, 0x00, 0x25, 0x65,
        0x05, 0x07, 0x19, 0x00, 0x29, 0x65, 0x81, 0x00, 0xC0,
    ];
    assert(descriptor@ =~= keyboard_descriptor());
    proof {
        reveal_strlit("GameHelper UHID Keyboard");
        vstd::utf8::is_ascii_chars_encode_utf8("GameHelper UHID Keyboard"@);
    }
    match ControlChannel::send_uhid_create_keyboard(
        UHID_DEVICE_ID,
        UHID_VENDOR_ID,
        UHID_PRODUCT_ID,
        "GameHelper UHID Keyboard",
        descriptor.as_slice(),
    ) {
        Ok(message) => message,
        Err(_) => Vec::new(),
    }
}

/// The message that reports the state of the virtual keyboard.
pub open spec fn keyboard_report_bytes(keyboard: crate::uhid::KeyboardView) -> Seq<u8> {
    crate::control::uhid_input_bytes(UHID_DEVICE_ID, keyboard.report())
}

/// The message that reports the state of the virtual keyboard.
pub fn keyboard_report_message(keyboard: &UhidKeyboardState) -> (r: Vec<u8>)
    requires
        keyboard@.valid(),
    ensures
        r@ == keyboard_report_bytes(keyboard@),
{
    let report: [u8; 8] = keyboard.to_report();
    match ControlChannel::send_uhid_input(UHID_DEVICE_ID, report.as_slice()) {
        Ok(message) => message,
        Err(_) => Vec::new(),
    }
}

/// Which message of keyboard input is on its way: the creation of the virtual keyboard, the
/// report with which it starts, a report with a key event, or an injected key code.
#[derive(Debug, Clone, Copy, PartialEq, Eq, Structural)]
pub enum InputStage {
    Create,
    Release,
    Report,
    Inject,
}

/// What is to be done next: send a message and say how it went, or nothing more.
#[derive(Debug)]
pub enum InputStep {
    Send { stage: InputStage, message: Vec<u8> },
    Done(Result<(), ScrcpyError>),
}

/// What is to be done next, as a mathematical value. Without an error all went well.
pub enum InputStepView {
    Send { stage: InputStage, message: Seq<u8> },
    Done(Option<crate::error::ErrorView>),
}

/// The error of an outcome, if it is one.
pub open spec fn error_of<T>(r: Result<T, ScrcpyError>) -> Option<crate::error::ErrorView> {
    match r {
        Ok(_) => None,
        Err(e) => Some(e@),
    }
}

impl View for InputStep {
    type V = InputStepView;

    open spec fn view(&self) -> InputStepView {
        match *self {
            InputStep::Send { stage, message } => InputStepView::Send { stage, message: message@ },
            InputStep::Done(r) => InputStepView::Done(error_of(r)),
        }
    }
}

/// Input through the virtual keyboard, without any way out: a key that does not get through is an
/// error. All but keys goes through the control channel as it is.
pub struct UhidInputClient {
    control: ControlChannel,
    keyboard_state: UhidKeyboardState,
    started: bool,
}

/// Input through the virtual keyboard, as a mathematical value.
pub struct UhidClientView {
    pub control: crate::control::ControlView,
    pub keyboard: crate::uhid::KeyboardView,
    pub started: bool,
}

impl View for UhidInputClient {
    type V = UhidClientView;

    closed spec fn view(&self) -> UhidClientView {
        UhidClientView {
            control: self.control@,
            keyboard: self.keyboard_state@,
            started: self.started,
        }
    }
}

/// The messages that remove the virtual keyboard: all keys up, and away with it.
pub open spec fn farewell(started: bool) -> Seq<Seq<u8>> {
    if started {
        seq![
            keyboard_report_bytes(crate::uhid::KeyboardView::released()),
            crate::control::uhid_destroy_bytes(UHID_DEVICE_ID),
        ]
    } else {
        Seq::empty()
    }
}

/// The messages that remove the virtual keyboard: all keys up, and away with it.
pub fn farewell_messages(started: bool) -> (r: Vec<Vec<u8>>)
    ensures
        crate::wire::buffers_view(r@) == farewell(started),
{
    let mut messages: Vec<Vec<u8>> = Vec::new();
    if started {
        messages.push(keyboard_report_message(&UhidKeyboardState::new()));
        messages.push(ControlChannel::send_uhid_destroy(UHID_DEVICE_ID));
    }
    assert(crate::wire::buffers_view(messages@) =~= farewell(started));
    messages
}

impl UhidInputClient {
    /// Input through a virtual keyboard that does not exist yet.
    pub fn new(control: ControlChannel) -> (r: Self)
        ensures
            r@ == (UhidClientView {
                control: control@,
                keyboard: crate::uhid::KeyboardView::released(),
                started: false,
            }),
    {
        UhidInputClient { control, keyboard_state: UhidKeyboardState::new(), started: false }
    }

    fn ensure_started(&self) -> (r: Result<(), ScrcpyError>)
        ensures
            match r {
                Ok(_) => self@.started,
                Err(e) => !self@.started && e@ == crate::error::ErrorView::Other(
                    "UHID input client not started"@,
                ),
            },
    {
        if self.started {
            Ok(())
        } else {
            Err(other_error("UHID input client not started"))
        }
    }

    /// The first step of bringing the keyboard up; nothing where it is up.
    pub fn start(&self) -> (r: InputStep)
        ensures
            r@ == if self@.started {
                InputStepView::Done(None)
            } else {
                InputStepView::Send { stage: InputStage::Create, message: keyboard_create_bytes() }
            },
    {
        if self.started {
            InputStep::Done(Ok(()))
        } else {
            InputStep::Send { stage: InputStage::Create, message: keyboard_create_message() }
        }
    }

    /// Takes in how sending a message went while the keyboard was brought up. A failure ends it;
    /// behind the creation comes the report that all keys are up, and behind that the keyboard is
    /// up.
    pub fn on_start_sent(&mut self, stage: InputStage, outcome: Result<(), ScrcpyError>) -> (r:
        InputStep)
        requires
            stage == InputStage::Create || stage == InputStage::Release,
        ensures
            match error_of(outcome) {
                Some(e) => final(self)@ == old(self)@ && r@ == InputStepView::Done(Some(e)),
                None => if stage == InputStage::Create {
                    &&& final(self)@ == (UhidClientView {
                        keyboard: crate::uhid::KeyboardView::released(),
                        ..old(self)@
                    })
                    &&& r@ == (InputStepView::Send {
                        stage: InputStage::Release,
                        message: keyboard_report_bytes(crate::uhid::KeyboardView::released()),
                    })
                } else {
                    &&& final(self)@ == (UhidClientView { started: true, ..old(self)@ })
                    &&& r@ == InputStepView::Done(None)
                },
            },
    {
        match outcome {
            Err(e) => InputStep::Done(Err(e)),
            Ok(_) => match stage {
                InputStage::Create => {
                    self.keyboard_state.release_all();
                    InputStep::Send {
                        stage: InputStage::Release,
                        message: keyboard_report_message(&self.keyboard_state),
                    }
                },
                _ => {
                    self.started = true;
                    InputStep::Done(Ok(()))
                },
            },
        }
    }

    /// Takes the keyboard down. The messages are to be sent whether or not they get through.
    pub fn stop(&mut self) -> (r: Vec<Vec<u8>>)
        ensures
            crate::wire::buffers_view(r@) == farewell(old(self)@.started),
            final(self)@ == (UhidClientView {
                keyboard: if old(self)@.started {
                    crate::uhid::KeyboardView::released()
                } else {
                    old(self)@.keyboard
                },
                started: false,
                ..old(self)@
            }),
    {
        let messages = farewell_messages(self.started);
        if self.started {
            self.keyboard_state.release_all();
            self.started = false;
        }
        messages
    }

    /// The report for a key event; an error where the keyboard is not up.
    pub fn send_key(&mut self, event: &KeyEvent) -> (r: Result<Vec<u8>, ScrcpyError>)
        requires
            old(self)@.keyboard.valid(),
        ensures
            final(self)@.keyboard.valid(),
            match r {
                Ok(m) => old(self)@.started && final(self)@ == (UhidClientView {
                    keyboard: old(self)@.keyboard.after(event.action, event.keycode),
                    ..old(self)@
                }) && m@ == keyboard_report_bytes(final(self)@.keyboard),
                Err(e) => !old(self)@.started && final(self)@ == old(self)@ && e@
                    == crate::error::ErrorView::Other("UHID input client not started"@),
            },
    {
        if let Err(e) = self.ensure_started() {
            return Err(e);
        }
        self.keyboard_state.update_key(event.action, event.keycode);
        Ok(keyboard_report_message(&self.keyboard_state))
    }

    /// The message for a touch event.
    pub fn send_touch(&self, event: &TouchEvent) -> (r: Vec<u8>)
        ensures
            r@ == crate::control::touch_bytes(*event),
    {
        ControlChannel::send_touch_event(event)
    }

    /// The message for a scroll event.
    pub fn send_scroll(&self, event: &ScrollEvent) -> (r: Vec<u8>)
        requires
            crate::control::scroll_fits(event.hscroll),
            crate::control::scroll_fits(event.vscroll),
        ensures
            r@ == crate::control::scroll_bytes(*event),
    {
        ControlChannel::send_scroll_event(event)
    }

    /// The message that types a text.
    pub fn send_text(&self, text: &str) -> (r: Vec<u8>)
        ensures
            r@ == crate::control::text_bytes(vstd::utf8::encode_utf8(text@)),
    {
        ControlChannel::send_text(text)
    }

    /// The message that sets the device's clipboard, and the acknowledgement to wait for.
    pub fn set_clipboard(&mut self, text: &str, paste: bool) -> (r: ClipboardRequest)
        ensures
            r.message@ == crate::control::clipboard_bytes(
                if paste {
                    0
                } else {
                    old(self)@.control.next
                },
                paste,
                vstd::utf8::encode_utf8(text@),
            ),
            r.wait_for == (if paste {
                None
            } else {
                Some(old(self)@.control.next)
            }),
            final(self)@ == (UhidClientView {
                control: if paste {
                    old(self)@.control
                } else {
                    crate::control::ControlView {
                        next: old(self)@.control.after_next(),
                        ..old(self)@.control
                    }
                },
                ..old(self)@
            }),
    {
        self.control.set_clipboard(text, paste)
    }

    /// The message that turns the device's display on or off.
    pub fn set_display_power(&self, on: bool) -> (r: Vec<u8>)
        ensures
            r@ == seq![10u8, if on { 1u8 } else { 0u8 }],
    {
        ControlChannel::set_display_power(on)
    }

    /// The message that toggles the device's orientation.
    pub fn rotate_device(&self) -> (r: Vec<u8>)
        ensures
            r@ == seq![11u8],
    {
        ControlChannel::send_rotate_device()
    }

    /// The message that asks for a new key frame.
    pub fn request_idr(&self) -> (r: Vec<u8>)
        ensures
            r@ == seq![17u8],
    {
        ControlChannel::send_reset_video()
    }
}


/// Input through injected key codes. There is nothing to start or to stop.
pub struct InjectInputClient {
    control: ControlChannel,
}

impl View for InjectInputClient {
    type V = crate::control::ControlView;

    closed spec fn view(&self) -> crate::control::ControlView {
        self.control@
    }
}

impl InjectInputClient {
    /// Input through a control channel.
    pub fn new(control: ControlChannel) -> (r: Self)
        ensures
            r@ == control@,
    {
        InjectInputClient { control }
    }

    /// The message for a key event.
    pub fn send_key(&self, event: &KeyEvent) -> (r: Vec<u8>)
        ensures
            r@ == crate::control::key_bytes(*event),
    {
        ControlChannel::send_key_event(event)
    }

    /// The message for a touch event.
    pub fn send_touch(&self, event: &TouchEvent) -> (r: Vec<u8>)
        ensures
            r@ == crate::control::touch_bytes(*event),
    {
        ControlChannel::send_touch_event(event)
    }

    /// The message for a scroll event.
    pub fn send_scroll(&self, event: &ScrollEvent) -> (r: Vec<u8>)
        requires
            crate::control::scroll_fits(event.hscroll),
            crate::control::scroll_fits(event.vscroll),
        ensures
            r@ == crate::control::scroll_bytes(*event),
    {
        ControlChannel::send_scroll_event(event)
    }

    /// The message that types a text.
    pub fn send_text(&self, text: &str) -> (r: Vec<u8>)
        ensures
            r@ == crate::control::text_bytes(vstd::utf8::encode_utf8(text@)),
    {
        ControlChannel::send_text(text)
    }

    /// The message that sets the device's clipboard, and the acknowledgement to wait for.
    pub fn set_clipboard(&mut self, text: &str, paste: bool) -> (r: ClipboardRequest)
        ensures
            r.message@ == crate::control::clipboard_bytes(
                if paste {
                    0
                } else {
                    old(self)@.next
                },
                paste,
                vstd::utf8::encode_utf8(text@),
            ),
            r.wait_for == (if paste {
                None
            } else {
                Some(old(self)@.next)
            }),
            final(self)@ == (if paste {
                old(self)@
            } else {
                crate::control::ControlView { next: old(self)@.after_next(), ..old(self)@ }
            }),
    {
        self.control.set_clipboard(text, paste)
    }

    /// The message that turns the device's display on or off.
    pub fn set_display_power(&self, on: bool) -> (r: Vec<u8>)
        ensures
            r@ == seq![10u8, if on { 1u8 } else { 0u8 }],
    {
        ControlChannel::set_display_power(on)
    }

    /// The message that toggles the device's orientation.
    pub fn rotate_device(&self) -> (r: Vec<u8>)
        ensures
            r@ == seq![11u8],
    {
        ControlChannel::send_rotate_device()
    }

    /// The message that asks for a new key frame.
    pub fn request_idr(&self) -> (r: Vec<u8>)
        ensures
            r@ == seq![17u8],
    {
        ControlChannel::send_reset_video()
    }
}

/// A report goes to the device under the number of the virtual keyboard, with its eight bytes.
pub proof fn law_keyboard_report_message(keyboard: crate::uhid::KeyboardView)
    requires
        keyboard.valid(),
    ensures
        keyboard_report_bytes(keyboard).len() == 13,
        keyboard_report_bytes(keyboard).take(5) == seq![13u8, 0u8, 1u8, 0u8, 8u8],
        keyboard_report_bytes(keyboard)[5] == keyboard.modifiers,
        keyboard_report_bytes(keyboard)[6] == 0,
        forall|i: int|
            0 <= i < keyboard.held.len() ==> #[trigger] keyboard_report_bytes(keyboard)[7 + i]
                == keyboard.held[i],
        forall|i: int|
            keyboard.held.len() <= i < 6 ==> #[trigger] keyboard_report_bytes(keyboard)[7 + i] == 0,
{
    crate::uhid::law_report_layout(keyboard, 1);
    let report = keyboard.report();
    let s = keyboard_report_bytes(keyboard);
    crate::control::law_uhid_input_fields(1, report);
    crate::wire::law_most_significant_first(1, 2, s.subrange(1, 3), s.subrange(3, 5));
    crate::wire::law_most_significant_first(1, 2, s.subrange(3, 5), s.subrange(3, 5));
    assert(s.skip(5) == report);
    assert(s.subrange(1, 3)[0] == s[1] && s.subrange(1, 3)[1] == s[2]);
    assert(s.subrange(3, 5)[0] == s[3] && s.subrange(3, 5)[1] == s[4]);
    assert(s.take(5) =~= seq![13u8, 0u8, 1u8, 0u8, 8u8]);
    assert forall|i: int| 0 <= i < 8 implies s[5 + i] == #[trigger] report[i] by {
        assert(s.skip(5)[i] == s[5 + i]);
    }
    assert(s[5] == report[0] && s[6] == report[1]);
    assert forall|i: int| 0 <= i < keyboard.held.len() implies #[trigger] s[7 + i]
        == keyboard.held[i] by {
        assert(s[5 + (2 + i)] == report[2 + i]);
    }
    assert forall|i: int| keyboard.held.len() <= i < 6 implies #[trigger] s[7 + i] == 0 by {
        assert(s[5 + (2 + i)] == report[2 + i]);
    }
}

/// The descriptor announces what the reports hold: eight modifier bits from usage 224 on, an empty
/// byte, and six keys of one byte each, 64 bits in all; and every key of the keyboard has a usage
/// that the descriptor admits.
pub proof fn law_descriptor_fits_reports(keycode: u32)
    ensures
        ({
            let d = keyboard_descriptor();
            &&& d.len() == 45
            // a keyboard, as one collection that is closed at the end
            &&& d.take(6) == seq![0x05u8, 0x01u8, 0x09u8, 0x06u8, 0xA1u8, 0x01u8]
            &&& d.last() == 0xC0
            // the modifiers: usages, values, bits and how many
            &&& d[8] == 0x19 && d[9] == 224 && d[10] == 0x29 && d[11] == 231
            &&& d[16] == 0x75 && d[17] == 1 && d[18] == 0x95 && d[19] == 8
            // the empty byte
            &&& d[22] == 0x95 && d[23] == 1 && d[24] == 0x75 && d[25] == 8
            // the keys
            &&& d[28] == 0x95 && d[29] == 6 && d[30] == 0x75 && d[31] == 8
            &&& d[38] == 0x19 && d[39] == 0 && d[40] == 0x29 && d[41] == d[35]
            &&& d[17] * d[19] + d[23] * d[25] + d[29] * d[31] == 8
                * crate::uhid::UHID_KEYBOARD_REPORT_LEN
            &&& crate::uhid::UHID_KEYBOARD_REPORT_LEN == 8
            &&& crate::uhid::key_usage(keycode) matches Some(u) ==> d[39] < u <= d[41]
        }),
{
    assert(keyboard_descriptor().take(6) =~= seq![0x05u8, 0x01u8, 0x09u8, 0x06u8, 0xA1u8, 0x01u8]);
}

/// The virtual keyboard is created with the number, the vendor and the product that it has, under
/// its name.
pub proof fn law_keyboard_create_message()
    ensures
        ({
            let s = keyboard_create_bytes();
            let name = vstd::utf8::encode_utf8("GameHelper UHID Keyboard"@);
            &&& name.len() == 24
            &&& s[0] == 12
            &&& crate::wire::be_value(s.subrange(1, 3)) == 1
            &&& crate::wire::be_value(s.subrange(3, 5)) == 0x18D1
            &&& crate::wire::be_value(s.subrange(5, 7)) == 0x4EE7
            &&& s[7] == 24
            &&& s.subrange(8, 32) == name
            &&& crate::wire::be_value(s.subrange(32, 34)) == 45
            &&& s.skip(34) == keyboard_descriptor()
        }),
{
    reveal_strlit("GameHelper UHID Keyboard");
    vstd::utf8::is_ascii_chars_encode_utf8("GameHelper UHID Keyboard"@);
    crate::control::law_uhid_create_fields(
        1,
        0x18D1,
        0x4EE7,
        vstd::utf8::encode_utf8("GameHelper UHID Keyboard"@),
        keyboard_descriptor(),
    );
}

/// A keyboard that is up is taken down with two messages: all keys up, and away with the device that
/// was created. One that is not up needs none.
pub proof fn law_farewell(started: bool)
    ensures
        !started ==> farewell(started).len() == 0,
        started ==> farewell(started) == seq![
            seq![13u8, 0u8, 1u8, 0u8, 8u8, 0u8, 0u8, 0u8, 0u8, 0u8, 0u8, 0u8, 0u8],
            seq![14u8, 0u8, 1u8],
        ],
{
    if started {
        let up = crate::uhid::KeyboardView::released();
        law_keyboard_report_message(up);
        let s = keyboard_report_bytes(up);
        assert(s[0] == s.take(5)[0] && s[1] == s.take(5)[1] && s[2] == s.take(5)[2] && s[3]
            == s.take(5)[3] && s[4] == s.take(5)[4]);
        let keys = Seq::new(6, |i: int| s[7 + i]);
        assert forall|i: int| 0 <= i < 6 implies keys[i] == 0 by {
            assert(s[7 + i] == 0);
        }
        assert(keys[0] == 0 && keys[1] == 0 && keys[2] == 0 && keys[3] == 0 && keys[4] == 0 && keys[5]
            == 0);
        assert(s =~= seq![13u8, 0u8, 1u8, 0u8, 8u8, 0u8, 0u8, 0u8, 0u8, 0u8, 0u8, 0u8, 0u8]);
        let t = crate::control::uhid_destroy_bytes(UHID_DEVICE_ID);
        crate::control::law_uhid_input_fields(1, Seq::empty());
        crate::wire::law_most_significant_first(1, 2, t.skip(1), t.skip(1));
        assert(t.skip(1)[0] == t[1] && t.skip(1)[1] == t[2]);
        assert(t =~= seq![14u8, 0u8, 1u8]);
    }
}

} // verus!
