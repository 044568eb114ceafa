//! The control channel: messages to the device, messages from it, and the clipboard hand-shake.

use std::collections::{HashSet, VecDeque};

use vstd::prelude::*;

use crate::bounded::{drain, queue_of};
use crate::error::ScrcpyError;
use crate::text::{concat, lossy_text, to_decimal};
use crate::wire::{extend, get_u16, get_u32, get_u64, put_i16, put_i32, put_i64, put_u16, put_u32, put_u64};

verus! {

broadcast use vstd::std_specs::hash::group_hash_axioms;

/// The kinds of messages to the device.
#[derive(Debug, Clone, Copy, PartialEq, Eq, Structural)]
pub enum ControlMessageType {
    InjectKeycode,
    InjectText,
    InjectTouch,
    InjectScroll,
    SetClipboard,
    SetDisplayPower,
    RotateDevice,
    ResetVideo,
    UhidCreate,
    UhidInput,
    UhidDestroy,
}

impl ControlMessageType {
    /// The first byte of a message of this kind.
    pub open spec fn spec_code(self) -> u8 {
        match self {
            ControlMessageType::InjectKeycode => 0,
            ControlMessageType::InjectText => 1,
            ControlMessageType::InjectTouch => 2,
            ControlMessageType::InjectScroll => 3,
            ControlMessageType::SetClipboard => 9,
            ControlMessageType::SetDisplayPower => 10,
            ControlMessageType::RotateDevice => 11,
            ControlMessageType::UhidCreate => 12,
            ControlMessageType::UhidInput => 13,
            ControlMessageType::UhidDestroy => 14,
            ControlMessageType::ResetVideo => 17,
        }
    }

    /// The first byte of a message of this kind.
    pub fn code(self) -> (r: u8)
        ensures
            r == self.spec_code(),
    {
        match self {
            ControlMessageType::InjectKeycode => 0,
            ControlMessageType::InjectText => 1,
            ControlMessageType::InjectTouch => 2,
            ControlMessageType::InjectScroll => 3,
            ControlMessageType::SetClipboard => 9,
            ControlMessageType::SetDisplayPower => 10,
            ControlMessageType::RotateDevice => 11,
            ControlMessageType::UhidCreate => 12,
            ControlMessageType::UhidInput => 13,
            ControlMessageType::UhidDestroy => 14,
            ControlMessageType::ResetVideo => 17,
        }
    }

    /// What the text of an error says that failed when a message of this kind was sent.
    pub open spec fn failure(self) -> Seq<char> {
        match self {
            ControlMessageType::InjectKeycode => "Failed to send key event: "@,
            ControlMessageType::InjectText => "Failed to send text: "@,
            ControlMessageType::InjectTouch => "Failed to send touch event: "@,
            ControlMessageType::InjectScroll => "Failed to send scroll event: "@,
            ControlMessageType::SetClipboard => "Failed to set clipboard: "@,
            ControlMessageType::SetDisplayPower => "Failed to set display power: "@,
            ControlMessageType::RotateDevice => "Failed to rotate device: "@,
            ControlMessageType::UhidCreate => "创建 UHID 键盘失败: "@,
            ControlMessageType::UhidInput => "发送 UHID 输入报告失败: "@,
            ControlMessageType::UhidDestroy => "销毁 UHID 设备失败: "@,
            ControlMessageType::ResetVideo => "Failed to request reset video: "@,
        }
    }

    /// The error for a message of this kind that could not be written.
    pub fn write_error(self, detail: &str) -> (r: ScrcpyError)
        ensures
            r@ == crate::error::ErrorView::Network(self.failure() + detail@),
    {
        let prefix: &str = match self {
            ControlMessageType::InjectKeycode => "Failed to send key event: ",
            ControlMessageType::InjectText => "Failed to send text: ",
            ControlMessageType::InjectTouch => "Failed to send touch event: ",
            ControlMessageType::InjectScroll => "Failed to send scroll event: ",
            ControlMessageType::SetClipboard => "Failed to set clipboard: ",
            ControlMessageType::SetDisplayPower => "Failed to set display power: ",
            ControlMessageType::RotateDevice => "Failed to rotate device: ",
            ControlMessageType::UhidCreate => "创建 UHID 键盘失败: ",
            ControlMessageType::UhidInput => "发送 UHID 输入报告失败: ",
            ControlMessageType::UhidDestroy => "销毁 UHID 设备失败: ",
            ControlMessageType::ResetVideo => "Failed to request reset video: ",
        };
        ScrcpyError::Network(concat(prefix, detail))
    }
}

/// The error for a control channel that could not be flushed.
pub fn flush_error(detail: &str) -> (r: ScrcpyError)
    ensures
        r@ == crate::error::ErrorView::Network("刷新控制通道失败: "@ + detail@),
{
    ScrcpyError::Network(concat("刷新控制通道失败: ", detail))
}

/// A touch action, by Android's names.
#[derive(Debug, Clone, Copy, PartialEq, Eq, Structural)]
pub enum AndroidMotionEventAction {
    Down,
    Up,
    Move,
    Cancel,
    PointerDown,
    PointerUp,
    HoverMove,
    HoverEnter,
    HoverExit,
}

impl AndroidMotionEventAction {
    /// Android's number for the action.
    pub open spec fn spec_code(self) -> u8 {
        match self {
            AndroidMotionEventAction::Down => 0,
            AndroidMotionEventAction::Up => 1,
            AndroidMotionEventAction::Move => 2,
            AndroidMotionEventAction::Cancel => 3,
            AndroidMotionEventAction::PointerDown => 5,
            AndroidMotionEventAction::PointerUp => 6,
            AndroidMotionEventAction::HoverMove => 7,
            AndroidMotionEventAction::HoverEnter => 9,
            AndroidMotionEventAction::HoverExit => 10,
        }
    }

    /// Android's number for the action.
    pub fn code(self) -> (r: u8)
        ensures
            r == self.spec_code(),
    {
        match self {
            AndroidMotionEventAction::Down => 0,
            AndroidMotionEventAction::Up => 1,
            AndroidMotionEventAction::Move => 2,
            AndroidMotionEventAction::Cancel => 3,
            AndroidMotionEventAction::PointerDown => 5,
            AndroidMotionEventAction::PointerUp => 6,
            AndroidMotionEventAction::HoverMove => 7,
            AndroidMotionEventAction::HoverEnter => 9,
            AndroidMotionEventAction::HoverExit => 10,
        }
    }

    /// The action with Android's number `code`; an error where there is none.
    pub fn from_code(code: u8) -> (r: Result<AndroidMotionEventAction, String>)
        ensures
            match r {
                Ok(action) => action.spec_code() == code,
                Err(m) => (forall|a: AndroidMotionEventAction| a.spec_code() != code) && m@
                    == "Invalid action value: "@ + crate::text::decimal(code as nat),
            },
    {
        match code {
            0 => Ok(AndroidMotionEventAction::Down),
            1 => Ok(AndroidMotionEventAction::Up),
            2 => Ok(AndroidMotionEventAction::Move),
            3 => Ok(AndroidMotionEventAction::Cancel),
            5 => Ok(AndroidMotionEventAction::PointerDown),
            6 => Ok(AndroidMotionEventAction::PointerUp),
            7 => Ok(AndroidMotionEventAction::HoverMove),
            9 => Ok(AndroidMotionEventAction::HoverEnter),
            10 => Ok(AndroidMotionEventAction::HoverExit),
            _ => Err(concat("Invalid action value: ", to_decimal(code as u64).as_str())),
        }
    }
}

/// Whether a key goes down or up.
#[derive(Debug, Clone, Copy, PartialEq, Eq, Structural)]
pub enum AndroidKeyEventAction {
    Down,
    Up,
}

impl AndroidKeyEventAction {
    /// Android's number for the action.
    pub open spec fn spec_code(self) -> u8 {
        match self {
            AndroidKeyEventAction::Down => 0,
            AndroidKeyEventAction::Up => 1,
        }
    }

    /// Android's number for the action.
    pub fn code(self) -> (r: u8)
        ensures
            r == self.spec_code(),
    {
        match self {
            AndroidKeyEventAction::Down => 0,
            AndroidKeyEventAction::Up => 1,
        }
    }

    /// The action with Android's number `code`; an error where there is none.
    pub fn from_code(code: u8) -> (r: Result<AndroidKeyEventAction, String>)
        ensures
            match r {
                Ok(action) => action.spec_code() == code,
                Err(m) => (forall|a: AndroidKeyEventAction| a.spec_code() != code) && m@
                    == "Invalid key action value: "@ + crate::text::decimal(code as nat),
            },
    {
        match code {
            0 => Ok(AndroidKeyEventAction::Down),
            1 => Ok(AndroidKeyEventAction::Up),
            _ => Err(concat("Invalid key action value: ", to_decimal(code as u64).as_str())),
        }
    }
}

/// A touch event in pixels. A pointer id of -1 is the mouse; the pressure runs from 0 to 0xFFFF.
#[derive(Debug, Clone, Copy, PartialEq, Eq, Structural)]
pub struct TouchEvent {
    pub action: AndroidMotionEventAction,
    pub pointer_id: i64,
    pub x: u32,
    pub y: u32,
    pub pressure: u16,
    pub width: u32,
    pub height: u32,
    pub buttons: u32,
}

/// A key event.
#[derive(Debug, Clone, Copy, PartialEq, Eq, Structural)]
pub struct KeyEvent {
    pub action: AndroidKeyEventAction,
    pub keycode: u32,
    pub repeat: u32,
    pub metastate: u32,
}

/// A scroll event at a position in pixels, in wheel steps.
#[derive(Debug, Clone, Copy, PartialEq, Eq, Structural)]
pub struct ScrollEvent {
    pub x: i32,
    pub y: i32,
    pub width: u32,
    pub height: u32,
    pub hscroll: i32,
    pub vscroll: i32,
}

/// Whether 2048 units for each wheel step fit in 32 bits.
pub open spec fn scroll_fits(steps: i32) -> bool {
    -0x10_0000 <= steps < 0x10_0000
}

/// The wire value of wheel steps: 2048 units for each step, kept within 16 bits.
pub open spec fn scroll_units(steps: i32) -> int {
    if steps * 2048 < -32768 {
        -32768
    } else if steps * 2048 > 32767 {
        32767
    } else {
        steps * 2048
    }
}

/// The 32 bytes of a touch message. Only the mouse has buttons, and none once it is released.
pub open spec fn touch_bytes(e: TouchEvent) -> Seq<u8> {
    let mouse = e.pointer_id == -1;
    let released = e.action is Up || e.action is PointerUp;
    seq![ControlMessageType::InjectTouch.spec_code(), e.action.spec_code()]
        + crate::wire::be(crate::wire::twos_64(e.pointer_id as int), 8)
        + crate::wire::be(e.x as nat, 4)
        + crate::wire::be(e.y as nat, 4)
        + crate::wire::be(e.width as nat, 2)
        + crate::wire::be(e.height as nat, 2)
        + crate::wire::be(e.pressure as nat, 2)
        + crate::wire::be(if mouse { 1 } else { 0 }, 4)
        + crate::wire::be(if mouse && !released { e.buttons as nat } else { 0 }, 4)
}

/// The 14 bytes of a key message.
pub open spec fn key_bytes(e: KeyEvent) -> Seq<u8> {
    seq![ControlMessageType::InjectKeycode.spec_code(), e.action.spec_code()]
        + crate::wire::be(e.keycode as nat, 4)
        + crate::wire::be(e.repeat as nat, 4)
        + crate::wire::be(e.metastate as nat, 4)
}

/// The 21 bytes of a scroll message.
pub open spec fn scroll_bytes(e: ScrollEvent) -> Seq<u8> {
    seq![ControlMessageType::InjectScroll.spec_code()]
        + crate::wire::be(crate::wire::twos_32(e.x as int), 4)
        + crate::wire::be(crate::wire::twos_32(e.y as int), 4)
        + crate::wire::be(e.width as nat, 2)
        + crate::wire::be(e.height as nat, 2)
        + crate::wire::be(crate::wire::twos_16(scroll_units(e.hscroll)), 2)
        + crate::wire::be(crate::wire::twos_16(scroll_units(e.vscroll)), 2)
        + crate::wire::be(0, 4)
}

/// The bytes of a text message.
pub open spec fn text_bytes(text: Seq<u8>) -> Seq<u8> {
    seq![ControlMessageType::InjectText.spec_code()] + crate::wire::be(text.len(), 4) + text
}

/// The bytes of a clipboard message.
pub open spec fn clipboard_bytes(sequence: u64, paste: bool, text: Seq<u8>) -> Seq<u8> {
    seq![ControlMessageType::SetClipboard.spec_code()]
        + crate::wire::be(sequence as nat, 8)
        + seq![if paste { 1u8 } else { 0u8 }]
        + crate::wire::be(text.len(), 4)
        + text
}

/// The bytes of a message that creates a virtual input device.
pub open spec fn uhid_create_bytes(
    id: u16,
    vendor: u16,
    product: u16,
    name: Seq<u8>,
    report_desc: Seq<u8>,
) -> Seq<u8> {
    seq![ControlMessageType::UhidCreate.spec_code()]
        + crate::wire::be(id as nat, 2)
        + crate::wire::be(vendor as nat, 2)
        + crate::wire::be(product as nat, 2)
        + seq![name.len() as u8]
        + name
        + crate::wire::be(report_desc.len(), 2)
        + report_desc
}

/// The bytes of an input report for a virtual input device.
pub open spec fn uhid_input_bytes(id: u16, data: Seq<u8>) -> Seq<u8> {
    seq![ControlMessageType::UhidInput.spec_code()]
        + crate::wire::be(id as nat, 2)
        + crate::wire::be(data.len(), 2)
        + data
}

/// The bytes of a message that removes a virtual input device.
pub open spec fn uhid_destroy_bytes(id: u16) -> Seq<u8> {
    seq![ControlMessageType::UhidDestroy.spec_code()] + crate::wire::be(id as nat, 2)
}

/// Appends the two big-endian bytes of a screen size; higher bytes are cut off.
fn put_size(dst: &mut Vec<u8>, x: u32)
    ensures
        final(dst)@ == old(dst)@ + crate::wire::be(x as nat, 2),
{
    put_u16(dst, (x % 65536) as u16);
    proof {
        crate::wire::lemma_be_truncates_16(x as nat);
    }
}

/// Appends the four big-endian bytes of a length; higher bytes are cut off.
fn put_len(dst: &mut Vec<u8>, n: usize)
    ensures
        final(dst)@ == old(dst)@ + crate::wire::be(n as nat, 4),
{
    put_u32(dst, (n as u64 % 0x1_0000_0000) as u32);
    proof {
        crate::wire::lemma_be_truncates_32(n as nat);
    }
}

fn scaled_scroll(steps: i32) -> (r: i16)
    requires
        scroll_fits(steps),
    ensures
        r == scroll_units(steps),
{
    let units: i32 = steps * 2048;
    if units < -32768 {
        -32768
    } else if units > 32767 {
        32767
    } else {
        units as i16
    }
}

/// A message from the device.
#[derive(Debug, Clone, PartialEq, Eq)]
pub enum DeviceMessage {
    Clipboard(String),
    AckClipboard(u64),
}

/// A message from the device as a mathematical value.
pub enum DeviceMessageView {
    Clipboard(Seq<char>),
    AckClipboard(u64),
}

impl View for DeviceMessage {
    type V = DeviceMessageView;

    open spec fn view(&self) -> DeviceMessageView {
        match *self {
            DeviceMessage::Clipboard(t) => DeviceMessageView::Clipboard(t@),
            DeviceMessage::AckClipboard(n) => DeviceMessageView::AckClipboard(n),
        }
    }
}

/// Messages in order, as mathematical values.
pub open spec fn messages_view(s: Seq<DeviceMessage>) -> Seq<DeviceMessageView> {
    s.map_values(|m: DeviceMessage| m@)
}

/// A clipboard message, and the sequence number whose acknowledgement is to be awaited.
pub struct ClipboardRequest {
    pub message: Vec<u8>,
    pub wait_for: Option<u64>,
}

/// For how many milliseconds the acknowledgement of a clipboard text is awaited.
pub const CLIPBOARD_ACK_WAIT_MS: u64 = 500;

/// What happens while an acknowledgement is awaited: a message, the end of the channel, or nothing
/// for as long as was asked for.
pub enum AckWait {
    Message(DeviceMessage),
    Closed,
    TimedOut,
}

/// What happens while an acknowledgement is awaited, as a mathematical value.
pub enum AckWaitView {
    Message(DeviceMessageView),
    Closed,
    TimedOut,
}

impl View for AckWait {
    type V = AckWaitView;

    open spec fn view(&self) -> AckWaitView {
        match *self {
            AckWait::Message(m) => AckWaitView::Message(m@),
            AckWait::Closed => AckWaitView::Closed,
            AckWait::TimedOut => AckWaitView::TimedOut,
        }
    }
}

/// How a wait for an acknowledgement goes on: for so many more milliseconds, or no longer.
#[derive(Debug, PartialEq, Eq)]
pub enum AckStep {
    WaitFor(u64),
    Done(Result<(), ScrcpyError>),
}

/// How a wait for an acknowledgement goes on, as a mathematical value. A wait is done with an
/// error or with none.
pub enum AckStepView {
    WaitFor(u64),
    Done(Option<crate::error::ErrorView>),
}

impl View for AckStep {
    type V = AckStepView;

    open spec fn view(&self) -> AckStepView {
        match *self {
            AckStep::WaitFor(ms) => AckStepView::WaitFor(ms),
            AckStep::Done(r) => AckStepView::Done(crate::input::error_of(r)),
        }
    }
}

/// How a wait goes on that has lasted for so many milliseconds without the acknowledgement.
pub open spec fn ack_step_after(sequence: u64, waited_ms: u64) -> AckStepView {
    if waited_ms < CLIPBOARD_ACK_WAIT_MS {
        AckStepView::WaitFor((CLIPBOARD_ACK_WAIT_MS - waited_ms) as u64)
    } else {
        AckStepView::Done(
            Some(
                crate::error::ErrorView::Network(
                    "等待剪贴板 ACK 超时: sequence="@ + crate::text::decimal(sequence as nat),
                ),
            ),
        )
    }
}

/// How a wait goes on after something happened, so many milliseconds after it began.
pub open spec fn ack_step(sequence: u64, waited_ms: u64, event: AckWaitView) -> AckStepView {
    match event {
        AckWaitView::Message(m) => if m == DeviceMessageView::AckClipboard(sequence) {
            AckStepView::Done(None)
        } else {
            ack_step_after(sequence, waited_ms)
        },
        AckWaitView::Closed => AckStepView::Done(
            Some(crate::error::ErrorView::Network("控制通道设备消息接收器已关闭"@)),
        ),
        AckWaitView::TimedOut => ack_step_after(sequence, waited_ms),
    }
}

/// What a wait comes to while messages arrive at the given times, in milliseconds since it began:
/// an error or none. A message is taken in where it arrives before the wait is over, and then the
/// wait goes on as `ack_step` says.
pub open spec fn ack_awaited(sequence: u64, arrivals: Seq<(u64, DeviceMessageView)>) -> Option<
    crate::error::ErrorView,
>
    decreases arrivals.len(),
{
    if arrivals.len() == 0 || arrivals[0].0 >= CLIPBOARD_ACK_WAIT_MS {
        ack_step(sequence, CLIPBOARD_ACK_WAIT_MS, AckWaitView::TimedOut)->Done_0
    } else {
        match ack_step(sequence, arrivals[0].0, AckWaitView::Message(arrivals[0].1)) {
            AckStepView::Done(r) => r,
            AckStepView::WaitFor(_) => ack_awaited(sequence, arrivals.drop_first()),
        }
    }
}

/// The state of a control channel beside its socket: the acknowledgements and clipboard texts
/// that nobody has asked for yet, and the next sequence number.
pub struct ControlChannel {
    acked_sequences: HashSet<u64>,
    pending_clipboards: VecDeque<String>,
    next_sequence: u64,
}

/// The state of a control channel as a mathematical value.
#[verifier::ext_equal]
pub struct ControlView {
    pub acked: Set<u64>,
    pub pending: Seq<Seq<char>>,
    pub next: u64,
}

impl ControlView {
    /// The state after a message from the device.
    pub open spec fn with_message(self, m: DeviceMessageView) -> ControlView {
        match m {
            DeviceMessageView::Clipboard(t) => ControlView { pending: self.pending.push(t), ..self },
            DeviceMessageView::AckClipboard(n) => ControlView {
                acked: self.acked.insert(n),
                ..self
            },
        }
    }

    /// The state after messages from the device, in order.
    pub open spec fn with_messages(self, ms: Seq<DeviceMessageView>) -> ControlView
        decreases ms.len(),
    {
        if ms.len() == 0 {
            self
        } else {
            self.with_messages(ms.drop_last()).with_message(ms.last())
        }
    }

    /// The sequence number after `self.next`; zero is left out.
    pub open spec fn after_next(self) -> u64 {
        if self.next == u64::MAX {
            1
        } else {
            (self.next + 1) as u64
        }
    }
}

impl View for ControlChannel {
    type V = ControlView;

    closed spec fn view(&self) -> ControlView {
        ControlView {
            acked: self.acked_sequences@,
            pending: crate::text::strings_view(self.pending_clipboards@),
            next: self.next_sequence,
        }
    }
}

impl ControlChannel {
    /// A channel on which nothing has happened.
    pub fn new() -> (r: Self)
        ensures
            r@ == (ControlView { acked: Set::empty(), pending: Seq::empty(), next: 1 }),
    {
        let r = ControlChannel {
            acked_sequences: HashSet::new(),
            pending_clipboards: VecDeque::new(),
            next_sequence: 1,
        };
        assert(r@.pending =~= Seq::empty());
        r
    }

    /// Takes in one message from the device.
    pub fn on_device_message(&mut self, message: DeviceMessage)
        ensures
            final(self)@ == old(self)@.with_message(message@),
    {
        match message {
            DeviceMessage::Clipboard(text) => {
                self.pending_clipboards.push_back(text);
            },
            DeviceMessage::AckClipboard(sequence) => {
                self.acked_sequences.insert(sequence);
            },
        }
        assert(self@ =~= old(self)@.with_message(message@));
    }

    /// Takes in the messages that have arrived from the device, in order.
    pub fn poll_device_messages(&mut self, messages: Vec<DeviceMessage>)
        ensures
            final(self)@ == old(self)@.with_messages(messages_view(messages@)),
    {
        let ghost all = messages_view(messages@);
        let mut rest: VecDeque<DeviceMessage> = queue_of(messages);
        let mut done: Ghost<int> = Ghost(0);
        assert(all.take(0) =~= Seq::empty());
        while rest.len() > 0
            invariant
                all == messages_view(messages@),
                0 <= done@ <= messages@.len(),
                rest@ == messages@.skip(done@),
                self@ == old(self)@.with_messages(all.take(done@)),
            decreases rest.len(),
        {
            if let Some(message) = rest.pop_front() {
                proof {
                    assert(message == messages@[done@]);
                    assert(all.take(done@ + 1).drop_last() =~= all.take(done@));
                    assert(all.take(done@ + 1).last() == message@);
                    assert(rest@ =~= messages@.skip(done@ + 1));
                }
                self.on_device_message(message);
                proof {
                    done@ = done@ + 1;
                }
            }
        }
        assert(all.take(messages@.len() as int) =~= all);
    }

    /// Takes in the messages that have arrived, and hands out the clipboard texts that nobody
    /// has asked for yet, oldest first.
    pub fn take_clipboard_updates(&mut self, messages: Vec<DeviceMessage>) -> (r: Vec<String>)
        ensures
            crate::text::strings_view(r@) == old(self)@.with_messages(messages_view(messages@)).pending,
            final(self)@ == (ControlView {
                pending: Seq::empty(),
                ..old(self)@.with_messages(messages_view(messages@))
            }),
    {
        self.poll_device_messages(messages);
        let ghost polled = self@;
        let out: Vec<String> = drain(&mut self.pending_clipboards);
        assert(self@.pending =~= Seq::empty());
        assert(self@ =~= (ControlView { pending: Seq::empty(), ..polled }));
        out
    }

    /// Takes the next sequence number.
    fn alloc_sequence(&mut self) -> (r: u64)
        ensures
            r == old(self)@.next,
            final(self)@ == (ControlView { next: old(self)@.after_next(), ..old(self)@ }),
    {
        let sequence: u64 = self.next_sequence;
        self.next_sequence = if sequence == u64::MAX {
            1
        } else {
            sequence + 1
        };
        sequence
    }

    /// The message that sets the device's clipboard. Without `paste` it takes a sequence number,
    /// and the acknowledgement of that number is to be awaited (`wait_clipboard_ack`); with `paste`
    /// the number is zero and nothing is awaited.
    pub fn set_clipboard(&mut self, text: &str, paste: bool) -> (r: ClipboardRequest)
        ensures
            paste ==> r.wait_for is None && final(self)@ == old(self)@ && r.message@
                == clipboard_bytes(0, true, vstd::utf8::encode_utf8(text@)),
            !paste ==> r.wait_for == Some(old(self)@.next) && final(self)@ == (ControlView {
                next: old(self)@.after_next(),
                ..old(self)@
            }) && r.message@ == clipboard_bytes(old(self)@.next, false, vstd::utf8::encode_utf8(text@)),
    {
        let sequence: u64 = if paste {
            0
        } else {
            self.alloc_sequence()
        };
        let body: &[u8] = text.as_bytes();
        let mut message: Vec<u8> = Vec::new();
        message.push(ControlMessageType::SetClipboard.code());
        put_u64(&mut message, sequence);
        message.push(
            if paste {
                1
            } else {
                0
            },
        );
        put_len(&mut message, body.len());
        extend(&mut message, body);
        assert(message@ =~= clipboard_bytes(sequence, paste, vstd::utf8::encode_utf8(text@)));
        ClipboardRequest {
            message,
            wait_for: if paste {
                None
            } else {
                Some(sequence)
            },
        }
    }

    /// Takes in the messages that have arrived, and uses up the acknowledgement of `sequence`
    /// where it is there.
    pub fn take_ack(&mut self, messages: Vec<DeviceMessage>, sequence: u64) -> (r: bool)
        ensures
            r == old(self)@.with_messages(messages_view(messages@)).acked.contains(sequence),
            final(self)@ == (ControlView {
                acked: old(self)@.with_messages(messages_view(messages@)).acked.remove(sequence),
                ..old(self)@.with_messages(messages_view(messages@))
            }),
    {
        self.poll_device_messages(messages);
        let ghost polled = self@;
        let r: bool = self.acked_sequences.remove(&sequence);
        assert(self@.acked =~= polled.acked.remove(sequence));
        r
    }

    /// Begins to wait for the acknowledgement of `sequence`, with the messages that have arrived
    /// before. Where it is among them or came earlier, the wait is over.
    pub fn wait_clipboard_ack(&mut self, messages: Vec<DeviceMessage>, sequence: u64) -> (r: AckStep)
        ensures
            r@ == if old(self)@.with_messages(messages_view(messages@)).acked.contains(sequence) {
                AckStepView::Done(None)
            } else {
                AckStepView::WaitFor(CLIPBOARD_ACK_WAIT_MS)
            },
            final(self)@ == (ControlView {
                acked: old(self)@.with_messages(messages_view(messages@)).acked.remove(sequence),
                ..old(self)@.with_messages(messages_view(messages@))
            }),
    {
        if self.take_ack(messages, sequence) {
            AckStep::Done(Ok(()))
        } else {
            AckStep::WaitFor(CLIPBOARD_ACK_WAIT_MS)
        }
    }

    /// One step of waiting for the acknowledgement of `sequence`, so many milliseconds after the
    /// wait began. Other messages are kept for whoever asks for them.
    pub fn on_ack_wait(&mut self, sequence: u64, waited_ms: u64, event: AckWait) -> (r: AckStep)
        ensures
            r@ == ack_step(sequence, waited_ms, event@),
            final(self)@ == match event@ {
                AckWaitView::Message(m) => if m == DeviceMessageView::AckClipboard(sequence) {
                    old(self)@
                } else {
                    old(self)@.with_message(m)
                },
                _ => old(self)@,
            },
    {
        match event {
            AckWait::Message(message) => {
                let ours: bool = match &message {
                    DeviceMessage::AckClipboard(n) => *n == sequence,
                    DeviceMessage::Clipboard(_) => false,
                };
                if ours {
                    return AckStep::Done(Ok(()));
                }
                self.on_device_message(message);
            },
            AckWait::Closed => {
                return AckStep::Done(
                    Err(ScrcpyError::Network("控制通道设备消息接收器已关闭".to_owned())),
                );
            },
            AckWait::TimedOut => {},
        }
        if waited_ms < CLIPBOARD_ACK_WAIT_MS {
            AckStep::WaitFor(CLIPBOARD_ACK_WAIT_MS - waited_ms)
        } else {
            AckStep::Done(
                Err(
                    ScrcpyError::Network(
                        concat(
                            "等待剪贴板 ACK 超时: sequence=",
                            to_decimal(sequence).as_str(),
                        ),
                    ),
                ),
            )
        }
    }

    /// The message for a touch event.
    pub fn send_touch_event(event: &TouchEvent) -> (r: Vec<u8>)
        ensures
            r@ == touch_bytes(*event),
    {
        let mouse: bool = event.pointer_id == -1;
        let released: bool = match event.action {
            AndroidMotionEventAction::Up | AndroidMotionEventAction::PointerUp => true,
            _ => false,
        };
        let mut message: Vec<u8> = Vec::new();
        message.push(ControlMessageType::InjectTouch.code());
        message.push(event.action.code());
        put_i64(&mut message, event.pointer_id);
        put_u32(&mut message, event.x);
        put_u32(&mut message, event.y);
        put_size(&mut message, event.width);
        put_size(&mut message, event.height);
        put_u16(&mut message, event.pressure);
        put_u32(
            &mut message,
            if mouse {
                1
            } else {
                0
            },
        );
        put_u32(
            &mut message,
            if mouse && !released {
                event.buttons
            } else {
                0
            },
        );
        assert(message@ =~= touch_bytes(*event));
        message
    }

    /// The message for a key event.
    pub fn send_key_event(event: &KeyEvent) -> (r: Vec<u8>)
        ensures
            r@ == key_bytes(*event),
    {
        let mut message: Vec<u8> = Vec::new();
        message.push(ControlMessageType::InjectKeycode.code());
        message.push(event.action.code());
        put_u32(&mut message, event.keycode);
        put_u32(&mut message, event.repeat);
        put_u32(&mut message, event.metastate);
        assert(message@ =~= key_bytes(*event));
        message
    }

    /// The message for a scroll event.
    pub fn send_scroll_event(event: &ScrollEvent) -> (r: Vec<u8>)
        requires
            scroll_fits(event.hscroll),
            scroll_fits(event.vscroll),
        ensures
            r@ == scroll_bytes(*event),
    {
        let mut message: Vec<u8> = Vec::new();
        message.push(ControlMessageType::InjectScroll.code());
        put_i32(&mut message, event.x);
        put_i32(&mut message, event.y);
        put_size(&mut message, event.width);
        put_size(&mut message, event.height);
        put_i16(&mut message, scaled_scroll(event.hscroll));
        put_i16(&mut message, scaled_scroll(event.vscroll));
        put_u32(&mut message, 0);
        assert(message@ =~= scroll_bytes(*event));
        message
    }

    /// The messages for pressing and releasing a key.
    pub fn tap_key(keycode: u32) -> (r: Vec<Vec<u8>>)
        ensures
            crate::wire::buffers_view(r@) == tap_bytes(keycode),
    {
        let mut out: Vec<Vec<u8>> = Vec::new();
        out.push(
            Self::send_key_event(
                &KeyEvent {
                    action: AndroidKeyEventAction::Down,
                    keycode,
                    repeat: 0,
                    metastate: 0,
                },
            ),
        );
        out.push(
            Self::send_key_event(
                &KeyEvent { action: AndroidKeyEventAction::Up, keycode, repeat: 0, metastate: 0 },
            ),
        );
        assert(crate::wire::buffers_view(out@) =~= tap_bytes(keycode));
        out
    }

    /// The messages for the back key.
    pub fn send_back_key() -> (r: Vec<Vec<u8>>)
        ensures
            crate::wire::buffers_view(r@) == tap_bytes(4),
    {
        Self::tap_key(4)
    }

    /// The messages for the home key.
    pub fn send_home_key() -> (r: Vec<Vec<u8>>)
        ensures
            crate::wire::buffers_view(r@) == tap_bytes(3),
    {
        Self::tap_key(3)
    }

    /// The message that types a text.
    pub fn send_text(text: &str) -> (r: Vec<u8>)
        ensures
            r@ == text_bytes(vstd::utf8::encode_utf8(text@)),
    {
        let body: &[u8] = text.as_bytes();
        let mut message: Vec<u8> = Vec::new();
        message.push(ControlMessageType::InjectText.code());
        put_len(&mut message, body.len());
        extend(&mut message, body);
        assert(message@ =~= text_bytes(vstd::utf8::encode_utf8(text@)));
        message
    }

    /// The message that turns the device's display on or off.
    pub fn set_display_power(on: bool) -> (r: Vec<u8>)
        ensures
            r@ == seq![10u8, if on { 1u8 } else { 0u8 }],
    {
        let mut message: Vec<u8> = Vec::new();
        message.push(ControlMessageType::SetDisplayPower.code());
        message.push(
            if on {
                1
            } else {
                0
            },
        );
        assert(message@ =~= seq![10u8, if on { 1u8 } else { 0u8 }]);
        message
    }

    /// The message that toggles the device's orientation.
    pub fn send_rotate_device() -> (r: Vec<u8>)
        ensures
            r@ == seq![11u8],
    {
        let mut message: Vec<u8> = Vec::new();
        message.push(ControlMessageType::RotateDevice.code());
        assert(message@ =~= seq![11u8]);
        message
    }

    /// The message that asks for a new key frame.
    pub fn send_reset_video() -> (r: Vec<u8>)
        ensures
            r@ == seq![17u8],
    {
        let mut message: Vec<u8> = Vec::new();
        message.push(ControlMessageType::ResetVideo.code());
        assert(message@ =~= seq![17u8]);
        message
    }

    /// The message that creates a virtual keyboard. The name has at most 255 bytes and the report
    /// descriptor at most 65535; the name is looked at first.
    pub fn send_uhid_create_keyboard(
        id: u16,
        vendor_id: u16,
        product_id: u16,
        name: &str,
        report_desc: &[u8],
    ) -> (r: Result<Vec<u8>, ScrcpyError>)
        ensures
            match r {
                Ok(m) => vstd::utf8::encode_utf8(name@).len() <= 255 && report_desc@.len() <= 65535 && m@
                    == uhid_create_bytes(
                    id,
                    vendor_id,
                    product_id,
                    vstd::utf8::encode_utf8(name@),
                    report_desc@,
                ),
                Err(e) => if vstd::utf8::encode_utf8(name@).len() > 255 {
                    e@ == crate::error::ErrorView::Other(
                        "UHID 键盘名称过长: "@ + crate::text::decimal(vstd::utf8::encode_utf8(name@).len()),
                    )
                } else {
                    report_desc@.len() > 65535 && e@ == crate::error::ErrorView::Other(
                        "UHID 报告描述符过长: "@ + crate::text::decimal(report_desc@.len()),
                    )
                },
            },
    {
        let name_bytes: &[u8] = name.as_bytes();
        if name_bytes.len() > 255 {
            return Err(
                ScrcpyError::Other(
                    concat("UHID 键盘名称过长: ", to_decimal(name_bytes.len() as u64).as_str()),
                ),
            );
        }
        if report_desc.len() > 65535 {
            return Err(
                ScrcpyError::Other(
                    concat(
                        "UHID 报告描述符过长: ",
                        to_decimal(report_desc.len() as u64).as_str(),
                    ),
                ),
            );
        }
        let mut message: Vec<u8> = Vec::new();
        message.push(ControlMessageType::UhidCreate.code());
        put_u16(&mut message, id);
        put_u16(&mut message, vendor_id);
        put_u16(&mut message, product_id);
        message.push(name_bytes.len() as u8);
        extend(&mut message, name_bytes);
        put_u16(&mut message, report_desc.len() as u16);
        extend(&mut message, report_desc);
        assert(message@ =~= uhid_create_bytes(
            id,
            vendor_id,
            product_id,
            vstd::utf8::encode_utf8(name@),
            report_desc@,
        ));
        Ok(message)
    }

    /// The message with an input report of at most 65535 bytes.
    pub fn send_uhid_input(id: u16, data: &[u8]) -> (r: Result<Vec<u8>, ScrcpyError>)
        ensures
            match r {
                Ok(m) => data@.len() <= 65535 && m@ == uhid_input_bytes(id, data@),
                Err(e) => data@.len() > 65535 && e@ == crate::error::ErrorView::Other(
                    "UHID 输入报告过长: "@ + crate::text::decimal(data@.len()),
                ),
            },
    {
        if data.len() > 65535 {
            return Err(
                ScrcpyError::Other(
                    concat("UHID 输入报告过长: ", to_decimal(data.len() as u64).as_str()),
                ),
            );
        }
        let mut message: Vec<u8> = Vec::new();
        message.push(ControlMessageType::UhidInput.code());
        put_u16(&mut message, id);
        put_u16(&mut message, data.len() as u16);
        extend(&mut message, data);
        assert(message@ =~= uhid_input_bytes(id, data@));
        Ok(message)
    }

    /// The message that removes a virtual input device.
    pub fn send_uhid_destroy(id: u16) -> (r: Vec<u8>)
        ensures
            r@ == uhid_destroy_bytes(id),
    {
        let mut message: Vec<u8> = Vec::new();
        message.push(ControlMessageType::UhidDestroy.code());
        put_u16(&mut message, id);
        assert(message@ =~= uhid_destroy_bytes(id));
        message
    }
}

/// The messages for pressing and releasing a key.
pub open spec fn tap_bytes(keycode: u32) -> Seq<Seq<u8>> {
    seq![
        key_bytes(
            KeyEvent { action: AndroidKeyEventAction::Down, keycode, repeat: 0, metastate: 0 },
        ),
        key_bytes(
            KeyEvent { action: AndroidKeyEventAction::Up, keycode, repeat: 0, metastate: 0 },
        ),
    ]
}

/// An acknowledgement is there exactly when it was there before or is among the messages.
/// Clipboard texts are kept in the order of their arrival, behind those that were there before.
pub proof fn law_messages_kept(v: ControlView, ms: Seq<DeviceMessageView>, sequence: u64)
    ensures
        v.with_messages(ms).acked.contains(sequence) <==> v.acked.contains(sequence)
            || ms.contains(DeviceMessageView::AckClipboard(sequence)),
        v.with_messages(ms).pending == v.pending + clipboard_texts(ms),
        v.with_messages(ms).next == v.next,
    decreases ms.len(),
{
    if ms.len() > 0 {
        let init = ms.drop_last();
        let ack = DeviceMessageView::AckClipboard(sequence);
        law_messages_kept(v, init, sequence);
        assert(ms =~= init.push(ms.last()));
        assert(ms.contains(ack) <==> init.contains(ack) || ms.last() == ack) by {
            if init.contains(ack) {
                let i = choose|i: int| 0 <= i < init.len() && init[i] == ack;
                assert(ms[i] == ack);
            }
            if ms.last() == ack {
                assert(ms[ms.len() - 1] == ack);
            }
            if ms.contains(ack) {
                let i = choose|i: int| 0 <= i < ms.len() && ms[i] == ack;
                if i < init.len() {
                    assert(init[i] == ack);
                }
            }
        }
        assert(v.with_messages(ms).pending =~= v.pending + clipboard_texts(ms));
    } else {
        assert(v.pending + clipboard_texts(ms) =~= v.pending);
    }
}

/// The clipboard texts among messages, in order.
pub open spec fn clipboard_texts(ms: Seq<DeviceMessageView>) -> Seq<Seq<char>>
    decreases ms.len(),
{
    if ms.len() == 0 {
        Seq::empty()
    } else {
        match ms.last() {
            DeviceMessageView::Clipboard(t) => clipboard_texts(ms.drop_last()).push(t),
            DeviceMessageView::AckClipboard(_) => clipboard_texts(ms.drop_last()),
        }
    }
}

/// Sequence numbers are never zero, and two neighbours differ.
pub proof fn law_sequence_numbers(v: ControlView)
    requires
        v.next != 0,
    ensures
        v.after_next() != 0,
        v.after_next() != v.next,
{
}

/// Setting the clipboard succeeds exactly when the acknowledgement of its number arrives before
/// the wait of 500 milliseconds is over. Else it fails with a network error.
pub proof fn law_ack_within_wait(sequence: u64, arrivals: Seq<(u64, DeviceMessageView)>)
    requires
        forall|i: int, j: int|
            0 <= i <= j < arrivals.len() ==> (#[trigger] arrivals[i]).0 <= (
            #[trigger] arrivals[j]).0,
    ensures
        CLIPBOARD_ACK_WAIT_MS == 500,
        ack_awaited(sequence, arrivals) is None <==> exists|i: int|
            0 <= i < arrivals.len() && (#[trigger] arrivals[i]).0 < CLIPBOARD_ACK_WAIT_MS
                && arrivals[i].1 == DeviceMessageView::AckClipboard(sequence),
        ack_awaited(sequence, arrivals) matches Some(e) ==> e == crate::error::ErrorView::Network(
            "等待剪贴板 ACK 超时: sequence="@ + crate::text::decimal(sequence as nat),
        ),
    decreases arrivals.len(),
{
    if arrivals.len() > 0 && arrivals[0].0 < CLIPBOARD_ACK_WAIT_MS {
        let ours = DeviceMessageView::AckClipboard(sequence);
        if arrivals[0].1 != ours {
            let rest = arrivals.drop_first();
            assert forall|i: int, j: int| 0 <= i <= j < rest.len() implies (#[trigger] rest[i]).0
                <= (#[trigger] rest[j]).0 by {
                assert(rest[i] == arrivals[i + 1] && rest[j] == arrivals[j + 1]);
            }
            law_ack_within_wait(sequence, rest);
            if exists|i: int|
                0 <= i < arrivals.len() && (#[trigger] arrivals[i]).0 < CLIPBOARD_ACK_WAIT_MS
                    && arrivals[i].1 == ours {
                let i = choose|i: int|
                    0 <= i < arrivals.len() && (#[trigger] arrivals[i]).0 < CLIPBOARD_ACK_WAIT_MS
                        && arrivals[i].1 == ours;
                assert(rest[i - 1] == arrivals[i]);
            }
            if ack_awaited(sequence, rest) is None {
                let k = choose|k: int|
                    0 <= k < rest.len() && (#[trigger] rest[k]).0 < CLIPBOARD_ACK_WAIT_MS
                        && rest[k].1 == ours;
                assert(arrivals[k + 1] == rest[k]);
            }
        }
    } else if arrivals.len() > 0 {
        assert forall|i: int| 0 <= i < arrivals.len() implies (#[trigger] arrivals[i]).0
            >= CLIPBOARD_ACK_WAIT_MS by {
            assert(arrivals[0].0 <= arrivals[i].0);
        }
    }
}

/// What setting the clipboard comes to on a channel in state `v`, where its message goes out: with
/// `paste` nothing is awaited; else the messages in `early` have come before the wait begins, and
/// those in `arrivals` come during it.
pub open spec fn clipboard_outcome(
    v: ControlView,
    paste: bool,
    early: Seq<DeviceMessageView>,
    arrivals: Seq<(u64, DeviceMessageView)>,
) -> Option<crate::error::ErrorView> {
    if paste || v.with_messages(early).acked.contains(v.next) {
        None
    } else {
        ack_awaited(v.next, arrivals)
    }
}

/// A text that is pasted is set without waiting. Any other is set exactly when the number of its
/// message, which is not zero, is acknowledged before 500 milliseconds are over; else that is a
/// network error. The next such message has another number.
pub proof fn law_clipboard_is_acknowledged(
    v: ControlView,
    early: Seq<DeviceMessageView>,
    arrivals: Seq<(u64, DeviceMessageView)>,
)
    requires
        v.next != 0,
        forall|i: int, j: int|
            0 <= i <= j < arrivals.len() ==> (#[trigger] arrivals[i]).0 <= (
            #[trigger] arrivals[j]).0,
    ensures
        clipboard_outcome(v, true, early, arrivals) is None,
        clipboard_outcome(v, false, early, arrivals) is None <==> {
            ||| v.acked.contains(v.next)
            ||| early.contains(DeviceMessageView::AckClipboard(v.next))
            ||| exists|i: int|
                0 <= i < arrivals.len() && (#[trigger] arrivals[i]).0 < 500 && arrivals[i].1
                    == DeviceMessageView::AckClipboard(v.next)
        },
        clipboard_outcome(v, false, early, arrivals) matches Some(e) ==> e is Network,
        v.after_next() != 0,
        v.after_next() != v.next,
{
    law_messages_kept(v, early, v.next);
    law_ack_within_wait(v.next, arrivals);
    law_sequence_numbers(v);
}

/// Touch, key and scroll messages have 32, 14 and 21 bytes.
pub proof fn law_message_lengths(t: TouchEvent, k: KeyEvent, s: ScrollEvent)
    ensures
        touch_bytes(t).len() == 32,
        key_bytes(k).len() == 14,
        scroll_bytes(s).len() == 21,
{
    crate::wire::lemma_be_len(crate::wire::twos_64(t.pointer_id as int), 8);
    crate::wire::lemma_be_len(t.x as nat, 4);
    crate::wire::lemma_be_len(t.y as nat, 4);
    crate::wire::lemma_be_len(t.width as nat, 2);
    crate::wire::lemma_be_len(t.height as nat, 2);
    crate::wire::lemma_be_len(t.pressure as nat, 2);
    crate::wire::lemma_be_len(0, 4);
    crate::wire::lemma_be_len(1, 4);
    crate::wire::lemma_be_len(t.buttons as nat, 4);
    crate::wire::lemma_be_len(k.keycode as nat, 4);
    crate::wire::lemma_be_len(k.repeat as nat, 4);
    crate::wire::lemma_be_len(k.metastate as nat, 4);
    crate::wire::lemma_be_len(crate::wire::twos_32(s.x as int), 4);
    crate::wire::lemma_be_len(crate::wire::twos_32(s.y as int), 4);
    crate::wire::lemma_be_len(s.width as nat, 2);
    crate::wire::lemma_be_len(s.height as nat, 2);
    crate::wire::lemma_be_len(crate::wire::twos_16(scroll_units(s.hscroll)), 2);
    crate::wire::lemma_be_len(crate::wire::twos_16(scroll_units(s.vscroll)), 2);
}

/// The key code in a key message is the one that was sent, and the same holds of the other
/// fields: two key events with the same message are equal.
pub proof fn law_key_message_is_unique(a: KeyEvent, b: KeyEvent)
    requires
        key_bytes(a) == key_bytes(b),
    ensures
        a == b,
{
    let s = key_bytes(a);
    let t = key_bytes(b);
    lemma_key_fields(a);
    lemma_key_fields(b);
    assert(s[1] == t[1]);
}

proof fn lemma_key_fields(k: KeyEvent)
    ensures
        key_bytes(k).len() == 14,
        key_bytes(k)[1] == k.action.spec_code(),
        crate::wire::be_value(key_bytes(k).subrange(2, 6)) == k.keycode as nat,
        crate::wire::be_value(key_bytes(k).subrange(6, 10)) == k.repeat as nat,
        crate::wire::be_value(key_bytes(k).subrange(10, 14)) == k.metastate as nat,
{
    crate::wire::lemma_be_len(k.keycode as nat, 4);
    crate::wire::lemma_be_len(k.repeat as nat, 4);
    crate::wire::lemma_be_len(k.metastate as nat, 4);
    crate::wire::lemma_byte_range();
    crate::wire::law_be_round_trip(k.keycode as nat, 4);
    crate::wire::law_be_round_trip(k.repeat as nat, 4);
    crate::wire::law_be_round_trip(k.metastate as nat, 4);
    let s = key_bytes(k);
    assert(s.subrange(2, 6) =~= crate::wire::be(k.keycode as nat, 4));
    assert(s.subrange(6, 10) =~= crate::wire::be(k.repeat as nat, 4));
    assert(s.subrange(10, 14) =~= crate::wire::be(k.metastate as nat, 4));
}

/// Where the reader of device messages stands: what the next bytes are.
#[derive(Debug, Clone, Copy, PartialEq, Eq, Structural)]
pub enum ReadState {
    Kind,
    ClipboardLength,
    ClipboardText(u32),
    AckSequence,
    UhidHeader,
    UhidPayload(u16),
    Stopped,
}

impl ReadState {
    /// How many bytes come next.
    pub open spec fn spec_wanted(self) -> nat {
        match self {
            ReadState::Kind => 1,
            ReadState::ClipboardLength => 4,
            ReadState::ClipboardText(n) => n as nat,
            ReadState::AckSequence => 8,
            ReadState::UhidHeader => 4,
            ReadState::UhidPayload(n) => n as nat,
            ReadState::Stopped => 0,
        }
    }

    /// The state after the bytes, and the message that they complete. Reports of virtual input
    /// devices are skipped; an unknown kind of message ends the reading.
    pub open spec fn step(self, bytes: Seq<u8>) -> (ReadState, Option<DeviceMessageView>) {
        match self {
            ReadState::Kind => if bytes[0] == 0 {
                (ReadState::ClipboardLength, None)
            } else if bytes[0] == 1 {
                (ReadState::AckSequence, None)
            } else if bytes[0] == 2 {
                (ReadState::UhidHeader, None)
            } else {
                (ReadState::Stopped, None)
            },
            ReadState::ClipboardLength => (
                ReadState::ClipboardText(crate::wire::be_value(bytes) as u32),
                None,
            ),
            ReadState::ClipboardText(_) => (
                ReadState::Kind,
                Some(DeviceMessageView::Clipboard(crate::text::lossy(bytes))),
            ),
            ReadState::AckSequence => (
                ReadState::Kind,
                Some(DeviceMessageView::AckClipboard(crate::wire::be_value(bytes) as u64)),
            ),
            ReadState::UhidHeader => (
                ReadState::UhidPayload(crate::wire::be_value(bytes.subrange(2, 4)) as u16),
                None,
            ),
            ReadState::UhidPayload(_) => (ReadState::Kind, None),
            ReadState::Stopped => (ReadState::Stopped, None),
        }
    }

    /// The messages that a run of bytes completes.
    pub open spec fn read(self, bytes: Seq<u8>) -> Seq<DeviceMessageView>
        decreases bytes.len(), (if self.spec_wanted() == 0 { 1int } else { 0int }),
    {
        let n = self.spec_wanted() as int;
        if self is Stopped || bytes.len() < n {
            Seq::empty()
        } else {
            let (next, out) = self.step(bytes.take(n));
            let rest = next.read(bytes.skip(n));
            match out {
                Some(m) => seq![m] + rest,
                None => rest,
            }
        }
    }

    /// How many bytes come next.
    pub fn wanted(self) -> (r: usize)
        ensures
            r == self.spec_wanted(),
    {
        match self {
            ReadState::Kind => 1,
            ReadState::ClipboardLength => 4,
            ReadState::ClipboardText(n) => n as usize,
            ReadState::AckSequence => 8,
            ReadState::UhidHeader => 4,
            ReadState::UhidPayload(n) => n as usize,
            ReadState::Stopped => 0,
        }
    }

    /// Takes in the bytes that were asked for.
    pub fn on_bytes(self, bytes: &[u8]) -> (r: (ReadState, Option<DeviceMessage>))
        requires
            bytes@.len() == self.spec_wanted(),
        ensures
            r.0 == self.step(bytes@).0,
            match r.1 {
                Some(m) => self.step(bytes@).1 == Some(m@),
                None => self.step(bytes@).1 is None,
            },
    {
        match self {
            ReadState::Kind => {
                let kind: u8 = bytes[0];
                if kind == 0 {
                    (ReadState::ClipboardLength, None)
                } else if kind == 1 {
                    (ReadState::AckSequence, None)
                } else if kind == 2 {
                    (ReadState::UhidHeader, None)
                } else {
                    (ReadState::Stopped, None)
                }
            },
            ReadState::ClipboardLength => {
                assert(bytes@.subrange(0, 4) =~= bytes@);
                (ReadState::ClipboardText(get_u32(bytes, 0)), None)
            },
            ReadState::ClipboardText(_) => {
                (ReadState::Kind, Some(DeviceMessage::Clipboard(lossy_text(bytes))))
            },
            ReadState::AckSequence => {
                assert(bytes@.subrange(0, 8) =~= bytes@);
                (ReadState::Kind, Some(DeviceMessage::AckClipboard(get_u64(bytes, 0))))
            },
            ReadState::UhidHeader => (ReadState::UhidPayload(get_u16(bytes, 2)), None),
            ReadState::UhidPayload(_) => (ReadState::Kind, None),
            ReadState::Stopped => (ReadState::Stopped, None),
        }
    }
}

/// The bytes with which the device reports a clipboard text.
pub open spec fn device_clipboard_bytes(text: Seq<char>) -> Seq<u8> {
    let body = vstd::utf8::encode_utf8(text);
    seq![0u8] + crate::wire::be(body.len(), 4) + body
}

/// The bytes with which the device acknowledges a clipboard message.
pub open spec fn device_ack_bytes(sequence: u64) -> Seq<u8> {
    seq![1u8] + crate::wire::be(sequence as nat, 8)
}

/// The bytes with which the device passes on a report of a virtual input device.
pub open spec fn device_uhid_bytes(id: u16, data: Seq<u8>) -> Seq<u8> {
    seq![2u8] + crate::wire::be(id as nat, 2) + crate::wire::be(data.len(), 2) + data
}

/// A clipboard text that the device reports is read back as it was, and reading goes on behind
/// it.
pub proof fn law_read_clipboard(text: Seq<char>, rest: Seq<u8>)
    requires
        vstd::utf8::encode_utf8(text).len() <= u32::MAX,
    ensures
        ReadState::Kind.read(device_clipboard_bytes(text) + rest) == seq![
            DeviceMessageView::Clipboard(text),
        ] + ReadState::Kind.read(rest),
{
    let body = vstd::utf8::encode_utf8(text);
    let n = body.len();
    let all = device_clipboard_bytes(text) + rest;
    crate::wire::lemma_be_len(n, 4);
    crate::wire::lemma_byte_range();
    crate::wire::law_be_round_trip(n, 4);
    let a = all.skip(1);
    assert(all.take(1)[0] == 0);
    assert(a.take(4) =~= crate::wire::be(n, 4));
    let b = a.skip(4);
    assert(b.take(n as int) =~= body);
    assert(b.skip(n as int) =~= rest);
    vstd::utf8::encode_utf8_valid_utf8(text);
    vstd::utf8::encode_utf8_decode_utf8(text);
    assert(crate::text::lossy(body) == text);
    let at_text = ReadState::ClipboardText(n as u32);
    assert(at_text.read(b) == seq![DeviceMessageView::Clipboard(text)] + ReadState::Kind.read(
        rest,
    ));
    assert(ReadState::ClipboardLength.read(a) == at_text.read(b));
    assert(ReadState::Kind.read(all) == ReadState::ClipboardLength.read(a));
}

/// An acknowledgement is read back with its sequence number, and reading goes on behind it.
pub proof fn law_read_ack(sequence: u64, rest: Seq<u8>)
    ensures
        ReadState::Kind.read(device_ack_bytes(sequence) + rest) == seq![
            DeviceMessageView::AckClipboard(sequence),
        ] + ReadState::Kind.read(rest),
{
    let all = device_ack_bytes(sequence) + rest;
    crate::wire::lemma_be_len(sequence as nat, 8);
    crate::wire::lemma_byte_range();
    crate::wire::law_be_round_trip(sequence as nat, 8);
    let a = all.skip(1);
    assert(all.take(1)[0] == 1);
    assert(a.take(8) =~= crate::wire::be(sequence as nat, 8));
    assert(a.skip(8) =~= rest);
    assert(ReadState::AckSequence.read(a) == seq![DeviceMessageView::AckClipboard(sequence)]
        + ReadState::Kind.read(rest));
    assert(ReadState::Kind.read(all) == ReadState::AckSequence.read(a));
}

/// A report of a virtual input device is skipped as a whole.
pub proof fn law_read_uhid(id: u16, data: Seq<u8>, rest: Seq<u8>)
    requires
        data.len() <= u16::MAX,
    ensures
        ReadState::Kind.read(device_uhid_bytes(id, data) + rest) == ReadState::Kind.read(rest),
{
    let n = data.len();
    let all = device_uhid_bytes(id, data) + rest;
    crate::wire::lemma_be_len(id as nat, 2);
    crate::wire::lemma_be_len(n, 2);
    crate::wire::lemma_byte_range();
    crate::wire::law_be_round_trip(n, 2);
    let a = all.skip(1);
    assert(all.take(1)[0] == 2);
    assert(a.take(4).subrange(2, 4) =~= crate::wire::be(n, 2));
    let b = a.skip(4);
    assert(b.skip(n as int) =~= rest);
    let at_data = ReadState::UhidPayload(n as u16);
    assert(at_data.read(b) == ReadState::Kind.read(rest));
    assert(ReadState::UhidHeader.read(a) == at_data.read(b));
    assert(ReadState::Kind.read(all) == ReadState::UhidHeader.read(a));
}

/// The number that two, four or eight bytes of a message stand for, read as a number with a sign.
pub open spec fn signed_value(s: Seq<u8>) -> int {
    let v = crate::wire::be_value(s);
    if 2 * v >= crate::wire::byte_range(s.len()) {
        v - crate::wire::byte_range(s.len())
    } else {
        v as int
    }
}

/// The kinds of messages have different first bytes, which are those of the protocol.
pub proof fn law_message_kinds(a: ControlMessageType, b: ControlMessageType)
    ensures
        a.spec_code() == b.spec_code() <==> a == b,
        ControlMessageType::InjectKeycode.spec_code() == 0,
        ControlMessageType::InjectText.spec_code() == 1,
        ControlMessageType::InjectTouch.spec_code() == 2,
        ControlMessageType::InjectScroll.spec_code() == 3,
        ControlMessageType::SetClipboard.spec_code() == 9,
        ControlMessageType::SetDisplayPower.spec_code() == 10,
        ControlMessageType::RotateDevice.spec_code() == 11,
        ControlMessageType::UhidCreate.spec_code() == 12,
        ControlMessageType::UhidInput.spec_code() == 13,
        ControlMessageType::UhidDestroy.spec_code() == 14,
        ControlMessageType::ResetVideo.spec_code() == 17,
{
}

/// The actions have different numbers, which are Android's.
pub proof fn law_action_codes(a: AndroidMotionEventAction, b: AndroidMotionEventAction)
    ensures
        a.spec_code() == b.spec_code() <==> a == b,
        AndroidMotionEventAction::Down.spec_code() == 0,
        AndroidMotionEventAction::Up.spec_code() == 1,
        AndroidMotionEventAction::Move.spec_code() == 2,
        AndroidMotionEventAction::Cancel.spec_code() == 3,
        AndroidMotionEventAction::PointerDown.spec_code() == 5,
        AndroidMotionEventAction::PointerUp.spec_code() == 6,
        AndroidMotionEventAction::HoverMove.spec_code() == 7,
        AndroidMotionEventAction::HoverEnter.spec_code() == 9,
        AndroidMotionEventAction::HoverExit.spec_code() == 10,
        AndroidKeyEventAction::Down.spec_code() == 0,
        AndroidKeyEventAction::Up.spec_code() == 1,
{
}

/// A touch message is read back field by field: the action, the pointer, the position, the size of
/// the screen up to 16 bits, and the pressure. The last two fields are of the mouse alone: one for
/// its first button, and the buttons that are held, which are none when a button was released.
pub proof fn law_touch_message_fields(e: TouchEvent)
    ensures
        touch_bytes(e).len() == 32,
        touch_bytes(e)[0] == 2,
        touch_bytes(e)[1] == e.action.spec_code(),
        signed_value(touch_bytes(e).subrange(2, 10)) == e.pointer_id,
        crate::wire::be_value(touch_bytes(e).subrange(10, 14)) == e.x,
        crate::wire::be_value(touch_bytes(e).subrange(14, 18)) == e.y,
        crate::wire::be_value(touch_bytes(e).subrange(18, 20)) == e.width % 0x1_0000,
        crate::wire::be_value(touch_bytes(e).subrange(20, 22)) == e.height % 0x1_0000,
        crate::wire::be_value(touch_bytes(e).subrange(22, 24)) == e.pressure,
        e.pointer_id == -1 ==> crate::wire::be_value(touch_bytes(e).subrange(24, 28)) == 1,
        e.pointer_id != -1 ==> crate::wire::be_value(touch_bytes(e).subrange(24, 28)) == 0,
        e.pointer_id == -1 && e.action != AndroidMotionEventAction::Up && e.action
            != AndroidMotionEventAction::PointerUp ==> crate::wire::be_value(
            touch_bytes(e).subrange(28, 32),
        ) == e.buttons,
        e.pointer_id != -1 || e.action == AndroidMotionEventAction::Up || e.action
            == AndroidMotionEventAction::PointerUp ==> crate::wire::be_value(
            touch_bytes(e).subrange(28, 32),
        ) == 0,
{
    let s = touch_bytes(e);
    let id = crate::wire::twos_64(e.pointer_id as int);
    let one: nat = if e.pointer_id == -1 {
        1
    } else {
        0
    };
    let buttons: nat = if e.pointer_id == -1 && !(e.action is Up || e.action is PointerUp) {
        e.buttons as nat
    } else {
        0
    };
    crate::wire::lemma_be_len(id, 8);
    crate::wire::lemma_be_len(e.x as nat, 4);
    crate::wire::lemma_be_len(e.y as nat, 4);
    crate::wire::lemma_be_len(e.width as nat, 2);
    crate::wire::lemma_be_len(e.height as nat, 2);
    crate::wire::lemma_be_len(e.pressure as nat, 2);
    crate::wire::lemma_be_len(one, 4);
    crate::wire::lemma_be_len(buttons, 4);
    crate::wire::lemma_byte_range();
    crate::wire::law_twos_complement(e.pointer_id as int);
    crate::wire::law_be_round_trip(id, 8);
    crate::wire::law_be_round_trip(e.x as nat, 4);
    crate::wire::law_be_round_trip(e.y as nat, 4);
    crate::wire::law_be_cuts_off(e.width as nat);
    crate::wire::law_be_cuts_off(e.height as nat);
    crate::wire::law_be_round_trip(e.pressure as nat, 2);
    crate::wire::law_be_round_trip(one, 4);
    crate::wire::law_be_round_trip(buttons, 4);
    assert(s.subrange(2, 10) =~= crate::wire::be(id, 8));
    assert(s.subrange(10, 14) =~= crate::wire::be(e.x as nat, 4));
    assert(s.subrange(14, 18) =~= crate::wire::be(e.y as nat, 4));
    assert(s.subrange(18, 20) =~= crate::wire::be(e.width as nat, 2));
    assert(s.subrange(20, 22) =~= crate::wire::be(e.height as nat, 2));
    assert(s.subrange(22, 24) =~= crate::wire::be(e.pressure as nat, 2));
    assert(s.subrange(24, 28) =~= crate::wire::be(one, 4));
    assert(s.subrange(28, 32) =~= crate::wire::be(buttons, 4));
}

/// Two touch events with the same message are equal, where the size of the screen fits in 16 bits,
/// but for buttons that a message does not hold: those of another pointer than the mouse, and those
/// of a release.
#[verifier::spinoff_prover]
pub proof fn law_touch_message_is_unique(a: TouchEvent, b: TouchEvent)
    requires
        touch_bytes(a) == touch_bytes(b),
        a.width < 0x1_0000 && a.height < 0x1_0000,
        b.width < 0x1_0000 && b.height < 0x1_0000,
    ensures
        a == (TouchEvent { buttons: a.buttons, ..b }),
        a.pointer_id == -1 && a.action != AndroidMotionEventAction::Up && a.action
            != AndroidMotionEventAction::PointerUp ==> a == b,
{
    law_touch_message_fields(a);
    law_touch_message_fields(b);
    lemma_touch_fields_tell(touch_bytes(a), a, b);
}

/// Whether bytes hold the fields of a touch event whose screen size fits in 16 bits.
spec fn holds_touch(s: Seq<u8>, e: TouchEvent) -> bool {
    &&& s[1] == e.action.spec_code()
    &&& signed_value(s.subrange(2, 10)) == e.pointer_id
    &&& crate::wire::be_value(s.subrange(10, 14)) == e.x
    &&& crate::wire::be_value(s.subrange(14, 18)) == e.y
    &&& crate::wire::be_value(s.subrange(18, 20)) == e.width
    &&& crate::wire::be_value(s.subrange(20, 22)) == e.height
    &&& crate::wire::be_value(s.subrange(22, 24)) == e.pressure
    &&& e.pointer_id == -1 && e.action != AndroidMotionEventAction::Up && e.action
        != AndroidMotionEventAction::PointerUp ==> crate::wire::be_value(s.subrange(28, 32))
        == e.buttons
}

#[verifier::spinoff_prover]
proof fn lemma_touch_fields_tell(s: Seq<u8>, a: TouchEvent, b: TouchEvent)
    requires
        holds_touch(s, a),
        holds_touch(s, b),
    ensures
        a == (TouchEvent { buttons: a.buttons, ..b }),
        a.pointer_id == -1 && a.action != AndroidMotionEventAction::Up && a.action
            != AndroidMotionEventAction::PointerUp ==> a == b,
{
    law_action_codes(a.action, b.action);
}

/// A key message is read back field by field.
pub proof fn law_key_message_fields(e: KeyEvent)
    ensures
        key_bytes(e).len() == 14,
        key_bytes(e)[0] == 0,
        key_bytes(e)[1] == (if e.action == AndroidKeyEventAction::Down {
            0u8
        } else {
            1u8
        }),
        crate::wire::be_value(key_bytes(e).subrange(2, 6)) == e.keycode,
        crate::wire::be_value(key_bytes(e).subrange(6, 10)) == e.repeat,
        crate::wire::be_value(key_bytes(e).subrange(10, 14)) == e.metastate,
{
    lemma_key_fields(e);
    law_action_codes(AndroidMotionEventAction::Down, AndroidMotionEventAction::Down);
}

/// Wheel steps go out as 2048 units each. What 16 bits cannot hold becomes the nearest number that
/// they can: more steps are never fewer units, and up to 15 steps, or 16 backward, are exact.
pub proof fn law_scroll_units(a: i32, b: i32)
    ensures
        -32768 <= scroll_units(a) <= 32767,
        -16 <= a <= 15 ==> scroll_units(a) == 2048 * a,
        a > 15 ==> scroll_units(a) == 32767,
        a < -16 ==> scroll_units(a) == -32768,
        a <= b ==> scroll_units(a) <= scroll_units(b),
{
}

/// A scroll message is read back field by field: the position, the size of the screen up to 16
/// bits, and the units of both wheels; no button is held.
pub proof fn law_scroll_message_fields(e: ScrollEvent)
    ensures
        scroll_bytes(e).len() == 21,
        scroll_bytes(e)[0] == 3,
        signed_value(scroll_bytes(e).subrange(1, 5)) == e.x,
        signed_value(scroll_bytes(e).subrange(5, 9)) == e.y,
        crate::wire::be_value(scroll_bytes(e).subrange(9, 11)) == e.width % 0x1_0000,
        crate::wire::be_value(scroll_bytes(e).subrange(11, 13)) == e.height % 0x1_0000,
        signed_value(scroll_bytes(e).subrange(13, 15)) == scroll_units(e.hscroll),
        signed_value(scroll_bytes(e).subrange(15, 17)) == scroll_units(e.vscroll),
        crate::wire::be_value(scroll_bytes(e).subrange(17, 21)) == 0,
{
    let s = scroll_bytes(e);
    let x = crate::wire::twos_32(e.x as int);
    let y = crate::wire::twos_32(e.y as int);
    let h = crate::wire::twos_16(scroll_units(e.hscroll));
    let v = crate::wire::twos_16(scroll_units(e.vscroll));
    crate::wire::lemma_be_len(x, 4);
    crate::wire::lemma_be_len(y, 4);
    crate::wire::lemma_be_len(e.width as nat, 2);
    crate::wire::lemma_be_len(e.height as nat, 2);
    crate::wire::lemma_be_len(h, 2);
    crate::wire::lemma_be_len(v, 2);
    crate::wire::lemma_be_len(0, 4);
    crate::wire::lemma_byte_range();
    crate::wire::law_twos_complement(e.x as int);
    crate::wire::law_twos_complement(e.y as int);
    law_scroll_units(e.hscroll, e.vscroll);
    law_scroll_units(e.vscroll, e.hscroll);
    crate::wire::law_twos_complement(scroll_units(e.hscroll));
    crate::wire::law_twos_complement(scroll_units(e.vscroll));
    crate::wire::law_be_round_trip(x, 4);
    crate::wire::law_be_round_trip(y, 4);
    crate::wire::law_be_cuts_off(e.width as nat);
    crate::wire::law_be_cuts_off(e.height as nat);
    crate::wire::law_be_round_trip(h, 2);
    crate::wire::law_be_round_trip(v, 2);
    crate::wire::law_be_round_trip(0, 4);
    assert(s.subrange(1, 5) =~= crate::wire::be(x, 4));
    assert(s.subrange(5, 9) =~= crate::wire::be(y, 4));
    assert(s.subrange(9, 11) =~= crate::wire::be(e.width as nat, 2));
    assert(s.subrange(11, 13) =~= crate::wire::be(e.height as nat, 2));
    assert(s.subrange(13, 15) =~= crate::wire::be(h, 2));
    assert(s.subrange(15, 17) =~= crate::wire::be(v, 2));
    assert(s.subrange(17, 21) =~= crate::wire::be(0, 4));
}

/// A text message is its kind, the length of the text in four bytes, and the text.
pub proof fn law_text_message_fields(text: Seq<u8>)
    ensures
        text_bytes(text).len() == 5 + text.len(),
        text_bytes(text)[0] == 1,
        crate::wire::be_value(text_bytes(text).subrange(1, 5)) == text.len() % 0x1_0000_0000,
        text_bytes(text).skip(5) == text,
{
    crate::wire::lemma_be_len(text.len(), 4);
    crate::wire::law_be_cuts_off(text.len());
    assert(text_bytes(text).subrange(1, 5) =~= crate::wire::be(text.len(), 4));
    assert(text_bytes(text).skip(5) =~= text);
}

/// A clipboard message is its kind, its number in eight bytes, whether to paste, the length of the
/// text in four bytes, and the text.
pub proof fn law_clipboard_message_fields(sequence: u64, paste: bool, text: Seq<u8>)
    ensures
        clipboard_bytes(sequence, paste, text).len() == 14 + text.len(),
        clipboard_bytes(sequence, paste, text)[0] == 9,
        crate::wire::be_value(clipboard_bytes(sequence, paste, text).subrange(1, 9)) == sequence,
        paste <==> clipboard_bytes(sequence, paste, text)[9] == 1,
        !paste <==> clipboard_bytes(sequence, paste, text)[9] == 0,
        crate::wire::be_value(clipboard_bytes(sequence, paste, text).subrange(10, 14)) == text.len()
            % 0x1_0000_0000,
        clipboard_bytes(sequence, paste, text).skip(14) == text,
{
    let s = clipboard_bytes(sequence, paste, text);
    crate::wire::lemma_be_len(sequence as nat, 8);
    crate::wire::lemma_be_len(text.len(), 4);
    crate::wire::lemma_byte_range();
    crate::wire::law_be_round_trip(sequence as nat, 8);
    crate::wire::law_be_cuts_off(text.len());
    assert(s.subrange(1, 9) =~= crate::wire::be(sequence as nat, 8));
    assert(s.subrange(10, 14) =~= crate::wire::be(text.len(), 4));
    assert(s.skip(14) =~= text);
}

/// A message that creates a virtual device is its kind, three numbers of two bytes, the length of
/// the name in one byte and the name, and the length of the descriptor in two bytes and the
/// descriptor.
pub proof fn law_uhid_create_fields(
    id: u16,
    vendor: u16,
    product: u16,
    name: Seq<u8>,
    report_desc: Seq<u8>,
)
    requires
        name.len() <= 255,
        report_desc.len() <= 65535,
    ensures
        ({
            let s = uhid_create_bytes(id, vendor, product, name, report_desc);
            let n = name.len() as int;
            &&& s.len() == 10 + n + report_desc.len()
            &&& s[0] == 12
            &&& crate::wire::be_value(s.subrange(1, 3)) == id
            &&& crate::wire::be_value(s.subrange(3, 5)) == vendor
            &&& crate::wire::be_value(s.subrange(5, 7)) == product
            &&& s[7] == n
            &&& s.subrange(8, 8 + n) == name
            &&& crate::wire::be_value(s.subrange(8 + n, 10 + n)) == report_desc.len()
            &&& s.skip(10 + n) == report_desc
        }),
{
    let s = uhid_create_bytes(id, vendor, product, name, report_desc);
    let n = name.len() as int;
    crate::wire::lemma_be_len(id as nat, 2);
    crate::wire::lemma_be_len(vendor as nat, 2);
    crate::wire::lemma_be_len(product as nat, 2);
    crate::wire::lemma_be_len(report_desc.len(), 2);
    crate::wire::lemma_byte_range();
    crate::wire::law_be_round_trip(id as nat, 2);
    crate::wire::law_be_round_trip(vendor as nat, 2);
    crate::wire::law_be_round_trip(product as nat, 2);
    crate::wire::law_be_round_trip(report_desc.len(), 2);
    assert(s.subrange(1, 3) =~= crate::wire::be(id as nat, 2));
    assert(s.subrange(3, 5) =~= crate::wire::be(vendor as nat, 2));
    assert(s.subrange(5, 7) =~= crate::wire::be(product as nat, 2));
    assert(s.subrange(8, 8 + n) =~= name);
    assert(s.subrange(8 + n, 10 + n) =~= crate::wire::be(report_desc.len(), 2));
    assert(s.skip(10 + n) =~= report_desc);
}

/// A report for a virtual device is its kind, the number of the device and the length of the report
/// in two bytes each, and the report; the message that removes the device is its kind and that
/// number.
pub proof fn law_uhid_input_fields(id: u16, data: Seq<u8>)
    requires
        data.len() <= 65535,
    ensures
        uhid_input_bytes(id, data).len() == 5 + data.len(),
        uhid_input_bytes(id, data)[0] == 13,
        crate::wire::be_value(uhid_input_bytes(id, data).subrange(1, 3)) == id,
        crate::wire::be_value(uhid_input_bytes(id, data).subrange(3, 5)) == data.len(),
        uhid_input_bytes(id, data).skip(5) == data,
        uhid_destroy_bytes(id).len() == 3,
        uhid_destroy_bytes(id)[0] == 14,
        crate::wire::be_value(uhid_destroy_bytes(id).skip(1)) == id,
{
    let s = uhid_input_bytes(id, data);
    crate::wire::lemma_be_len(id as nat, 2);
    crate::wire::lemma_be_len(data.len(), 2);
    crate::wire::lemma_byte_range();
    crate::wire::law_be_round_trip(id as nat, 2);
    crate::wire::law_be_round_trip(data.len(), 2);
    assert(s.subrange(1, 3) =~= crate::wire::be(id as nat, 2));
    assert(s.subrange(3, 5) =~= crate::wire::be(data.len(), 2));
    assert(s.skip(5) =~= data);
    assert(uhid_destroy_bytes(id).skip(1) =~= crate::wire::be(id as nat, 2));
}

/// Tapping a key sends two messages, which differ in the action alone: first it goes down, then up.
pub proof fn law_tap_is_down_then_up(keycode: u32)
    ensures
        tap_bytes(keycode).len() == 2,
        tap_bytes(keycode)[0][1] == 0,
        tap_bytes(keycode)[1] == tap_bytes(keycode)[0].update(1, 1u8),
        crate::wire::be_value(tap_bytes(keycode)[0].subrange(2, 6)) == keycode,
        crate::wire::be_value(tap_bytes(keycode)[0].subrange(6, 10)) == 0,
        crate::wire::be_value(tap_bytes(keycode)[0].subrange(10, 14)) == 0,
{
    let down = KeyEvent { action: AndroidKeyEventAction::Down, keycode, repeat: 0, metastate: 0 };
    law_key_message_fields(down);
    assert(tap_bytes(keycode)[1] =~= tap_bytes(keycode)[0].update(1, 1u8));
}

/// Sequence numbers count up by one, and the largest is followed by one.
pub proof fn law_sequence_numbers_count(v: ControlView)
    ensures
        v.next < u64::MAX ==> v.after_next() == v.next + 1,
        v.next == u64::MAX ==> v.after_next() == 1,
{
}

/// What arrives while an acknowledgement is awaited does not move the end of the wait: what has
/// passed and what remains are 500 milliseconds together. Once they have passed, the wait ends.
pub proof fn law_ack_deadline_stays(sequence: u64, waited_ms: u64, event: AckWaitView)
    requires
        event !is Closed,
        event != AckWaitView::Message(DeviceMessageView::AckClipboard(sequence)),
    ensures
        ack_step(sequence, waited_ms, event) is WaitFor <==> waited_ms < 500,
        ack_step(sequence, waited_ms, event) matches AckStepView::WaitFor(ms) ==> waited_ms + ms
            == 500,
        ack_step(sequence, waited_ms, event) matches AckStepView::Done(e) ==> e is Some && e->Some_0
            is Network,
{
}

/// A message of a kind that is not known ends the reading: nothing behind it is read.
pub proof fn law_unknown_kind_ends_reading(bytes: Seq<u8>)
    requires
        bytes.len() > 0,
        bytes[0] > 2,
    ensures
        ReadState::Kind.read(bytes).len() == 0,
{
    assert(bytes.take(1)[0] == bytes[0]);
    assert(ReadState::Stopped.read(bytes.skip(1)) =~= Seq::empty());
}

/// The message that is sent for a touch event is read back field by field; the buttons are there for
/// the mouse alone, whatever it does but release one.
pub proof fn law_send_touch_event(event: TouchEvent, r: Vec<u8>)
    requires
        call_ensures(ControlChannel::send_touch_event, (&event,), r),
    ensures
        r@.len() == 32,
        r@[0] == 2,
        signed_value(r@.subrange(2, 10)) == event.pointer_id,
        crate::wire::be_value(r@.subrange(10, 14)) == event.x,
        crate::wire::be_value(r@.subrange(14, 18)) == event.y,
        crate::wire::be_value(r@.subrange(18, 20)) == event.width % 0x1_0000,
        crate::wire::be_value(r@.subrange(20, 22)) == event.height % 0x1_0000,
        crate::wire::be_value(r@.subrange(22, 24)) == event.pressure,
        crate::wire::be_value(r@.subrange(24, 28)) == (if event.pointer_id == -1 {
            1nat
        } else {
            0nat
        }),
        crate::wire::be_value(r@.subrange(28, 32)) == (if event.pointer_id == -1 && event.action
            != AndroidMotionEventAction::Up && event.action != AndroidMotionEventAction::PointerUp {
            event.buttons as nat
        } else {
            0nat
        }),
{
    law_touch_message_fields(event);
}

/// An action has one of Android's numbers, and a number that none has is refused.
pub proof fn law_actions_from_numbers(
    code: u8,
    touch: Result<AndroidMotionEventAction, String>,
    key: Result<AndroidKeyEventAction, String>,
)
    requires
        call_ensures(AndroidMotionEventAction::from_code, (code,), touch),
        call_ensures(AndroidKeyEventAction::from_code, (code,), key),
    ensures
        touch is Ok <==> code <= 3 || 5 <= code <= 7 || code == 9 || code == 10,
        touch matches Ok(a) ==> a.spec_code() == code,
        key is Ok <==> code <= 1,
        key matches Ok(a) ==> (a is Down <==> code == 0),
{
    let all = |a: AndroidMotionEventAction| a.spec_code() != code;
    law_action_codes(AndroidMotionEventAction::Down, AndroidMotionEventAction::Down);
    if touch is Err {
        assert(all(AndroidMotionEventAction::Down) && all(AndroidMotionEventAction::Up) && all(
            AndroidMotionEventAction::Move,
        ) && all(AndroidMotionEventAction::Cancel) && all(AndroidMotionEventAction::PointerDown)
            && all(AndroidMotionEventAction::PointerUp) && all(AndroidMotionEventAction::HoverMove)
            && all(AndroidMotionEventAction::HoverEnter) && all(AndroidMotionEventAction::HoverExit));
    }
    if key is Err {
        assert(AndroidKeyEventAction::Down.spec_code() != code);
        assert(AndroidKeyEventAction::Up.spec_code() != code);
    }
}

/// A virtual device is created exactly when its name has at most 255 bytes and its descriptor at
/// most 65535, and a report is sent exactly when it has at most 65535.
pub proof fn law_uhid_limits(
    id: u16,
    vendor: u16,
    product: u16,
    name: &str,
    data: &[u8],
    create: Result<Vec<u8>, ScrcpyError>,
    input: Result<Vec<u8>, ScrcpyError>,
)
    requires
        call_ensures(
            ControlChannel::send_uhid_create_keyboard,
            (id, vendor, product, name, data),
            create,
        ),
        call_ensures(ControlChannel::send_uhid_input, (id, data), input),
    ensures
        create is Ok <==> vstd::utf8::encode_utf8(name@).len() <= 255 && data@.len() <= 65535,
        input is Ok <==> data@.len() <= 65535,
        input matches Ok(m) ==> m@.skip(5) == data@,
{
    if data@.len() <= 65535 {
        law_uhid_input_fields(id, data@);
    }
}

/// Wheel steps can be sent exactly when 2048 units for each of them fit in 32 bits.
pub proof fn law_scroll_fits(steps: i32)
    ensures
        scroll_fits(steps) <==> i32::MIN <= 2048 * steps <= i32::MAX,
{
}

} // verus!
