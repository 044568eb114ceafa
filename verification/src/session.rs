//! One connected session: its control channel, its events, and where its key events go.

use std::collections::VecDeque;

use vstd::prelude::*;

use crate::bounded::{drain, push_bounded};
use crate::control::{
    ClipboardRequest, ControlChannel, DeviceMessage, KeyEvent, ScrollEvent, TouchEvent,
};
use crate::error::{other_error, ScrcpyError};
use crate::framed_video::FramedVideoStreamReader;
use crate::input::{
    farewell_messages, keyboard_create_message, keyboard_report_message, InputStage, InputStep,
    ScrcpyInputMode,
};
use crate::model::{ErrorCode, SessionEvent};
use crate::text::concat;
use crate::uhid::{supports_android_keycode, UhidKeyboardState};

verus! {

/// How many events wait for their reader at most.
pub const SESSION_EVENT_QUEUE_LIMIT: usize = 256;

/// A command of a session that is one message.
#[derive(Debug, Clone, Copy, PartialEq, Eq, Structural)]
pub enum SessionCommand {
    Touch,
    Key,
    Scroll,
    Text,
    SetClipboard,
    SetDisplayPower,
    RotateDevice,
    RequestIdr,
}

impl SessionCommand {
    /// What the report of a failed command begins with.
    pub open spec fn failure(self) -> Seq<char> {
        match self {
            SessionCommand::Touch => "send_touch failed: "@,
            SessionCommand::Key => "send_key failed: "@,
            SessionCommand::Scroll => "send_scroll failed: "@,
            SessionCommand::Text => "send_text failed: "@,
            SessionCommand::SetClipboard => "set_clipboard failed: "@,
            SessionCommand::SetDisplayPower => "set_display_power failed: "@,
            SessionCommand::RotateDevice => "rotate_device failed: "@,
            SessionCommand::RequestIdr => "request_idr failed: "@,
        }
    }

    fn failure_text(self) -> (r: &'static str)
        ensures
            r@ == self.failure(),
    {
        match self {
            SessionCommand::Touch => "send_touch failed: ",
            SessionCommand::Key => "send_key failed: ",
            SessionCommand::Scroll => "send_scroll failed: ",
            SessionCommand::Text => "send_text failed: ",
            SessionCommand::SetClipboard => "set_clipboard failed: ",
            SessionCommand::SetDisplayPower => "set_display_power failed: ",
            SessionCommand::RotateDevice => "rotate_device failed: ",
            SessionCommand::RequestIdr => "request_idr failed: ",
        }
    }
}

/// What keyboard input is wanted: only that it is ready, or that a key event gets through.
#[derive(Debug, Clone, Copy, PartialEq, Eq, Structural)]
pub enum InputTask {
    Warmup,
    Key(KeyEvent),
}

/// The state of a session as a mathematical value.
#[verifier::ext_equal]
pub struct SessionView {
    pub control: Option<crate::control::ControlView>,
    pub video: Option<u64>,
    pub events: Seq<crate::model::EventView>,
    pub disposed: bool,
    pub mode: ScrcpyInputMode,
    pub started: bool,
    pub keyboard: crate::uhid::KeyboardView,
}

impl SessionView {
    /// The virtual keyboard needs the control channel; a disposed session has no channels.
    pub open spec fn valid(self) -> bool {
        &&& self.keyboard.valid()
        &&& self.events.len() <= SESSION_EVENT_QUEUE_LIMIT
        &&& self.started ==> self.control is Some && !self.disposed
        &&& self.disposed ==> self.control is None && self.video is None
    }

    /// The state with one more event.
    pub open spec fn with_event(self, event: crate::model::EventView) -> SessionView {
        SessionView {
            events: crate::bounded::last_n(self.events.push(event), SESSION_EVENT_QUEUE_LIMIT as nat),
            ..self
        }
    }

    /// Why nothing can be sent, if so.
    pub open spec fn refusal(self) -> Option<crate::error::ErrorView> {
        if self.disposed {
            Some(crate::error::ErrorView::Other("session has been disposed"@))
        } else if self.control is None {
            Some(crate::error::ErrorView::Other("session control channel is not ready"@))
        } else {
            None
        }
    }

    /// The state after a command with an outcome: a failure is reported.
    pub open spec fn after_command(
        self,
        command: SessionCommand,
        error: Option<crate::error::ErrorView>,
    ) -> SessionView {
        match error {
            Some(e) => self.with_event(
                crate::model::EventView::Error {
                    code: ErrorCode::ControlFailed,
                    message: command.failure() + e.text(),
                },
            ),
            None => self,
        }
    }

    /// A key event goes out as an injected key code.
    pub open spec fn inject(self, event: KeyEvent) -> (SessionView, crate::input::InputStepView) {
        match self.refusal() {
            Some(e) => (self, crate::input::InputStepView::Done(Some(e))),
            None => (
                self,
                crate::input::InputStepView::Send {
                    stage: InputStage::Inject,
                    message: crate::control::key_bytes(event),
                },
            ),
        }
    }

    /// A key event goes out as a report of the virtual keyboard.
    pub open spec fn report(self, event: KeyEvent) -> (SessionView, crate::input::InputStepView) {
        let keyboard = self.keyboard.after(event.action, event.keycode);
        (
            SessionView { keyboard, ..self },
            crate::input::InputStepView::Send {
                stage: InputStage::Report,
                message: crate::input::keyboard_report_bytes(keyboard),
            },
        )
    }

    /// The virtual keyboard is ready.
    pub open spec fn ready(self, task: InputTask) -> (SessionView, crate::input::InputStepView) {
        match task {
            InputTask::Warmup => (self, crate::input::InputStepView::Done(None)),
            InputTask::Key(event) => self.report(event),
        }
    }

    /// The virtual keyboard could not be brought up. Where a choice is left, key codes are
    /// injected from now on.
    pub open spec fn not_ready(self, task: InputTask, e: crate::error::ErrorView) -> (
        SessionView,
        crate::input::InputStepView,
    ) {
        if self.mode == ScrcpyInputMode::Auto {
            let v = SessionView { mode: ScrcpyInputMode::Inject, ..self };
            match task {
                InputTask::Warmup => (v, crate::input::InputStepView::Done(None)),
                InputTask::Key(event) => v.inject(event),
            }
        } else {
            (self, crate::input::InputStepView::Done(Some(e)))
        }
    }

    /// Whether a task goes to the virtual keyboard: not a key that the keyboard does not have.
    pub open spec fn goes_to_keyboard(self, task: InputTask) -> bool {
        &&& self.mode != ScrcpyInputMode::Inject
        &&& task matches InputTask::Key(event) ==> crate::uhid::is_supported(event.keycode)
    }

    /// The first step of a task.
    pub open spec fn begin(self, task: InputTask) -> (SessionView, crate::input::InputStepView) {
        if self.goes_to_keyboard(task) {
            if self.started {
                self.ready(task)
            } else {
                match self.refusal() {
                    Some(e) => self.not_ready(task, e),
                    None => (
                        self,
                        crate::input::InputStepView::Send {
                            stage: InputStage::Create,
                            message: crate::input::keyboard_create_bytes(),
                        },
                    ),
                }
            }
        } else {
            match task {
                InputTask::Warmup => (self, crate::input::InputStepView::Done(None)),
                InputTask::Key(event) => self.inject(event),
            }
        }
    }

    /// The step after a message of a task went out, or failed to.
    pub open spec fn after_sent(
        self,
        task: InputTask,
        stage: InputStage,
        error: Option<crate::error::ErrorView>,
    ) -> (SessionView, crate::input::InputStepView) {
        match stage {
            InputStage::Create => match error {
                Some(e) => self.not_ready(task, e),
                None => {
                    let keyboard = crate::uhid::KeyboardView::released();
                    (
                        SessionView { keyboard, ..self },
                        crate::input::InputStepView::Send {
                            stage: InputStage::Release,
                            message: crate::input::keyboard_report_bytes(keyboard),
                        },
                    )
                },
            },
            InputStage::Release => match error {
                Some(e) => self.not_ready(task, e),
                None => SessionView { started: true, ..self }.ready(task),
            },
            InputStage::Report => match (error, task) {
                (Some(e), InputTask::Key(event)) => if self.mode == ScrcpyInputMode::Auto {
                    SessionView { mode: ScrcpyInputMode::Inject, ..self }.inject(event)
                } else {
                    (
                        self.after_command(SessionCommand::Key, error),
                        crate::input::InputStepView::Done(error),
                    )
                },
                _ => (self, crate::input::InputStepView::Done(error)),
            },
            InputStage::Inject => (
                self.after_command(SessionCommand::Key, error),
                crate::input::InputStepView::Done(error),
            ),
        }
    }
}

/// One connected session. The caller owns the sockets: it sends the messages that the session
/// asks for and says how that went.
pub struct Session {
    control: Option<ControlChannel>,
    video_stream: Option<FramedVideoStreamReader>,
    events: VecDeque<SessionEvent>,
    disposed: bool,
    input_mode: ScrcpyInputMode,
    uhid_started: bool,
    uhid_keyboard_state: UhidKeyboardState,
}

impl View for Session {
    type V = SessionView;

    closed spec fn view(&self) -> SessionView {
        SessionView {
            control: match self.control {
                Some(c) => Some(c@),
                None => None,
            },
            video: match self.video_stream {
                Some(stream) => Some(stream.count()),
                None => None,
            },
            events: crate::model::events_view(self.events@),
            disposed: self.disposed,
            mode: self.input_mode,
            started: self.uhid_started,
            keyboard: self.uhid_keyboard_state@,
        }
    }
}

/// What ends a session: nothing where it has ended already; otherwise the messages that are to be
/// sent, whether or not they get through, before the server is stopped.
#[derive(Debug)]
pub enum DisposeStep {
    AlreadyDisposed,
    StopServer { messages: Vec<Vec<u8>> },
}

impl Session {
    /// The session of a connection that stands.
    pub fn from_connected(
        control: ControlChannel,
        video_stream: FramedVideoStreamReader,
        input_mode: ScrcpyInputMode,
    ) -> (r: Self)
        ensures
            r@.valid(),
            r@ == (SessionView {
                control: Some(control@),
                video: Some(video_stream.count()),
                events: Seq::empty(),
                disposed: false,
                mode: input_mode,
                started: false,
                keyboard: crate::uhid::KeyboardView::released(),
            }),
    {
        let r = Session {
            control: Some(control),
            video_stream: Some(video_stream),
            events: VecDeque::new(),
            disposed: false,
            input_mode,
            uhid_started: false,
            uhid_keyboard_state: UhidKeyboardState::new(),
        };
        assert(r@.events =~= Seq::empty());
        r
    }

    fn push_event(&mut self, event: SessionEvent)
        ensures
            final(self)@ == old(self)@.with_event(event@),
    {
        push_bounded(&mut self.events, event, SESSION_EVENT_QUEUE_LIMIT);
        assert(self@ =~= old(self)@.with_event(event@));
    }

    /// Takes the events out, oldest first.
    pub fn drain_events(&mut self) -> (r: Vec<SessionEvent>)
        ensures
            crate::model::events_view(r@) == old(self)@.events,
            final(self)@ == (SessionView { events: Seq::empty(), ..old(self)@ }),
    {
        let r = drain(&mut self.events);
        assert(self@.events =~= Seq::empty());
        r
    }

    /// Whether the session has ended.
    pub fn is_disposed(&self) -> (r: bool)
        ensures
            r == self@.disposed,
    {
        self.disposed
    }

    /// Ends the session, all but the server: the channels are dropped.
    pub fn dispose(&mut self) -> (r: DisposeStep)
        requires
            old(self)@.valid(),
        ensures
            final(self)@.valid(),
            if old(self)@.disposed {
                r is AlreadyDisposed && final(self)@ == old(self)@
            } else {
                &&& r matches DisposeStep::StopServer { messages }
                &&& crate::wire::buffers_view(messages@) == crate::input::farewell(old(self)@.started)
                &&& final(self)@ == (SessionView {
                    control: None,
                    video: None,
                    started: false,
                    keyboard: if old(self)@.started {
                        crate::uhid::KeyboardView::released()
                    } else {
                        old(self)@.keyboard
                    },
                    ..old(self)@
                })
            },
    {
        if self.disposed {
            return DisposeStep::AlreadyDisposed;
        }
        let messages = farewell_messages(self.uhid_started);
        if self.uhid_started {
            self.uhid_keyboard_state.release_all();
            self.uhid_started = false;
        }
        self.video_stream = None;
        self.control = None;
        DisposeStep::StopServer { messages }
    }

    /// Takes in how stopping the server went: the session has ended once that worked.
    pub fn on_server_stopped(&mut self, outcome: Result<(), ScrcpyError>) -> (r: Result<
        (),
        ScrcpyError,
    >)
        requires
            old(self)@.valid(),
            old(self)@.control is None,
            old(self)@.video is None,
        ensures
            final(self)@.valid(),
            r == outcome,
            final(self)@ == match outcome {
                Ok(_) => SessionView { disposed: true, ..old(self)@ }.with_event(
                    crate::model::EventView::Stopped,
                ),
                Err(_) => old(self)@,
            },
    {
        if outcome.is_ok() {
            self.disposed = true;
            self.push_event(SessionEvent::Stopped);
        }
        outcome
    }

    /// The reader of the video stream.
    pub fn video_stream_mut(&mut self) -> (r: Result<&mut FramedVideoStreamReader, ScrcpyError>)
        ensures
            match r {
                Ok(s) => !old(self)@.disposed && old(self)@.video == Some((*s).count())
                    && final(self)@ == (SessionView {
                    video: Some((*final(s)).count()),
                    ..old(self)@
                }),
                Err(e) => final(self)@ == old(self)@ && if old(self)@.disposed {
                    e@ == crate::error::ErrorView::Other("session has been disposed"@)
                } else {
                    old(self)@.video is None && e@ == crate::error::ErrorView::Other(
                        "session video stream is not ready"@,
                    )
                },
            },
    {
        if self.disposed {
            return Err(other_error("session has been disposed"));
        }
        match &mut self.video_stream {
            Some(stream) => Ok(stream),
            None => Err(other_error("session video stream is not ready")),
        }
    }

    /// The control channel.
    pub fn control_channel_mut(&mut self) -> (r: Result<&mut ControlChannel, ScrcpyError>)
        ensures
            match r {
                Ok(c) => old(self)@.refusal() is None && old(self)@.control == Some((*c)@)
                    && final(self)@ == (SessionView {
                    control: Some((*final(c))@),
                    ..old(self)@
                }),
                Err(e) => old(self)@.refusal() == Some(e@) && final(self)@ == old(self)@,
            },
    {
        if self.disposed {
            return Err(other_error("session has been disposed"));
        }
        match &mut self.control {
            Some(control) => Ok(control),
            None => Err(other_error("session control channel is not ready")),
        }
    }

    /// Whether messages can be sent, or why not.
    fn check_control(&self) -> (r: Result<(), ScrcpyError>)
        ensures
            crate::input::error_of(r) == self@.refusal(),
    {
        if self.disposed {
            Err(other_error("session has been disposed"))
        } else if self.control.is_none() {
            Err(other_error("session control channel is not ready"))
        } else {
            Ok(())
        }
    }

    fn inject(&self, event: &KeyEvent) -> (r: InputStep)
        ensures
            r@ == self@.inject(*event).1,
    {
        match self.check_control() {
            Ok(_) => InputStep::Send {
                stage: InputStage::Inject,
                message: ControlChannel::send_key_event(event),
            },
            Err(e) => InputStep::Done(Err(e)),
        }
    }

    fn keyboard_ready(&mut self, task: InputTask) -> (r: InputStep)
        requires
            old(self)@.valid(),
        ensures
            final(self)@.valid(),
            (final(self)@, r@) == old(self)@.ready(task),
    {
        match task {
            InputTask::Warmup => InputStep::Done(Ok(())),
            InputTask::Key(event) => {
                self.uhid_keyboard_state.update_key(event.action, event.keycode);
                let message = keyboard_report_message(&self.uhid_keyboard_state);
                InputStep::Send { stage: InputStage::Report, message }
            },
        }
    }

    fn keyboard_not_ready(&mut self, task: InputTask, error: ScrcpyError) -> (r: InputStep)
        requires
            old(self)@.valid(),
        ensures
            final(self)@.valid(),
            (final(self)@, r@) == old(self)@.not_ready(task, error@),
    {
        match self.input_mode {
            ScrcpyInputMode::Auto => {
                self.input_mode = ScrcpyInputMode::Inject;
                match task {
                    InputTask::Warmup => InputStep::Done(Ok(())),
                    InputTask::Key(event) => self.inject(&event),
                }
            },
            _ => InputStep::Done(Err(error)),
        }
    }

    /// The first step of keyboard input.
    fn begin_input(&mut self, task: InputTask) -> (r: InputStep)
        requires
            old(self)@.valid(),
        ensures
            final(self)@.valid(),
            (final(self)@, r@) == old(self)@.begin(task),
    {
        let to_keyboard: bool = match self.input_mode {
            ScrcpyInputMode::Inject => false,
            _ => match task {
                InputTask::Warmup => true,
                InputTask::Key(event) => supports_android_keycode(event.keycode),
            },
        };
        if to_keyboard {
            if self.uhid_started {
                self.keyboard_ready(task)
            } else {
                match self.check_control() {
                    Ok(_) => InputStep::Send {
                        stage: InputStage::Create,
                        message: keyboard_create_message(),
                    },
                    Err(e) => self.keyboard_not_ready(task, e),
                }
            }
        } else {
            match task {
                InputTask::Warmup => InputStep::Done(Ok(())),
                InputTask::Key(event) => self.inject(&event),
            }
        }
    }

    /// The first step of making keyboard input ready.
    pub fn warmup_input_backend(&mut self) -> (r: InputStep)
        requires
            old(self)@.valid(),
        ensures
            final(self)@.valid(),
            (final(self)@, r@) == old(self)@.begin(InputTask::Warmup),
    {
        self.begin_input(InputTask::Warmup)
    }

    /// The first step of sending a key event.
    pub fn send_key(&mut self, event: &KeyEvent) -> (r: InputStep)
        requires
            old(self)@.valid(),
        ensures
            final(self)@.valid(),
            (final(self)@, r@) == old(self)@.begin(InputTask::Key(*event)),
    {
        self.begin_input(InputTask::Key(*event))
    }

    /// Takes in how sending a message of keyboard input went, and says what comes next.
    pub fn on_input_sent(
        &mut self,
        task: InputTask,
        stage: InputStage,
        outcome: Result<(), ScrcpyError>,
    ) -> (r: InputStep)
        requires
            old(self)@.valid(),
            old(self)@.refusal() is None,
        ensures
            final(self)@.valid(),
            (final(self)@, r@) == old(self)@.after_sent(task, stage, crate::input::error_of(outcome)),
    {
        match stage {
            InputStage::Create => match outcome {
                Ok(_) => {
                    self.uhid_keyboard_state.release_all();
                    let message = keyboard_report_message(&self.uhid_keyboard_state);
                    InputStep::Send { stage: InputStage::Release, message }
                },
                Err(e) => self.keyboard_not_ready(task, e),
            },
            InputStage::Release => match outcome {
                Ok(_) => {
                    self.uhid_started = true;
                    self.keyboard_ready(task)
                },
                Err(e) => self.keyboard_not_ready(task, e),
            },
            InputStage::Report => match (outcome, task) {
                (Err(e), InputTask::Key(event)) => match self.input_mode {
                    ScrcpyInputMode::Auto => {
                        self.input_mode = ScrcpyInputMode::Inject;
                        self.inject(&event)
                    },
                    _ => InputStep::Done(self.on_sent(SessionCommand::Key, Err(e))),
                },
                (outcome, _) => InputStep::Done(outcome),
            },
            InputStage::Inject => InputStep::Done(self.on_sent(SessionCommand::Key, outcome)),
        }
    }

    /// Takes in how a command went: a failure is reported.
    pub fn on_sent(&mut self, command: SessionCommand, outcome: Result<(), ScrcpyError>) -> (r:
        Result<(), ScrcpyError>)
        requires
            old(self)@.valid(),
        ensures
            final(self)@.valid(),
            r == outcome,
            final(self)@ == old(self)@.after_command(command, crate::input::error_of(outcome)),
    {
        if let Err(e) = &outcome {
            let message: String = concat(command.failure_text(), e.message().as_str());
            self.push_event(SessionEvent::Error { code: ErrorCode::ControlFailed, message });
        }
        outcome
    }

    /// The message for a touch event.
    pub fn send_touch(&self, event: &TouchEvent) -> (r: Result<Vec<u8>, ScrcpyError>)
        ensures
            crate::input::error_of(r) == self@.refusal(),
            r matches Ok(m) ==> m@ == crate::control::touch_bytes(*event),
    {
        match self.check_control() {
            Ok(_) => Ok(ControlChannel::send_touch_event(event)),
            Err(e) => Err(e),
        }
    }

    /// The message for a scroll event.
    pub fn send_scroll(&self, event: &ScrollEvent) -> (r: Result<Vec<u8>, ScrcpyError>)
        requires
            crate::control::scroll_fits(event.hscroll),
            crate::control::scroll_fits(event.vscroll),
        ensures
            crate::input::error_of(r) == self@.refusal(),
            r matches Ok(m) ==> m@ == crate::control::scroll_bytes(*event),
    {
        match self.check_control() {
            Ok(_) => Ok(ControlChannel::send_scroll_event(event)),
            Err(e) => Err(e),
        }
    }

    /// The message that types a text.
    pub fn send_text(&self, text: &str) -> (r: Result<Vec<u8>, ScrcpyError>)
        ensures
            crate::input::error_of(r) == self@.refusal(),
            r matches Ok(m) ==> m@ == crate::control::text_bytes(vstd::utf8::encode_utf8(text@)),
    {
        match self.check_control() {
            Ok(_) => Ok(ControlChannel::send_text(text)),
            Err(e) => Err(e),
        }
    }

    /// The message that sets the device's clipboard, and the acknowledgement to wait for.
    pub fn set_clipboard(&mut self, text: &str, paste: bool) -> (r: Result<
        ClipboardRequest,
        ScrcpyError,
    >)
        ensures
            crate::input::error_of(r) == old(self)@.refusal(),
            match r {
                Ok(q) => {
                    let c = old(self)@.control->0;
                    let sequence = if paste {
                        0
                    } else {
                        c.next
                    };
                    &&& q.message@ == crate::control::clipboard_bytes(
                        sequence,
                        paste,
                        vstd::utf8::encode_utf8(text@),
                    )
                    &&& q.wait_for == (if paste {
                        None
                    } else {
                        Some(sequence)
                    })
                    &&& final(self)@ == (SessionView {
                        control: Some(
                            if paste {
                                c
                            } else {
                                crate::control::ControlView { next: c.after_next(), ..c }
                            },
                        ),
                        ..old(self)@
                    })
                },
                Err(_) => final(self)@ == old(self)@,
            },
    {
        match self.control_channel_mut() {
            Ok(control) => Ok(control.set_clipboard(text, paste)),
            Err(e) => Err(e),
        }
    }

    /// Takes in messages from the device, and hands out the clipboard texts that nobody has asked
    /// for yet, oldest first.
    pub fn take_clipboard_updates(&mut self, messages: Vec<DeviceMessage>) -> (r: Result<
        Vec<String>,
        ScrcpyError,
    >)
        ensures
            crate::input::error_of(r) == old(self)@.refusal(),
            match r {
                Ok(texts) => {
                    let c = old(self)@.control->0.with_messages(
                        crate::control::messages_view(messages@),
                    );
                    &&& crate::text::strings_view(texts@) == c.pending
                    &&& final(self)@ == (SessionView {
                        control: Some(
                            crate::control::ControlView { pending: Seq::empty(), ..c },
                        ),
                        ..old(self)@
                    })
                },
                Err(_) => final(self)@ == old(self)@,
            },
    {
        match self.control_channel_mut() {
            Ok(control) => Ok(control.take_clipboard_updates(messages)),
            Err(e) => Err(e),
        }
    }

    /// The message that turns the device's display on or off.
    pub fn set_display_power(&self, on: bool) -> (r: Result<Vec<u8>, ScrcpyError>)
        ensures
            crate::input::error_of(r) == self@.refusal(),
            r matches Ok(m) ==> m@ == seq![10u8, if on { 1u8 } else { 0u8 }],
    {
        match self.check_control() {
            Ok(_) => Ok(ControlChannel::set_display_power(on)),
            Err(e) => Err(e),
        }
    }

    /// The message that toggles the device's orientation.
    pub fn rotate_device(&self) -> (r: Result<Vec<u8>, ScrcpyError>)
        ensures
            crate::input::error_of(r) == self@.refusal(),
            r matches Ok(m) ==> m@ == seq![11u8],
    {
        match self.check_control() {
            Ok(_) => Ok(ControlChannel::send_rotate_device()),
            Err(e) => Err(e),
        }
    }

    /// The message that asks for a new key frame.
    pub fn request_idr(&self) -> (r: Result<Vec<u8>, ScrcpyError>)
        ensures
            crate::input::error_of(r) == self@.refusal(),
            r matches Ok(m) ==> m@ == seq![17u8],
    {
        match self.check_control() {
            Ok(_) => Ok(ControlChannel::send_reset_video()),
            Err(e) => Err(e),
        }
    }
}

/// A session that injects key codes goes on doing so, and one that is to use the virtual keyboard
/// goes on trying: only where the choice is left open is it ever made, and it is made once.
pub proof fn law_input_mode_settles(
    v: SessionView,
    task: InputTask,
    stage: InputStage,
    error: Option<crate::error::ErrorView>,
)
    ensures
        v.begin(task).0.mode == v.mode || (v.mode == ScrcpyInputMode::Auto && v.begin(task).0.mode
            == ScrcpyInputMode::Inject),
        v.after_sent(task, stage, error).0.mode == v.mode || (v.mode == ScrcpyInputMode::Auto
            && v.after_sent(task, stage, error).0.mode == ScrcpyInputMode::Inject),
        error is None ==> v.after_sent(task, stage, error).0.mode == v.mode,
{
}

/// A key that the virtual keyboard does not have is injected in every mode, and the session stays
/// as it was.
pub proof fn law_unknown_keys_are_injected(v: SessionView, event: KeyEvent)
    requires
        v.refusal() is None,
        !crate::uhid::is_supported(event.keycode),
    ensures
        v.begin(InputTask::Key(event)) == (
            v,
            crate::input::InputStepView::Send {
                stage: InputStage::Inject,
                message: crate::control::key_bytes(event),
            },
        ),
{
}

/// Where the choice is left open, a key event that does not get through as a report is injected,
/// whichever message failed.
pub proof fn law_no_key_is_lost(
    v: SessionView,
    event: KeyEvent,
    stage: InputStage,
    e: crate::error::ErrorView,
)
    requires
        v.refusal() is None,
        v.mode == ScrcpyInputMode::Auto,
        stage != InputStage::Inject,
    ensures
        v.after_sent(InputTask::Key(event), stage, Some(e)).1 == (
            crate::input::InputStepView::Send {
            stage: InputStage::Inject,
            message: crate::control::key_bytes(event),
        }),
{
}

/// After a warm-up whose messages got through, a key of the virtual keyboard takes one message:
/// the report in which it alone has changed.
pub proof fn law_warmup_saves_time(v: SessionView, event: KeyEvent)
    requires
        v.refusal() is None,
        v.mode != ScrcpyInputMode::Inject,
        !v.started,
        crate::uhid::is_supported(event.keycode),
    ensures
        ({
            let (a, s1) = v.begin(InputTask::Warmup);
            let (b, s2) = a.after_sent(InputTask::Warmup, InputStage::Create, None);
            let (c, s3) = b.after_sent(InputTask::Warmup, InputStage::Release, None);
            let (d, s4) = c.begin(InputTask::Key(event));
            let released = crate::uhid::KeyboardView::released();
            &&& s1 == (crate::input::InputStepView::Send {
                stage: InputStage::Create,
                message: crate::input::keyboard_create_bytes(),
            })
            &&& s2 == (crate::input::InputStepView::Send {
                stage: InputStage::Release,
                message: crate::input::keyboard_report_bytes(released),
            })
            &&& s3 == crate::input::InputStepView::Done(None)
            &&& s4 == (crate::input::InputStepView::Send {
                stage: InputStage::Report,
                message: crate::input::keyboard_report_bytes(
                    released.after(event.action, event.keycode),
                ),
            })
            &&& d.after_sent(InputTask::Key(event), InputStage::Report, None) == (
                d,
                crate::input::InputStepView::Done(None),
            )
        }),
{
}

/// Nothing can be sent exactly when the session has ended or has no control channel; that it has
/// ended is said first.
pub proof fn law_refusals(v: SessionView)
    ensures
        v.refusal() is None <==> !v.disposed && v.control is Some,
        v.disposed ==> v.refusal() == Some(
            crate::error::ErrorView::Other("session has been disposed"@),
        ),
        !v.disposed && v.control is None ==> v.refusal() == Some(
            crate::error::ErrorView::Other("session control channel is not ready"@),
        ),
{
}

/// Where a key event goes. Without the virtual keyboard it is injected. With it, and with a key that
/// it has, it changes the keyboard's state and goes out as a report, once the keyboard is up; until
/// then the keyboard is created first. Making input ready sends nothing where there is nothing to do.
pub proof fn law_where_keys_go(v: SessionView, event: KeyEvent)
    requires
        v.refusal() is None,
    ensures
        v.mode is Inject ==> v.begin(InputTask::Key(event)) == (
            v,
            crate::input::InputStepView::Send {
                stage: InputStage::Inject,
                message: crate::control::key_bytes(event),
            },
        ),
        v.mode is Inject || v.started ==> v.begin(InputTask::Warmup) == (
            v,
            crate::input::InputStepView::Done(None),
        ),
        !(v.mode is Inject) && v.started && crate::uhid::is_supported(event.keycode) ==> v.begin(
            InputTask::Key(event),
        ) == (
            SessionView {
                keyboard: v.keyboard.after(event.action, event.keycode),
                ..v
            },
            crate::input::InputStepView::Send {
                stage: InputStage::Report,
                message: crate::input::keyboard_report_bytes(
                    v.keyboard.after(event.action, event.keycode),
                ),
            },
        ),
        !(v.mode is Inject) && !v.started && crate::uhid::is_supported(event.keycode) ==> v.begin(
            InputTask::Key(event),
        ) == (
            v,
            crate::input::InputStepView::Send {
                stage: InputStage::Create,
                message: crate::input::keyboard_create_bytes(),
            },
        ),
{
}

/// A key event on a session that cannot send is an error; where the choice was open, key codes are
/// injected from then on.
pub proof fn law_keys_without_channel(v: SessionView, event: KeyEvent)
    requires
        v.refusal() is Some,
        !v.started,
    ensures
        v.begin(InputTask::Key(event)).1 == crate::input::InputStepView::Done(v.refusal()),
        v.begin(InputTask::Key(event)).0.keyboard == v.keyboard,
        v.begin(InputTask::Key(event)).0.events == v.events,
        v.mode is Uhid ==> v.begin(InputTask::Key(event)).0 == v,
{
}

/// The keyboard is up exactly when it was created and all its keys were reported as up: its creation
/// alone does not make it so, and a failure of either message does not.
pub proof fn law_keyboard_comes_up(
    v: SessionView,
    task: InputTask,
    error: Option<crate::error::ErrorView>,
)
    requires
        !v.started,
        v.refusal() is None,
    ensures
        !v.after_sent(task, InputStage::Create, error).0.started,
        v.after_sent(task, InputStage::Release, error).0.started <==> error is None,
        error is None ==> v.after_sent(task, InputStage::Create, error) == (
            SessionView { keyboard: crate::uhid::KeyboardView::released(), ..v },
            crate::input::InputStepView::Send {
                stage: InputStage::Release,
                message: crate::input::keyboard_report_bytes(crate::uhid::KeyboardView::released()),
            },
        ),
        error is None ==> v.after_sent(task, InputStage::Release, error) == (SessionView {
            started: true,
            ..v
        }).begin(task) || v.mode is Inject || (task matches InputTask::Key(event)
            && !crate::uhid::is_supported(event.keycode)),
{
}

/// Where only the virtual keyboard is to be used, a message that fails ends the task with its error,
/// and a key is not injected in its place. A failed report or injection is reported as a failed key
/// command, once; a failure before that is not.
pub proof fn law_failures_of_keyboard(v: SessionView, event: KeyEvent, e: crate::error::ErrorView)
    requires
        v.mode is Uhid,
    ensures
        v.after_sent(InputTask::Key(event), InputStage::Create, Some(e)) == (
            v,
            crate::input::InputStepView::Done(Some(e)),
        ),
        v.after_sent(InputTask::Key(event), InputStage::Release, Some(e)) == (
            v,
            crate::input::InputStepView::Done(Some(e)),
        ),
        v.after_sent(InputTask::Key(event), InputStage::Report, Some(e)) == (
            v.after_command(SessionCommand::Key, Some(e)),
            crate::input::InputStepView::Done(Some(e)),
        ),
        v.after_sent(InputTask::Key(event), InputStage::Inject, Some(e)) == (
            v.after_command(SessionCommand::Key, Some(e)),
            crate::input::InputStepView::Done(Some(e)),
        ),
        v.after_sent(InputTask::Key(event), InputStage::Report, None) == (
            v,
            crate::input::InputStepView::Done(None),
        ),
        v.after_sent(InputTask::Key(event), InputStage::Inject, None) == (
            v,
            crate::input::InputStepView::Done(None),
        ),
{
}

/// A failed command is reported by one event, which names the command and gives the whole text of
/// the error; one that worked is not. Of the events the newest 256 are kept.
pub proof fn law_failed_commands_are_reported(
    v: SessionView,
    command: SessionCommand,
    e: crate::error::ErrorView,
)
    ensures
        v.after_command(command, None) == v,
        v.after_command(command, Some(e)) == (SessionView {
            events: crate::bounded::last_n(
                v.events.push(
                    crate::model::EventView::Error {
                        code: ErrorCode::ControlFailed,
                        message: command.failure() + e.text(),
                    },
                ),
                256,
            ),
            ..v
        }),
        SessionCommand::Touch.failure() == "send_touch failed: "@,
        SessionCommand::Key.failure() == "send_key failed: "@,
        SessionCommand::Scroll.failure() == "send_scroll failed: "@,
        SessionCommand::Text.failure() == "send_text failed: "@,
        SessionCommand::SetClipboard.failure() == "set_clipboard failed: "@,
        SessionCommand::SetDisplayPower.failure() == "set_display_power failed: "@,
        SessionCommand::RotateDevice.failure() == "rotate_device failed: "@,
        SessionCommand::RequestIdr.failure() == "request_idr failed: "@,
{
}

} // verus!
