//! The service behind the API: the table of sessions, what their workers are told, and how a
//! worker goes on.

use vstd::prelude::*;

use crate::adb::{AdbClient, CommandOutcome};
use crate::backend::DecoderOutputMode;
use crate::decode_pipeline::ScrcpyDecodeConfig;
use crate::error::{other_error, other_error_with, ScrcpyError};
use crate::input::ScrcpyInputMode;
use crate::model::{
    AndroidKeyEventAction, AndroidMotionEventAction, DecoderMode, ErrorCode, KeyEvent,
    OrientationChangeSource, OrientationMode, RenderPipelineMode, ScrollEvent, SessionConfig,
    SessionConfigV2, SessionEvent, SessionStats, SystemKey, TouchEvent,
};
use crate::server::ScrcpyClientConfig;
use crate::table::Table;
use crate::text::{concat, join, lossy_text, to_decimal};

verus! {

/// How long a worker waits between stopping and starting a session again, in milliseconds.
pub const RECONNECT_WAIT_MS: u64 = 120;

/// The name of the session with a number.
pub open spec fn session_name(n: u64) -> Seq<char> {
    "sess-"@ + crate::text::decimal(n as nat)
}

/// Sessions with different numbers have different names.
pub proof fn law_session_names_differ(n: u64, m: u64)
    requires
        session_name(n) == session_name(m),
    ensures
        n == m,
{
    let prefix = "sess-"@;
    let a = crate::text::decimal(n as nat);
    let b = crate::text::decimal(m as nat);
    assert((prefix + a).skip(prefix.len() as int) =~= a);
    assert((prefix + b).skip(prefix.len() as int) =~= b);
    crate::text::lemma_decimal(n as nat);
    crate::text::lemma_decimal(m as nat);
}

/// A table of sessions, each with a name of its own.
pub struct SessionTable<S> {
    sessions: Table<S>,
    next: u64,
}

/// A table of sessions as a mathematical value.
#[verifier::ext_equal]
pub struct SessionTableView<S> {
    pub sessions: Map<Seq<char>, S>,
    pub next: u64,
}

impl<S> SessionTableView<S> {
    /// Every name in the table was given out before.
    pub open spec fn valid(self) -> bool {
        &&& self.next >= 1
        &&& forall|k: Seq<char>| #[trigger]
            self.sessions.dom().contains(k) ==> exists|n: u64|
                1 <= n < self.next && k == #[trigger] session_name(n)
    }

    /// With a session under the next name.
    pub open spec fn created(self, session: S) -> SessionTableView<S> {
        SessionTableView {
            sessions: self.sessions.insert(session_name(self.next), session),
            next: (self.next + 1) as u64,
        }
    }

    /// With another session under a name.
    pub open spec fn changed(self, id: Seq<char>, session: S) -> SessionTableView<S> {
        SessionTableView { sessions: self.sessions.insert(id, session), ..self }
    }

    /// Without the session of a name.
    pub open spec fn disposed(self, id: Seq<char>) -> SessionTableView<S> {
        SessionTableView { sessions: self.sessions.remove(id), ..self }
    }

    /// The error with which a call on a session is refused: none where there is such a session.
    pub open spec fn refusal(self, id: Seq<char>) -> Option<crate::error::ErrorView> {
        if self.sessions.dom().contains(id) {
            None
        } else {
            Some(invalid_session(id))
        }
    }

    /// After a step. One that names no session of the table changes nothing.
    pub open spec fn step(self, step: TableStep<S>) -> SessionTableView<S> {
        match step {
            TableStep::Create(session) => self.created(session),
            TableStep::Change(id, session) => if self.sessions.dom().contains(id) {
                self.changed(id, session)
            } else {
                self
            },
            TableStep::Dispose(id) => if self.sessions.dom().contains(id) {
                self.disposed(id)
            } else {
                self
            },
        }
    }

    /// After steps, in order.
    pub open spec fn steps(self, steps: Seq<TableStep<S>>) -> SessionTableView<S>
        decreases steps.len(),
    {
        if steps.len() == 0 {
            self
        } else {
            self.steps(steps.drop_last()).step(steps.last())
        }
    }

    /// The name was given out before, and stands for no session any more.
    pub open spec fn is_spent(self, id: Seq<char>) -> bool {
        &&& !self.sessions.dom().contains(id)
        &&& exists|n: u64| 1 <= n < self.next && id == #[trigger] session_name(n)
    }
}

/// What happens to a table of sessions: a session is put in, one is changed in any way (its worker
/// is set or taken, say), or one is taken out. All else leaves the table as it is.
pub enum TableStep<S> {
    Create(S),
    Change(Seq<char>, S),
    Dispose(Seq<char>),
}

/// How many sessions steps put in.
pub open spec fn creations<S>(steps: Seq<TableStep<S>>) -> nat
    decreases steps.len(),
{
    if steps.len() == 0 {
        0
    } else {
        creations(steps.drop_last()) + (if steps.last() is Create {
            1nat
        } else {
            0nat
        })
    }
}

/// A step keeps a table valid, and a spent name spent: no new session gets the name, and nothing
/// brings it back.
pub proof fn law_spent_names_stay_spent<S>(v: SessionTableView<S>, id: Seq<char>, step: TableStep<S>)
    requires
        v.valid(),
        v.is_spent(id),
        step is Create ==> v.next < u64::MAX,
    ensures
        v.step(step).valid(),
        v.step(step).is_spent(id),
        step is Create ==> session_name(v.next) != id,
{
    let n = choose|n: u64| 1 <= n < v.next && id == #[trigger] session_name(n);
    if session_name(v.next) == id {
        law_session_names_differ(v.next, n);
    }
    let w = v.step(step);
    assert(1 <= n < w.next && id == session_name(n));
    assert forall|k: Seq<char>| #[trigger] w.sessions.dom().contains(k) implies exists|m: u64|
        1 <= m < w.next && k == #[trigger] session_name(m) by {
        if v.sessions.dom().contains(k) {
            let m = choose|m: u64| 1 <= m < v.next && k == #[trigger] session_name(m);
            assert(1 <= m < w.next && k == session_name(m));
        } else {
            assert(1 <= v.next < w.next && k == session_name(v.next));
        }
    }
}

/// A table with no new names is as valid as it was.
proof fn lemma_fewer_names<S>(v: SessionTableView<S>, w: SessionTableView<S>)
    requires
        v.valid(),
        w.next == v.next,
        w.sessions.dom().subset_of(v.sessions.dom()),
    ensures
        w.valid(),
{
    assert forall|k: Seq<char>| #[trigger] w.sessions.dom().contains(k) implies exists|m: u64|
        1 <= m < w.next && k == #[trigger] session_name(m) by {
        assert(v.sessions.dom().contains(k));
    }
}

proof fn lemma_creations<S>(steps: Seq<TableStep<S>>, i: int)
    requires
        0 <= i <= steps.len(),
    ensures
        creations(steps.take(i)) <= creations(steps),
        i < steps.len() && steps[i] is Create ==> creations(steps.take(i)) < creations(steps),
    decreases steps.len(),
{
    if i == steps.len() {
        assert(steps.take(i) =~= steps);
    } else {
        let init = steps.drop_last();
        assert(steps.take(i) =~= init.take(i));
        lemma_creations(init, i);
        if i < init.len() {
            assert(init[i] == steps[i]);
        } else {
            assert(init.take(i) =~= init);
        }
    }
}

proof fn lemma_spent_after<S>(v: SessionTableView<S>, id: Seq<char>, steps: Seq<TableStep<S>>)
    requires
        v.valid(),
        v.is_spent(id),
        v.next + creations(steps) <= u64::MAX,
    ensures
        v.steps(steps).valid(),
        v.steps(steps).is_spent(id),
        v.steps(steps).next == v.next + creations(steps),
    decreases steps.len(),
{
    if steps.len() > 0 {
        lemma_spent_after(v, id, steps.drop_last());
        law_spent_names_stay_spent(v.steps(steps.drop_last()), id, steps.last());
    }
}

/// A session that was taken out is gone for good: whatever happens to the table later, every call
/// with its name is refused, and no new session gets the name. Taking it out leaves the other
/// sessions as they are. The sessions that are put in later must still have names.
pub proof fn law_disposed_sessions_stay_unknown<S>(
    v: SessionTableView<S>,
    id: Seq<char>,
    steps: Seq<TableStep<S>>,
)
    requires
        v.valid(),
        v.sessions.dom().contains(id),
        v.next + creations(steps) <= u64::MAX,
    ensures
        forall|i: int|
            0 <= i <= steps.len() ==> (#[trigger] v.disposed(id).steps(steps.take(i))).refusal(id)
                == Some(invalid_session(id)),
        forall|i: int|
            0 <= i < steps.len() && (#[trigger] steps[i]) is Create ==> session_name(
                v.disposed(id).steps(steps.take(i)).next,
            ) != id,
        forall|k: Seq<char>|
            k != id ==> (#[trigger] v.disposed(id).sessions.dom().contains(k)
                <==> v.sessions.dom().contains(k)) && v.disposed(id).sessions[k] == v.sessions[k],
{
    let w = v.disposed(id);
    let n = choose|n: u64| 1 <= n < v.next && id == #[trigger] session_name(n);
    assert(w.is_spent(id));
    lemma_fewer_names(v, w);
    assert forall|i: int| 0 <= i <= steps.len() implies (#[trigger] w.steps(
        steps.take(i),
    )).refusal(id) == Some(invalid_session(id)) by {
        lemma_creations(steps, i);
        lemma_spent_after(w, id, steps.take(i));
    }
    assert forall|i: int| 0 <= i < steps.len() && (#[trigger] steps[i]) is Create implies session_name(
        w.steps(steps.take(i)).next,
    ) != id by {
        lemma_creations(steps, i);
        lemma_spent_after(w, id, steps.take(i));
        law_spent_names_stay_spent(w.steps(steps.take(i)), id, steps[i]);
    }
}

/// The error for a session that does not exist.
pub open spec fn invalid_session(id: Seq<char>) -> crate::error::ErrorView {
    crate::error::ErrorView::Other("invalid session id: "@ + id)
}

/// The error for a session that does not exist.
pub fn invalid_session_error(session_id: &str) -> (r: ScrcpyError)
    ensures
        r@ == invalid_session(session_id@),
{
    other_error_with("invalid session id: ", session_id)
}

impl<S> View for SessionTable<S> {
    type V = SessionTableView<S>;

    closed spec fn view(&self) -> SessionTableView<S> {
        SessionTableView { sessions: self.sessions@, next: self.next }
    }
}

impl<S> SessionTable<S> {
    /// Each name stands in the table at most once.
    pub closed spec fn table_valid(&self) -> bool {
        self.sessions.valid()
    }

    /// Each name stands in the table at most once, and was given out before.
    pub open spec fn valid(&self) -> bool {
        self.table_valid() && self@.valid()
    }

    /// A table without sessions.
    pub fn new() -> (r: Self)
        ensures
            r.valid(),
            r@ == (SessionTableView::<S> { sessions: Map::empty(), next: 1 }),
    {
        SessionTable { sessions: Table::new(), next: 1 }
    }

    /// The name that the next session gets.
    pub fn next_name(&self) -> (r: String)
        ensures
            r@ == session_name(self@.next),
    {
        concat("sess-", to_decimal(self.next).as_str())
    }

    /// Puts a session in under a new name, and gives the name back.
    pub fn create(&mut self, session: S) -> (r: String)
        requires
            old(self).valid(),
            old(self)@.next < u64::MAX,
        ensures
            final(self).valid(),
            r@ == session_name(old(self)@.next),
            !old(self)@.sessions.dom().contains(r@),
            final(self)@ == old(self)@.created(session),
    {
        let n: u64 = self.next;
        let name: String = self.next_name();
        let ghost before = self@;
        proof {
            if before.sessions.dom().contains(name@) {
                let m = choose|m: u64| 1 <= m < before.next && name@ == #[trigger] session_name(m);
                law_session_names_differ(n, m);
            }
        }
        self.next = n + 1;
        self.sessions.insert(name.clone(), session);
        proof {
            assert forall|k: Seq<char>| #[trigger] self@.sessions.dom().contains(k) implies exists|
                m: u64,
            |
                1 <= m < self@.next && k == #[trigger] session_name(m) by {
                if k == name@ {
                    assert(k == session_name(n));
                } else {
                    assert(before.sessions.dom().contains(k));
                    let m = choose|m: u64| 1 <= m < before.next && k == #[trigger] session_name(m);
                    assert(k == session_name(m));
                }
            }
        }
        name
    }

    /// The session with a name.
    pub fn session(&self, session_id: &str) -> (r: Result<&S, ScrcpyError>)
        requires
            self.valid(),
        ensures
            match r {
                Ok(s) => self@.sessions.dom().contains(session_id@) && *s
                    == self@.sessions[session_id@],
                Err(e) => self@.refusal(session_id@) == Some(e@),
            },
    {
        match self.sessions.get(session_id) {
            Some(s) => Ok(s),
            None => Err(invalid_session_error(session_id)),
        }
    }

    /// The session with a name, to be changed.
    pub fn session_mut(&mut self, session_id: &str) -> (r: Result<&mut S, ScrcpyError>)
        requires
            old(self).valid(),
        ensures
            final(self).valid(),
            match r {
                Ok(s) => old(self)@.sessions.dom().contains(session_id@) && *s
                    == old(self)@.sessions[session_id@] && final(self)@ == old(self)@.changed(
                    session_id@,
                    *final(s),
                ),
                Err(e) => old(self)@.refusal(session_id@) == Some(e@) && final(self)@ == old(
                    self,
                )@,
            },
    {
        proof {
            let v = self@;
            if v.sessions.dom().contains(session_id@) {
                assert forall|session: S| (#[trigger] v.changed(session_id@, session)).valid() by {
                    lemma_fewer_names(v, v.changed(session_id@, session));
                }
            }
        }
        match self.sessions.get_mut(session_id) {
            Some(s) => Ok(s),
            None => Err(invalid_session_error(session_id)),
        }
    }

    /// Takes a session out. Its name is never given to another one.
    pub fn dispose(&mut self, session_id: &str) -> (r: Result<S, ScrcpyError>)
        requires
            old(self).valid(),
        ensures
            final(self).valid(),
            match r {
                Ok(s) => old(self)@.sessions.dom().contains(session_id@) && s
                    == old(self)@.sessions[session_id@] && final(self)@ == old(self)@.disposed(
                    session_id@,
                ),
                Err(e) => old(self)@.refusal(session_id@) == Some(e@) && final(self)@ == old(
                    self,
                )@,
            },
    {
        proof {
            lemma_fewer_names(self@, self@.disposed(session_id@));
        }
        match self.sessions.remove(session_id) {
            Some(s) => Ok(s),
            None => {
                assert(self@.sessions =~= old(self)@.sessions);
                Err(invalid_session_error(session_id))
            },
        }
    }
}

/// A session of the API: how it was set up, and the worker that runs it, if one does.
pub struct ApiSession<W> {
    pub config: SessionConfig,
    pub decoder_mode: DecoderMode,
    pub render_pipeline_mode: RenderPipelineMode,
    pub worker: Option<W>,
}

/// What a session is told through the API.
#[derive(Debug, Clone, Copy, PartialEq, Eq, Structural)]
pub enum ApiCommand {
    Touch,
    Key,
    Scroll,
    Text,
    SystemKey,
    Clipboard,
    Orientation,
    RequestIdr,
}

impl ApiCommand {
    /// What the error of a command that did not reach its worker begins with.
    pub open spec fn failure(self) -> Seq<char> {
        match self {
            ApiCommand::Touch => "send touch command failed: "@,
            ApiCommand::Key => "send key command failed: "@,
            ApiCommand::Scroll => "send scroll command failed: "@,
            ApiCommand::Text => "send text command failed: "@,
            ApiCommand::SystemKey => "send system key command failed: "@,
            ApiCommand::Clipboard => "send clipboard command failed: "@,
            ApiCommand::Orientation => "send orientation command failed: "@,
            ApiCommand::RequestIdr => "send request idr command failed: "@,
        }
    }

    fn failure_text(self) -> (r: &'static str)
        ensures
            r@ == self.failure(),
    {
        match self {
            ApiCommand::Touch => "send touch command failed: ",
            ApiCommand::Key => "send key command failed: ",
            ApiCommand::Scroll => "send scroll command failed: ",
            ApiCommand::Text => "send text command failed: ",
            ApiCommand::SystemKey => "send system key command failed: ",
            ApiCommand::Clipboard => "send clipboard command failed: ",
            ApiCommand::Orientation => "send orientation command failed: ",
            ApiCommand::RequestIdr => "send request idr command failed: ",
        }
    }
}

impl<W> SessionTable<ApiSession<W>> {
    /// Puts a session in that prefers a hardware decoder and shows shared textures. It does not
    /// run yet.
    pub fn create_session(&mut self, config: SessionConfig) -> (r: String)
        requires
            old(self).valid(),
            old(self)@.next < u64::MAX,
        ensures
            final(self).valid(),
            r@ == session_name(old(self)@.next),
            !old(self)@.sessions.dom().contains(r@),
            final(self)@ == old(self)@.created(
                ApiSession {
                    config,
                    decoder_mode: DecoderMode::PreferHardware,
                    render_pipeline_mode: RenderPipelineMode::Original,
                    worker: None,
                },
            ),
    {
        self.create(
            ApiSession {
                config,
                decoder_mode: DecoderMode::PreferHardware,
                render_pipeline_mode: RenderPipelineMode::Original,
                worker: None,
            },
        )
    }

    /// Puts a session in with the decoder and renderer that were asked for. It does not run yet.
    pub fn create_session_v2(&mut self, config: SessionConfigV2) -> (r: String)
        requires
            old(self).valid(),
            old(self)@.next < u64::MAX,
        ensures
            final(self).valid(),
            r@ == session_name(old(self)@.next),
            !old(self)@.sessions.dom().contains(r@),
            final(self)@ == old(self)@.created(
                ApiSession {
                    config: config.base,
                    decoder_mode: config.decoder_mode,
                    render_pipeline_mode: config.render_pipeline_mode,
                    worker: None,
                },
            ),
    {
        self.create(
            ApiSession {
                config: config.base,
                decoder_mode: config.decoder_mode,
                render_pipeline_mode: config.render_pipeline_mode,
                worker: None,
            },
        )
    }

    /// Whether a worker is to be made for a session: not where one runs.
    pub fn start_session<F: Fn(&W) -> bool>(&self, session_id: &str, is_running: F) -> (r: Result<
        bool,
        ScrcpyError,
    >)
        requires
            self.valid(),
            forall|w: &W| call_requires(is_running, (w,)),
        ensures
            match r {
                Ok(needed) => {
                    &&& self@.sessions.dom().contains(session_id@)
                    &&& match self@.sessions[session_id@].worker {
                        Some(w) => call_ensures(is_running, (&w,), !needed),
                        None => needed,
                    }
                },
                Err(e) => self@.refusal(session_id@) == Some(e@),
            },
    {
        match self.session(session_id) {
            Ok(s) => match &s.worker {
                Some(w) => Ok(!is_running(w)),
                None => Ok(true),
            },
            Err(e) => Err(e),
        }
    }

    /// Gives a session the worker that runs it. An earlier worker comes back.
    pub fn set_worker(&mut self, session_id: &str, worker: W) -> (r: Result<
        Option<W>,
        ScrcpyError,
    >)
        requires
            old(self).valid(),
        ensures
            final(self).valid(),
            match r {
                Ok(w) => old(self)@.sessions.dom().contains(session_id@) && w
                    == old(self)@.sessions[session_id@].worker && final(self)@
                    == old(self)@.changed(
                    session_id@,
                    ApiSession { worker: Some(worker), ..old(self)@.sessions[session_id@] },
                ),
                Err(e) => old(self)@.refusal(session_id@) == Some(e@) && final(self)@ == old(
                    self,
                )@,
            },
    {
        match self.session_mut(session_id) {
            Ok(s) => {
                let earlier = s.worker.take();
                s.worker = Some(worker);
                Ok(earlier)
            },
            Err(e) => Err(e),
        }
    }

    /// Takes the worker from a session, which can be started again. The worker is to be told to
    /// stop and waited for.
    pub fn stop_session(&mut self, session_id: &str) -> (r: Result<Option<W>, ScrcpyError>)
        requires
            old(self).valid(),
        ensures
            final(self).valid(),
            match r {
                Ok(w) => old(self)@.sessions.dom().contains(session_id@) && w
                    == old(self)@.sessions[session_id@].worker && final(self)@
                    == old(self)@.changed(
                    session_id@,
                    ApiSession { worker: None, ..old(self)@.sessions[session_id@] },
                ),
                Err(e) => old(self)@.refusal(session_id@) == Some(e@) && final(self)@ == old(
                    self,
                )@,
            },
    {
        match self.session_mut(session_id) {
            Ok(s) => Ok(s.worker.take()),
            Err(e) => Err(e),
        }
    }

    /// Takes a session out for good. Its worker, if one runs, is to be told to stop and waited
    /// for.
    pub fn dispose_session(&mut self, session_id: &str) -> (r: Result<Option<W>, ScrcpyError>)
        requires
            old(self).valid(),
        ensures
            final(self).valid(),
            match r {
                Ok(w) => old(self)@.sessions.dom().contains(session_id@) && w
                    == old(self)@.sessions[session_id@].worker && final(self)@
                    == old(self)@.disposed(session_id@),
                Err(e) => old(self)@.refusal(session_id@) == Some(e@) && final(self)@ == old(
                    self,
                )@,
            },
    {
        match self.dispose(session_id) {
            Ok(s) => Ok(s.worker),
            Err(e) => Err(e),
        }
    }

    /// Hands a command to the worker of a session through `send`, which says what went wrong.
    pub fn dispatch<F: Fn(&W) -> Result<(), String>>(
        &self,
        session_id: &str,
        command: ApiCommand,
        send: F,
    ) -> (r: Result<(), ScrcpyError>)
        requires
            self.valid(),
            forall|w: &W| call_requires(send, (w,)),
        ensures
            if self@.refusal(session_id@) is Some {
                r matches Err(e) && self@.refusal(session_id@) == Some(e@)
            } else {
                match self@.sessions[session_id@].worker {
                    None => r matches Err(e) && e@ == crate::error::ErrorView::Other(
                        "session runtime not started"@,
                    ),
                    Some(w) => exists|sent: Result<(), String>| #[trigger]
                        call_ensures(send, (&w,), sent) && match sent {
                            Ok(_) => r is Ok,
                            Err(detail) => r matches Err(e) && e@ == crate::error::ErrorView::Other(
                                command.failure() + detail@,
                            ),
                        },
                }
            },
    {
        match self.session(session_id) {
            Ok(s) => match &s.worker {
                Some(w) => match send(w) {
                    Ok(_) => Ok(()),
                    Err(detail) => Err(other_error_with(command.failure_text(), detail.as_str())),
                },
                None => Err(other_error("session runtime not started")),
            },
            Err(e) => Err(e),
        }
    }

    /// The statistics of a session through `read`, which gives nothing where they cannot be had;
    /// all zero where the session does not run.
    pub fn get_session_stats<F: Fn(&W) -> Option<SessionStats>>(
        &self,
        session_id: &str,
        read: F,
    ) -> (r: Result<SessionStats, ScrcpyError>)
        requires
            self.valid(),
            forall|w: &W| call_requires(read, (w,)),
        ensures
            if self@.refusal(session_id@) is Some {
                r matches Err(e) && self@.refusal(session_id@) == Some(e@)
            } else {
                match self@.sessions[session_id@].worker {
                    None => r == Ok::<SessionStats, ScrcpyError>(SessionStats::spec_zero()),
                    Some(w) => match r {
                        Ok(stats) => call_ensures(read, (&w,), Some(stats)),
                        Err(e) => call_ensures(read, (&w,), None::<SessionStats>) && e@
                            == crate::error::ErrorView::Other("session stats lock poisoned"@),
                    },
                }
            },
    {
        match self.session(session_id) {
            Ok(s) => match &s.worker {
                Some(w) => match read(w) {
                    Some(stats) => Ok(stats),
                    None => Err(other_error("session stats lock poisoned")),
                },
                None => Ok(SessionStats::zero()),
            },
            Err(e) => Err(e),
        }
    }
}

/// The set-up of a client for a session. Key events go to the virtual keyboard.
pub fn map_client_config(config: &SessionConfig) -> (r: ScrcpyClientConfig)
    ensures
        r.adb_path@ == config.adb_path@,
        r.server_path@ == config.server_path@,
        r.device_id@ == config.device_id@,
        r.video_port == config.video_port,
        r.control_port == config.control_port,
        r.max_size == config.max_size,
        r.bit_rate == config.bit_rate,
        r.max_fps == config.max_fps,
        r.intra_refresh_period == config.intra_refresh_period,
        r.video_encoder == config.video_encoder,
        r.turn_screen_off == config.turn_screen_off,
        r.stay_awake == config.stay_awake,
        r.scrcpy_log_level@ == config.scrcpy_verbosity@,
        r.input_mode == ScrcpyInputMode::Uhid,
{
    let video_encoder: Option<String> = match &config.video_encoder {
        Some(e) => Some(e.clone()),
        None => None,
    };
    ScrcpyClientConfig {
        adb_path: config.adb_path.clone(),
        server_path: config.server_path.clone(),
        device_id: config.device_id.clone(),
        video_port: config.video_port,
        control_port: config.control_port,
        max_size: config.max_size,
        bit_rate: config.bit_rate,
        max_fps: config.max_fps,
        intra_refresh_period: config.intra_refresh_period,
        video_encoder,
        turn_screen_off: config.turn_screen_off,
        stay_awake: config.stay_awake,
        scrcpy_log_level: config.scrcpy_verbosity.clone(),
        input_mode: ScrcpyInputMode::Uhid,
    }
}

/// The kind of frames that a way of rendering takes.
pub open spec fn output_for(mode: RenderPipelineMode) -> DecoderOutputMode {
    match mode {
        RenderPipelineMode::Original => DecoderOutputMode::GpuShared,
        RenderPipelineMode::CpuPixelBufferV2 => DecoderOutputMode::CpuBgra,
    }
}

/// The kind of frames that a way of rendering takes.
pub fn output_mode(mode: RenderPipelineMode) -> (r: DecoderOutputMode)
    ensures
        r == output_for(mode),
{
    match mode {
        RenderPipelineMode::Original => DecoderOutputMode::GpuShared,
        RenderPipelineMode::CpuPixelBufferV2 => DecoderOutputMode::CpuBgra,
    }
}

/// The set-up of a decoder for a session.
pub fn map_decode_config(
    decoder_mode: DecoderMode,
    render_pipeline_mode: RenderPipelineMode,
) -> (r: ScrcpyDecodeConfig)
    ensures
        r == (ScrcpyDecodeConfig {
            decoder_mode,
            output_mode: output_for(render_pipeline_mode),
            ..ScrcpyDecodeConfig::spec_default()
        }),
{
    let mut config = ScrcpyDecodeConfig::default();
    config.decoder_mode = decoder_mode;
    config.output_mode = output_mode(render_pipeline_mode);
    config
}

/// The action of the same name.
pub open spec fn touch_action(action: AndroidMotionEventAction) -> crate::control::AndroidMotionEventAction {
    match action {
        AndroidMotionEventAction::Down => crate::control::AndroidMotionEventAction::Down,
        AndroidMotionEventAction::Up => crate::control::AndroidMotionEventAction::Up,
        AndroidMotionEventAction::Move => crate::control::AndroidMotionEventAction::Move,
        AndroidMotionEventAction::Cancel => crate::control::AndroidMotionEventAction::Cancel,
        AndroidMotionEventAction::PointerDown => crate::control::AndroidMotionEventAction::PointerDown,
        AndroidMotionEventAction::PointerUp => crate::control::AndroidMotionEventAction::PointerUp,
        AndroidMotionEventAction::HoverMove => crate::control::AndroidMotionEventAction::HoverMove,
        AndroidMotionEventAction::HoverEnter => crate::control::AndroidMotionEventAction::HoverEnter,
        AndroidMotionEventAction::HoverExit => crate::control::AndroidMotionEventAction::HoverExit,
    }
}

/// A touch event for the control channel.
pub open spec fn mapped_touch(event: TouchEvent) -> crate::control::TouchEvent {
    crate::control::TouchEvent {
        action: touch_action(event.action),
        pointer_id: event.pointer_id,
        x: event.x,
        y: event.y,
        pressure: event.pressure,
        width: event.width,
        height: event.height,
        buttons: event.buttons,
    }
}

/// A touch event for the control channel.
pub fn map_touch_event(event: TouchEvent) -> (r: crate::control::TouchEvent)
    ensures
        r == mapped_touch(event),
{
    let action = match event.action {
        AndroidMotionEventAction::Down => crate::control::AndroidMotionEventAction::Down,
        AndroidMotionEventAction::Up => crate::control::AndroidMotionEventAction::Up,
        AndroidMotionEventAction::Move => crate::control::AndroidMotionEventAction::Move,
        AndroidMotionEventAction::Cancel => crate::control::AndroidMotionEventAction::Cancel,
        AndroidMotionEventAction::PointerDown => crate::control::AndroidMotionEventAction::PointerDown,
        AndroidMotionEventAction::PointerUp => crate::control::AndroidMotionEventAction::PointerUp,
        AndroidMotionEventAction::HoverMove => crate::control::AndroidMotionEventAction::HoverMove,
        AndroidMotionEventAction::HoverEnter => crate::control::AndroidMotionEventAction::HoverEnter,
        AndroidMotionEventAction::HoverExit => crate::control::AndroidMotionEventAction::HoverExit,
    };
    crate::control::TouchEvent {
        action,
        pointer_id: event.pointer_id,
        x: event.x,
        y: event.y,
        pressure: event.pressure,
        width: event.width,
        height: event.height,
        buttons: event.buttons,
    }
}

/// A key event for the control channel.
pub open spec fn mapped_key(event: KeyEvent) -> crate::control::KeyEvent {
    crate::control::KeyEvent {
        action: match event.action {
            AndroidKeyEventAction::Down => crate::control::AndroidKeyEventAction::Down,
            AndroidKeyEventAction::Up => crate::control::AndroidKeyEventAction::Up,
        },
        keycode: event.keycode,
        repeat: event.repeat,
        metastate: event.metastate,
    }
}

/// A key event for the control channel.
pub fn map_key_event(event: KeyEvent) -> (r: crate::control::KeyEvent)
    ensures
        r == mapped_key(event),
{
    let action = match event.action {
        AndroidKeyEventAction::Down => crate::control::AndroidKeyEventAction::Down,
        AndroidKeyEventAction::Up => crate::control::AndroidKeyEventAction::Up,
    };
    crate::control::KeyEvent {
        action,
        keycode: event.keycode,
        repeat: event.repeat,
        metastate: event.metastate,
    }
}

/// A scroll event for the control channel.
pub open spec fn mapped_scroll(event: ScrollEvent) -> crate::control::ScrollEvent {
    crate::control::ScrollEvent {
        x: event.x,
        y: event.y,
        width: event.width,
        height: event.height,
        hscroll: event.hscroll,
        vscroll: event.vscroll,
    }
}

/// A scroll event for the control channel.
pub fn map_scroll_event(event: ScrollEvent) -> (r: crate::control::ScrollEvent)
    ensures
        r == mapped_scroll(event),
{
    crate::control::ScrollEvent {
        x: event.x,
        y: event.y,
        width: event.width,
        height: event.height,
        hscroll: event.hscroll,
        vscroll: event.vscroll,
    }
}

/// The Android key code of a key, if it has one.
pub open spec fn keycode_of(key: SystemKey) -> Option<u32> {
    match key {
        SystemKey::Home => Some(3u32),
        SystemKey::Back => Some(4u32),
        SystemKey::Recent => Some(187u32),
        SystemKey::PowerMenu => Some(26u32),
        SystemKey::VolumeUp => Some(24u32),
        SystemKey::VolumeDown => Some(25u32),
        SystemKey::RotateScreen => None,
    }
}

/// The Android key code of a key, if it has one.
pub fn system_key_to_keycode(key: SystemKey) -> (r: Option<u32>)
    ensures
        r == keycode_of(key),
{
    match key {
        SystemKey::Home => Some(3),
        SystemKey::Back => Some(4),
        SystemKey::Recent => Some(187),
        SystemKey::PowerMenu => Some(26),
        SystemKey::VolumeUp => Some(24),
        SystemKey::VolumeDown => Some(25),
        SystemKey::RotateScreen => None,
    }
}

/// What the outcome of a command on this side means: its output, or an error where it failed or
/// did not run.
pub fn adb_execute(outcome: CommandOutcome) -> (r: Result<String, ScrcpyError>)
    ensures
        match outcome {
            CommandOutcome::Finished { success, stdout, stderr } => if success {
                r matches Ok(out) && out@ == crate::text::lossy(stdout@)
            } else {
                r matches Err(e) && e@ == crate::error::ErrorView::Other(
                    "adb command failed: "@ + crate::text::lossy(stderr@),
                )
            },
            CommandOutcome::NotRun(m) => r matches Err(e) && e@ == crate::error::ErrorView::Other(
                "adb execute failed: "@ + m@,
            ),
        },
{
    match outcome {
        CommandOutcome::Finished { success, stdout, stderr } => {
            if success {
                Ok(lossy_text(stdout.as_slice()))
            } else {
                let text = lossy_text(stderr.as_slice());
                Err(other_error_with("adb command failed: ", text.as_str()))
            }
        },
        CommandOutcome::NotRun(m) => Err(other_error_with("adb execute failed: ", m.as_str())),
    }
}

/// The commands on the device for an orientation: the one to try, and those to run one after the
/// other where it fails.
pub struct OrientationPlan {
    pub first: String,
    pub fallback: Vec<String>,
}

/// The command that newer devices know for an orientation.
pub open spec fn rotation_command(mode: OrientationMode) -> Seq<char> {
    match mode {
        OrientationMode::Auto => "cmd window user-rotation free"@,
        OrientationMode::Portrait => "cmd window user-rotation lock 0"@,
        OrientationMode::Landscape => "cmd window user-rotation lock 1"@,
    }
}

/// The orientation of the same name.
pub open spec fn screen_mode(mode: OrientationMode) -> crate::server::ScreenOrientationMode {
    match mode {
        OrientationMode::Auto => crate::server::ScreenOrientationMode::Auto,
        OrientationMode::Portrait => crate::server::ScreenOrientationMode::Portrait,
        OrientationMode::Landscape => crate::server::ScreenOrientationMode::Landscape,
    }
}

/// The commands on the device for an orientation.
pub fn adb_set_orientation_mode(mode: OrientationMode) -> (r: OrientationPlan)
    ensures
        r.first@ == rotation_command(mode),
        crate::text::strings_view(r.fallback@) == crate::server::orientation_commands(
            screen_mode(mode),
        ),
{
    let first: &str = match mode {
        OrientationMode::Auto => "cmd window user-rotation free",
        OrientationMode::Portrait => "cmd window user-rotation lock 0",
        OrientationMode::Landscape => "cmd window user-rotation lock 1",
    };
    let fallback = crate::server::set_screen_orientation_mode(
        crate::server::map_orientation(mode),
    );
    OrientationPlan { first: first.to_owned(), fallback }
}

/// What is told of a change of orientation.
pub fn orientation_event(mode: OrientationMode, outcome: Result<(), ScrcpyError>) -> (r:
    SessionEvent)
    ensures
        r@ == match outcome {
            Ok(_) => crate::model::EventView::OrientationChanged {
                mode,
                source: OrientationChangeSource::ManualApi,
            },
            Err(e) => crate::model::EventView::Error {
                code: ErrorCode::ControlFailed,
                message: "set orientation failed: "@ + e@.text(),
            },
        },
{
    match outcome {
        Ok(_) => SessionEvent::OrientationChanged {
            mode,
            source: OrientationChangeSource::ManualApi,
        },
        Err(e) => SessionEvent::Error {
            code: ErrorCode::ControlFailed,
            message: concat("set orientation failed: ", e.message().as_str()),
        },
    }
}

/// A command to the worker of a session.
#[derive(Debug)]
pub enum RuntimeCommand {
    Stop,
    Touch(TouchEvent),
    Key(KeyEvent),
    Scroll(ScrollEvent),
    Text(String),
    Clipboard { text: String, paste: bool },
    SystemKey(SystemKey),
    SetOrientation(OrientationMode),
    RequestIdr,
}

/// What a worker does for a command.
#[derive(Debug)]
pub enum WorkerAction {
    Stop,
    Touch(crate::control::TouchEvent),
    Keys(Vec<crate::control::KeyEvent>),
    Scroll(crate::control::ScrollEvent),
    Text(String),
    Clipboard { text: String, paste: bool },
    SetOrientation(OrientationMode),
    RequestIdr,
}

/// Pressing and releasing a key.
pub open spec fn tap(keycode: u32) -> Seq<crate::control::KeyEvent> {
    seq![
        crate::control::KeyEvent {
            action: crate::control::AndroidKeyEventAction::Down,
            keycode,
            repeat: 0,
            metastate: 0,
        },
        crate::control::KeyEvent {
            action: crate::control::AndroidKeyEventAction::Up,
            keycode,
            repeat: 0,
            metastate: 0,
        },
    ]
}

/// What a worker does for a command. A key by its meaning is pressed and released; one without a
/// key code does nothing.
pub fn handle_runtime_command(command: RuntimeCommand) -> (r: WorkerAction)
    ensures
        match command {
            RuntimeCommand::Stop => r is Stop,
            RuntimeCommand::Touch(e) => r == WorkerAction::Touch(mapped_touch(e)),
            RuntimeCommand::Key(e) => r matches WorkerAction::Keys(keys) && keys@ == seq![
                mapped_key(e),
            ],
            RuntimeCommand::Scroll(e) => r == WorkerAction::Scroll(mapped_scroll(e)),
            RuntimeCommand::Text(t) => r == WorkerAction::Text(t),
            RuntimeCommand::Clipboard { text, paste } => r == (WorkerAction::Clipboard {
                text,
                paste,
            }),
            RuntimeCommand::SystemKey(key) => r matches WorkerAction::Keys(keys) && keys@
                == match keycode_of(key) {
                Some(keycode) => tap(keycode),
                None => Seq::empty(),
            },
            RuntimeCommand::SetOrientation(mode) => r == WorkerAction::SetOrientation(mode),
            RuntimeCommand::RequestIdr => r is RequestIdr,
        },
{
    match command {
        RuntimeCommand::Stop => WorkerAction::Stop,
        RuntimeCommand::Touch(e) => WorkerAction::Touch(map_touch_event(e)),
        RuntimeCommand::Key(e) => {
            let mut keys: Vec<crate::control::KeyEvent> = Vec::new();
            keys.push(map_key_event(e));
            assert(keys@ =~= seq![mapped_key(e)]);
            WorkerAction::Keys(keys)
        },
        RuntimeCommand::Scroll(e) => WorkerAction::Scroll(map_scroll_event(e)),
        RuntimeCommand::Text(t) => WorkerAction::Text(t),
        RuntimeCommand::Clipboard { text, paste } => WorkerAction::Clipboard { text, paste },
        RuntimeCommand::SystemKey(key) => {
            let mut keys: Vec<crate::control::KeyEvent> = Vec::new();
            if let Some(keycode) = system_key_to_keycode(key) {
                keys.push(
                    crate::control::KeyEvent {
                        action: crate::control::AndroidKeyEventAction::Down,
                        keycode,
                        repeat: 0,
                        metastate: 0,
                    },
                );
                keys.push(
                    crate::control::KeyEvent {
                        action: crate::control::AndroidKeyEventAction::Up,
                        keycode,
                        repeat: 0,
                        metastate: 0,
                    },
                );
                assert(keys@ =~= tap(keycode));
            }
            WorkerAction::Keys(keys)
        },
        RuntimeCommand::SetOrientation(mode) => WorkerAction::SetOrientation(mode),
        RuntimeCommand::RequestIdr => WorkerAction::RequestIdr,
    }
}

/// What happens to a worker: it handled a command, nobody can send it commands any more, it looked
/// at the decoder, or it started its session again. The last two fail or do not.
#[derive(Debug, Clone, Copy, PartialEq, Eq, Structural)]
pub enum WorkerEvent {
    Handled { stop: bool },
    ChannelClosed,
    Pumped { failed: bool },
    Restarted { failed: bool },
}

/// What a worker does next: end its session and itself, end the session, wait and start it again,
/// or go on.
#[derive(Debug, Clone, Copy, PartialEq, Eq, Structural)]
pub enum WorkerStep {
    Exit,
    Reconnect { wait_ms: u64 },
    Continue,
}

/// Whether an event ends a worker.
pub open spec fn ends_worker(event: WorkerEvent) -> bool {
    match event {
        WorkerEvent::Handled { stop } => stop,
        WorkerEvent::ChannelClosed => true,
        WorkerEvent::Pumped { failed } => failed,
        WorkerEvent::Restarted { failed } => failed,
    }
}

/// What a worker does after an event. `running` says whether it may go on at all, `reconnect`
/// whether its session needs a new connection. A session that was just started again goes on.
pub fn worker_step(event: WorkerEvent, running: bool, reconnect: bool) -> (r: WorkerStep)
    ensures
        r == if ends_worker(event) || !running {
            WorkerStep::Exit
        } else if reconnect && event !is Restarted {
            WorkerStep::Reconnect { wait_ms: RECONNECT_WAIT_MS }
        } else {
            WorkerStep::Continue
        },
{
    let (ends, restarted): (bool, bool) = match event {
        WorkerEvent::Handled { stop } => (stop, false),
        WorkerEvent::ChannelClosed => (true, false),
        WorkerEvent::Pumped { failed } => (failed, false),
        WorkerEvent::Restarted { failed } => (failed, true),
    };
    if ends || !running {
        WorkerStep::Exit
    } else if reconnect && !restarted {
        WorkerStep::Reconnect { wait_ms: RECONNECT_WAIT_MS }
    } else {
        WorkerStep::Continue
    }
}

/// The arguments that keep a device awake, where the session asks for that.
pub fn stay_awake_args(config: &SessionConfig) -> (r: Option<Vec<String>>)
    ensures
        match r {
            Some(args) => config.stay_awake && crate::text::strings_view(args@) == seq![
                "-s"@,
                config.device_id@,
                "shell"@,
                "svc power stayon true"@,
            ],
            None => !config.stay_awake,
        },
{
    if config.stay_awake {
        Some(AdbClient::shell(config.device_id.as_str(), "svc power stayon true"))
    } else {
        None
    }
}

/// What is told where a worker cannot even begin.
pub fn runtime_init_event(detail: &str) -> (r: SessionEvent)
    ensures
        r@ == (crate::model::EventView::Error {
            code: ErrorCode::Internal,
            message: "runtime init failed: "@ + detail@,
        }),
{
    SessionEvent::Error {
        code: ErrorCode::Internal,
        message: concat("runtime init failed: ", detail),
    }
}

/// The line of a log entry: where it comes from and, if there are any, its fields.
pub fn log_line(target: &str, fields: &[String]) -> (r: String)
    ensures
        ({
            let text = crate::text::joined(fields@, ", "@);
            r@ == if text.len() == 0 {
                "target="@ + target@
            } else {
                "target="@ + target@ + " "@ + text
            }
        }),
{
    let text: String = join(fields, ", ");
    let mut out: String = concat("target=", target);
    if text.as_str().unicode_len() > 0 {
        out.append(" ");
        out.append(text.as_str());
    }
    out
}

/// Whether the log has been set up.
#[derive(Debug)]
pub struct LoggerState {
    ready: bool,
}

impl View for LoggerState {
    type V = bool;

    closed spec fn view(&self) -> bool {
        self.ready
    }
}

impl LoggerState {
    /// A log that has not been set up.
    pub fn new() -> (r: Self)
        ensures
            !r@,
    {
        LoggerState { ready: false }
    }

    /// Whether the log is to be set up. It is set up once.
    pub fn needs_setup(&self) -> (r: bool)
        ensures
            r == !self@,
    {
        !self.ready
    }

    /// Takes in how setting up the log went.
    pub fn on_logger_setup(&mut self, outcome: Result<(), String>) -> (r: Result<(), ScrcpyError>)
        ensures
            match outcome {
                Ok(_) => r is Ok && final(self)@,
                Err(m) => {
                    &&& r matches Err(e)
                    &&& e@ == crate::error::ErrorView::Other("setup logger failed: "@ + m@)
                    &&& final(self)@ == old(self)@
                },
            },
    {
        match outcome {
            Ok(_) => {
                self.ready = true;
                Ok(())
            },
            Err(m) => Err(other_error_with("setup logger failed: ", m.as_str())),
        }
    }
}

/// The system keys have the key codes of Android, all different; only the one that rotates has none.
pub proof fn law_system_key_codes(a: SystemKey, b: SystemKey)
    ensures
        keycode_of(SystemKey::Home) == Some(3u32),
        keycode_of(SystemKey::Back) == Some(4u32),
        keycode_of(SystemKey::VolumeUp) == Some(24u32),
        keycode_of(SystemKey::VolumeDown) == Some(25u32),
        keycode_of(SystemKey::PowerMenu) == Some(26u32),
        keycode_of(SystemKey::Recent) == Some(187u32),
        keycode_of(a) is None <==> a is RotateScreen,
        keycode_of(a) == keycode_of(b) <==> a == b,
{
}

/// A tap is two events of the same key and nothing else: down, then up.
pub proof fn law_tap(keycode: u32)
    ensures
        tap(keycode).len() == 2,
        tap(keycode)[0].action is Down,
        tap(keycode)[1].action is Up,
        forall|i: int|
            0 <= i < 2 ==> (#[trigger] tap(keycode)[i]).keycode == keycode && tap(keycode)[i].repeat
                == 0 && tap(keycode)[i].metastate == 0,
{
}

/// Events of the API reach the control channel with their actions and numbers as they are.
pub proof fn law_events_are_passed_on(t: TouchEvent, k: KeyEvent, s: ScrollEvent)
    ensures
        mapped_touch(t).action is Down <==> t.action is Down,
        mapped_touch(t).action is Up <==> t.action is Up,
        mapped_touch(t).action is Move <==> t.action is Move,
        mapped_touch(t).action is Cancel <==> t.action is Cancel,
        mapped_touch(t).action is PointerDown <==> t.action is PointerDown,
        mapped_touch(t).action is PointerUp <==> t.action is PointerUp,
        mapped_touch(t).action is HoverMove <==> t.action is HoverMove,
        mapped_touch(t).action is HoverEnter <==> t.action is HoverEnter,
        mapped_touch(t).action is HoverExit <==> t.action is HoverExit,
        mapped_touch(t).pointer_id == t.pointer_id,
        mapped_touch(t).x == t.x && mapped_touch(t).y == t.y,
        mapped_touch(t).width == t.width && mapped_touch(t).height == t.height,
        mapped_touch(t).pressure == t.pressure && mapped_touch(t).buttons == t.buttons,
        mapped_key(k).action is Down <==> k.action is Down,
        mapped_key(k).keycode == k.keycode,
        mapped_key(k).repeat == k.repeat,
        mapped_key(k).metastate == k.metastate,
        mapped_scroll(s).x == s.x && mapped_scroll(s).y == s.y,
        mapped_scroll(s).width == s.width && mapped_scroll(s).height == s.height,
        mapped_scroll(s).hscroll == s.hscroll && mapped_scroll(s).vscroll == s.vscroll,
{
}

/// Shared textures are for the one way of rendering and pixels for the other.
pub proof fn law_output_for(mode: RenderPipelineMode)
    ensures
        output_for(mode) is GpuShared <==> mode is Original,
        output_for(mode) is CpuBgra <==> mode is CpuPixelBufferV2,
{
}

/// The command of newer devices frees the rotation or locks it, upright with zero and sideways with
/// one; where it fails, the older commands ask for the same orientation.
pub proof fn law_rotation_commands(mode: OrientationMode)
    ensures
        mode is Auto ==> rotation_command(mode) == "cmd window user-rotation free"@,
        mode is Portrait ==> rotation_command(mode) == "cmd window user-rotation lock "@.push('0'),
        mode is Landscape ==> rotation_command(mode) == "cmd window user-rotation lock "@.push('1'),
        screen_mode(mode) is Auto <==> mode is Auto,
        screen_mode(mode) is Portrait <==> mode is Portrait,
        screen_mode(mode) is Landscape <==> mode is Landscape,
{
    reveal_strlit("cmd window user-rotation lock ");
    reveal_strlit("cmd window user-rotation lock 0");
    reveal_strlit("cmd window user-rotation lock 1");
    assert("cmd window user-rotation lock 0"@ =~= "cmd window user-rotation lock "@.push('0'));
    assert("cmd window user-rotation lock 1"@ =~= "cmd window user-rotation lock "@.push('1'));
}

/// A worker ends when it is told to stop, when nobody can tell it anything any more, and when its
/// session fails; handling another command, a look at the decoder that worked and a start that
/// worked do not end it.
pub proof fn law_what_ends_a_worker(event: WorkerEvent)
    ensures
        event is ChannelClosed ==> ends_worker(event),
        event matches WorkerEvent::Handled { stop } ==> ends_worker(event) == stop,
        event matches WorkerEvent::Pumped { failed } ==> ends_worker(event) == failed,
        event matches WorkerEvent::Restarted { failed } ==> ends_worker(event) == failed,
        RECONNECT_WAIT_MS == 120,
{
}

/// A session that is put in is found under its new name and changes no other; one that is taken out
/// is not found, and the others are as before. Changing one changes no other and no name.
pub proof fn law_table_steps<S>(v: SessionTableView<S>, id: Seq<char>, session: S, other: Seq<char>)
    requires
        v.valid(),
        v.next < u64::MAX,
        other != id,
        v.sessions.dom().contains(other),
    ensures
        !v.sessions.dom().contains(session_name(v.next)),
        v.created(session).sessions.dom().contains(session_name(v.next)),
        v.created(session).sessions[session_name(v.next)] == session,
        v.created(session).sessions.dom().contains(other),
        v.created(session).sessions[other] == v.sessions[other],
        v.created(session).next == v.next + 1,
        !v.disposed(id).sessions.dom().contains(id),
        v.disposed(id).sessions.dom().contains(other),
        v.disposed(id).sessions[other] == v.sessions[other],
        v.disposed(id).next == v.next,
        v.changed(id, session).sessions[id] == session,
        v.changed(id, session).sessions.dom().contains(other),
        v.changed(id, session).sessions[other] == v.sessions[other],
        v.changed(id, session).next == v.next,
{
    if v.sessions.dom().contains(session_name(v.next)) {
        let n = choose|n: u64| 1 <= n < v.next && session_name(v.next) == #[trigger] session_name(n);
        law_session_names_differ(n, v.next);
    }
}

/// A call on a session is refused exactly when there is none of that name, and the error gives the
/// name.
pub proof fn law_unknown_sessions_are_refused<S>(v: SessionTableView<S>, id: Seq<char>)
    ensures
        v.refusal(id) is None <==> v.sessions.dom().contains(id),
        v.refusal(id) matches Some(e) ==> e == crate::error::ErrorView::Other(
            "invalid session id: "@ + id,
        ),
{
}

/// A name is a fixed text and the number of the session, and the error of a command that did not
/// reach its worker names the command.
pub proof fn law_service_texts(n: u64)
    ensures
        session_name(n) == "sess-"@ + crate::text::decimal(n as nat),
        ApiCommand::Touch.failure() == "send touch command failed: "@,
        ApiCommand::Key.failure() == "send key command failed: "@,
        ApiCommand::Scroll.failure() == "send scroll command failed: "@,
        ApiCommand::Text.failure() == "send text command failed: "@,
        ApiCommand::SystemKey.failure() == "send system key command failed: "@,
        ApiCommand::Clipboard.failure() == "send clipboard command failed: "@,
        ApiCommand::Orientation.failure() == "send orientation command failed: "@,
        ApiCommand::RequestIdr.failure() == "send request idr command failed: "@,
{
}

/// A worker ends after an event that ends it, and where it may not go on; only otherwise is a session
/// that needs a new connection started again, 120 milliseconds later, and not one that was just
/// started.
pub proof fn law_worker_steps(event: WorkerEvent, running: bool, reconnect: bool, r: WorkerStep)
    requires
        call_ensures(worker_step, (event, running, reconnect), r),
    ensures
        r is Exit <==> !running || event is ChannelClosed || event == (WorkerEvent::Handled {
            stop: true,
        }) || event == (WorkerEvent::Pumped { failed: true }) || event == (WorkerEvent::Restarted {
            failed: true,
        }),
        r matches WorkerStep::Reconnect { wait_ms } ==> wait_ms == 120,
        r is Reconnect <==> !(r is Exit) && reconnect && !(event is Restarted),
{
}

/// What a worker does for a command: the same for all but the system keys, which are pressed and let
/// go where they have a key code, and do nothing where they have none.
pub proof fn law_worker_actions(command: RuntimeCommand, r: WorkerAction)
    requires
        call_ensures(handle_runtime_command, (command,), r),
    ensures
        r is Stop <==> command is Stop,
        r is RequestIdr <==> command is RequestIdr,
        r is Keys <==> command is Key || command is SystemKey,
        command matches RuntimeCommand::SystemKey(key) ==> (r matches WorkerAction::Keys(keys) && {
            &&& key is RotateScreen ==> keys@.len() == 0
            &&& !(key is RotateScreen) ==> keys@.len() == 2 && keys@[0].action is Down
                && keys@[1].action is Up && keys@[0].keycode == keys@[1].keycode
        }),
        command matches RuntimeCommand::Key(e) ==> (r matches WorkerAction::Keys(keys)
            && keys@.len() == 1 && keys@[0].keycode == e.keycode),
        command matches RuntimeCommand::SetOrientation(mode) ==> r == WorkerAction::SetOrientation(
            mode,
        ),
{
}

/// A change of orientation is told of exactly when it worked, with the orientation that was asked
/// for; else its failure is.
pub proof fn law_orientation_events(
    mode: OrientationMode,
    outcome: Result<(), ScrcpyError>,
    r: SessionEvent,
)
    requires
        call_ensures(orientation_event, (mode, outcome), r),
    ensures
        r@ is OrientationChanged <==> outcome is Ok,
        outcome is Ok ==> r@->mode == mode && r@->source is ManualApi,
        r@ is Error <==> outcome is Err,
        r@ is Error ==> r@->code is ControlFailed,
{
}

} // verus!
