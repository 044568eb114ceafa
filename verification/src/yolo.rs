//! Object detection on the frames of a session: which frames are looked at, how the output of a
//! model is read, and which detections are kept. Numbers with a fraction are kept as their bits.

use std::collections::VecDeque;

use vstd::prelude::*;

use crate::bounded::queue_of;
use crate::error::{other_error, ScrcpyError};
use crate::float_bits::{bits_are_nan, is_at_most, is_less, ONE_BITS};
use crate::table::Table;
use crate::text::{concat, same_text, to_decimal, trimmed};
use crate::wire::to_vec;

verus! {

/// How many frames a second are looked at where nothing else is said.
pub const DEFAULT_INFER_FPS: u32 = 15;

/// What runs a model.
#[derive(Debug, Clone, Copy, PartialEq, Eq, Structural)]
pub enum YoloExecutionProvider {
    DirectMl,
    Cuda,
    TensorRt,
}

/// What runs a model.
#[derive(Debug, Clone, Copy, PartialEq, Eq, Structural)]
pub struct YoloBackend {
    pub provider: YoloExecutionProvider,
}

/// How detection is set up. The two thresholds are the bits of single-precision numbers.
#[derive(Debug, Clone)]
pub struct YoloConfig {
    pub model_path: String,
    pub input_width: u32,
    pub input_height: u32,
    pub confidence_threshold: u32,
    pub iou_threshold: u32,
    pub max_detections: u32,
    pub provider: YoloExecutionProvider,
    pub device_index: Option<u32>,
    pub max_infer_fps: u32,
}

/// The detections in a frame.
#[derive(Debug, Clone)]
pub struct YoloFrameResult<D> {
    pub session_id: String,
    pub frame_id: u64,
    pub frame_width: u32,
    pub frame_height: u32,
    pub infer_latency_ms: u32,
    pub detections: Vec<D>,
}

/// A frame without detections.
pub fn build_empty_result<D>(
    session_id: String,
    frame_id: u64,
    frame_width: u32,
    frame_height: u32,
    infer_latency_ms: u32,
) -> (r: YoloFrameResult<D>)
    ensures
        r.session_id == session_id,
        r.frame_id == frame_id,
        r.frame_width == frame_width,
        r.frame_height == frame_height,
        r.infer_latency_ms == infer_latency_ms,
        r.detections@.len() == 0,
{
    YoloFrameResult {
        session_id,
        frame_id,
        frame_width,
        frame_height,
        infer_latency_ms,
        detections: Vec::new(),
    }
}

/// Whether the bits of a single-precision number stand for a number from zero to one.
pub open spec fn unit_bits(bits: u32) -> bool {
    crate::float_bits::at_most(0, bits) && crate::float_bits::at_most(bits, ONE_BITS)
}

/// What is wrong with a set-up, if anything: the first of its faults.
pub open spec fn config_fault(c: YoloConfig) -> Option<Seq<char>> {
    if crate::text::trim(c.model_path@).len() == 0 {
        Some("yolo model path is empty"@)
    } else if c.input_width == 0 || c.input_height == 0 {
        Some("yolo input size is invalid"@)
    } else if !unit_bits(c.confidence_threshold) {
        Some("confidence threshold out of range"@)
    } else if !unit_bits(c.iou_threshold) {
        Some("iou threshold out of range"@)
    } else if c.max_detections == 0 {
        Some("max detections must be > 0"@)
    } else if c.max_infer_fps == 0 {
        Some("max infer fps must be > 0"@)
    } else {
        None
    }
}

fn is_unit(bits: u32) -> (r: bool)
    ensures
        r == unit_bits(bits),
{
    is_at_most(0, bits) && is_at_most(bits, ONE_BITS)
}

/// Whether a text holds nothing but white space.
fn is_blank(text: &str) -> (r: bool)
    ensures
        r == (crate::text::trim(text@).len() == 0),
{
    trimmed(text).as_str().unicode_len() == 0
}

/// Whether a set-up is fit for use.
pub fn validate_yolo_config(config: &YoloConfig) -> (r: Result<(), ScrcpyError>)
    ensures
        match config_fault(*config) {
            Some(text) => r matches Err(e) && e@ == crate::error::ErrorView::Other(text),
            None => r is Ok,
        },
{
    if is_blank(config.model_path.as_str()) {
        return Err(other_error("yolo model path is empty"));
    }
    if config.input_width == 0 || config.input_height == 0 {
        return Err(other_error("yolo input size is invalid"));
    }
    if !is_unit(config.confidence_threshold) {
        return Err(other_error("confidence threshold out of range"));
    }
    if !is_unit(config.iou_threshold) {
        return Err(other_error("iou threshold out of range"));
    }
    if config.max_detections == 0 {
        return Err(other_error("max detections must be > 0"));
    }
    if config.max_infer_fps == 0 {
        return Err(other_error("max infer fps must be > 0"));
    }
    Ok(())
}

/// Holds back frames that come too fast. Times are in nanoseconds.
#[derive(Debug, Clone, Copy)]
pub struct YoloInferPipeline {
    pub min_interval_ms: u64,
    pub last_infer_at: Option<u64>,
    pub total_frames: u64,
    pub skipped_by_rate_limit: u64,
}

/// The milliseconds between frames at so many frames a second, at least one: the smallest whole
/// number with which no more frames fit into a second.
pub open spec fn interval_ms(fps: u32) -> u64 {
    let n = if fps == 0 {
        1
    } else {
        fps as int
    };
    ((1000 + n - 1) / n) as u64
}

/// With the interval between them, that many frames take a second or more; and the interval is as
/// short as it can be.
proof fn lemma_interval(fps: u32)
    requires
        fps >= 1,
    ensures
        1 <= interval_ms(fps) <= 1000,
        fps * interval_ms(fps) >= 1000,
        fps * (interval_ms(fps) - 1) < 1000,
{
    let n = fps as int;
    let q = (999 + n) / n;
    assert(999 + n == n * q + (999 + n) % n && 0 <= (999 + n) % n < n) by (nonlinear_arith)
        requires
            n >= 1,
            q == (999 + n) / n,
    ;
    assert(1 <= q <= 1000 && n * q >= 1000 && n * (q - 1) < 1000) by (nonlinear_arith)
        requires
            n >= 1,
            n * q > 999,
            n * q <= 999 + n,
    ;
}

fn interval(fps: u32) -> (r: u64)
    ensures
        r == interval_ms(fps),
        1 <= r <= 1000,
{
    let n: u64 = if fps == 0 {
        1
    } else {
        fps as u64
    };
    proof {
        lemma_interval(n as u32);
    }
    (1000 + n - 1) / n
}

impl YoloInferPipeline {
    /// The time between frames is one that some rate gives.
    pub open spec fn valid(self) -> bool {
        1 <= self.min_interval_ms <= 1000
    }

    /// The state with another rate.
    pub open spec fn at_rate(self, fps: u32) -> YoloInferPipeline {
        YoloInferPipeline { min_interval_ms: interval_ms(fps), ..self }
    }

    /// Whether a frame at a time is looked at: the first one is, and then one that comes long
    /// enough after the last that was.
    pub open spec fn admits(self, now: u64) -> bool {
        match self.last_infer_at {
            None => true,
            Some(last) => now >= last + self.min_interval_ms * 1_000_000,
        }
    }

    /// The state after a frame at a time.
    pub open spec fn after(self, now: u64) -> YoloInferPipeline {
        YoloInferPipeline {
            total_frames: crate::core_runtime::counted(self.total_frames),
            last_infer_at: if self.admits(now) {
                Some(now)
            } else {
                self.last_infer_at
            },
            skipped_by_rate_limit: if self.admits(now) {
                self.skipped_by_rate_limit
            } else {
                crate::core_runtime::counted(self.skipped_by_rate_limit)
            },
            ..self
        }
    }

    /// The times of the frames that are looked at, of frames at the given times.
    pub open spec fn admitted(self, times: Seq<u64>) -> Seq<u64>
        decreases times.len(),
    {
        if times.len() == 0 {
            Seq::empty()
        } else {
            let rest = self.after(times[0]).admitted(times.drop_first());
            if self.admits(times[0]) {
                seq![times[0]] + rest
            } else {
                rest
            }
        }
    }

    /// Holds back frames beyond so many a second.
    pub fn new(max_infer_fps: u32) -> (r: Self)
        ensures
            r.valid(),
            r == (YoloInferPipeline {
                min_interval_ms: interval_ms(max_infer_fps),
                last_infer_at: None,
                total_frames: 0,
                skipped_by_rate_limit: 0,
            }),
    {
        YoloInferPipeline {
            min_interval_ms: interval(max_infer_fps),
            last_infer_at: None,
            total_frames: 0,
            skipped_by_rate_limit: 0,
        }
    }

    /// Holds back frames beyond another number a second.
    pub fn update_max_infer_fps(&mut self, max_infer_fps: u32)
        ensures
            final(self).valid(),
            *final(self) == old(self).at_rate(max_infer_fps),
    {
        self.min_interval_ms = interval(max_infer_fps);
    }

    /// Takes in a frame at a time, and says whether it is looked at.
    pub fn should_infer_now(&mut self, now: u64) -> (r: bool)
        requires
            old(self).valid(),
        ensures
            final(self).valid(),
            r == old(self).admits(now),
            *final(self) == old(self).after(now),
    {
        if self.total_frames < u64::MAX {
            self.total_frames = self.total_frames + 1;
        }
        let admitted: bool = match self.last_infer_at {
            None => true,
            Some(last) => now >= last && now - last >= self.min_interval_ms * 1_000_000,
        };
        if admitted {
            self.last_infer_at = Some(now);
        } else if self.skipped_by_rate_limit < u64::MAX {
            self.skipped_by_rate_limit = self.skipped_by_rate_limit + 1;
        }
        admitted
    }

    /// How many frames were held back.
    pub fn skipped_by_rate_limit(&self) -> (r: u64)
        ensures
            r == self.skipped_by_rate_limit,
    {
        self.skipped_by_rate_limit
    }
}

impl Default for YoloInferPipeline {
    fn default() -> (r: Self)
        ensures
            r.valid(),
            r == (YoloInferPipeline {
                min_interval_ms: 67,
                last_infer_at: None,
                total_frames: 0,
                skipped_by_rate_limit: 0,
            }),
    {
        assert((1000 + 15 - 1) / 15int == 67);
        YoloInferPipeline::new(DEFAULT_INFER_FPS)
    }
}

/// However fast frames come, two that are looked at one after the other are at least the interval
/// apart, and the first is that far from the last one before.
pub proof fn law_rate_is_limited(p: YoloInferPipeline, times: Seq<u64>)
    ensures
        forall|i: int|
            0 <= i < p.admitted(times).len() - 1 ==> p.admitted(times)[i + 1] >= (
            #[trigger] p.admitted(times)[i]) + p.min_interval_ms * 1_000_000,
        p.admitted(times).len() > 0 && p.last_infer_at is Some ==> p.admitted(times)[0]
            >= p.last_infer_at->0 + p.min_interval_ms * 1_000_000,
    decreases times.len(),
{
    if times.len() > 0 {
        let q = p.after(times[0]);
        let rest = q.admitted(times.drop_first());
        law_rate_is_limited(q, times.drop_first());
        let all = p.admitted(times);
        if p.admits(times[0]) {
            assert(all =~= seq![times[0]] + rest);
            assert forall|i: int| 0 <= i < all.len() - 1 implies all[i + 1] >= (#[trigger] all[i])
                + p.min_interval_ms * 1_000_000 by {
                if i == 0 {
                    assert(all[1] == rest[0]);
                } else {
                    assert(all[i] == rest[i - 1]);
                    assert(all[i + 1] == rest[i - 1 + 1]);
                }
            }
        }
    }
}

/// Of the frames that are looked at, `n` steps further on is at least `n` intervals later.
proof fn lemma_spread(p: YoloInferPipeline, times: Seq<u64>, i: int, n: nat)
    requires
        0 <= i,
        i + n < p.admitted(times).len(),
    ensures
        p.admitted(times)[i + n] >= p.admitted(times)[i] + n * p.min_interval_ms * 1_000_000,
    decreases n,
{
    let ms = p.min_interval_ms as int;
    if n == 0 {
        assert(n * ms == 0) by (nonlinear_arith)
            requires
                n == 0,
        ;
    } else {
        let m = (n - 1) as nat;
        lemma_spread(p, times, i, m);
        law_rate_is_limited(p, times);
        assert(p.admitted(times)[i + m + 1] >= p.admitted(times)[i + m] + ms * 1_000_000);
        assert(n * ms == m * ms + ms) by (nonlinear_arith)
            requires
                n == m + 1,
        ;
    }
}

/// No more frames are looked at in a second than the rate names: the one that follows so many is
/// a second or more behind the first of them.
pub proof fn law_no_more_in_a_second(p: YoloInferPipeline, fps: u32, times: Seq<u64>)
    requires
        fps >= 1,
        p.min_interval_ms == interval_ms(fps),
    ensures
        forall|i: int|
            0 <= i && i + fps < p.admitted(times).len() ==> p.admitted(times)[i + fps] >= (
            #[trigger] p.admitted(times)[i]) + 1_000_000_000,
{
    lemma_interval(fps);
    assert forall|i: int| 0 <= i && i + fps < p.admitted(times).len() implies p.admitted(times)[i
        + fps] >= (#[trigger] p.admitted(times)[i]) + 1_000_000_000 by {
        lemma_spread(p, times, i, fps as nat);
    }
}

/// The sessions on whose frames detection runs, and how often it looks at each. `max_infer_fps` is
/// there once a model is.
pub struct YoloRuntime {
    max_infer_fps: Option<u32>,
    enabled_sessions: Table<()>,
    infer_pipelines: Table<YoloInferPipeline>,
}

/// The state of detection as a mathematical value.
#[verifier::ext_equal]
pub struct YoloView {
    pub fps: Option<u32>,
    pub enabled: Set<Seq<char>>,
    pub pipelines: Map<Seq<char>, YoloInferPipeline>,
}

impl YoloView {
    /// With a model that looks at this many frames in a second. What is known of the sessions
    /// stays, but for how often they are looked at.
    pub open spec fn at_rate(self, max_infer_fps: u32) -> YoloView {
        YoloView {
            fps: Some(max_infer_fps),
            enabled: self.enabled,
            pipelines: self.pipelines.map_values(
                |p: YoloInferPipeline| p.at_rate(max_infer_fps),
            ),
        }
    }

    /// Every pipeline is valid and belongs to a session that is enabled.
    pub open spec fn valid(self) -> bool {
        &&& self.pipelines.dom().subset_of(self.enabled)
        &&& forall|k: Seq<char>| #[trigger]
            self.pipelines.dom().contains(k) ==> self.pipelines[k].valid()
    }

    /// The pipeline of a session, or a new one.
    pub open spec fn pipeline(self, id: Seq<char>, fps: u32) -> YoloInferPipeline {
        if self.pipelines.dom().contains(id) {
            self.pipelines[id]
        } else {
            YoloInferPipeline {
                min_interval_ms: interval_ms(fps),
                last_infer_at: None,
                total_frames: 0,
                skipped_by_rate_limit: 0,
            }
        }
    }

    /// The state after detection was switched on or off for a session. Its pipeline stays where it
    /// is on already, and goes where it is off.
    pub open spec fn switched(self, id: Seq<char>, enabled: bool) -> YoloView {
        if enabled {
            YoloView {
                enabled: self.enabled.insert(id),
                pipelines: self.pipelines.insert(
                    id,
                    self.pipeline(
                        id,
                        match self.fps {
                            Some(n) => n,
                            None => DEFAULT_INFER_FPS,
                        },
                    ),
                ),
                ..self
            }
        } else {
            YoloView {
                enabled: self.enabled.remove(id),
                pipelines: self.pipelines.remove(id),
                ..self
            }
        }
    }
}

impl View for YoloRuntime {
    type V = YoloView;

    closed spec fn view(&self) -> YoloView {
        YoloView {
            fps: self.max_infer_fps,
            enabled: self.enabled_sessions@.dom(),
            pipelines: self.infer_pipelines@,
        }
    }
}

impl YoloRuntime {
    /// The tables hold each name once.
    pub closed spec fn tables_valid(&self) -> bool {
        self.enabled_sessions.valid() && self.infer_pipelines.valid()
    }

    /// The tables hold each name once and fit each other.
    pub open spec fn valid(&self) -> bool {
        self.tables_valid() && self@.valid()
    }

    /// No model, and detection off for every session.
    pub fn new() -> (r: Self)
        ensures
            r.valid(),
            r@ == (YoloView { fps: None, enabled: Set::empty(), pipelines: Map::empty() }),
    {
        let r = YoloRuntime {
            max_infer_fps: None,
            enabled_sessions: Table::new(),
            infer_pipelines: Table::new(),
        };
        assert(r@.enabled =~= Set::empty());
        r
    }

    /// Takes in how loading a model went, with its set-up. What is known of the sessions stays, but
    /// for how often they are looked at. Where loading failed, nothing changes.
    pub fn init(&mut self, config: &YoloConfig, loaded: Result<(), ScrcpyError>) -> (r: Result<
        (),
        ScrcpyError,
    >)
        requires
            old(self).valid(),
        ensures
            final(self).valid(),
            r == loaded,
            match loaded {
                Ok(_) => final(self)@ == old(self)@.at_rate(config.max_infer_fps),
                Err(_) => final(self)@ == old(self)@,
            },
    {
        if loaded.is_err() {
            return loaded;
        }
        let fps: u32 = config.max_infer_fps;
        let retime = |p: &YoloInferPipeline| -> (q: YoloInferPipeline)
            ensures
                q.valid() && q == p.at_rate(fps),
        {
            let mut q: YoloInferPipeline = *p;
            q.update_max_infer_fps(fps);
            q
        };
        self.infer_pipelines.update_all(retime);
        self.max_infer_fps = Some(fps);
        assert(self@.pipelines =~= old(self)@.at_rate(fps).pipelines);
        loaded
    }

    /// Takes in how loading another model went, as when the first is loaded.
    pub fn update_config(&mut self, config: &YoloConfig, loaded: Result<(), ScrcpyError>) -> (r:
        Result<(), ScrcpyError>)
        requires
            old(self).valid(),
        ensures
            final(self).valid(),
            r == loaded,
            match loaded {
                Ok(_) => final(self)@ == old(self)@.at_rate(config.max_infer_fps),
                Err(_) => final(self)@ == old(self)@,
            },
    {
        self.init(config, loaded)
    }

    /// Switches detection on or off for a session.
    pub fn set_session_enabled(&mut self, session_id: &str, enabled: bool)
        requires
            old(self).valid(),
        ensures
            final(self).valid(),
            final(self)@ == old(self)@.switched(session_id@, enabled),
    {
        if enabled {
            self.enabled_sessions.insert(session_id.to_owned(), ());
            if !self.infer_pipelines.contains_key(session_id) {
                let fps: u32 = match self.max_infer_fps {
                    Some(n) => n,
                    None => DEFAULT_INFER_FPS,
                };
                self.infer_pipelines.insert(session_id.to_owned(), YoloInferPipeline::new(fps));
            }
            assert(self@.enabled =~= old(self)@.enabled.insert(session_id@));
            assert(self@.pipelines =~= old(self)@.switched(session_id@, enabled).pipelines);
        } else {
            self.remove_session(session_id);
        }
    }

    /// Whether detection is on for a session.
    pub fn is_session_enabled(&self, session_id: &str) -> (r: bool)
        requires
            self.valid(),
        ensures
            r == self@.enabled.contains(session_id@),
    {
        self.enabled_sessions.contains_key(session_id)
    }

    /// Forgets a session.
    pub fn remove_session(&mut self, session_id: &str)
        requires
            old(self).valid(),
        ensures
            final(self).valid(),
            final(self)@ == old(self)@.switched(session_id@, false),
    {
        let _ = self.enabled_sessions.remove(session_id);
        let _ = self.infer_pipelines.remove(session_id);
        assert(self@.enabled =~= old(self)@.enabled.remove(session_id@));
    }

    /// Whether a frame of a session at a time is looked at: not without a model, not where
    /// detection is off, and not where frames come too fast.
    pub fn infer_bgra_if_needed(&mut self, session_id: &str, now: u64) -> (r: bool)
        requires
            old(self).valid(),
        ensures
            final(self).valid(),
            ({
                let v = old(self)@;
                let id = session_id@;
                if v.enabled.contains(id) && v.fps is Some {
                    let p = v.pipeline(id, v.fps->0);
                    &&& r == p.admits(now)
                    &&& final(self)@ == (YoloView {
                        pipelines: v.pipelines.insert(id, p.after(now)),
                        ..v
                    })
                } else {
                    !r && final(self)@ == v
                }
            }),
    {
        if !self.enabled_sessions.contains_key(session_id) {
            return false;
        }
        let fps: u32 = match self.max_infer_fps {
            Some(n) => n,
            None => {
                return false;
            },
        };
        let mut p: YoloInferPipeline = match self.infer_pipelines.get(session_id) {
            Some(p) => *p,
            None => YoloInferPipeline::new(fps),
        };
        let r: bool = p.should_infer_now(now);
        self.infer_pipelines.insert(session_id.to_owned(), p);
        r
    }
}

/// What setting up a model changes: only a set-up that is fit for use is loaded, and only one that
/// could be loaded counts.
pub open spec fn set_up_by<F: Fn(&YoloConfig) -> Result<(), ScrcpyError>>(
    before: YoloView,
    config: YoloConfig,
    load: F,
    after: YoloView,
    r: Result<(), ScrcpyError>,
) -> bool {
    match config_fault(config) {
        Some(text) => {
            &&& r matches Err(e)
            &&& e@ == crate::error::ErrorView::Other(text)
            &&& after == before
        },
        None => {
            &&& call_ensures(load, (&config,), r)
            &&& after == if r is Ok {
                before.at_rate(config.max_infer_fps)
            } else {
                before
            }
        },
    }
}

/// Sets up a model, which `load` loads and tries out.
pub fn init_yolo<F: Fn(&YoloConfig) -> Result<(), ScrcpyError>>(
    runtime: &mut YoloRuntime,
    config: &YoloConfig,
    load: F,
) -> (r: Result<(), ScrcpyError>)
    requires
        old(runtime).valid(),
        call_requires(load, (config,)),
    ensures
        final(runtime).valid(),
        set_up_by(old(runtime)@, *config, load, final(runtime)@, r),
{
    match validate_yolo_config(config) {
        Ok(_) => {},
        Err(e) => {
            return Err(e);
        },
    }
    let loaded = load(config);
    runtime.init(config, loaded)
}

/// Sets up another model, which `load` loads and tries out.
pub fn update_yolo_config<F: Fn(&YoloConfig) -> Result<(), ScrcpyError>>(
    runtime: &mut YoloRuntime,
    config: &YoloConfig,
    load: F,
) -> (r: Result<(), ScrcpyError>)
    requires
        old(runtime).valid(),
        call_requires(load, (config,)),
    ensures
        final(runtime).valid(),
        set_up_by(old(runtime)@, *config, load, final(runtime)@, r),
{
    match validate_yolo_config(config) {
        Ok(_) => {},
        Err(e) => {
            return Err(e);
        },
    }
    let loaded = load(config);
    runtime.update_config(config, loaded)
}

/// Switches detection on or off for a session with a name.
pub fn set_yolo_enabled(runtime: &mut YoloRuntime, session_id: &str, enabled: bool) -> (r: Result<
    (),
    ScrcpyError,
>)
    requires
        old(runtime).valid(),
    ensures
        final(runtime).valid(),
        if crate::text::trim(session_id@).len() == 0 {
            &&& r matches Err(e)
            &&& e@ == crate::error::ErrorView::Other("session id is empty"@)
            &&& final(runtime)@ == old(runtime)@
        } else {
            r is Ok && final(runtime)@ == old(runtime)@.switched(session_id@, enabled)
        },
{
    if is_blank(session_id) {
        return Err(other_error("session id is empty"));
    }
    runtime.set_session_enabled(session_id, enabled);
    Ok(())
}

/// Forgets a session.
pub fn remove_session_state(runtime: &mut YoloRuntime, session_id: &str)
    requires
        old(runtime).valid(),
    ensures
        final(runtime).valid(),
        final(runtime)@ == old(runtime)@.switched(session_id@, false),
{
    runtime.remove_session(session_id);
}

/// Whether results can be asked for: of a session with a name.
pub fn subscribe_yolo_results(session_id: &str) -> (r: Result<(), ScrcpyError>)
    ensures
        if crate::text::trim(session_id@).len() == 0 {
            r matches Err(e) && e@ == crate::error::ErrorView::Other("session id is empty"@)
        } else {
            r is Ok
        },
{
    if is_blank(session_id) {
        Err(other_error("session id is empty"))
    } else {
        Ok(())
    }
}

/// The result that readers get: none where detection is off for its session.
pub fn publish_yolo_result<D>(runtime: &YoloRuntime, result: YoloFrameResult<D>) -> (r: Option<
    YoloFrameResult<D>,
>)
    requires
        runtime.valid(),
    ensures
        r == (if runtime@.enabled.contains(result.session_id@) {
            Some(result)
        } else {
            None
        }),
{
    if runtime.is_session_enabled(result.session_id.as_str()) {
        Some(result)
    } else {
        None
    }
}

/// Whether the reader of a session's results gets a result.
pub fn is_result_for<D>(result: &YoloFrameResult<D>, session_id: &str) -> (r: bool)
    ensures
        r == (result.session_id@ == session_id@),
{
    same_text(result.session_id.as_str(), session_id)
}

/// Pixels that a model looks at.
#[derive(Debug)]
pub struct InferFrame {
    pub session_id: String,
    pub frame_id: u64,
    pub width: u32,
    pub height: u32,
    pub stride: u32,
    pub bgra: Vec<u8>,
}

/// The pixels of a frame that waits. Those of a texture are read through `read_back`, by its
/// handle and size, and come row by row without gaps.
pub fn frame_of_task<F: Fn(i64, u32, u32) -> Result<Vec<u8>, ScrcpyError>>(
    task: InferTask,
    read_back: F,
) -> (r: Result<InferFrame, ScrcpyError>)
    requires
        forall|h: i64, x: u32, y: u32| call_requires(read_back, (h, x, y)),
    ensures
        match task {
            InferTask::CpuBgra { session_id, frame_id, width, height, stride, bgra } => r == Ok::<
                InferFrame,
                ScrcpyError,
            >(InferFrame { session_id, frame_id, width, height, stride, bgra }),
            InferTask::GpuShared { session_id, frame_id, handle, width, height } => match r {
                Ok(frame) => {
                    &&& call_ensures(
                        read_back,
                        (handle, width, height),
                        Ok::<Vec<u8>, ScrcpyError>(frame.bgra),
                    )
                    &&& frame == (InferFrame {
                        session_id,
                        frame_id,
                        width,
                        height,
                        stride: crate::callbacks::row_bytes(width),
                        bgra: frame.bgra,
                    })
                },
                Err(e) => call_ensures(
                    read_back,
                    (handle, width, height),
                    Err::<Vec<u8>, ScrcpyError>(e),
                ),
            },
        },
{
    match task {
        InferTask::CpuBgra { session_id, frame_id, width, height, stride, bgra } => Ok(
            InferFrame { session_id, frame_id, width, height, stride, bgra },
        ),
        InferTask::GpuShared { session_id, frame_id, handle, width, height } => {
            match read_back(handle, width, height) {
                Ok(bgra) => Ok(
                    InferFrame {
                        session_id,
                        frame_id,
                        width,
                        height,
                        stride: match width.checked_mul(4) {
                            Some(n) => n,
                            None => u32::MAX,
                        },
                        bgra,
                    },
                ),
                Err(e) => Err(e),
            }
        },
    }
}

/// A frame that waits for detection: pixels, or a texture whose pixels are still to be read.
#[derive(Debug)]
pub enum InferTask {
    CpuBgra {
        session_id: String,
        frame_id: u64,
        width: u32,
        height: u32,
        stride: u32,
        bgra: Vec<u8>,
    },
    GpuShared { session_id: String, frame_id: u64, handle: i64, width: u32, height: u32 },
}

/// Holds the newest frame that waits for detection. An older one gives way to it.
#[derive(Debug)]
pub struct LatestInferQueue<T> {
    latest: Option<T>,
    dropped_on_overwrite: u64,
}

impl<T> LatestInferQueue<T> {
    /// The frame that waits.
    pub closed spec fn waiting(&self) -> Option<T> {
        self.latest
    }

    /// How many frames gave way.
    pub closed spec fn dropped(&self) -> u64 {
        self.dropped_on_overwrite
    }

    /// No frame waits.
    pub fn new() -> (r: Self)
        ensures
            r.waiting() is None,
            r.dropped() == 0,
    {
        LatestInferQueue { latest: None, dropped_on_overwrite: 0 }
    }

    /// Puts the newest frame in, and says how many have given way so far.
    pub fn push_latest(&mut self, task: T) -> (r: u64)
        ensures
            final(self).waiting() == Some(task),
            final(self).dropped() == if old(self).waiting() is Some {
                crate::core_runtime::counted(old(self).dropped())
            } else {
                old(self).dropped()
            },
            r == final(self).dropped(),
    {
        if self.latest.is_some() && self.dropped_on_overwrite < u64::MAX {
            self.dropped_on_overwrite = self.dropped_on_overwrite + 1;
        }
        self.latest = Some(task);
        self.dropped_on_overwrite
    }

    /// Takes the frame out that waits, if one does.
    pub fn take(&mut self) -> (r: Option<T>)
        ensures
            r == old(self).waiting(),
            final(self).waiting() is None,
            final(self).dropped() == old(self).dropped(),
    {
        self.latest.take()
    }
}

/// The task for pixels of a session.
pub fn infer_and_publish_frame(
    session_id: &str,
    frame_id: u64,
    bgra: &[u8],
    width: u32,
    height: u32,
    stride: u32,
) -> (r: Result<InferTask, ScrcpyError>)
    ensures
        match r {
            Ok(task) => {
                &&& crate::text::trim(session_id@).len() > 0
                &&& width > 0 && height > 0 && stride > 0
                &&& task matches InferTask::CpuBgra {
                    session_id: s,
                    frame_id: f,
                    width: w,
                    height: h,
                    stride: t,
                    bgra: b,
                }
                &&& s@ == session_id@
                &&& f == frame_id
                &&& w == width
                &&& h == height
                &&& t == stride
                &&& b@ == bgra@
            },
            Err(e) => if crate::text::trim(session_id@).len() == 0 {
                e@ == crate::error::ErrorView::Other("session id is empty"@)
            } else {
                (width == 0 || height == 0 || stride == 0) && e@
                    == crate::error::ErrorView::Other("invalid frame geometry"@)
            },
        },
{
    if is_blank(session_id) {
        return Err(other_error("session id is empty"));
    }
    if width == 0 || height == 0 || stride == 0 {
        return Err(other_error("invalid frame geometry"));
    }
    Ok(
        InferTask::CpuBgra {
            session_id: session_id.to_owned(),
            frame_id,
            width,
            height,
            stride,
            bgra: to_vec(bgra),
        },
    )
}

/// The task for a texture of a session.
pub fn infer_and_publish_gpu_frame(
    session_id: &str,
    frame_id: u64,
    handle: i64,
    width: u32,
    height: u32,
) -> (r: Result<InferTask, ScrcpyError>)
    ensures
        match r {
            Ok(task) => {
                &&& crate::text::trim(session_id@).len() > 0
                &&& handle != 0 && width > 0 && height > 0
                &&& task matches InferTask::GpuShared {
                    session_id: s,
                    frame_id: f,
                    handle: t,
                    width: w,
                    height: h,
                }
                &&& s@ == session_id@
                &&& f == frame_id
                &&& t == handle
                &&& w == width
                &&& h == height
            },
            Err(e) => if crate::text::trim(session_id@).len() == 0 {
                e@ == crate::error::ErrorView::Other("session id is empty"@)
            } else {
                (handle == 0 || width == 0 || height == 0) && e@
                    == crate::error::ErrorView::Other("invalid gpu frame geometry"@)
            },
        },
{
    if is_blank(session_id) {
        return Err(other_error("session id is empty"));
    }
    if handle == 0 || width == 0 || height == 0 {
        return Err(other_error("invalid gpu frame geometry"));
    }
    Ok(
        InferTask::GpuShared {
            session_id: session_id.to_owned(),
            frame_id,
            handle,
            width,
            height,
        },
    )
}

/// Whether pixels are fit for a model: the frame has a size, and there are as many bytes as its
/// rows need.
pub fn check_frame(width: u32, height: u32, stride: u32, len: usize) -> (r: Result<(), ScrcpyError>)
    requires
        stride * height <= usize::MAX,
    ensures
        if width == 0 || height == 0 {
            r matches Err(e) && e@ == crate::error::ErrorView::Other("invalid frame size"@)
        } else if len < stride * height {
            r matches Err(e) && e@ == crate::error::ErrorView::Other(
                "bgra buffer too small: got="@ + crate::text::decimal(len as nat) + ", required="@
                    + crate::text::decimal((stride * height) as nat),
            )
        } else {
            r is Ok
        },
{
    if width == 0 || height == 0 {
        return Err(other_error("invalid frame size"));
    }
    let required: usize = (stride as usize) * (height as usize);
    if len < required {
        let mut text: String = concat("bgra buffer too small: got=", to_decimal(len as u64).as_str());
        text.append(", required=");
        text.append(to_decimal(required as u64).as_str());
        return Err(ScrcpyError::Other(text));
    }
    Ok(())
}

/// How the output of a model is cut into rows: how many rows, how long each is, and whether an
/// entry of a row is a step (and not a row) away from the next.
pub open spec fn row_layout(shape: Seq<usize>) -> Option<(nat, nat, bool)> {
    if shape.len() == 2 {
        Some((shape[0] as nat, shape[1] as nat, false))
    } else if shape.len() == 3 && shape[0] == 1 {
        if shape[2] >= shape[1] {
            Some((shape[1] as nat, shape[2] as nat, false))
        } else {
            Some((shape[2] as nat, shape[1] as nat, true))
        }
    } else {
        None
    }
}

/// Where the entry of a row stands in the output.
pub open spec fn entry_index(layout: (nat, nat, bool), i: int, j: int) -> int {
    if layout.2 {
        j * layout.0 + i
    } else {
        i * layout.1 + j
    }
}

/// The numbers of a list, in decimal, one after the other.
pub open spec fn shape_items(shape: Seq<usize>) -> Seq<char>
    decreases shape.len(),
{
    if shape.len() == 0 {
        Seq::empty()
    } else if shape.len() == 1 {
        crate::text::decimal(shape[0] as nat)
    } else {
        shape_items(shape.drop_last()) + ", "@ + crate::text::decimal(shape.last() as nat)
    }
}

fn shape_text(shape: &[usize]) -> (r: String)
    ensures
        r@ == "["@ + shape_items(shape@) + "]"@,
{
    let mut items: String = "".to_owned();
    let mut i: usize = 0;
    proof {
        reveal_strlit("");
        assert(items@ =~= Seq::empty());
        assert(shape@.take(0) =~= Seq::empty());
    }
    while i < shape.len()
        invariant
            i <= shape.len(),
            items@ == shape_items(shape@.take(i as int)),
        decreases shape.len() - i,
    {
        let ghost before = items@;
        if i > 0 {
            items.append(", ");
        }
        items.append(to_decimal(shape[i] as u64).as_str());
        proof {
            let now = shape@.take(i as int + 1);
            assert(now.drop_last() =~= shape@.take(i as int));
            assert(now.last() == shape@[i as int]);
            if i == 0 {
                assert(before =~= Seq::empty());
                assert(items@ =~= crate::text::decimal(now[0] as nat));
            }
        }
        i = i + 1;
    }
    assert(shape@.take(shape@.len() as int) =~= shape@);
    let mut out: String = concat("[", items.as_str());
    out.append("]");
    out
}

proof fn lemma_entry_in_range(rows: nat, row: nat, i: int, j: int)
    requires
        0 <= i < rows,
        0 <= j < row,
    ensures
        0 <= i * row + j < rows * row,
        0 <= i * row <= rows * row,
        0 <= j * rows + i < rows * row,
        0 <= j * rows <= rows * row,
{
    assert(i * row + j < rows * row) by (nonlinear_arith)
        requires
            0 <= i < rows,
            0 <= j < row,
    ;
    assert(j * rows + i < rows * row) by (nonlinear_arith)
        requires
            0 <= i < rows,
            0 <= j < row,
    ;
    assert(0 <= i * row) by (nonlinear_arith)
        requires
            0 <= i,
            0 <= row,
    ;
    assert(0 <= j * rows) by (nonlinear_arith)
        requires
            0 <= j,
            0 <= rows,
    ;
}

/// The rows of the output of a model, whose entries come in the order of their indices. A shape
/// with two numbers gives the rows as they are; one with three, of which the first is 1, gives
/// them as they are or turned, so that a row is the longer side.
pub fn output_rows<T: Copy>(shape: &[usize], data: &[T]) -> (r: Result<Vec<Vec<T>>, ScrcpyError>)
    requires
        row_layout(shape@) matches Some(l) ==> data@.len() == l.0 * l.1,
    ensures
        match r {
            Ok(rows) => {
                &&& row_layout(shape@) matches Some(l)
                &&& rows@.len() == l.0
                &&& forall|i: int| 0 <= i < l.0 ==> (#[trigger] rows@[i])@.len() == l.1
                &&& forall|i: int, j: int|
                    0 <= i < l.0 && 0 <= j < l.1 ==> (#[trigger] rows@[i]@[j]) == data@[entry_index(
                        l,
                        i,
                        j,
                    )]
            },
            Err(e) => row_layout(shape@) is None && e@ == crate::error::ErrorView::Other(
                "unsupported yolo output shape: "@ + ("["@ + shape_items(shape@) + "]"@),
            ),
        },
{
    let (count, len, turned): (usize, usize, bool) = if shape.len() == 2 {
        (shape[0], shape[1], false)
    } else if shape.len() == 3 && shape[0] == 1 {
        if shape[2] >= shape[1] {
            (shape[1], shape[2], false)
        } else {
            (shape[2], shape[1], true)
        }
    } else {
        return Err(
            ScrcpyError::Other(
                concat("unsupported yolo output shape: ", shape_text(shape).as_str()),
            ),
        );
    };
    let ghost l = (count as nat, len as nat, turned);
    let n: usize = data.len();
    let mut rows: Vec<Vec<T>> = Vec::new();
    let mut i: usize = 0;
    while i < count
        invariant
            n == data@.len(),
            l == (count as nat, len as nat, turned),
            n == l.0 * l.1,
            i <= count,
            rows@.len() == i,
            forall|a: int| 0 <= a < i ==> (#[trigger] rows@[a])@.len() == len,
            forall|a: int, b: int|
                0 <= a < i && 0 <= b < len ==> (#[trigger] rows@[a]@[b]) == data@[entry_index(
                    l,
                    a,
                    b,
                )],
        decreases count - i,
    {
        let mut row: Vec<T> = Vec::new();
        let mut j: usize = 0;
        while j < len
            invariant
                n == data@.len(),
                l == (count as nat, len as nat, turned),
                n == l.0 * l.1,
                i < count,
                j <= len,
                row@.len() == j,
                forall|b: int|
                    0 <= b < j ==> (#[trigger] row@[b]) == data@[entry_index(l, i as int, b)],
            decreases len - j,
        {
            proof {
                lemma_entry_in_range(l.0, l.1, i as int, j as int);
            }
            let at: usize = if turned {
                j * count + i
            } else {
                i * len + j
            };
            assert(at == entry_index(l, i as int, j as int));
            row.push(data[at]);
            j = j + 1;
        }
        rows.push(row);
        i = i + 1;
    }
    Ok(rows)
}

/// How the class of a detection is given: as a number of its own, or as the place of the best
/// score.
#[derive(Debug, Clone, Copy, PartialEq, Eq, Structural)]
pub enum RowClass {
    Number(u32),
    Index(u32),
}

/// What a row of the output of a model says of a detection: its score and its class.
#[derive(Debug, Clone, Copy, PartialEq, Eq, Structural)]
pub struct RowReading {
    pub score: u32,
    pub class: RowClass,
}

/// The place and the bits of the first of the largest scores, where one is above zero; else the
/// first place and zero.
pub open spec fn best_score(scores: Seq<u32>) -> (int, u32)
    decreases scores.len(),
{
    if scores.len() == 0 {
        (0, 0u32)
    } else {
        let (i, best) = best_score(scores.drop_last());
        if crate::float_bits::less(best, scores.last()) {
            (scores.len() - 1, scores.last())
        } else {
            (i, best)
        }
    }
}

/// What a row says. With six entries the last two are score and class; with more, each entry
/// behind the fourth is the score of a class.
pub open spec fn row_reading(row: Seq<u32>) -> RowReading {
    if row.len() == 6 {
        RowReading { score: row[4], class: RowClass::Number(row[5]) }
    } else {
        let (i, best) = best_score(row.skip(4));
        RowReading { score: best, class: RowClass::Index((i % 0x1_0000_0000) as u32) }
    }
}

/// Reads a row: nothing where it is too short, or where its score is below the threshold.
pub fn read_row(row: &[u32], confidence_threshold: u32) -> (r: Option<RowReading>)
    ensures
        r == (if row@.len() < 6 || crate::float_bits::less(
            row_reading(row@).score,
            confidence_threshold,
        ) {
            None
        } else {
            Some(row_reading(row@))
        }),
        row@.len() < 6 ==> r is None,
        row@.len() == 6 ==> (r is None <==> crate::float_bits::less(row@[4], confidence_threshold)),
        row@.len() > 6 ==> (r is None <==> crate::float_bits::less(0, confidence_threshold) && forall|
            k: int,
        |
            4 <= k < row@.len() ==> crate::float_bits::is_nan(#[trigger] row@[k])
                || crate::float_bits::less(row@[k], confidence_threshold)),
        row@.len() == 6 && r is Some ==> r->Some_0.score == row@[4] && r->Some_0.class
            == RowClass::Number(row@[5]),
        row@.len() > 6 && r is Some ==> forall|k: int|
            4 <= k < row@.len() ==> !crate::float_bits::less(r->Some_0.score, #[trigger] row@[k]),
{
    proof {
        if row@.len() > 6 {
            law_row_with_class_scores(row@);
            lemma_below_threshold(row@, confidence_threshold);
        }
    }
    let n: usize = row.len();
    if n < 6 {
        return None;
    }
    let reading: RowReading = if n == 6 {
        RowReading { score: row[4], class: RowClass::Number(row[5]) }
    } else {
        let ghost scores = row@.skip(4);
        let mut best_index: usize = 0;
        let mut best: u32 = 0;
        let mut i: usize = 4;
        assert(scores.take(0) =~= Seq::empty());
        while i < n
            invariant
                n == row@.len(),
                4 <= i <= n,
                scores == row@.skip(4),
                best_score(scores.take(i - 4)) == (best_index as int, best),
            decreases n - i,
        {
            proof {
                let now = scores.take(i - 4 + 1);
                assert(now.drop_last() =~= scores.take(i - 4));
                assert(now.last() == row@[i as int]);
            }
            if is_less(best, row[i]) {
                best = row[i];
                best_index = i - 4;
            }
            i = i + 1;
        }
        assert(scores.take(n - 4) =~= scores);
        RowReading {
            score: best,
            class: RowClass::Index((best_index as u64 % 0x1_0000_0000) as u32),
        }
    };
    if is_less(reading.score, confidence_threshold) {
        None
    } else {
        Some(reading)
    }
}

/// No score of a row is larger than the one that is read from it, where scores are numbers.
pub proof fn law_best_score_is_largest(scores: Seq<u32>, k: int)
    requires
        0 <= k < scores.len(),
    ensures
        !crate::float_bits::less(best_score(scores).1, scores[k]),
        !crate::float_bits::is_nan(best_score(scores).1),
        0 <= best_score(scores).0 < scores.len(),
    decreases scores.len(),
{
    let init = scores.drop_last();
    if init.len() > 0 {
        law_best_score_is_largest(init, if k < init.len() { k } else { 0 });
        if k < init.len() {
            assert(init[k] == scores[k]);
        }
    } else {
        assert(best_score(init) == (0int, 0u32));
    }
}

proof fn lemma_best_score_is_first(scores: Seq<u32>)
    ensures
        crate::float_bits::at_most(0, best_score(scores).1),
        best_score(scores).1 == 0 ==> best_score(scores).0 == 0,
        best_score(scores).1 != 0 ==> 0 <= best_score(scores).0 < scores.len()
            && scores[best_score(scores).0] == best_score(scores).1 && crate::float_bits::less(
            0,
            best_score(scores).1,
        ),
        forall|k: int|
            0 <= k < best_score(scores).0 ==> !crate::float_bits::at_most(
                best_score(scores).1,
                #[trigger] scores[k],
            ),
    decreases scores.len(),
{
    if scores.len() > 0 {
        let init = scores.drop_last();
        lemma_best_score_is_first(init);
        if crate::float_bits::less(best_score(init).1, scores.last()) {
            let b = best_score(scores).1;
            assert forall|k: int| 0 <= k < scores.len() - 1 implies !crate::float_bits::at_most(
                b,
                #[trigger] scores[k],
            ) by {
                law_best_score_is_largest(init, k);
                assert(init[k] == scores[k]);
            }
        } else {
            assert forall|k: int| 0 <= k < best_score(scores).0 implies !crate::float_bits::at_most(
                best_score(scores).1,
                #[trigger] scores[k],
            ) by {
                assert(init[k] == scores[k]);
            }
        }
    }
}

/// From a row of more than six entries the largest of the entries behind the fourth is read as the
/// score, or zero where none is above zero. Where the score is above zero, the class is the place
/// of the first such entry, counted from the fifth entry of the row on; else it is the first class.
pub proof fn law_row_with_class_scores(row: Seq<u32>)
    requires
        row.len() > 6,
    ensures
        forall|k: int|
            4 <= k < row.len() ==> !crate::float_bits::less(
                row_reading(row).score,
                #[trigger] row[k],
            ),
        !crate::float_bits::is_nan(row_reading(row).score),
        !crate::float_bits::less(row_reading(row).score, 0),
        crate::float_bits::less(0, row_reading(row).score) ==> exists|i: int|
            {
                &&& 4 <= i < row.len()
                &&& #[trigger] row[i] == row_reading(row).score
                &&& row_reading(row).class == RowClass::Index(((i - 4) % 0x1_0000_0000) as u32)
                &&& forall|k: int|
                    4 <= k < i ==> !crate::float_bits::at_most(
                        row_reading(row).score,
                        #[trigger] row[k],
                    )
            },
        !crate::float_bits::less(0, row_reading(row).score) ==> row_reading(row) == (RowReading {
            score: 0,
            class: RowClass::Index(0),
        }),
{
    let scores = row.skip(4);
    lemma_best_score_is_first(scores);
    let (c, best) = best_score(scores);
    assert forall|k: int| 4 <= k < row.len() implies !crate::float_bits::less(
        row_reading(row).score,
        #[trigger] row[k],
    ) by {
        law_best_score_is_largest(scores, k - 4);
        assert(scores[k - 4] == row[k]);
    }
    if best != 0 {
        let i = c + 4;
        assert(row[i] == scores[c]);
        assert forall|k: int| 4 <= k < i implies !crate::float_bits::at_most(best, #[trigger] row[k]) by {
            assert(scores[k - 4] == row[k]);
        }
    }
}

/// A row of six entries has its score in the fifth and its class in the sixth.
pub proof fn law_row_with_class(row: Seq<u32>)
    requires
        row.len() == 6,
    ensures
        row_reading(row) == (RowReading { score: row[4], class: RowClass::Number(row[5]) }),
{
}

proof fn lemma_below_threshold(row: Seq<u32>, threshold: u32)
    requires
        row.len() > 6,
    ensures
        crate::float_bits::less(row_reading(row).score, threshold) <==> crate::float_bits::less(
            0,
            threshold,
        ) && forall|k: int|
            4 <= k < row.len() ==> crate::float_bits::is_nan(#[trigger] row[k])
                || crate::float_bits::less(row[k], threshold),
{
    law_row_with_class_scores(row);
    let score = row_reading(row).score;
    if crate::float_bits::less(score, threshold) {
        assert forall|k: int| 4 <= k < row.len() implies crate::float_bits::is_nan(#[trigger] row[k])
            || crate::float_bits::less(row[k], threshold) by {
            assert(!crate::float_bits::less(score, row[k]));
        }
    }
}

/// A class that is given by place is small enough for its number: with up to 4294967300 entries in
/// a row, two places never share a number.
pub proof fn law_class_is_place(row: Seq<u32>, c: u32)
    requires
        6 < row.len() <= 0x1_0000_0004,
        row_reading(row).class == RowClass::Index(c),
        crate::float_bits::less(0, row_reading(row).score),
    ensures
        4 + c < row.len(),
        row[4 + c] == row_reading(row).score,
        forall|k: int|
            4 <= k < 4 + c ==> !crate::float_bits::at_most(row_reading(row).score, #[trigger] row[k]),
{
    law_row_with_class_scores(row);
    let i = choose|i: int|
        {
            &&& 4 <= i < row.len()
            &&& #[trigger] row[i] == row_reading(row).score
            &&& row_reading(row).class == RowClass::Index(((i - 4) % 0x1_0000_0000) as u32)
            &&& forall|k: int|
                4 <= k < i ==> !crate::float_bits::at_most(row_reading(row).score, #[trigger] row[k])
        };
    assert((i - 4) % 0x1_0000_0000 == i - 4);
}

/// Whether a box is large enough to be a detection: wider and higher than one pixel.
pub fn box_is_large_enough(width: u32, height: u32) -> (r: bool)
    ensures
        r == !(crate::float_bits::at_most(width, ONE_BITS) || crate::float_bits::at_most(
            height,
            ONE_BITS,
        )),
{
    !(is_at_most(width, ONE_BITS) || is_at_most(height, ONE_BITS))
}

/// A detection: its score, its class, and the box that it lies in.
#[derive(Debug, Clone)]
pub struct Candidate<B> {
    pub score: u32,
    pub class_id: u32,
    pub bbox: B,
}

/// Whether an order of detections, by their indices, puts the better first, and those of equal
/// score as they came.
pub open spec fn ranks<B>(found: Seq<Candidate<B>>, order: Seq<int>) -> bool {
    &&& order.len() == found.len()
    &&& forall|a: int| 0 <= a < order.len() ==> 0 <= #[trigger] order[a] < found.len()
    &&& forall|a: int, b: int|
        0 <= a < b < order.len() ==> before(found, #[trigger] order[a], #[trigger] order[b])
}

/// Whether a detection comes before another: it has the larger score, or the same and came first.
pub open spec fn before<B>(found: Seq<Candidate<B>>, a: int, b: int) -> bool {
    let x = crate::float_bits::rank(found[a].score);
    let y = crate::float_bits::rank(found[b].score);
    x > y || (x == y && a < b)
}

/// Puts detections in order, the better first.
pub fn rank_detections<B>(found: Vec<Candidate<B>>) -> (r: Vec<Candidate<B>>)
    requires
        forall|i: int|
            0 <= i < found@.len() ==> !crate::float_bits::is_nan((#[trigger] found@[i]).score),
    ensures
        exists|order: Seq<int>|
            #![trigger ranks(found@, order)]
            {
                &&& ranks(found@, order)
                &&& r@.len() == found@.len()
                &&& forall|a: int| 0 <= a < r@.len() ==> #[trigger] r@[a] == found@[order[a]]
            },
{
    let ghost all = found@;
    let mut rest: VecDeque<Candidate<B>> = queue_of(found);
    let mut out: Vec<Candidate<B>> = Vec::new();
    let mut order: Ghost<Seq<int>> = Ghost(Seq::empty());
    let mut done: Ghost<int> = Ghost(0);
    while rest.len() > 0
        invariant
            0 <= done@ <= all.len(),
            rest@ == all.skip(done@),
            forall|i: int|
                0 <= i < all.len() ==> !crate::float_bits::is_nan((#[trigger] all[i]).score),
            order@.len() == done@,
            out@.len() == done@,
            forall|a: int| 0 <= a < done@ ==> 0 <= #[trigger] order@[a] < done@,
            forall|a: int| 0 <= a < done@ ==> #[trigger] out@[a] == all[order@[a]],
            forall|a: int, b: int|
                0 <= a < b < done@ ==> before(all, #[trigger] order@[a], #[trigger] order@[b]),
        decreases rest.len(),
    {
        if let Some(det) = rest.pop_front() {
            assert(det == all[done@]);
            assert(rest@ =~= all.skip(done@ + 1));
            let mut k: usize = 0;
            while k < out.len() && !is_less(out[k].score, det.score)
                invariant
                    k <= out.len(),
                    forall|a: int|
                        0 <= a < k ==> !crate::float_bits::less(
                            (#[trigger] out@[a]).score,
                            det.score,
                        ),
                decreases out.len() - k,
            {
                k = k + 1;
            }
            let ghost earlier = order@;
            let ghost p = k as int;
            let ghost n = done@;
            proof {
                order@ = earlier.insert(p, n);
                let after = order@;
                assert forall|a: int, b: int| 0 <= a < b < n + 1 implies before(
                    all,
                    #[trigger] after[a],
                    #[trigger] after[b],
                ) by {
                    if a < p {
                        assert(after[a] == earlier[a]);
                        assert(out@[a] == all[earlier[a]]);
                    } else if a > p {
                        assert(after[a] == earlier[a - 1]);
                    }
                    if b < p {
                        assert(after[b] == earlier[b]);
                    } else if b > p {
                        assert(after[b] == earlier[b - 1]);
                        if a == p {
                            assert(out@[p] == all[earlier[p]]);
                            if b - 1 > p {
                                assert(before(all, earlier[p], earlier[b - 1]));
                            }
                        }
                    }
                }
                assert forall|a: int| 0 <= a < n + 1 implies 0 <= #[trigger] after[a] < n + 1 by {
                    if a < p {
                        assert(after[a] == earlier[a]);
                    } else if a > p {
                        assert(after[a] == earlier[a - 1]);
                    }
                }
            }
            let ghost held = out@;
            out.insert(k, det);
            proof {
                assert forall|a: int| 0 <= a < n + 1 implies #[trigger] out@[a] == all[order@[a]] by {
                    if a < p {
                        assert(out@[a] == held[a]);
                        assert(order@[a] == earlier[a]);
                    } else if a > p {
                        assert(out@[a] == held[a - 1]);
                        assert(order@[a] == earlier[a - 1]);
                    }
                }
                done@ = n + 1;
            }
        }
    }
    assert(ranks(all, order@));
    out
}

/// Whether a detection overlaps a better one of its class.
pub open spec fn beats<B, F: Fn(&B, &B) -> bool>(
    overlaps: F,
    better: Candidate<B>,
    det: Candidate<B>,
) -> bool {
    det.class_id == better.class_id && call_ensures(overlaps, (&det.bbox, &better.bbox), true)
}

/// Whether a detection is of another class than a better one, or does not overlap it.
pub open spec fn spares<B, F: Fn(&B, &B) -> bool>(
    overlaps: F,
    better: Candidate<B>,
    det: Candidate<B>,
) -> bool {
    det.class_id == better.class_id ==> call_ensures(overlaps, (&det.bbox, &better.bbox), false)
}

/// Whether a detection overlaps one before it that is selected.
pub open spec fn is_beaten<B, F: Fn(&B, &B) -> bool>(
    ranked: Seq<Candidate<B>>,
    overlaps: F,
    picks: Seq<int>,
    n: int,
) -> bool {
    exists|a: int|
        0 <= a < picks.len() && (#[trigger] picks[a]) < n && beats(
            overlaps,
            ranked[picks[a]],
            ranked[n],
        )
}

/// Whether a selection, by its indices in order, is what remains of ranked detections once each
/// that overlaps a better one of its class that remains has gone.
pub open spec fn survivors<B, F: Fn(&B, &B) -> bool>(
    ranked: Seq<Candidate<B>>,
    overlaps: F,
    picks: Seq<int>,
) -> bool {
    &&& forall|a: int| 0 <= a < picks.len() ==> 0 <= #[trigger] picks[a] < ranked.len()
    &&& forall|a: int, b: int| 0 <= a < b < picks.len() ==> #[trigger] picks[a] < #[trigger] picks[b]
    &&& forall|a: int, b: int|
        0 <= a < b < picks.len() ==> spares(
            overlaps,
            ranked[#[trigger] picks[a]],
            ranked[#[trigger] picks[b]],
        )
    &&& forall|n: int|
        0 <= n < ranked.len() && !picks.contains(n) ==> #[trigger] is_beaten(
            ranked,
            overlaps,
            picks,
            n,
        )
}

proof fn lemma_beaten<B, F: Fn(&B, &B) -> bool>(
    all: Seq<Candidate<B>>,
    overlaps: F,
    picks: Seq<int>,
    n: int,
    by: int,
)
    requires
        0 <= n < all.len(),
        survivors(all.take(n), overlaps, picks),
        0 <= by < picks.len(),
        beats(overlaps, all[picks[by]], all[n]),
    ensures
        survivors(all.take(n + 1), overlaps, picks),
{
    let seen = all.take(n);
    let now = all.take(n + 1);
    assert forall|m: int| 0 <= m < now.len() && !picks.contains(m) implies #[trigger] is_beaten(
        now,
        overlaps,
        picks,
        m,
    ) by {
        if m == n {
            assert(now[picks[by]] == all[picks[by]]);
        } else {
            assert(is_beaten(seen, overlaps, picks, m));
            let a = choose|a: int|
                0 <= a < picks.len() && (#[trigger] picks[a]) < m && beats(
                    overlaps,
                    seen[picks[a]],
                    seen[m],
                );
            assert(now[picks[a]] == seen[picks[a]]);
        }
    }
    assert forall|a: int, b: int| 0 <= a < b < picks.len() implies spares(
        overlaps,
        now[#[trigger] picks[a]],
        now[#[trigger] picks[b]],
    ) by {
        assert(seen[picks[a]] == now[picks[a]]);
        assert(seen[picks[b]] == now[picks[b]]);
    }
}

proof fn lemma_unbeaten<B, F: Fn(&B, &B) -> bool>(
    all: Seq<Candidate<B>>,
    overlaps: F,
    picks: Seq<int>,
    n: int,
)
    requires
        0 <= n < all.len(),
        survivors(all.take(n), overlaps, picks),
        forall|a: int|
            0 <= a < picks.len() ==> spares(overlaps, all[#[trigger] picks[a]], all[n]),
    ensures
        survivors(all.take(n + 1), overlaps, picks.push(n)),
{
    let seen = all.take(n);
    let now = all.take(n + 1);
    let after = picks.push(n);
    let last = picks.len() as int;
    assert(after[last] == n);
    assert forall|a: int| 0 <= a < after.len() implies 0 <= #[trigger] after[a] < now.len() by {
        if a < last {
            assert(after[a] == picks[a]);
        }
    }
    assert forall|a: int, b: int| 0 <= a < b < after.len() implies #[trigger] after[a]
        < #[trigger] after[b] by {
        assert(after[a] == picks[a]);
        if b < last {
            assert(after[b] == picks[b]);
        }
    }
    assert forall|a: int, b: int| 0 <= a < b < after.len() implies spares(
        overlaps,
        now[#[trigger] after[a]],
        now[#[trigger] after[b]],
    ) by {
        assert(after[a] == picks[a]);
        assert(now[picks[a]] == all[picks[a]]);
        if b < last {
            assert(after[b] == picks[b]);
            assert(seen[picks[a]] == now[picks[a]]);
            assert(seen[picks[b]] == now[picks[b]]);
        }
    }
    assert forall|m: int| 0 <= m < now.len() && !after.contains(m) implies #[trigger] is_beaten(
        now,
        overlaps,
        after,
        m,
    ) by {
        if picks.contains(m) {
            let z = choose|z: int| 0 <= z < picks.len() && picks[z] == m;
            assert(after[z] == m);
        }
        assert(m != n);
        assert(is_beaten(seen, overlaps, picks, m));
        let a = choose|a: int|
            0 <= a < picks.len() && (#[trigger] picks[a]) < m && beats(
                overlaps,
                seen[picks[a]],
                seen[m],
            );
        assert(after[a] == picks[a]);
        assert(now[picks[a]] == seen[picks[a]]);
    }
}

/// The first kept detection of its class that a detection overlaps.
fn first_better<B, F: Fn(&B, &B) -> bool>(
    kept: &Vec<Candidate<B>>,
    det: &Candidate<B>,
    overlaps: &F,
) -> (r: Option<usize>)
    requires
        forall|a: &B, b: &B| call_requires(*overlaps, (a, b)),
    ensures
        match r {
            Some(k) => k < kept@.len() && beats(*overlaps, kept@[k as int], *det),
            None => forall|a: int|
                0 <= a < kept@.len() ==> spares(*overlaps, #[trigger] kept@[a], *det),
        },
{
    let mut k: usize = 0;
    while k < kept.len()
        invariant
            k <= kept.len(),
            forall|a: &B, b: &B| call_requires(*overlaps, (a, b)),
            forall|a: int| 0 <= a < k ==> spares(*overlaps, #[trigger] kept@[a], *det),
        decreases kept.len() - k,
    {
        if kept[k].class_id == det.class_id && overlaps(&det.bbox, &kept[k].bbox) {
            return Some(k);
        }
        k = k + 1;
    }
    None
}

/// Keeps ranked detections: one that overlaps a better one of its class goes, and no more than
/// `max_detections` stay. `overlaps` is asked of the worse and the better.
pub fn suppress_overlaps<B, F: Fn(&B, &B) -> bool>(
    ranked: Vec<Candidate<B>>,
    overlaps: F,
    max_detections: u32,
) -> (r: Vec<Candidate<B>>)
    requires
        forall|a: &B, b: &B| call_requires(overlaps, (a, b)),
    ensures
        exists|picks: Seq<int>|
            #![trigger survivors(ranked@, overlaps, picks)]
            {
                &&& survivors(ranked@, overlaps, picks)
                &&& r@.len() == if picks.len() <= max_detections {
                    picks.len()
                } else {
                    max_detections as nat
                }
                &&& forall|a: int| 0 <= a < r@.len() ==> #[trigger] r@[a] == ranked@[picks[a]]
            },
{
    let ghost all = ranked@;
    let mut rest: VecDeque<Candidate<B>> = queue_of(ranked);
    let mut kept: Vec<Candidate<B>> = Vec::new();
    let mut picks: Ghost<Seq<int>> = Ghost(Seq::empty());
    let mut done: Ghost<int> = Ghost(0);
    assert(all.take(0) =~= Seq::empty());
    while rest.len() > 0
        invariant
            0 <= done@ <= all.len(),
            rest@ == all.skip(done@),
            forall|a: &B, b: &B| call_requires(overlaps, (a, b)),
            survivors(all.take(done@), overlaps, picks@),
            kept@.len() == picks@.len(),
            forall|a: int| 0 <= a < kept@.len() ==> #[trigger] kept@[a] == all[picks@[a]],
        decreases rest.len(),
    {
        if let Some(det) = rest.pop_front() {
            assert(det == all[done@]);
            assert(rest@ =~= all.skip(done@ + 1));
            match first_better(&kept, &det, &overlaps) {
                Some(k) => {
                    proof {
                        lemma_beaten(all, overlaps, picks@, done@, k as int);
                    }
                },
                None => {
                    proof {
                        assert forall|a: int| 0 <= a < picks@.len() implies spares(
                            overlaps,
                            all[#[trigger] picks@[a]],
                            all[done@],
                        ) by {
                            assert(kept@[a] == all[picks@[a]]);
                        }
                        lemma_unbeaten(all, overlaps, picks@, done@);
                        picks@ = picks@.push(done@);
                    }
                    kept.push(det);
                },
            }
            proof {
                done@ = done@ + 1;
            }
        }
    }
    assert(all.take(all.len() as int) =~= all);
    assert(survivors(all, overlaps, picks@));
    if kept.len() > max_detections as usize {
        kept.truncate(max_detections as usize);
    }
    kept
}

/// Whether a selection of detections, by their indices, is what is kept of them: the better of
/// overlapping ones of a class, in their order.
pub open spec fn selection<B, F: Fn(&B, &B) -> bool>(
    found: Seq<Candidate<B>>,
    overlaps: F,
    order: Seq<int>,
    picks: Seq<int>,
) -> bool {
    ranks(found, order) && survivors(in_order(found, order), overlaps, picks)
}

/// Detections in an order.
pub open spec fn in_order<B>(found: Seq<Candidate<B>>, order: Seq<int>) -> Seq<Candidate<B>> {
    Seq::new(order.len(), |a: int| found[order[a]])
}

/// Keeps the best of the detections in a frame.
pub fn apply_nms<B, F: Fn(&B, &B) -> bool>(
    found: Vec<Candidate<B>>,
    overlaps: F,
    max_detections: u32,
) -> (r: Vec<Candidate<B>>)
    requires
        forall|i: int|
            0 <= i < found@.len() ==> !crate::float_bits::is_nan((#[trigger] found@[i]).score),
        forall|a: &B, b: &B| call_requires(overlaps, (a, b)),
    ensures
        exists|order: Seq<int>, picks: Seq<int>|
            #![trigger selection(found@, overlaps, order, picks)]
            {
                &&& selection(found@, overlaps, order, picks)
                &&& r@.len() == if picks.len() <= max_detections {
                    picks.len()
                } else {
                    max_detections as nat
                }
                &&& forall|a: int|
                    0 <= a < r@.len() ==> #[trigger] r@[a] == found@[order[picks[a]]]
            },
{
    let ghost all = found@;
    let ranked = rank_detections(found);
    let ghost order = choose|order: Seq<int>|
        #![trigger ranks(all, order)]
        {
            &&& ranks(all, order)
            &&& ranked@.len() == all.len()
            &&& forall|a: int| 0 <= a < ranked@.len() ==> #[trigger] ranked@[a] == all[order[a]]
        };
    let ghost lined = ranked@;
    assert(lined =~= in_order(all, order));
    let r = suppress_overlaps(ranked, overlaps, max_detections);
    proof {
        let picks = choose|picks: Seq<int>|
            #![trigger survivors(lined, overlaps, picks)]
            {
                &&& survivors(lined, overlaps, picks)
                &&& r@.len() == if picks.len() <= max_detections {
                    picks.len()
                } else {
                    max_detections as nat
                }
                &&& forall|a: int| 0 <= a < r@.len() ==> #[trigger] r@[a] == lined[picks[a]]
            };
        assert(selection(all, overlaps, order, picks));
        assert forall|a: int| 0 <= a < r@.len() implies #[trigger] r@[a] == all[order[picks[a]]] by {
            assert(r@[a] == lined[picks[a]]);
            assert(0 <= picks[a] < lined.len());
        }
    }
    r
}

/// Whether all scores are numbers.
pub fn scores_are_numbers<B>(found: &Vec<Candidate<B>>) -> (r: bool)
    ensures
        r == (forall|i: int|
            0 <= i < found@.len() ==> !crate::float_bits::is_nan((#[trigger] found@[i]).score)),
{
    let mut i: usize = 0;
    while i < found.len()
        invariant
            i <= found.len(),
            forall|j: int|
                0 <= j < i ==> !crate::float_bits::is_nan((#[trigger] found@[j]).score),
        decreases found.len() - i,
    {
        if bits_are_nan(found[i].score) {
            return false;
        }
        i = i + 1;
    }
    true
}

/// The best detection always stays.
pub proof fn law_best_detection_stays<B, F: Fn(&B, &B) -> bool>(
    ranked: Seq<Candidate<B>>,
    overlaps: F,
    picks: Seq<int>,
)
    requires
        ranked.len() > 0,
        survivors(ranked, overlaps, picks),
    ensures
        picks.len() > 0,
        picks[0] == 0,
{
    if !picks.contains(0) {
        assert(is_beaten(ranked, overlaps, picks, 0));
        let a = choose|a: int|
            0 <= a < picks.len() && (#[trigger] picks[a]) < 0 && beats(
                overlaps,
                ranked[picks[a]],
                ranked[0],
            );
        assert(0 <= picks[a]);
    } else {
        let z = choose|z: int| 0 <= z < picks.len() && picks[z] == 0;
        if z > 0 {
            assert(picks[0] < picks[z]);
        }
    }
}

/// A set-up is fit for use exactly when it names a model, has a size, has thresholds from zero to
/// one, and asks for at least one detection and one frame a second. A threshold is in that range
/// exactly when its bits are no larger than those of one, or are those of zero with a sign.
pub proof fn law_fit_configs(c: YoloConfig)
    ensures
        config_fault(c) is None <==> {
            &&& crate::text::trim(c.model_path@).len() > 0
            &&& c.input_width > 0 && c.input_height > 0
            &&& c.confidence_threshold <= 0x3F80_0000 || c.confidence_threshold == 0x8000_0000
            &&& c.iou_threshold <= 0x3F80_0000 || c.iou_threshold == 0x8000_0000
            &&& c.max_detections > 0
            &&& c.max_infer_fps > 0
        },
        config_fault(c) == Some("yolo model path is empty"@) <== crate::text::trim(
            c.model_path@,
        ).len() == 0,
        config_fault(c) == Some("yolo input size is invalid"@) <== crate::text::trim(
            c.model_path@,
        ).len() > 0 && (c.input_width == 0 || c.input_height == 0),
{
}

/// A threshold out of range is named where all in front of it is right, and so are the counts.
pub proof fn law_first_fault_is_named(c: YoloConfig)
    requires
        crate::text::trim(c.model_path@).len() > 0,
        c.input_width > 0,
        c.input_height > 0,
    ensures
        ({
            let confident = c.confidence_threshold <= 0x3F80_0000 || c.confidence_threshold
                == 0x8000_0000;
            let overlapping = c.iou_threshold <= 0x3F80_0000 || c.iou_threshold == 0x8000_0000;
            &&& !confident ==> config_fault(c) == Some("confidence threshold out of range"@)
            &&& confident && !overlapping ==> config_fault(c) == Some("iou threshold out of range"@)
            &&& confident && overlapping && c.max_detections == 0 ==> config_fault(c) == Some(
                "max detections must be > 0"@,
            )
            &&& confident && overlapping && c.max_detections > 0 && c.max_infer_fps == 0
                ==> config_fault(c) == Some("max infer fps must be > 0"@)
        }),
{
}

/// The interval of a rate is the shortest whole number of milliseconds with which so many intervals
/// fill a second. A rate of zero counts as one frame a second.
pub proof fn law_interval_is_shortest(fps: u32)
    ensures
        fps >= 1 ==> fps * interval_ms(fps) >= 1000,
        fps >= 1 ==> fps * (interval_ms(fps) - 1) < 1000,
        1 <= interval_ms(fps) <= 1000,
        interval_ms(0) == 1000,
        interval_ms(1) == 1000,
        DEFAULT_INFER_FPS == 15,
{
    if fps >= 1 {
        lemma_interval(fps);
    }
}

/// The first frame is looked at, and then each that comes at least the interval after the last one
/// that was, and no other. Every frame counts, and those that are not looked at count as skipped as
/// well.
pub proof fn law_which_frames_are_looked_at(p: YoloInferPipeline, now: u64)
    requires
        p.total_frames < u64::MAX,
        p.skipped_by_rate_limit < u64::MAX,
    ensures
        p.last_infer_at is None ==> p.admits(now),
        p.last_infer_at is Some ==> (p.admits(now) <==> now - p.last_infer_at->Some_0 >= 1_000_000
            * p.min_interval_ms),
        p.after(now).total_frames == p.total_frames + 1,
        p.admits(now) ==> p.after(now).last_infer_at == Some(now) && p.after(
            now,
        ).skipped_by_rate_limit == p.skipped_by_rate_limit,
        !p.admits(now) ==> p.after(now).last_infer_at == p.last_infer_at && p.after(
            now,
        ).skipped_by_rate_limit == p.skipped_by_rate_limit + 1,
        p.after(now).min_interval_ms == p.min_interval_ms,
{
}

/// Another rate changes the interval alone, of every session.
pub proof fn law_rate_changes_interval_alone(
    v: YoloView,
    p: YoloInferPipeline,
    fps: u32,
    id: Seq<char>,
)
    requires
        v.pipelines.dom().contains(id),
    ensures
        p.at_rate(fps).min_interval_ms == interval_ms(fps),
        p.at_rate(fps).last_infer_at == p.last_infer_at,
        p.at_rate(fps).total_frames == p.total_frames,
        p.at_rate(fps).skipped_by_rate_limit == p.skipped_by_rate_limit,
        v.at_rate(fps).fps == Some(fps),
        v.at_rate(fps).enabled == v.enabled,
        v.at_rate(fps).pipelines.dom() == v.pipelines.dom(),
        v.at_rate(fps).pipelines[id] == v.pipelines[id].at_rate(fps),
{
    assert(v.at_rate(fps).pipelines.dom() =~= v.pipelines.dom());
}

/// Detection is on for a session exactly when it was last switched on; other sessions stay as they
/// are. Switching it on again keeps what is known of the session, and switching it off forgets it: a
/// session that is new starts without frames, at the rate of the model, or at 15 frames a second
/// where there is none.
pub proof fn law_detection_is_switched(v: YoloView, id: Seq<char>, other: Seq<char>)
    requires
        v.valid(),
        other != id,
    ensures
        v.switched(id, true).enabled.contains(id),
        !v.switched(id, false).enabled.contains(id),
        v.switched(id, true).enabled.contains(other) == v.enabled.contains(other),
        v.switched(id, false).enabled.contains(other) == v.enabled.contains(other),
        v.switched(id, true).fps == v.fps && v.switched(id, false).fps == v.fps,
        v.pipelines.dom().contains(other) ==> v.switched(id, true).pipelines[other]
            == v.pipelines[other] && v.switched(id, false).pipelines[other] == v.pipelines[other],
        !v.switched(id, false).pipelines.dom().contains(id),
        v.switched(id, true).pipelines.dom().contains(id),
        v.pipelines.dom().contains(id) ==> v.switched(id, true).pipelines[id] == v.pipelines[id],
        !v.pipelines.dom().contains(id) ==> v.switched(id, true).pipelines[id] == (
        YoloInferPipeline {
            min_interval_ms: interval_ms(
                if v.fps is Some {
                    v.fps->Some_0
                } else {
                    15
                },
            ),
            last_infer_at: None,
            total_frames: 0,
            skipped_by_rate_limit: 0,
        }),
{
}

/// Output of two dimensions is cut into rows as it lies. Output of three, of which the first is one,
/// is too, where its rows are at least as long as there are rows; else it is turned, so that a row
/// is what was a column. Any other shape is not understood.
pub proof fn law_row_layout(shape: Seq<usize>, i: int, j: int)
    ensures
        shape.len() == 2 ==> row_layout(shape) is Some && {
            let l = row_layout(shape)->Some_0;
            l.0 == shape[0] && l.1 == shape[1] && entry_index(l, i, j) == i * shape[1] + j
        },
        shape.len() == 3 && shape[0] == 1 && shape[2] >= shape[1] ==> row_layout(shape) is Some && {
            let l = row_layout(shape)->Some_0;
            l.0 == shape[1] && l.1 == shape[2] && entry_index(l, i, j) == i * shape[2] + j
        },
        shape.len() == 3 && shape[0] == 1 && shape[2] < shape[1] ==> row_layout(shape) is Some && {
            let l = row_layout(shape)->Some_0;
            l.0 == shape[2] && l.1 == shape[1] && entry_index(l, i, j) == j * shape[2] + i
        },
        shape.len() == 3 && shape[0] == 1 ==> row_layout(shape)->Some_0.1
            >= row_layout(shape)->Some_0.0,
        row_layout(shape) is None <==> !(shape.len() == 2 || (shape.len() == 3 && shape[0] == 1)),
{
}

/// Each entry of a row has a place of its own in the output.
pub proof fn law_entries_have_their_places(
    layout: (nat, nat, bool),
    i: int,
    j: int,
    k: int,
    m: int,
)
    requires
        0 <= i < layout.0,
        0 <= j < layout.1,
        0 <= k < layout.0,
        0 <= m < layout.1,
    ensures
        0 <= entry_index(layout, i, j) < layout.0 * layout.1,
        entry_index(layout, i, j) == entry_index(layout, k, m) ==> i == k && j == m,
{
    let (rows, row, turned) = layout;
    lemma_entry_in_range(rows, row, i, j);
    if entry_index(layout, i, j) == entry_index(layout, k, m) {
        if turned {
            lemma_same_place(rows as int, j, i, m, k);
        } else {
            lemma_same_place(row as int, i, j, k, m);
        }
    }
}

proof fn lemma_same_place(n: int, a: int, b: int, c: int, d: int)
    requires
        0 <= b < n,
        0 <= d < n,
        a * n + b == c * n + d,
    ensures
        a == c,
        b == d,
{
    assert(a == c) by (nonlinear_arith)
        requires
            0 <= b < n,
            0 <= d < n,
            a * n + b == c * n + d,
    ;
}

/// An order of detections names each once. No detection comes before one with a larger score, and
/// of two with the same score the one that came first does.
pub proof fn law_ranked_by_score<B>(found: Seq<Candidate<B>>, order: Seq<int>, a: int, b: int)
    requires
        ranks(found, order),
        0 <= a < b < order.len(),
    ensures
        order[a] != order[b],
        !crate::float_bits::less(found[order[a]].score, found[order[b]].score),
        found[order[a]].score == found[order[b]].score ==> order[a] < order[b],
{
    assert(before(found, order[a], order[b]));
}

/// Of two detections of one class that stay, the later one was found not to overlap the earlier.
/// One that goes overlaps an earlier one of its class that stays.
pub proof fn law_suppressed_by_kept<B, F: Fn(&B, &B) -> bool>(
    ranked: Seq<Candidate<B>>,
    overlaps: F,
    picks: Seq<int>,
    a: int,
    b: int,
    n: int,
)
    requires
        survivors(ranked, overlaps, picks),
        0 <= a < b < picks.len(),
        0 <= n < ranked.len(),
    ensures
        ranked[picks[a]].class_id == ranked[picks[b]].class_id ==> call_ensures(
            overlaps,
            (&ranked[picks[b]].bbox, &ranked[picks[a]].bbox),
            false,
        ),
        !picks.contains(n) ==> exists|k: int|
            {
                &&& 0 <= k < picks.len()
                &&& #[trigger] picks[k] < n
                &&& ranked[picks[k]].class_id == ranked[n].class_id
                &&& call_ensures(overlaps, (&ranked[n].bbox, &ranked[picks[k]].bbox), true)
            },
{
    assert(spares(overlaps, ranked[picks[a]], ranked[picks[b]]));
    if !picks.contains(n) {
        assert(is_beaten(ranked, overlaps, picks, n));
    }
}

/// A detection that is alone in its class stays, and so does each one that nothing overlaps.
pub proof fn law_lone_detections_stay<B, F: Fn(&B, &B) -> bool>(
    ranked: Seq<Candidate<B>>,
    overlaps: F,
    picks: Seq<int>,
    n: int,
)
    requires
        survivors(ranked, overlaps, picks),
        0 <= n < ranked.len(),
        forall|m: int|
            0 <= m < n ==> (#[trigger] ranked[m]).class_id != ranked[n].class_id || !call_ensures(
                overlaps,
                (&ranked[n].bbox, &ranked[m].bbox),
                true,
            ),
    ensures
        picks.contains(n),
{
    if !picks.contains(n) {
        assert(is_beaten(ranked, overlaps, picks, n));
        let a = choose|a: int|
            0 <= a < picks.len() && (#[trigger] picks[a]) < n && beats(
                overlaps,
                ranked[picks[a]],
                ranked[n],
            );
        assert(0 <= picks[a] < ranked.len());
        assert(ranked[picks[a]].class_id != ranked[n].class_id || !call_ensures(
            overlaps,
            (&ranked[n].bbox, &ranked[picks[a]].bbox),
            true,
        ));
    }
}

/// What reading a row gives. A row of less than six entries gives nothing. One of six gives its
/// fifth as the score and its sixth as the class. From a longer one comes the largest entry behind
/// the fourth, and the place of the first such entry as the class, where it is above zero. A score
/// below the threshold gives nothing.
pub proof fn law_read_row(row: &[u32], threshold: u32, r: Option<RowReading>)
    requires
        call_ensures(read_row, (row, threshold), r),
    ensures
        row@.len() < 6 ==> r is None,
        row@.len() == 6 ==> (r is Some <==> !crate::float_bits::less(row@[4], threshold)),
        row@.len() == 6 ==> (r matches Some(x) ==> x.score == row@[4] && x.class == RowClass::Number(
            row@[5],
        )),
        r matches Some(x) ==> !crate::float_bits::less(x.score, threshold),
        row@.len() > 6 && r is None ==> forall|k: int|
            4 <= k < row@.len() ==> crate::float_bits::is_nan(#[trigger] row@[k])
                || crate::float_bits::less(row@[k], threshold),
        row@.len() > 6 && r is Some ==> forall|k: int|
            4 <= k < row@.len() ==> !crate::float_bits::less(r->Some_0.score, #[trigger] row@[k]),
        row@.len() > 6 && r is Some && crate::float_bits::less(0, r->Some_0.score) ==> exists|i: int|
            {
                &&& 4 <= i < row@.len()
                &&& #[trigger] row@[i] == r->Some_0.score
                &&& r->Some_0.class == RowClass::Index(((i - 4) % 0x1_0000_0000) as u32)
                &&& forall|k: int|
                    4 <= k < i ==> !crate::float_bits::at_most(r->Some_0.score, #[trigger] row@[k])
            },
{
    if row@.len() > 6 {
        law_row_with_class_scores(row@);
    }
}

/// A box counts exactly when both its sides are above one.
pub proof fn law_large_boxes(width: u32, height: u32, r: bool)
    requires
        call_ensures(box_is_large_enough, (width, height), r),
        !crate::float_bits::is_nan(width),
        !crate::float_bits::is_nan(height),
    ensures
        r <==> crate::float_bits::less(0x3F80_0000, width) && crate::float_bits::less(
            0x3F80_0000,
            height,
        ),
{
}

/// Pixels are fit for a model exactly when the frame has a size and its rows are all there.
pub proof fn law_frames_fit_for_models(
    width: u32,
    height: u32,
    stride: u32,
    len: usize,
    r: Result<(), ScrcpyError>,
)
    requires
        call_ensures(check_frame, (width, height, stride, len), r),
    ensures
        r is Ok <==> width > 0 && height > 0 && len >= stride * height,
{
}

/// An order of detections names only detections, each of them.
pub proof fn law_ranked_detections<B>(found: Seq<Candidate<B>>, order: Seq<int>, a: int)
    requires
        ranks(found, order),
        0 <= a < order.len(),
    ensures
        order.len() == found.len(),
        0 <= order[a] < found.len(),
{
}

/// The numbers of a shape are spelled in decimal, with a comma and a space between neighbours.
pub proof fn law_shape_items(shape: Seq<usize>, n: usize)
    ensures
        shape_items(Seq::empty()).len() == 0,
        shape_items(seq![n]) == crate::text::decimal(n as nat),
        shape.len() > 0 ==> shape_items(shape.push(n)) == shape_items(shape) + seq![',', ' ']
            + crate::text::decimal(n as nat),
{
    reveal_strlit(", ");
    assert(", "@ =~= seq![',', ' ']);
    if shape.len() > 0 {
        assert(shape.push(n).drop_last() =~= shape);
    }
}

/// A set-up that is not fit for use is refused and not loaded; one that cannot be loaded is refused
/// as well. Neither changes anything. One that is loaded counts from then on.
pub proof fn law_models_are_set_up<F: Fn(&YoloConfig) -> Result<(), ScrcpyError>>(
    before: YoloView,
    config: YoloConfig,
    load: F,
    after: YoloView,
    r: Result<(), ScrcpyError>,
)
    requires
        set_up_by(before, config, load, after, r),
    ensures
        r is Err ==> after == before,
        r is Ok ==> config_fault(config) is None && call_ensures(load, (&config,), r),
        r is Ok ==> after.fps == Some(config.max_infer_fps) && after.enabled == before.enabled,
        config_fault(config) matches Some(text) ==> (r matches Err(e) && e@
            == crate::error::ErrorView::Other(text)),
        config_fault(config) is None ==> call_ensures(load, (&config,), r),
{
}

} // verus!
