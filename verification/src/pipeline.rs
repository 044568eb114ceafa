//! The decode pipeline: from packets to frames, with resynchronisation after errors.

use std::collections::VecDeque;

use vstd::prelude::*;

use crate::backend::{DecoderOutputMode, DecoderPreference};
use crate::bounded::{push_bounded, queue_of};
use crate::error::{other_error, ScrcpyError};
use crate::h264::{H264AuMerger, MergedAu};
use crate::text::{has_text, to_ascii_lowercase};
use crate::wire::{copy_of, extend};

verus! {

/// How a decode pipeline is set up. With `drop_nal_on_full` a full input queue drops what comes;
/// without it the sender waits.
#[derive(Debug, Clone, Copy, PartialEq, Eq, Structural)]
pub struct PipelineConfig {
    pub frame_queue_capacity: usize,
    pub nal_queue_capacity: usize,
    pub decoder_preference: DecoderPreference,
    pub drop_nal_on_full: bool,
    pub decoder_output_mode: DecoderOutputMode,
}

impl Default for PipelineConfig {
    fn default() -> (r: Self)
        ensures
            r == (PipelineConfig {
                frame_queue_capacity: 3,
                nal_queue_capacity: 128,
                decoder_preference: DecoderPreference::PreferHardware,
                drop_nal_on_full: false,
                decoder_output_mode: DecoderOutputMode::GpuShared,
            }),
    {
        PipelineConfig {
            frame_queue_capacity: 3,
            nal_queue_capacity: 128,
            decoder_preference: DecoderPreference::PreferHardware,
            drop_nal_on_full: false,
            decoder_output_mode: DecoderOutputMode::GpuShared,
        }
    }
}

/// What a pipeline has done. `need_idr_signals` counts decode errors, `resync_signals` the key
/// frames on which decoding started again.
#[derive(Debug, Clone, Copy, PartialEq, Eq, Structural)]
pub struct PipelineStats {
    pub decoded_frames: u64,
    pub uploaded_frames: u64,
    pub dropped_frames: u64,
    pub dropped_nals: u64,
    pub last_decode_ms: u64,
    pub last_upload_ms: u64,
    pub need_idr_signals: u64,
    pub resync_signals: u64,
}

impl Default for PipelineStats {
    fn default() -> (r: Self)
        ensures
            r == PipelineStats::spec_zero(),
    {
        PipelineStats {
            decoded_frames: 0,
            uploaded_frames: 0,
            dropped_frames: 0,
            dropped_nals: 0,
            last_decode_ms: 0,
            last_upload_ms: 0,
            need_idr_signals: 0,
            resync_signals: 0,
        }
    }
}

impl PipelineStats {
    /// Statistics before anything has happened.
    pub open spec fn spec_zero() -> PipelineStats {
        PipelineStats {
            decoded_frames: 0,
            uploaded_frames: 0,
            dropped_frames: 0,
            dropped_nals: 0,
            last_decode_ms: 0,
            last_upload_ms: 0,
            need_idr_signals: 0,
            resync_signals: 0,
        }
    }
}

/// A change of the video that a pipeline announces.
#[derive(Debug, Clone, Copy, PartialEq, Eq, Structural)]
pub enum PipelineEvent {
    ReconfigureBegin { generation: u64, width: u32, height: u32 },
    ResolutionChanged { generation: u64, width: u32, height: u32 },
    ReconfigureReady { generation: u64, width: u32, height: u32 },
}

impl PipelineEvent {
    /// The generation that an event speaks of.
    pub open spec fn spec_generation(self) -> u64 {
        match self {
            PipelineEvent::ReconfigureBegin { generation, .. } => generation,
            PipelineEvent::ResolutionChanged { generation, .. } => generation,
            PipelineEvent::ReconfigureReady { generation, .. } => generation,
        }
    }

    /// The generation that an event speaks of.
    pub fn generation(&self) -> (r: u64)
        ensures
            r == self.spec_generation(),
    {
        match self {
            PipelineEvent::ReconfigureBegin { generation, .. } => *generation,
            PipelineEvent::ResolutionChanged { generation, .. } => *generation,
            PipelineEvent::ReconfigureReady { generation, .. } => *generation,
        }
    }
}

/// A packet as the device sent it: data, and whether it is configuration or a key frame.
pub struct FramedInputPacket {
    pub data: Vec<u8>,
    pub is_config: bool,
    pub is_keyframe: bool,
}

/// What goes into a pipeline: a single NAL unit without a start code, or a packet.
pub enum VideoInput {
    RawNal(Vec<u8>),
    FramedPacket(FramedInputPacket),
}

/// A packet for the decoder, as a mathematical value.
#[verifier::ext_equal]
pub struct PacketView {
    pub packet: Seq<u8>,
    pub is_idr: bool,
    pub is_config: bool,
}

impl View for MergedAu {
    type V = PacketView;

    open spec fn view(&self) -> PacketView {
        PacketView { packet: self.packet@, is_idr: self.is_idr, is_config: self.is_config }
    }
}

/// An optional packet for the decoder, as a mathematical value.
pub open spec fn packet_option(r: Option<MergedAu>) -> Option<PacketView> {
    match r {
        Some(au) => Some(au@),
        None => None,
    }
}

/// Puts the last configuration packet in front of the first media packet behind it.
pub struct FramedPacketMerger {
    config: Option<Vec<u8>>,
}

impl FramedPacketMerger {
    /// The configuration that waits for a media packet.
    pub closed spec fn waiting(&self) -> Option<Seq<u8>> {
        crate::h264::nal_option(self.config)
    }

    /// A merger without configuration.
    pub fn new() -> (r: Self)
        ensures
            r.waiting() is None,
    {
        FramedPacketMerger { config: None }
    }

    /// Takes in a packet and gives out the one for the decoder. A configuration packet goes on
    /// as it is and is kept. A media packet goes on behind the configuration that was kept, which
    /// is then used up.
    pub fn merge(&mut self, pkt: FramedInputPacket) -> (r: Option<MergedAu>)
        ensures
            final(self).waiting() == config_after(pkt),
            packet_option(r) == Some(framed_packet(old(self).waiting(), pkt)),
    {
        if pkt.is_config {
            self.config = Some(copy_of(&pkt.data));
            return Some(MergedAu { packet: pkt.data, is_idr: false, is_config: true });
        }
        let mut out: Vec<u8> = pkt.data;
        if let Some(cfg) = self.config.take() {
            let mut merged: Vec<u8> = cfg;
            extend(&mut merged, out.as_slice());
            out = merged;
        }
        assert(out@ =~= framed_packet(old(self).waiting(), pkt).packet);
        Some(MergedAu { packet: out, is_idr: pkt.is_keyframe, is_config: false })
    }
}

/// The configuration that waits after a packet.
pub open spec fn config_after(pkt: FramedInputPacket) -> Option<Seq<u8>> {
    if pkt.is_config {
        Some(pkt.data@)
    } else {
        None
    }
}

/// The packet for the decoder.
pub open spec fn framed_packet(waiting: Option<Seq<u8>>, pkt: FramedInputPacket) -> PacketView {
    if pkt.is_config {
        PacketView { packet: pkt.data@, is_idr: false, is_config: true }
    } else {
        PacketView {
            packet: match waiting {
                Some(c) => c + pkt.data@,
                None => pkt.data@,
            },
            is_idr: pkt.is_keyframe,
            is_config: false,
        }
    }
}

/// A configuration packet goes in front of exactly one media packet: the next one.
pub proof fn law_config_prepended_once(
    waiting: Option<Seq<u8>>,
    config: FramedInputPacket,
    media: FramedInputPacket,
    later: FramedInputPacket,
)
    requires
        config.is_config,
        !media.is_config,
        !later.is_config,
    ensures
        ({
            let a = config_after(config);
            let b = config_after(media);
            &&& framed_packet(waiting, config).packet == config.data@
            &&& framed_packet(a, media).packet == config.data@ + media.data@
            &&& framed_packet(b, later).packet == later.data@
        }),
{
}

/// A queue of frames that keeps the newest. Once closed it takes nothing in.
pub struct LatestFrameQueue<T> {
    closed: bool,
    queue: VecDeque<T>,
    capacity: usize,
}

/// What a consumer does next: use a frame, stop waiting, or wait on.
pub enum PopStep<T> {
    Item(T),
    Done,
    Wait,
}

impl<T> LatestFrameQueue<T> {
    /// The frames in the queue, oldest first.
    pub closed spec fn items(&self) -> Seq<T> {
        self.queue@
    }

    /// How many frames the queue holds at most.
    pub closed spec fn limit(&self) -> usize {
        self.capacity
    }

    /// Whether the queue is closed.
    pub closed spec fn is_closed(&self) -> bool {
        self.closed
    }

    /// The queue holds at most as many frames as it may, which is at least one.
    pub open spec fn valid(&self) -> bool {
        &&& self.limit() >= 1
        &&& self.items().len() <= self.limit()
    }

    /// An empty queue for `capacity` frames, but at least one.
    pub fn new(capacity: usize) -> (r: Self)
        ensures
            r.valid(),
            r.items() == Seq::<T>::empty(),
            r.limit() == if capacity == 0 {
                1
            } else {
                capacity
            },
            !r.is_closed(),
    {
        LatestFrameQueue {
            closed: false,
            queue: VecDeque::new(),
            capacity: if capacity == 0 {
                1
            } else {
                capacity
            },
        }
    }

    /// Puts a frame in. Where the queue is full, the oldest frame makes room; the result says
    /// whether one did. A closed queue drops the new frame.
    pub fn push_latest(&mut self, item: T) -> (r: bool)
        requires
            old(self).valid(),
        ensures
            final(self).valid(),
            final(self).limit() == old(self).limit(),
            final(self).is_closed() == old(self).is_closed(),
            final(self).items() == queue_after(
                old(self).items(),
                old(self).is_closed(),
                old(self).limit() as nat,
                item,
            ),
            r == (!old(self).is_closed() && old(self).items().len() == old(self).limit()),
    {
        if self.closed {
            return false;
        }
        let dropped: bool = self.queue.len() >= self.capacity;
        push_bounded(&mut self.queue, item, self.capacity);
        dropped
    }

    /// Takes the oldest frame out. Where there is none, waiting ends when the queue is closed or
    /// the time is up.
    pub fn pop_step(&mut self, timed_out: bool) -> (r: PopStep<T>)
        requires
            old(self).valid(),
        ensures
            final(self).valid(),
            final(self).limit() == old(self).limit(),
            final(self).is_closed() == old(self).is_closed(),
            if old(self).items().len() > 0 {
                r == PopStep::Item(old(self).items()[0]) && final(self).items()
                    == old(self).items().drop_first()
            } else {
                final(self).items() == old(self).items() && (if old(self).is_closed() || timed_out {
                    r is Done
                } else {
                    r is Wait
                })
            },
    {
        match self.queue.pop_front() {
            Some(item) => {
                assert(self.items() =~= old(self).items().drop_first());
                PopStep::Item(item)
            },
            None => {
                if self.closed || timed_out {
                    PopStep::Done
                } else {
                    PopStep::Wait
                }
            },
        }
    }

    /// Closes the queue. What is in it can still be taken out.
    pub fn close(&mut self)
        ensures
            final(self).is_closed(),
            final(self).items() == old(self).items(),
            final(self).limit() == old(self).limit(),
    {
        self.closed = true;
    }
}

/// The frames in a queue after one more.
pub open spec fn queue_after<T>(items: Seq<T>, closed: bool, limit: nat, item: T) -> Seq<T> {
    if closed {
        items
    } else {
        crate::bounded::last_n(items.push(item), limit)
    }
}

/// Whether a decoder can use any packet, or has to wait for a key frame.
#[derive(Debug, Clone, Copy, PartialEq, Eq, Structural)]
pub enum DecodeSyncState {
    NeedIdr,
    Synced,
}

/// The state of the decode side of a pipeline.
pub struct DecodeWorker {
    raw_merger: H264AuMerger,
    framed_merger: FramedPacketMerger,
    sync_state: DecodeSyncState,
    au_count: u64,
    recoveries: u64,
}

/// The state of the decode side, as a mathematical value.
#[verifier::ext_equal]
pub struct WorkerView {
    pub raw: crate::h264::AuState,
    pub config: Option<Seq<u8>>,
    pub sync: DecodeSyncState,
    pub au_count: u64,
    pub recoveries: u64,
}

impl WorkerView {
    /// The state after an input went through the mergers, and the packet that came out.
    pub open spec fn merged(self, input: VideoInput) -> (WorkerView, Option<PacketView>) {
        match input {
            VideoInput::RawNal(nal) => {
                let (raw, unit) = self.raw.step(nal@);
                (
                    WorkerView { raw, ..self },
                    match unit {
                        Some(u) => Some(
                            PacketView { packet: u.packet, is_idr: u.is_idr, is_config: false },
                        ),
                        None => None,
                    },
                )
            },
            VideoInput::FramedPacket(pkt) => (
                WorkerView { config: config_after(pkt), ..self },
                Some(framed_packet(self.config, pkt)),
            ),
        }
    }

    /// Whether a packet is kept from the decoder: while it waits for a key frame, only key frames
    /// and configuration go through.
    pub open spec fn holds_back(self, p: PacketView) -> bool {
        self.sync == DecodeSyncState::NeedIdr && !p.is_idr && !p.is_config
    }

    /// Whether a packet puts decoding back in step.
    pub open spec fn resyncs(self, p: PacketView) -> bool {
        self.sync == DecodeSyncState::NeedIdr && p.is_idr
    }

    /// The state after a packet was counted and let through or held back.
    pub open spec fn counted(self, p: PacketView) -> WorkerView {
        WorkerView {
            au_count: if self.au_count == u64::MAX {
                u64::MAX
            } else {
                (self.au_count + 1) as u64
            },
            sync: if self.resyncs(p) {
                DecodeSyncState::Synced
            } else {
                self.sync
            },
            ..self
        }
    }

    /// The state after an input.
    pub open spec fn after(self, input: VideoInput) -> WorkerView {
        let (m, p) = self.merged(input);
        match p {
            Some(p) => m.counted(p),
            None => m,
        }
    }

    /// The packet that an input sends to the decoder.
    pub open spec fn sends(self, input: VideoInput) -> Option<PacketView> {
        match self.merged(input).1 {
            Some(p) => if self.holds_back(p) {
                None
            } else {
                Some(p)
            },
            None => None,
        }
    }

    /// The state after a decode error: decoding waits for a key frame.
    pub open spec fn failed(self) -> WorkerView {
        WorkerView { sync: DecodeSyncState::NeedIdr, ..self }
    }

    /// The state after the decoder was made anew.
    pub open spec fn recreated(self) -> WorkerView {
        WorkerView { recoveries: (self.recoveries + 1) as u64, ..self }
    }

    /// The state before the first input: decoding waits for a key frame.
    pub open spec fn at_start() -> WorkerView {
        WorkerView {
            raw: crate::h264::AuState::empty(),
            config: None,
            sync: DecodeSyncState::NeedIdr,
            au_count: 0,
            recoveries: 0,
        }
    }

    /// Whether an input puts decoding back in step.
    pub open spec fn input_resyncs(self, input: VideoInput) -> bool {
        match self.merged(input).1 {
            Some(p) => self.resyncs(p),
            None => false,
        }
    }
}

/// What to do after a packet was decoded.
#[derive(Debug, Clone, Copy, PartialEq, Eq, Structural)]
pub enum DecodeFollowUp {
    Continue,
    RecreateDecoder,
}

impl View for DecodeWorker {
    type V = WorkerView;

    closed spec fn view(&self) -> WorkerView {
        WorkerView {
            raw: self.raw_merger@,
            config: self.framed_merger.waiting(),
            sync: self.sync_state,
            au_count: self.au_count,
            recoveries: self.recoveries,
        }
    }
}

impl DecodeWorker {
    /// The decode side before the first packet: it waits for a key frame.
    pub fn new() -> (r: Self)
        ensures
            r@ == WorkerView::at_start(),
    {
        DecodeWorker {
            raw_merger: H264AuMerger::new(),
            framed_merger: FramedPacketMerger::new(),
            sync_state: DecodeSyncState::NeedIdr,
            au_count: 0,
            recoveries: 0,
        }
    }

    /// Takes in an input and gives out the packet for the decoder, where there is one. A key
    /// frame that ends the wait for one is counted as a resynchronisation.
    pub fn on_input(&mut self, input: VideoInput, stats: &mut PipelineStats) -> (r: Option<
        MergedAu,
    >)
        ensures
            final(self)@ == old(self)@.after(input),
            packet_option(r) == old(self)@.sends(input),
            *final(stats) == stats_after_input(*old(stats), old(self)@.input_resyncs(input)),
    {
        let au: Option<MergedAu> = match input {
            VideoInput::RawNal(nal) => self.raw_merger.merge_nal(nal.as_slice()),
            VideoInput::FramedPacket(pkt) => self.framed_merger.merge(pkt),
        };
        proof {
            assert(packet_option(au) == old(self)@.merged(input).1);
        }
        let au: MergedAu = match au {
            Some(au) => au,
            None => {
                return None;
            },
        };
        self.au_count = self.au_count.saturating_add(1);
        let waiting: bool = self.sync_state == DecodeSyncState::NeedIdr;
        if waiting && !au.is_idr && !au.is_config {
            return None;
        }
        if waiting && au.is_idr {
            self.sync_state = DecodeSyncState::Synced;
            stats.resync_signals = stats.resync_signals.wrapping_add(1);
        }
        Some(au)
    }

    /// Takes in what the decoder made of a packet, in `decode_ms` milliseconds. Frames go into
    /// the queue. An error makes decoding wait for the next key frame; some errors mean that the
    /// decoder has to be made anew.
    pub fn on_decoded<F>(
        &mut self,
        result: Result<Vec<F>, ScrcpyError>,
        decode_ms: u64,
        queue: &mut LatestFrameQueue<F>,
        stats: &mut PipelineStats,
    ) -> (r: DecodeFollowUp)
        requires
            old(queue).valid(),
        ensures
            final(queue).valid(),
            final(queue).limit() == old(queue).limit(),
            final(queue).is_closed() == old(queue).is_closed(),
            match result {
                Ok(frames) => {
                    &&& r == DecodeFollowUp::Continue
                    &&& final(self)@ == old(self)@
                    &&& final(queue).items() == items_after(
                        old(queue).items(),
                        old(queue).is_closed(),
                        old(queue).limit() as nat,
                        frames@,
                    )
                    &&& *final(stats) == stats_after_frames(
                        *old(stats),
                        frames@.len(),
                        drops(
                            old(queue).items(),
                            old(queue).is_closed(),
                            old(queue).limit() as nat,
                            frames@,
                        ),
                        decode_ms,
                    )
                },
                Err(e) => {
                    &&& r == (if is_decoder_broken(e@) {
                        DecodeFollowUp::RecreateDecoder
                    } else {
                        DecodeFollowUp::Continue
                    })
                    &&& final(self)@ == old(self)@.failed()
                    &&& final(queue).items() == old(queue).items()
                    &&& *final(stats) == stats_after_error(*old(stats))
                },
            },
    {
        match result {
            Ok(frames) => {
                if frames.len() == 0 {
                    proof {
                        lemma_wrapped_sum_zero(stats.decoded_frames);
                        lemma_wrapped_sum_zero(stats.dropped_frames);
                    }
                    return DecodeFollowUp::Continue;
                }
                stats.last_decode_ms = decode_ms;
                push_frames(frames, queue, stats);
                DecodeFollowUp::Continue
            },
            Err(e) => {
                self.sync_state = DecodeSyncState::NeedIdr;
                stats.need_idr_signals = stats.need_idr_signals.wrapping_add(1);
                if should_recreate_decoder(&e) {
                    DecodeFollowUp::RecreateDecoder
                } else {
                    DecodeFollowUp::Continue
                }
            },
        }
    }

    /// Notes that the decoder was made anew.
    pub fn on_recreated(&mut self)
        requires
            old(self)@.recoveries < u64::MAX,
        ensures
            final(self)@ == old(self)@.recreated(),
    {
        self.recoveries = self.recoveries + 1;
    }
}

/// The statistics after an input, which puts decoding back in step or does not.
pub open spec fn stats_after_input(stats: PipelineStats, resyncs: bool) -> PipelineStats {
    if resyncs {
        PipelineStats { resync_signals: stats.resync_signals.wrapping_add(1), ..stats }
    } else {
        stats
    }
}

/// The statistics after a decoder gave so many frames, of which the queue dropped so many.
pub open spec fn stats_after_frames(
    stats: PipelineStats,
    given: nat,
    dropped: nat,
    decode_ms: u64,
) -> PipelineStats {
    PipelineStats {
        last_decode_ms: if given > 0 {
            decode_ms
        } else {
            stats.last_decode_ms
        },
        decoded_frames: wrapped_sum(stats.decoded_frames, given),
        dropped_frames: wrapped_sum(stats.dropped_frames, dropped),
        ..stats
    }
}

/// The statistics after a decode error.
pub open spec fn stats_after_error(stats: PipelineStats) -> PipelineStats {
    PipelineStats { need_idr_signals: stats.need_idr_signals.wrapping_add(1), ..stats }
}

/// A 64-bit counter after `n` more; it wraps around.
pub open spec fn wrapped_sum(counter: u64, n: nat) -> u64 {
    ((counter + n) % 0x1_0000_0000_0000_0000) as u64
}

proof fn lemma_wrapped_sum_zero(counter: u64)
    ensures
        wrapped_sum(counter, 0) == counter,
{
}

proof fn lemma_wrapped_sum_step(counter: u64, n: nat)
    ensures
        wrapped_sum(counter, n).wrapping_add(1) == wrapped_sum(counter, n + 1),
{
    let a = counter + n;
    let m = 0x1_0000_0000_0000_0000int;
    assert((a + 1) % m == (if a % m == m - 1 {
        0
    } else {
        a % m + 1
    })) by (nonlinear_arith)
        requires
            m == 0x1_0000_0000_0000_0000int,
            a >= 0,
    ;
}

/// The frames in a queue after frames were put in, in order.
pub open spec fn items_after<T>(items: Seq<T>, closed: bool, limit: nat, frames: Seq<T>) -> Seq<T>
    decreases frames.len(),
{
    if frames.len() == 0 {
        items
    } else {
        queue_after(
            items_after(items, closed, limit, frames.drop_last()),
            closed,
            limit,
            frames.last(),
        )
    }
}

/// How many frames made room while frames were put in, in order.
pub open spec fn drops<T>(items: Seq<T>, closed: bool, limit: nat, frames: Seq<T>) -> nat
    decreases frames.len(),
{
    if frames.len() == 0 {
        0
    } else {
        let before = items_after(items, closed, limit, frames.drop_last());
        drops(items, closed, limit, frames.drop_last()) + (if !closed && before.len() == limit {
            1nat
        } else {
            0nat
        })
    }
}

/// An open queue holds the newest of the frames that were in it and that were put in, and drops
/// as many as do not fit.
pub proof fn law_queue_keeps_newest<T>(items: Seq<T>, limit: nat, frames: Seq<T>)
    requires
        items.len() <= limit,
    ensures
        items_after(items, false, limit, frames) == crate::bounded::last_n(items + frames, limit),
        drops(items, false, limit, frames) == (if items.len() + frames.len() > limit {
            (items.len() + frames.len() - limit) as nat
        } else {
            0
        }),
    decreases frames.len(),
{
    crate::bounded::law_newest_are_kept(items, frames, limit);
    if frames.len() > 0 {
        law_queue_keeps_newest(items, limit, frames.drop_last());
        crate::bounded::law_newest_are_kept(items, frames.drop_last(), limit);
    }
}

fn push_frames<F>(frames: Vec<F>, queue: &mut LatestFrameQueue<F>, stats: &mut PipelineStats)
    requires
        old(queue).valid(),
    ensures
        final(queue).valid(),
        final(queue).limit() == old(queue).limit(),
        final(queue).is_closed() == old(queue).is_closed(),
        final(queue).items() == items_after(
            old(queue).items(),
            old(queue).is_closed(),
            old(queue).limit() as nat,
            frames@,
        ),
        *final(stats) == (PipelineStats {
            decoded_frames: wrapped_sum(old(stats).decoded_frames, frames@.len()),
            dropped_frames: wrapped_sum(
                old(stats).dropped_frames,
                drops(
                    old(queue).items(),
                    old(queue).is_closed(),
                    old(queue).limit() as nat,
                    frames@,
                ),
            ),
            ..*old(stats)
        }),
{
    let ghost q0 = old(queue).items();
    let ghost closed = old(queue).is_closed();
    let ghost limit = old(queue).limit() as nat;
    let mut rest: VecDeque<F> = queue_of(frames);
    let mut done: Ghost<int> = Ghost(0);
    proof {
        lemma_wrapped_sum_zero(stats.decoded_frames);
        lemma_wrapped_sum_zero(stats.dropped_frames);
        assert(frames@.take(0) =~= Seq::empty());
    }
    while rest.len() > 0
        invariant
            0 <= done@ <= frames@.len(),
            rest@ == frames@.skip(done@),
            q0 == old(queue).items(),
            closed == old(queue).is_closed(),
            limit == old(queue).limit(),
            queue.valid(),
            queue.limit() == limit,
            queue.is_closed() == closed,
            queue.items() == items_after(q0, closed, limit, frames@.take(done@)),
            *stats == (PipelineStats {
                decoded_frames: wrapped_sum(old(stats).decoded_frames, done@ as nat),
                dropped_frames: wrapped_sum(
                    old(stats).dropped_frames,
                    drops(q0, closed, limit, frames@.take(done@)),
                ),
                ..*old(stats)
            }),
        decreases rest.len(),
    {
        if let Some(frame) = rest.pop_front() {
            proof {
                assert(frame == frames@[done@]);
                assert(rest@ =~= frames@.skip(done@ + 1));
                assert(frames@.take(done@ + 1).drop_last() =~= frames@.take(done@));
                assert(frames@.take(done@ + 1).last() == frame);
                lemma_wrapped_sum_step(old(stats).decoded_frames, done@ as nat);
                lemma_wrapped_sum_step(
                    old(stats).dropped_frames,
                    drops(q0, closed, limit, frames@.take(done@)),
                );
            }
            stats.decoded_frames = stats.decoded_frames.wrapping_add(1);
            if queue.push_latest(frame) {
                stats.dropped_frames = stats.dropped_frames.wrapping_add(1);
            }
            proof {
                done@ = done@ + 1;
            }
        }
    }
    assert(frames@.take(frames@.len() as int) =~= frames@);
}

/// Whether the text of an error means that the decoder itself is broken.
pub open spec fn is_decoder_broken(e: crate::error::ErrorView) -> bool {
    let text = crate::text::ascii_lowercase(e.text());
    ||| crate::text::contains_text(text, "invalid argument"@)
    ||| crate::text::contains_text(text, "avhwframescontext"@)
    ||| crate::text::contains_text(text, "invalid handle"@)
    ||| crate::text::contains_text(text, "external library"@)
    ||| crate::text::contains_text(text, "resource temporarily unavailable"@)
}

/// Decides whether the decoder has to be made anew after an error.
pub fn should_recreate_decoder(err: &ScrcpyError) -> (r: bool)
    ensures
        r == is_decoder_broken(err@),
{
    let message: String = err.message();
    let text: String = to_ascii_lowercase(message.as_str());
    has_text(text.as_str(), "invalid argument") || has_text(text.as_str(), "avhwframescontext")
        || has_text(text.as_str(), "invalid handle") || has_text(text.as_str(), "external library")
        || has_text(text.as_str(), "resource temporarily unavailable")
}

/// How the sending of an input to the pipeline's queue ended.
#[derive(Debug, Clone, Copy, PartialEq, Eq, Structural)]
pub enum SendOutcome {
    Sent,
    Full,
    Disconnected,
}

/// What comes of sending an input. A full queue drops the input, which is counted and no error;
/// only a pipeline that drops inputs meets a full queue.
pub fn push_input(outcome: SendOutcome, stats: &mut PipelineStats) -> (r: Result<(), ScrcpyError>)
    ensures
        match outcome {
            SendOutcome::Sent => r is Ok && *final(stats) == *old(stats),
            SendOutcome::Full => r is Ok && *final(stats) == (PipelineStats {
                dropped_nals: old(stats).dropped_nals.wrapping_add(1),
                ..*old(stats)
            }),
            SendOutcome::Disconnected => *final(stats) == *old(stats) && (r matches Err(e) && e@
                == crate::error::ErrorView::Other("pipeline stopped, unable to push input"@)),
        },
{
    match outcome {
        SendOutcome::Sent => Ok(()),
        SendOutcome::Full => {
            stats.dropped_nals = stats.dropped_nals.wrapping_add(1);
            Ok(())
        },
        SendOutcome::Disconnected => Err(other_error("pipeline stopped, unable to push input")),
    }
}

/// What a decoder gave out was handed on. Where nobody has room for it, it is dropped; where
/// nobody takes it any more, that is an error, with the text `gone`.
pub fn hand_on(outcome: SendOutcome, gone: &str) -> (r: Result<(), ScrcpyError>)
    ensures
        match outcome {
            SendOutcome::Sent | SendOutcome::Full => r is Ok,
            SendOutcome::Disconnected => r matches Err(e) && e@ == crate::error::ErrorView::Other(
                gone@,
            ),
        },
{
    match outcome {
        SendOutcome::Sent | SendOutcome::Full => Ok(()),
        SendOutcome::Disconnected => Err(other_error(gone)),
    }
}

/// Notes that a frame was handed on, in `upload_ms` milliseconds, or that this failed.
pub fn on_uploaded(ok: bool, upload_ms: u64, stats: &mut PipelineStats)
    ensures
        *final(stats) == (if ok {
            PipelineStats {
                last_upload_ms: upload_ms,
                uploaded_frames: old(stats).uploaded_frames.wrapping_add(1),
                ..*old(stats)
            }
        } else {
            *old(stats)
        }),
{
    if ok {
        stats.last_upload_ms = upload_ms;
        stats.uploaded_frames = stats.uploaded_frames.wrapping_add(1);
    }
}

/// After a decode error no packet goes to the decoder until a key frame comes, but for
/// configuration; the key frame itself goes through and ends the wait.
pub proof fn law_only_key_frames_after_error(w: WorkerView, input: VideoInput)
    requires
        w.sync == DecodeSyncState::NeedIdr,
    ensures
        w.sends(input) matches Some(p) ==> p.is_idr || p.is_config,
        w.after(input).sync == DecodeSyncState::Synced <==> (w.merged(input).1 matches Some(p)
            && p.is_idr),
        w.after(input).sync == DecodeSyncState::Synced ==> w.sends(input) == w.merged(input).1,
{
}

/// While decoding is in step, every packet goes to the decoder and decoding stays in step.
pub proof fn law_all_packets_in_step(w: WorkerView, input: VideoInput)
    requires
        w.sync == DecodeSyncState::Synced,
    ensures
        w.sends(input) == w.merged(input).1,
        w.after(input).sync == DecodeSyncState::Synced,
        !w.input_resyncs(input),
{
}

/// What a decoder makes of a packet: frames, of which the queue in the given state drops some, or
/// an error, after which the decoder is made anew or is not.
pub enum DecodeOutcome<F> {
    Frames { frames: Seq<F>, items: Seq<F>, closed: bool, limit: nat, decode_ms: u64 },
    Failed { recreated: bool },
}

/// One round of decoding: an input, and what the decoder makes of the packet, where the input
/// sends it one.
pub struct DecodeRound<F> {
    pub input: VideoInput,
    pub outcome: DecodeOutcome<F>,
}

/// The decode side together with its statistics. What others count in the meantime is left out.
#[verifier::ext_equal]
pub struct DecodeRun {
    pub worker: WorkerView,
    pub stats: PipelineStats,
}

/// What happened over rounds of decoding: how many decode calls failed, how many key frames came
/// while decoding was out of step, how many frames the decoder gave, and how many of those in the
/// queue made room for them.
#[verifier::ext_equal]
pub struct DecodeSums {
    pub failures: nat,
    pub resyncs: nat,
    pub given: nat,
    pub dropped: nat,
}

impl DecodeRun {
    /// Before the first round.
    pub open spec fn at_start() -> DecodeRun {
        DecodeRun { worker: WorkerView::at_start(), stats: PipelineStats::spec_zero() }
    }

    /// After a round: first the input (`DecodeWorker::on_input`), then, where a packet went to
    /// the decoder, what came of that (`DecodeWorker::on_decoded`, `DecodeWorker::on_recreated`).
    pub open spec fn round<F>(self, round: DecodeRound<F>) -> DecodeRun {
        let worker = self.worker.after(round.input);
        let stats = stats_after_input(self.stats, self.worker.input_resyncs(round.input));
        if self.worker.sends(round.input) is None {
            DecodeRun { worker, stats }
        } else {
            match round.outcome {
                DecodeOutcome::Frames { frames, items, closed, limit, decode_ms } => DecodeRun {
                    worker,
                    stats: stats_after_frames(
                        stats,
                        frames.len(),
                        drops(items, closed, limit, frames),
                        decode_ms,
                    ),
                },
                DecodeOutcome::Failed { recreated } => DecodeRun {
                    worker: if recreated {
                        worker.failed().recreated()
                    } else {
                        worker.failed()
                    },
                    stats: stats_after_error(stats),
                },
            }
        }
    }

    /// After rounds, in order.
    pub open spec fn rounds<F>(self, rounds: Seq<DecodeRound<F>>) -> DecodeRun
        decreases rounds.len(),
    {
        if rounds.len() == 0 {
            self
        } else {
            self.rounds(rounds.drop_last()).round(rounds.last())
        }
    }

    /// What happens over rounds.
    pub open spec fn sums<F>(self, rounds: Seq<DecodeRound<F>>) -> DecodeSums
        decreases rounds.len(),
    {
        if rounds.len() == 0 {
            DecodeSums { failures: 0, resyncs: 0, given: 0, dropped: 0 }
        } else {
            let before = self.sums(rounds.drop_last());
            let worker = self.rounds(rounds.drop_last()).worker;
            let last = rounds.last();
            let met = DecodeSums {
                resyncs: before.resyncs + (if worker.input_resyncs(last.input) {
                    1nat
                } else {
                    0nat
                }),
                ..before
            };
            if worker.sends(last.input) is None {
                met
            } else {
                match last.outcome {
                    DecodeOutcome::Frames { frames, items, closed, limit, .. } => DecodeSums {
                        given: met.given + frames.len(),
                        dropped: met.dropped + drops(items, closed, limit, frames),
                        ..met
                    },
                    DecodeOutcome::Failed { .. } => DecodeSums {
                        failures: met.failures + 1,
                        ..met
                    },
                }
            }
        }
    }
}

proof fn lemma_wrapped_sum_adds(a: nat, b: nat)
    ensures
        wrapped_sum(wrapped_sum(0, a), b) == wrapped_sum(0, a + b),
{
    let m = 0x1_0000_0000_0000_0000int;
    vstd::arithmetic::div_mod::lemma_add_mod_noop_right(b as int, a as int, m);
}

/// Each counter is the sum over the run, as far as 64 bits hold it. Decoding gets back into step
/// at most once more often than it fails, and no more often than that while it waits for a key
/// frame.
pub proof fn law_counters_are_sums<F>(rounds: Seq<DecodeRound<F>>)
    ensures
        ({
            let run = DecodeRun::at_start().rounds(rounds);
            let sums = DecodeRun::at_start().sums(rounds);
            &&& run.stats.need_idr_signals == wrapped_sum(0, sums.failures)
            &&& run.stats.resync_signals == wrapped_sum(0, sums.resyncs)
            &&& run.stats.decoded_frames == wrapped_sum(0, sums.given)
            &&& run.stats.dropped_frames == wrapped_sum(0, sums.dropped)
            &&& sums.resyncs <= sums.failures + 1
            &&& run.worker.sync == DecodeSyncState::NeedIdr ==> sums.resyncs <= sums.failures
        }),
    decreases rounds.len(),
{
    if rounds.len() > 0 {
        law_counters_are_sums(rounds.drop_last());
        let before = DecodeRun::at_start().sums(rounds.drop_last());
        lemma_wrapped_sum_step(0, before.failures);
        lemma_wrapped_sum_step(0, before.resyncs);
        if let DecodeOutcome::Frames { frames, items, closed, limit, .. } = rounds.last().outcome {
            lemma_wrapped_sum_adds(before.given, frames.len());
            lemma_wrapped_sum_adds(before.dropped, drops(items, closed, limit, frames));
        }
    }
}

/// As long as no counter has wrapped, each is the sum over the run, and the resynchronisations
/// that were signalled are at most one more than the failures; while decoding waits for a key
/// frame, they are no more than those.
pub proof fn law_resyncs_follow_failures<F>(rounds: Seq<DecodeRound<F>>)
    requires
        ({
            let sums = DecodeRun::at_start().sums(rounds);
            &&& sums.failures <= u64::MAX
            &&& sums.resyncs <= u64::MAX
            &&& sums.given <= u64::MAX
            &&& sums.dropped <= u64::MAX
        }),
    ensures
        ({
            let run = DecodeRun::at_start().rounds(rounds);
            let sums = DecodeRun::at_start().sums(rounds);
            &&& run.stats.need_idr_signals == sums.failures
            &&& run.stats.resync_signals == sums.resyncs
            &&& run.stats.decoded_frames == sums.given
            &&& run.stats.dropped_frames == sums.dropped
            &&& run.stats.resync_signals <= run.stats.need_idr_signals + 1
            &&& run.worker.sync == DecodeSyncState::NeedIdr ==> run.stats.resync_signals
                <= run.stats.need_idr_signals
        }),
{
    law_counters_are_sums(rounds);
}

/// A configuration packet is marked as such and as no key frame; a media packet is a key frame
/// exactly when the device says so. What waits is put in front of a media packet whole, and a
/// configuration packet takes the place of the one that waits.
pub proof fn law_framed_packet_marks(waiting: Option<Seq<u8>>, pkt: FramedInputPacket)
    ensures
        framed_packet(waiting, pkt).is_config == pkt.is_config,
        framed_packet(waiting, pkt).is_idr <==> pkt.is_keyframe && !pkt.is_config,
        !pkt.is_config && waiting is Some ==> framed_packet(waiting, pkt).packet == waiting->Some_0
            + pkt.data@,
        pkt.is_config || waiting is None ==> framed_packet(waiting, pkt).packet == pkt.data@,
        pkt.is_config ==> config_after(pkt) == Some(pkt.data@),
        !pkt.is_config ==> config_after(pkt) is None,
{
}

/// Units and packets go their own ways: a unit changes the unit merger alone, and gives a media
/// packet exactly when it completes an access unit; a packet changes what waits alone, and always
/// gives one.
pub proof fn law_merged_paths(w: WorkerView, input: VideoInput)
    ensures
        input matches VideoInput::RawNal(nal) ==> {
            &&& w.merged(input).0 == (WorkerView { raw: w.raw.step(nal@).0, ..w })
            &&& w.merged(input).1 is Some <==> w.raw.step(nal@).1 is Some
            &&& w.merged(input).1 matches Some(p) ==> !p.is_config && p.packet == w.raw.step(
                nal@,
            ).1->Some_0.packet && p.is_idr == w.raw.step(nal@).1->Some_0.is_idr
        },
        input matches VideoInput::FramedPacket(pkt) ==> {
            &&& w.merged(input).0 == (WorkerView { config: config_after(pkt), ..w })
            &&& w.merged(input).1 == Some(framed_packet(w.config, pkt))
        },
{
}

/// While decoding waits for a key frame, exactly key frames and configuration go to the decoder,
/// and exactly a key frame ends the wait; configuration does not. Each packet is counted, also one
/// that is held back.
pub proof fn law_what_goes_through(w: WorkerView, input: VideoInput)
    ensures
        w.sends(input) is Some <==> (w.merged(input).1 matches Some(p) && (w.sync
            == DecodeSyncState::Synced || p.is_idr || p.is_config)),
        w.sends(input) is Some ==> w.sends(input) == w.merged(input).1,
        w.input_resyncs(input) <==> w.sync == DecodeSyncState::NeedIdr && (w.merged(input).1 matches
            Some(p) && p.is_idr),
        w.after(input).sync == DecodeSyncState::NeedIdr <==> w.sync == DecodeSyncState::NeedIdr
            && !w.input_resyncs(input),
        w.merged(input).1 is None ==> w.after(input).au_count == w.au_count,
        w.merged(input).1 is Some && w.au_count < u64::MAX ==> w.after(input).au_count == w.au_count
            + 1,
        w.after(input).recoveries == w.recoveries,
{
}

/// Decoding starts out of step, with nothing merged or counted.
pub proof fn law_start_out_of_step()
    ensures
        WorkerView::at_start().sync == DecodeSyncState::NeedIdr,
        WorkerView::at_start().config is None,
        WorkerView::at_start().au_count == 0,
        WorkerView::at_start().recoveries == 0,
        WorkerView::at_start().raw.prefix.len() == 0,
        WorkerView::at_start().raw.current.len() == 0,
        WorkerView::at_start().raw.sps is None,
        WorkerView::at_start().raw.pps is None,
{
}

/// A decode error puts decoding out of step and changes nothing else; making the decoder anew is
/// counted and does not put it back in step.
pub proof fn law_error_puts_out_of_step(w: WorkerView)
    requires
        w.recoveries < u64::MAX,
    ensures
        w.failed() == (WorkerView { sync: DecodeSyncState::NeedIdr, ..w }),
        w.recreated().recoveries == w.recoveries + 1,
        w.recreated().sync == w.sync,
        w.recreated().raw == w.raw,
        w.recreated().config == w.config,
{
}

/// A closed queue takes nothing in and drops nothing.
pub proof fn law_closed_queue_stays<T>(items: Seq<T>, limit: nat, frames: Seq<T>)
    ensures
        items_after(items, true, limit, frames) == items,
        drops(items, true, limit, frames) == 0,
    decreases frames.len(),
{
    if frames.len() > 0 {
        law_closed_queue_stays(items, limit, frames.drop_last());
    }
}

/// Statistics count what happened and nothing else: frames do not count as errors, errors do not
/// count as frames, and the time of a decode call is that of the last one that gave frames.
pub proof fn law_statistics(stats: PipelineStats, given: nat, dropped: nat, decode_ms: u64)
    requires
        stats.decoded_frames + given <= u64::MAX,
        stats.dropped_frames + dropped <= u64::MAX,
        stats.need_idr_signals < u64::MAX,
        stats.resync_signals < u64::MAX,
    ensures
        stats_after_frames(stats, given, dropped, decode_ms).decoded_frames == stats.decoded_frames
            + given,
        stats_after_frames(stats, given, dropped, decode_ms).dropped_frames == stats.dropped_frames
            + dropped,
        given > 0 ==> stats_after_frames(stats, given, dropped, decode_ms).last_decode_ms
            == decode_ms,
        given == 0 ==> stats_after_frames(stats, given, dropped, decode_ms).last_decode_ms
            == stats.last_decode_ms,
        stats_after_frames(stats, given, dropped, decode_ms).need_idr_signals
            == stats.need_idr_signals,
        stats_after_frames(stats, given, dropped, decode_ms).resync_signals == stats.resync_signals,
        stats_after_error(stats).need_idr_signals == stats.need_idr_signals + 1,
        stats_after_error(stats).resync_signals == stats.resync_signals,
        stats_after_error(stats).decoded_frames == stats.decoded_frames,
        stats_after_error(stats).last_decode_ms == stats.last_decode_ms,
        stats_after_input(stats, true).resync_signals == stats.resync_signals + 1,
        stats_after_input(stats, true).need_idr_signals == stats.need_idr_signals,
        stats_after_input(stats, false) == stats,
{
}

/// A decoder is broken where its error holds one of five phrases, whatever the case of its letters;
/// any other error leaves it.
pub proof fn law_broken_decoders(e: crate::error::ErrorView)
    ensures
        ({
            let text = e.text().map_values(|c: char| crate::text::ascii_lower(c));
            is_decoder_broken(e) <==> exists|i: int, n: int|
                0 <= i <= i + n <= text.len() && {
                    ||| #[trigger] text.subrange(i, i + n) == "invalid argument"@
                    ||| text.subrange(i, i + n) == "avhwframescontext"@
                    ||| text.subrange(i, i + n) == "invalid handle"@
                    ||| text.subrange(i, i + n) == "external library"@
                    ||| text.subrange(i, i + n) == "resource temporarily unavailable"@
                }
        }),
{
    let text = e.text().map_values(|c: char| crate::text::ascii_lower(c));
    assert(text =~= crate::text::ascii_lowercase(e.text()));
    lemma_occurrence(text, "invalid argument"@);
    lemma_occurrence(text, "avhwframescontext"@);
    lemma_occurrence(text, "invalid handle"@);
    lemma_occurrence(text, "external library"@);
    lemma_occurrence(text, "resource temporarily unavailable"@);
}

proof fn lemma_occurrence(s: Seq<char>, p: Seq<char>)
    ensures
        crate::text::contains_text(s, p) <==> exists|i: int, n: int|
            0 <= i <= i + n <= s.len() && #[trigger] s.subrange(i, i + n) == p,
{
    if crate::text::contains_text(s, p) {
        let i = choose|i: int| 0 <= i <= s.len() - p.len() && #[trigger] s.subrange(i, i + p.len())
            == p;
        let n = p.len() as int;
        assert(s.subrange(i, i + n) == p);
    }
    if exists|i: int, n: int| 0 <= i <= i + n <= s.len() && #[trigger] s.subrange(i, i + n) == p {
        let (i, n) = choose|i: int, n: int|
            0 <= i <= i + n <= s.len() && #[trigger] s.subrange(i, i + n) == p;
        assert(n == p.len());
        assert(s.subrange(i, i + p.len()) == p);
    }
}

} // verus!
