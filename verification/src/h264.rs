//! Grouping of H.264 NAL units into access units.

use vstd::prelude::*;

use crate::wire::{extend, to_vec};

verus! {

/// A packet for the decoder: Annex-B bytes, whether it holds a key frame, and whether it is a
/// configuration packet.
pub struct MergedAu {
    pub packet: Vec<u8>,
    pub is_idr: bool,
    pub is_config: bool,
}

/// Groups NAL units without start codes into access units. The last SPS and PPS are kept and put
/// in front of each unit; a unit is complete when the next picture begins.
pub struct H264AuMerger {
    sps: Option<Vec<u8>>,
    pps: Option<Vec<u8>>,
    prefix_nals: Vec<Vec<u8>>,
    current_au_nals: Vec<Vec<u8>>,
    current_has_vcl: bool,
    current_has_idr: bool,
}

/// What an `H264AuMerger` holds: the parameter sets, the units that wait for the next picture,
/// the units of the picture that is being collected, and what kinds of slices those are.
#[verifier::ext_equal]
pub struct AuState {
    pub sps: Option<Seq<u8>>,
    pub pps: Option<Seq<u8>>,
    pub prefix: Seq<Seq<u8>>,
    pub current: Seq<Seq<u8>>,
    pub has_vcl: bool,
    pub has_idr: bool,
}

/// A completed access unit.
#[verifier::ext_equal]
pub struct AccessUnit {
    pub packet: Seq<u8>,
    pub is_idr: bool,
}

/// The bytes of each unit in a list.
pub open spec fn nals_view(v: Seq<Vec<u8>>) -> Seq<Seq<u8>> {
    v.map_values(|n: Vec<u8>| n@)
}

/// The bytes of an optional unit.
pub open spec fn nal_option(v: Option<Vec<u8>>) -> Option<Seq<u8>> {
    match v {
        Some(n) => Some(n@),
        None => None,
    }
}

/// The type of a NAL unit: the low five bits of its first byte.
pub open spec fn nal_kind(nal: Seq<u8>) -> Option<u8> {
    if nal.len() > 0 {
        Some(nal[0] & 0x1F)
    } else {
        None
    }
}

/// Whether one of the units is an IDR slice.
pub open spec fn holds_idr(nals: Seq<Seq<u8>>) -> bool {
    exists|i: int| 0 <= i < nals.len() && nal_kind(#[trigger] nals[i]) == Some(5u8)
}

/// Whether a unit goes into an access unit: it is neither empty nor a parameter set nor an access
/// unit delimiter.
pub open spec fn is_kept(nal: Seq<u8>) -> bool {
    match nal_kind(nal) {
        Some(kind) => kind != 7 && kind != 8 && kind != 9,
        None => false,
    }
}

/// A unit behind a four-byte start code.
pub open spec fn annexb(nal: Seq<u8>) -> Seq<u8> {
    seq![0u8, 0u8, 0u8, 1u8] + nal
}

/// Units in order, each behind a start code.
pub open spec fn annexb_all(nals: Seq<Seq<u8>>) -> Seq<u8>
    decreases nals.len(),
{
    if nals.len() == 0 {
        Seq::empty()
    } else {
        annexb_all(nals.drop_last()) + annexb(nals.last())
    }
}

/// An optional unit behind a start code; nothing where there is none.
pub open spec fn annexb_option(nal: Option<Seq<u8>>) -> Seq<u8> {
    match nal {
        Some(n) => annexb(n),
        None => Seq::empty(),
    }
}

/// The payload without emulation prevention bytes: `00 00 03` stands for `00 00`.
pub open spec fn unescaped(s: Seq<u8>) -> Seq<u8>
    decreases s.len(),
{
    if s.len() == 0 {
        Seq::empty()
    } else if s.len() > 2 && s[0] == 0 && s[1] == 0 && s[2] == 3 {
        seq![0u8, 0u8] + unescaped(s.skip(3))
    } else {
        seq![s[0]] + unescaped(s.skip(1))
    }
}

/// The bit at position `p`, counted from the most significant bit of the first byte.
pub open spec fn bit_at(s: Seq<u8>, p: int) -> nat {
    ((s[p / 8] >> ((7 - p % 8) as u8)) & 1u8) as nat
}

/// The number of zero bits from position `p` up to the first one bit or the end.
pub open spec fn zero_run(s: Seq<u8>, p: int) -> nat
    decreases 8 * s.len() - p,
{
    if p >= 8 * s.len() || bit_at(s, p) != 0 {
        0
    } else {
        1 + zero_run(s, p + 1)
    }
}

/// The number that `n` bits from position `p` stand for.
pub open spec fn bits_value(s: Seq<u8>, p: int, n: nat) -> nat
    decreases n,
{
    if n == 0 {
        0
    } else {
        2 * bits_value(s, p, (n - 1) as nat) + bit_at(s, p + n - 1)
    }
}

/// The unsigned Exp-Golomb number at position `p`, and the position behind it. There is none
/// behind 32 or more zero bits, or where the data ends inside the code. At the end of the data
/// the number is zero.
pub open spec fn exp_golomb(s: Seq<u8>, p: int) -> (Option<u32>, int) {
    let z = zero_run(s, p);
    let end = 8 * s.len();
    if z >= 32 {
        (None, p + 32)
    } else if p >= end {
        (Some(0), p)
    } else if p + 2 * z + 1 > end {
        (None, end as int)
    } else {
        (Some((vstd::arithmetic::power2::pow2(z) - 1 + bits_value(s, p + z + 1, z)) as u32), p + 2 * z + 1)
    }
}

/// Whether a slice is the first of its picture: its payload starts with the number zero.
pub open spec fn starts_picture(nal: Seq<u8>) -> bool {
    nal.len() >= 2 && exp_golomb(unescaped(nal.skip(1)), 0).0 == Some(0u32)
}

impl AuState {
    /// A merger that has seen nothing.
    pub open spec fn empty() -> AuState {
        AuState {
            sps: None,
            pps: None,
            prefix: Seq::empty(),
            current: Seq::empty(),
            has_vcl: false,
            has_idr: false,
        }
    }

    /// A picture is being collected exactly when it has a slice; it counts as a key frame
    /// exactly when it has an IDR slice; and what waits for the next picture holds no such slice
    /// and is empty while a picture is being collected.
    pub open spec fn valid(self) -> bool {
        &&& self.has_vcl == (self.current.len() > 0)
        &&& self.has_idr == holds_idr(self.current)
        &&& !holds_idr(self.prefix)
        &&& self.current.len() > 0 ==> self.prefix.len() == 0
    }

    /// The units that have been taken in and not yet given out, in order.
    pub open spec fn pending(self) -> Seq<Seq<u8>> {
        self.prefix + self.current
    }

    /// The access unit made of what has been collected.
    pub open spec fn collected(self) -> Option<AccessUnit> {
        if self.current.len() == 0 {
            None
        } else {
            Some(
                AccessUnit {
                    packet: annexb_option(self.sps) + annexb_option(self.pps) + annexb_all(
                        self.current,
                    ),
                    is_idr: self.has_idr,
                },
            )
        }
    }

    /// The state after what has been collected was given out.
    pub open spec fn flushed(self) -> AuState {
        if self.current.len() == 0 {
            self
        } else {
            AuState { current: Seq::empty(), has_vcl: false, has_idr: false, ..self }
        }
    }

    /// The state after a unit that is no slice.
    pub open spec fn with_other(self, nal: Seq<u8>) -> AuState {
        if self.current.len() == 0 {
            AuState { prefix: self.prefix.push(nal), ..self }
        } else {
            AuState { current: self.current.push(nal), ..self }
        }
    }

    /// The state after a slice of the picture that is being collected, which may be a new one.
    pub open spec fn with_slice(self, nal: Seq<u8>, idr: bool) -> AuState {
        let begun = if self.current.len() == 0 {
            AuState { current: self.prefix, prefix: Seq::empty(), ..self }
        } else {
            self
        };
        AuState {
            current: begun.current.push(nal),
            has_vcl: true,
            has_idr: self.has_idr || idr,
            ..begun
        }
    }

    /// What one unit does to the state, and the access unit that it completes.
    pub open spec fn step(self, nal: Seq<u8>) -> (AuState, Option<AccessUnit>) {
        match nal_kind(nal) {
            None => (self, None),
            Some(kind) => if kind == 7 {
                (AuState { sps: Some(nal), ..self }, None)
            } else if kind == 8 {
                (AuState { pps: Some(nal), ..self }, None)
            } else if kind == 9 {
                (self.flushed(), self.collected())
            } else if kind == 1 || kind == 5 {
                if self.has_vcl && starts_picture(nal) {
                    (self.flushed().with_slice(nal, kind == 5), self.collected())
                } else {
                    (self.with_slice(nal, kind == 5), None)
                }
            } else {
                (self.with_other(nal), None)
            },
        }
    }
}

/// The state and the completed access units after a list of units.
pub open spec fn merged(nals: Seq<Seq<u8>>) -> (AuState, Seq<AccessUnit>)
    decreases nals.len(),
{
    if nals.len() == 0 {
        (AuState::empty(), Seq::empty())
    } else {
        let (st, units) = merged(nals.drop_last());
        let (next, out) = st.step(nals.last());
        match out {
            Some(u) => (next, units.push(u)),
            None => (next, units),
        }
    }
}

impl View for H264AuMerger {
    type V = AuState;

    closed spec fn view(&self) -> AuState {
        AuState {
            sps: nal_option(self.sps),
            pps: nal_option(self.pps),
            prefix: nals_view(self.prefix_nals@),
            current: nals_view(self.current_au_nals@),
            has_vcl: self.current_has_vcl,
            has_idr: self.current_has_idr,
        }
    }
}

/// What a completed access unit is, as a mathematical value.
pub open spec fn unit_view(r: Option<MergedAu>) -> Option<AccessUnit> {
    match r {
        Some(au) => Some(AccessUnit { packet: au.packet@, is_idr: au.is_idr }),
        None => None,
    }
}

impl H264AuMerger {
    /// A merger that has seen nothing.
    pub fn new() -> (r: Self)
        ensures
            r@ == AuState::empty(),
            r@.valid(),
    {
        let r = Self {
            sps: None,
            pps: None,
            prefix_nals: Vec::new(),
            current_au_nals: Vec::new(),
            current_has_vcl: false,
            current_has_idr: false,
        };
        assert(r@ =~= AuState::empty());
        r
    }

    /// The type of a NAL unit, where it has a first byte.
    pub fn nal_type(nal: &[u8]) -> (r: Option<u8>)
        ensures
            r == nal_kind(nal@),
    {
        if nal.len() > 0 {
            Some(nal[0] & 0x1F)
        } else {
            None
        }
    }

    /// Appends a unit behind a start code.
    pub fn append_annexb(dst: &mut Vec<u8>, nal: &[u8])
        ensures
            final(dst)@ == old(dst)@ + annexb(nal@),
    {
        let ghost before = dst@;
        dst.push(0);
        dst.push(0);
        dst.push(0);
        dst.push(1);
        extend(dst, nal);
        assert(dst@ =~= before + annexb(nal@));
    }

    /// Drops the emulation prevention bytes of a payload.
    pub fn remove_emulation_prevention(src: &[u8]) -> (r: Vec<u8>)
        ensures
            r@ == unescaped(src@),
    {
        let n: usize = src.len();
        let mut out: Vec<u8> = Vec::new();
        let mut i: usize = 0;
        assert(src@.skip(0) =~= src@);
        assert(out@ + unescaped(src@.skip(0)) =~= unescaped(src@));
        while i < n
            invariant
                i <= n,
                n == src@.len(),
                out@ + unescaped(src@.skip(i as int)) == unescaped(src@),
            decreases n - i,
        {
            let ghost rest = src@.skip(i as int);
            let ghost before = out@;
            if n - i > 2 && src[i] == 0 && src[i + 1] == 0 && src[i + 2] == 3 {
                out.push(0);
                out.push(0);
                i = i + 3;
                proof {
                    assert(rest.skip(3) =~= src@.skip(i as int));
                    assert(before + unescaped(rest) =~= out@ + unescaped(src@.skip(i as int)));
                }
            } else {
                out.push(src[i]);
                i = i + 1;
                proof {
                    assert(rest.skip(1) =~= src@.skip(i as int));
                    assert(before + unescaped(rest) =~= out@ + unescaped(src@.skip(i as int)));
                }
            }
        }
        proof {
            assert(src@.skip(n as int) =~= Seq::empty());
            assert(out@ + unescaped(src@.skip(i as int)) =~= out@);
        }
        out
    }

    /// Reads an unsigned Exp-Golomb number and moves the position behind it.
    pub fn read_ue(rbsp: &[u8], bit_pos: &mut usize) -> (r: Option<u32>)
        requires
            *old(bit_pos) + 64 <= usize::MAX,
        ensures
            (r, *final(bit_pos) as int) == exp_golomb(rbsp@, *old(bit_pos) as int),
    {
        let n: usize = rbsp.len();
        let start: usize = *bit_pos;
        let mut pos: usize = start;
        let mut zeros: usize = 0;
        let ghost end = 8 * n as int;
        let mut found: bool = false;
        while !found && pos / 8 < n
            invariant
                n == rbsp@.len(),
                end == 8 * n,
                zeros <= 31,
                start + 64 <= usize::MAX,
                !found ==> pos == start + zeros,
                !found ==> zero_run(rbsp@, start as int) == zeros + zero_run(
                    rbsp@,
                    start + zeros,
                ),
                found ==> pos == start + zeros + 1 && pos <= end && zero_run(rbsp@, start as int)
                    == zeros,
                *bit_pos == start,
                start == *old(bit_pos),
            decreases (if found { 0int } else { 1 + end - pos }),
        {
            let byte: u8 = rbsp[pos / 8];
            let shift: u8 = 7 - (pos % 8) as u8;
            let bit: u8 = (byte >> shift) & 1;
            proof {
                assert(bit as nat == bit_at(rbsp@, pos as int));
                lemma_bit_is_bit(byte, shift);
            }
            pos = pos + 1;
            if bit == 0 {
                zeros = zeros + 1;
                if zeros > 31 {
                    *bit_pos = pos;
                    return None;
                }
            } else {
                found = true;
            }
        }
        let ghost z = zeros as nat;
        let ghost first = pos as int;
        proof {
            if !found {
                assert(zero_run(rbsp@, start + zeros) == 0);
            }
            vstd::arithmetic::power2::lemma2_to64();
        }
        let mut suffix: u32 = 0;
        let mut k: usize = 0;
        while k < zeros
            invariant
                n == rbsp@.len(),
                end == 8 * n,
                k <= zeros <= 31,
                z == zeros,
                start + 64 <= usize::MAX,
                pos == first + k,
                first == start + zeros + (if found { 1int } else { 0int }),
                !found ==> pos >= end && k == 0,
                zeros > 0 ==> start < end,
                zero_run(rbsp@, start as int) == zeros,
                found ==> pos <= end,
                found ==> suffix == bits_value(rbsp@, first, k as nat),
                suffix < vstd::arithmetic::power2::pow2(k as nat),
                *bit_pos == start,
                start == *old(bit_pos),
            decreases zeros - k,
        {
            if pos / 8 >= n {
                proof {
                    assert(pos >= end);
                    assert(start + zeros <= end) by {
                        lemma_zero_run_bound(rbsp@, start as int);
                    }
                }
                *bit_pos = pos;
                return None;
            }
            let byte: u8 = rbsp[pos / 8];
            let shift: u8 = 7 - (pos % 8) as u8;
            let bit: u8 = (byte >> shift) & 1;
            proof {
                assert(bit as nat == bit_at(rbsp@, pos as int));
                lemma_bit_is_bit(byte, shift);
                lemma_pow2_small(k as nat);
                lemma_pow2_small((k + 1) as nat);
                vstd::arithmetic::power2::lemma_pow2_unfold((k + 1) as nat);
            }
            suffix = suffix * 2 + bit as u32;
            pos = pos + 1;
            k = k + 1;
        }
        *bit_pos = pos;
        proof {
            lemma_pow2_small(z);
            vstd::bits::lemma_u32_shl_is_mul(1u32, zeros as u32);
            vstd::arithmetic::power2::lemma_pow2_pos(z);
            lemma_zero_run_bound(rbsp@, start as int);
        }
        Some(((1u32 << (zeros as u32)) - 1) + suffix)
    }

    /// Whether a slice is the first of its picture.
    pub fn is_first_slice(nal: &[u8]) -> (r: bool)
        ensures
            r == starts_picture(nal@),
    {
        let n: usize = nal.len();
        if n < 2 {
            return false;
        }
        let payload: &[u8] = &nal[1..n];
        assert(payload@ =~= nal@.skip(1));
        let rbsp = Self::remove_emulation_prevention(payload);
        let mut bit_pos: usize = 0;
        match Self::read_ue(rbsp.as_slice(), &mut bit_pos) {
            Some(v) => v == 0,
            None => false,
        }
    }

    /// Gives out what has been collected, where there is anything.
    fn build_packet_from_current(&mut self) -> (r: Option<MergedAu>)
        ensures
            unit_view(r) == old(self)@.collected(),
            final(self)@ == old(self)@.flushed(),
            r matches Some(au) ==> !au.is_config,
    {
        if self.current_au_nals.len() == 0 {
            return None;
        }
        let mut packet: Vec<u8> = Vec::new();
        if let Some(sps) = &self.sps {
            Self::append_annexb(&mut packet, sps.as_slice());
        }
        assert(packet@ =~= annexb_option(self@.sps));
        if let Some(pps) = &self.pps {
            Self::append_annexb(&mut packet, pps.as_slice());
        }
        let ghost head = annexb_option(self@.sps) + annexb_option(self@.pps);
        let ghost cur = self@.current;
        assert(packet@ =~= head);
        let count: usize = self.current_au_nals.len();
        let mut i: usize = 0;
        assert(cur.take(0) =~= Seq::empty());
        while i < count
            invariant
                i <= count,
                count == self.current_au_nals@.len(),
                cur == nals_view(self.current_au_nals@),
                packet@ == head + annexb_all(cur.take(i as int)),
                *self == *old(self),
            decreases count - i,
        {
            Self::append_annexb(&mut packet, self.current_au_nals[i].as_slice());
            proof {
                assert(cur.take(i + 1).drop_last() =~= cur.take(i as int));
                assert(cur.take(i + 1).last() == self.current_au_nals@[i as int]@);
                assert(packet@ =~= head + annexb_all(cur.take(i + 1)));
            }
            i = i + 1;
        }
        assert(cur.take(count as int) =~= cur);
        self.current_au_nals = Vec::new();
        self.current_has_vcl = false;
        let is_idr: bool = self.current_has_idr;
        self.current_has_idr = false;
        assert(self@ =~= old(self)@.flushed());
        Some(MergedAu { packet, is_idr, is_config: false })
    }

    /// Takes in a slice of the picture that is being collected.
    fn push_slice(&mut self, nal: &[u8], idr: bool)
        ensures
            final(self)@ == old(self)@.with_slice(nal@, idr),
    {
        if self.current_au_nals.len() == 0 {
            let mut waiting: Vec<Vec<u8>> = Vec::new();
            std::mem::swap(&mut waiting, &mut self.prefix_nals);
            self.current_au_nals = waiting;
        }
        self.current_au_nals.push(to_vec(nal));
        self.current_has_vcl = true;
        self.current_has_idr = self.current_has_idr || idr;
        assert(self@ =~= old(self)@.with_slice(nal@, idr));
    }

    /// Takes in a unit that is no slice.
    fn push_other(&mut self, nal: &[u8])
        ensures
            final(self)@ == old(self)@.with_other(nal@),
    {
        if self.current_au_nals.len() == 0 {
            self.prefix_nals.push(to_vec(nal));
        } else {
            self.current_au_nals.push(to_vec(nal));
        }
        assert(self@ =~= old(self)@.with_other(nal@));
    }

    /// Takes in one unit without a start code. Gives out the collected access unit where the
    /// unit begins the next picture or is an access unit delimiter.
    pub fn merge_nal(&mut self, nal: &[u8]) -> (r: Option<MergedAu>)
        ensures
            (final(self)@, unit_view(r)) == old(self)@.step(nal@),
            r matches Some(au) ==> !au.is_config,
            old(self)@.valid() ==> final(self)@.valid(),
    {
        proof {
            if self@.valid() {
                law_step_valid(self@, nal@);
            }
        }
        let kind: u8 = match Self::nal_type(nal) {
            Some(k) => k,
            None => {
                return None;
            },
        };
        if kind == 7 {
            self.sps = Some(to_vec(nal));
            assert(self@ =~= old(self)@.step(nal@).0);
            None
        } else if kind == 8 {
            self.pps = Some(to_vec(nal));
            assert(self@ =~= old(self)@.step(nal@).0);
            None
        } else if kind == 9 {
            self.build_packet_from_current()
        } else if kind == 1 || kind == 5 {
            if self.current_has_vcl && Self::is_first_slice(nal) {
                let out = self.build_packet_from_current();
                self.push_slice(nal, kind == 5);
                out
            } else {
                self.push_slice(nal, kind == 5);
                None
            }
        } else {
            self.push_other(nal);
            None
        }
    }
}

proof fn lemma_bit_is_bit(byte: u8, shift: u8)
    requires
        shift <= 7,
    ensures
        ((byte >> shift) & 1u8) <= 1,
{
    assert(((byte >> shift) & 1u8) <= 1) by (bit_vector);
}

proof fn lemma_pow2_small(k: nat)
    requires
        k <= 31,
    ensures
        vstd::arithmetic::power2::pow2(k) <= 0x8000_0000,
{
    vstd::arithmetic::power2::lemma2_to64();
    if k < 31 {
        vstd::arithmetic::power2::lemma_pow2_strictly_increases(k, 31);
    }
}

proof fn lemma_zero_run_bound(s: Seq<u8>, p: int)
    ensures
        p <= 8 * s.len() ==> p + zero_run(s, p) <= 8 * s.len(),
    decreases 8 * s.len() - p,
{
    if !(p >= 8 * s.len() || bit_at(s, p) != 0) {
        lemma_zero_run_bound(s, p + 1);
    }
}

/// Groups a list of units into access units: the packets with their key frame marks. The last
/// picture is not among them.
pub fn merge_h264_access_units_for_test(nals: &[Vec<u8>]) -> (r: Vec<(Vec<u8>, bool)>)
    ensures
        units_view(r@) == merged(nals_view(nals@)).1,
{
    let mut merger = H264AuMerger::new();
    let mut out: Vec<(Vec<u8>, bool)> = Vec::new();
    let mut i: usize = 0;
    let ghost all = nals_view(nals@);
    assert(all.take(0) =~= Seq::empty());
    assert(units_view(out@) =~= Seq::empty());
    while i < nals.len()
        invariant
            i <= nals.len(),
            all == nals_view(nals@),
            (merger@, units_view(out@)) == merged(all.take(i as int)),
        decreases nals.len() - i,
    {
        let ghost before = out@;
        proof {
            assert(all.take(i + 1).drop_last() =~= all.take(i as int));
            assert(all.take(i + 1).last() == nals@[i as int]@);
        }
        if let Some(au) = merger.merge_nal(nals[i].as_slice()) {
            out.push((au.packet, au.is_idr));
            assert(units_view(out@) =~= units_view(before).push(
                AccessUnit { packet: au.packet@, is_idr: au.is_idr },
            ));
        }
        i = i + 1;
    }
    assert(all.take(nals@.len() as int) =~= all);
    out
}

/// Packets with their key frame marks, as access units.
pub open spec fn units_view(v: Seq<(Vec<u8>, bool)>) -> Seq<AccessUnit> {
    v.map_values(|u: (Vec<u8>, bool)| AccessUnit { packet: u.0@, is_idr: u.1 })
}

proof fn lemma_holds_idr_push(nals: Seq<Seq<u8>>, nal: Seq<u8>)
    ensures
        holds_idr(nals.push(nal)) == (holds_idr(nals) || nal_kind(nal) == Some(5u8)),
{
    let more = nals.push(nal);
    if holds_idr(nals) {
        let i = choose|i: int| 0 <= i < nals.len() && nal_kind(#[trigger] nals[i]) == Some(5u8);
        assert(more[i] == nals[i]);
    }
    if nal_kind(nal) == Some(5u8) {
        assert(more[nals.len() as int] == nal);
    }
    if holds_idr(more) {
        let i = choose|i: int| 0 <= i < more.len() && nal_kind(#[trigger] more[i]) == Some(5u8);
        if i < nals.len() {
            assert(more[i] == nals[i]);
        }
    }
}

/// Taking in a unit keeps a merger's state valid.
pub proof fn law_step_valid(st: AuState, nal: Seq<u8>)
    requires
        st.valid(),
    ensures
        st.step(nal).0.valid(),
{
    lemma_holds_idr_push(st.prefix, nal);
    lemma_holds_idr_push(st.current, nal);
    lemma_holds_idr_push(Seq::empty(), nal);
    assert(!holds_idr(Seq::<Seq<u8>>::empty()));
    if st.current.len() > 0 {
        assert(st.prefix =~= Seq::empty());
    } else {
        assert(st.current =~= Seq::empty());
    }
}

/// No unit is lost, repeated or reordered: what is given out, followed by what is then pending,
/// is what was pending before, followed by the unit where it is one that is kept. What is given
/// out is the collected picture behind the parameter sets, marked as a key frame exactly when it
/// holds an IDR slice.
pub proof fn law_no_unit_lost(st: AuState, nal: Seq<u8>)
    requires
        st.valid(),
    ensures
        ({
            let (next, out) = st.step(nal);
            let given = if out is Some {
                st.current
            } else {
                Seq::empty()
            };
            let taken = if is_kept(nal) {
                seq![nal]
            } else {
                Seq::empty()
            };
            &&& given + next.pending() == st.pending() + taken
            &&& out matches Some(u) ==> {
                &&& st.current.len() > 0
                &&& u.packet == annexb_option(st.sps) + annexb_option(st.pps) + annexb_all(
                    st.current,
                )
                &&& u.is_idr == holds_idr(st.current)
            }
        }),
{
    let (next, out) = st.step(nal);
    let given = if out is Some {
        st.current
    } else {
        Seq::empty()
    };
    let taken = if is_kept(nal) {
        seq![nal]
    } else {
        Seq::empty()
    };
    assert(given + next.pending() =~= st.pending() + taken);
}

/// A slice begins a picture exactly when the first bit behind its one-byte header is set.
pub proof fn law_starts_picture(nal: Seq<u8>)
    ensures
        starts_picture(nal) <==> nal.len() >= 2 && nal[1] >= 0x80,
{
    if nal.len() >= 2 {
        let p = nal.skip(1);
        let r = unescaped(p);
        assert(p[0] == nal[1]);
        assert(r.len() > 0 && r[0] == p[0]);
        let b = r[0];
        assert(((b >> 7u8) & 1u8 == 1u8) <==> b >= 0x80) by (bit_vector);
        lemma_bit_is_bit(b, 7);
        assert(bit_at(r, 0) == ((b >> 7u8) & 1u8) as nat);
        law_exp_golomb_zero(r, 0);
    }
}

proof fn lemma_bits_value_bound(s: Seq<u8>, p: int, n: nat)
    ensures
        bits_value(s, p, n) < vstd::arithmetic::power2::pow2(n),
    decreases n,
{
    if n == 0 {
        vstd::arithmetic::power2::lemma2_to64();
    } else {
        lemma_bits_value_bound(s, p, (n - 1) as nat);
        vstd::arithmetic::power2::lemma_pow2_unfold(n);
        let q = p + n - 1;
        assert(0 <= 7 - q % 8 <= 7);
        lemma_bit_is_bit(s[q / 8], (7 - q % 8) as u8);
    }
}

/// The number zero is the single bit one; every other Exp-Golomb number starts with a zero bit.
pub proof fn law_exp_golomb_zero(s: Seq<u8>, p: int)
    requires
        0 <= p < 8 * s.len(),
    ensures
        exp_golomb(s, p).0 == Some(0u32) <==> bit_at(s, p) != 0,
        bit_at(s, p) != 0 ==> exp_golomb(s, p).1 == p + 1,
{
    let z = zero_run(s, p);
    vstd::arithmetic::power2::lemma2_to64();
    if bit_at(s, p) == 0 {
        assert(z == 1 + zero_run(s, p + 1));
        if z < 32 {
            lemma_pow2_small(z);
            vstd::arithmetic::power2::lemma_pow2_unfold(z);
            vstd::arithmetic::power2::lemma_pow2_pos((z - 1) as nat);
            lemma_bits_value_bound(s, p + z + 1, z);
        }
    }
}

/// Whether a unit is a slice of a picture: its type, the remainder of its first byte by 32, is one
/// or five.
pub open spec fn is_slice(nal: Seq<u8>) -> bool {
    nal.len() > 0 && (nal[0] % 32 == 1 || nal[0] % 32 == 5)
}

/// Whether a unit is the slice with which a picture begins: the first bit behind its first byte is
/// set.
pub open spec fn is_first_slice_of_picture(nal: Seq<u8>) -> bool {
    is_slice(nal) && nal.len() >= 2 && nal[1] >= 128
}

/// Whether units are of one picture: no slice behind another slice begins a picture.
pub open spec fn is_one_picture(nals: Seq<Seq<u8>>) -> bool {
    forall|i: int, j: int|
        0 <= i < j < nals.len() && is_slice(#[trigger] nals[i]) ==> !is_first_slice_of_picture(
            #[trigger] nals[j],
        )
}

/// The units of each access unit that a list of units completes.
pub open spec fn completed_groups(nals: Seq<Seq<u8>>) -> Seq<Seq<Seq<u8>>>
    decreases nals.len(),
{
    if nals.len() == 0 {
        Seq::empty()
    } else {
        let before = completed_groups(nals.drop_last());
        let st = merged(nals.drop_last()).0;
        if st.step(nals.last()).1 is Some {
            before.push(st.current)
        } else {
            before
        }
    }
}

/// The units that go into access units: all that have a byte and are of another type than seven,
/// eight and nine.
pub open spec fn kept_units(nals: Seq<Seq<u8>>) -> Seq<Seq<u8>> {
    nals.filter(
        |n: Seq<u8>| n.len() > 0 && n[0] % 32 != 7 && n[0] % 32 != 8 && n[0] % 32 != 9,
    )
}

/// The type of a unit is the remainder of its first byte by 32.
pub proof fn law_nal_kind(nal: Seq<u8>)
    ensures
        nal_kind(nal) is Some <==> nal.len() > 0,
        nal.len() > 0 ==> nal_kind(nal) == Some((nal[0] % 32) as u8),
{
    if nal.len() > 0 {
        let b = nal[0];
        assert(b & 0x1F == b % 32) by (bit_vector);
    }
}

/// A slice completes the unit that is being collected exactly when that unit has a slice and the
/// slice begins a picture, whatever kinds of slices they are. It is then alone in the next unit;
/// otherwise it goes behind what is collected, or behind what waits for the first slice. The
/// parameter sets stay.
pub proof fn law_picture_boundary(st: AuState, nal: Seq<u8>)
    requires
        st.valid(),
        is_slice(nal),
    ensures
        st.step(nal).1 is Some <==> st.current.len() > 0 && is_first_slice_of_picture(nal),
        st.current.len() > 0 && is_first_slice_of_picture(nal) ==> st.step(nal).0.current
            == st.prefix.push(nal) && st.prefix.len() == 0,
        st.current.len() > 0 && !is_first_slice_of_picture(nal) ==> st.step(nal).0.current
            == st.current.push(nal),
        st.current.len() == 0 ==> st.step(nal).0.current == st.prefix.push(nal),
        st.step(nal).0.prefix.len() == 0,
        st.step(nal).0.sps == st.sps,
        st.step(nal).0.pps == st.pps,
{
    law_nal_kind(nal);
    law_starts_picture(nal);
    if st.current.len() > 0 {
        assert(st.prefix =~= Seq::empty());
        assert(st.flushed().with_slice(nal, nal[0] % 32 == 5).current =~= st.prefix.push(nal));
    }
}

/// An access unit delimiter completes what is collected and leaves the rest. A parameter set takes
/// the place of the earlier one of its type and completes nothing. Any other unit that is no slice
/// goes behind what is collected, or waits for the first slice. A unit without bytes does nothing.
pub proof fn law_other_units(st: AuState, nal: Seq<u8>)
    requires
        st.valid(),
    ensures
        nal.len() == 0 ==> st.step(nal) == (st, None::<AccessUnit>),
        nal.len() > 0 && nal[0] % 32 == 9 ==> {
            &&& st.step(nal).1 is Some <==> st.current.len() > 0
            &&& st.step(nal).0.current.len() == 0
            &&& st.step(nal).0.prefix == st.prefix
            &&& st.step(nal).0.sps == st.sps
            &&& st.step(nal).0.pps == st.pps
        },
        nal.len() > 0 && nal[0] % 32 == 7 ==> st.step(nal) == (
            AuState { sps: Some(nal), ..st },
            None::<AccessUnit>,
        ),
        nal.len() > 0 && nal[0] % 32 == 8 ==> st.step(nal) == (
            AuState { pps: Some(nal), ..st },
            None::<AccessUnit>,
        ),
        nal.len() > 0 && !is_slice(nal) && !(7 <= nal[0] % 32 <= 9) ==> {
            &&& st.step(nal).1 is None
            &&& st.step(nal).0.prefix + st.step(nal).0.current == (st.prefix + st.current).push(nal)
            &&& st.step(nal).0.current.len() > 0 <==> st.current.len() > 0
            &&& st.step(nal).0.sps == st.sps
            &&& st.step(nal).0.pps == st.pps
        },
{
    law_nal_kind(nal);
    if st.current.len() == 0 {
        assert(st.current =~= Seq::empty());
        assert(st.prefix.push(nal) + st.current =~= (st.prefix + st.current).push(nal));
    } else {
        assert(st.prefix =~= Seq::empty());
        assert(st.prefix + st.current.push(nal) =~= (st.prefix + st.current).push(nal));
    }
}

proof fn lemma_state_reached(nals: Seq<Seq<u8>>)
    ensures
        merged(nals).0.valid(),
        is_one_picture(merged(nals).0.current),
        forall|i: int|
            0 <= i < merged(nals).0.prefix.len() ==> !is_slice(#[trigger] merged(nals).0.prefix[i]),
        merged(nals).0.current.len() > 0 ==> exists|i: int|
            0 <= i < merged(nals).0.current.len() && is_slice(#[trigger] merged(nals).0.current[i]),
    decreases nals.len(),
{
    if nals.len() == 0 {
        assert(!holds_idr(Seq::<Seq<u8>>::empty()));
    } else {
        lemma_state_reached(nals.drop_last());
        let st = merged(nals.drop_last()).0;
        let nal = nals.last();
        let next = st.step(nal).0;
        law_step_valid(st, nal);
        law_nal_kind(nal);
        if is_slice(nal) {
            law_picture_boundary(st, nal);
            assert(next.current.last() == nal);
            assert(is_slice(next.current[next.current.len() - 1]));
        } else {
            law_other_units(st, nal);
            if st.current.len() > 0 && next.current.len() > 0 {
                let i = choose|i: int|
                    0 <= i < st.current.len() && is_slice(#[trigger] st.current[i]);
                assert(next.current[i] == st.current[i]);
            }
        }
    }
}

/// An access unit holds one picture. In every state that is reached from the empty merger, and in
/// every unit that is completed on the way, no slice behind the first one begins a picture, and
/// there is a slice. No unit is lost or moved: the completed units, what is collected and what
/// waits are the units that were taken in, in order.
pub proof fn law_one_picture_per_unit(nals: Seq<Seq<u8>>)
    ensures
        is_one_picture(merged(nals).0.current),
        merged(nals).1.len() == completed_groups(nals).len(),
        forall|k: int|
            0 <= k < completed_groups(nals).len() ==> is_one_picture(
                #[trigger] completed_groups(nals)[k],
            ) && exists|i: int|
                0 <= i < completed_groups(nals)[k].len() && is_slice(
                    #[trigger] completed_groups(nals)[k][i],
                ),
        completed_groups(nals).flatten() + merged(nals).0.prefix + merged(nals).0.current
            == kept_units(nals),
    decreases nals.len(),
{
    lemma_state_reached(nals);
    reveal(Seq::filter);
    if nals.len() > 0 {
        let init = nals.drop_last();
        let nal = nals.last();
        law_one_picture_per_unit(init);
        lemma_state_reached(init);
        let st = merged(init).0;
        let (next, out) = st.step(nal);
        let groups = completed_groups(init);
        law_nal_kind(nal);
        law_no_unit_lost(st, nal);
        let given: Seq<Seq<u8>> = if out is Some {
            st.current
        } else {
            Seq::empty()
        };
        if out is Some {
            groups.lemma_flatten_push(st.current);
        }
        assert(completed_groups(nals).flatten() =~= groups.flatten() + given);
        assert(completed_groups(nals).flatten() + next.prefix + next.current =~= groups.flatten()
            + (given + next.pending()));
        assert(groups.flatten() + st.prefix + st.current =~= groups.flatten() + st.pending());
        let taken: Seq<Seq<u8>> = if is_kept(nal) {
            seq![nal]
        } else {
            Seq::empty()
        };
        assert(groups.flatten() + (st.pending() + taken) =~= (groups.flatten() + st.pending())
            + taken);
        assert(kept_units(nals) =~= kept_units(init) + taken);
    }
}

/// A completed access unit is the start code and the bytes of the last sequence parameter set, then
/// of the last picture parameter set, where there are such, then of each unit of the picture, and is
/// a key frame exactly when one of them is of type five.
pub proof fn law_completed_packet(st: AuState, nal: Seq<u8>)
    requires
        st.valid(),
        st.step(nal).1 is Some,
    ensures
        st.step(nal).1->Some_0.packet == framed_units(
            (match st.sps {
                Some(sps) => seq![sps],
                None => Seq::empty(),
            }) + (match st.pps {
                Some(pps) => seq![pps],
                None => Seq::empty(),
            }) + st.current,
        ),
        st.step(nal).1->Some_0.is_idr <==> exists|i: int|
            0 <= i < st.current.len() && (#[trigger] st.current[i]).len() > 0 && st.current[i][0] % 32
                == 5,
{
    law_nal_kind(nal);
    lemma_framed_units(st.current);
    let first: Seq<Seq<u8>> = match st.sps {
        Some(sps) => seq![sps],
        None => Seq::empty(),
    };
    let second: Seq<Seq<u8>> = match st.pps {
        Some(pps) => seq![pps],
        None => Seq::empty(),
    };
    lemma_framed_add(first, second);
    lemma_framed_add(first + second, st.current);
    assert(first.len() > 0 ==> first.drop_first() =~= Seq::empty());
    assert(second.len() > 0 ==> second.drop_first() =~= Seq::empty());
    reveal_with_fuel(framed_units, 2);
    assert(framed_units(first) =~= annexb_option(st.sps));
    assert(framed_units(second) =~= annexb_option(st.pps));
    assert forall|i: int| 0 <= i < st.current.len() implies ((#[trigger] st.current[i]).len() > 0
        && st.current[i][0] % 32 == 5 <==> nal_kind(st.current[i]) == Some(5u8)) by {
        law_nal_kind(st.current[i]);
    }
}

/// Units in order, each behind the bytes 0, 0, 0 and 1.
pub open spec fn framed_units(nals: Seq<Seq<u8>>) -> Seq<u8>
    decreases nals.len(),
{
    if nals.len() == 0 {
        Seq::empty()
    } else {
        seq![0u8, 0u8, 0u8, 1u8] + nals[0] + framed_units(nals.drop_first())
    }
}

proof fn lemma_framed_add(a: Seq<Seq<u8>>, b: Seq<Seq<u8>>)
    ensures
        framed_units(a + b) == framed_units(a) + framed_units(b),
    decreases a.len(),
{
    if a.len() == 0 {
        assert(a + b =~= b);
        assert(framed_units(a) + framed_units(b) =~= framed_units(b));
    } else {
        lemma_framed_add(a.drop_first(), b);
        assert((a + b).drop_first() =~= a.drop_first() + b);
        assert(framed_units(a + b) =~= framed_units(a) + framed_units(b));
    }
}

proof fn lemma_framed_units(nals: Seq<Seq<u8>>)
    ensures
        annexb_all(nals) == framed_units(nals),
    decreases nals.len(),
{
    if nals.len() > 0 {
        let last = seq![nals.last()];
        lemma_framed_units(nals.drop_last());
        lemma_framed_add(nals.drop_last(), last);
        assert(nals.drop_last() + last =~= nals);
        assert(last.drop_first() =~= Seq::empty());
        reveal_with_fuel(framed_units, 2);
        assert(framed_units(last) =~= annexb(nals.last()));
    }
}

/// A payload with emulation prevention bytes: a byte of value three stands between two zeros and a
/// byte of at most three.
pub open spec fn escaped(s: Seq<u8>) -> Seq<u8>
    decreases s.len(),
{
    if s.len() == 0 {
        Seq::empty()
    } else if s.len() > 2 && s[0] == 0 && s[1] == 0 && s[2] <= 3 {
        seq![0u8, 0u8, 3u8] + escaped(s.skip(2))
    } else {
        seq![s[0]] + escaped(s.skip(1))
    }
}

proof fn lemma_escaped_front(s: Seq<u8>)
    ensures
        s.len() > 0 ==> escaped(s).len() > 0 && escaped(s)[0] == s[0],
        s.len() > 1 ==> escaped(s).len() > 1 && escaped(s)[1] == s[1],
        s.len() <= 1 ==> escaped(s).len() == s.len(),
    decreases s.len(),
{
    reveal_with_fuel(escaped, 3);
}

/// What emulation prevention adds is taken out again: the payload comes back whole.
pub proof fn law_unescaped_gives_back(s: Seq<u8>)
    ensures
        unescaped(escaped(s)) == s,
    decreases s.len(),
{
    let e = escaped(s);
    if s.len() == 0 {
    } else if s.len() > 2 && s[0] == 0 && s[1] == 0 && s[2] <= 3 {
        law_unescaped_gives_back(s.skip(2));
        assert(e.skip(3) =~= escaped(s.skip(2)));
        assert(seq![0u8, 0u8] + s.skip(2) =~= s);
    } else {
        law_unescaped_gives_back(s.skip(1));
        let rest = escaped(s.skip(1));
        assert(e.skip(1) =~= rest);
        lemma_escaped_front(s.skip(1));
        if e.len() > 2 && e[0] == 0 && e[1] == 0 && e[2] == 3 {
            assert(e[1] == rest[0] && e[2] == rest[1]);
            assert(s.len() > 2);
            assert(s.skip(1)[0] == s[1] && s.skip(1)[1] == s[2]);
        }
        assert(seq![s[0]] + s.skip(1) =~= s);
    }
}

/// The bits of a byte run from its most significant one down: eight of them, read as a number, are
/// the byte.
pub proof fn law_bits_of_a_byte(s: Seq<u8>, i: int)
    requires
        0 <= i < s.len(),
    ensures
        bits_value(s, 8 * i, 8) == s[i],
{
    let b = s[i];
    reveal_with_fuel(bits_value, 9);
    assert(bit_at(s, 8 * i + 0) == ((b >> 7u8) & 1u8) as nat);
    assert(bit_at(s, 8 * i + 1) == ((b >> 6u8) & 1u8) as nat);
    assert(bit_at(s, 8 * i + 2) == ((b >> 5u8) & 1u8) as nat);
    assert(bit_at(s, 8 * i + 3) == ((b >> 4u8) & 1u8) as nat);
    assert(bit_at(s, 8 * i + 4) == ((b >> 3u8) & 1u8) as nat);
    assert(bit_at(s, 8 * i + 5) == ((b >> 2u8) & 1u8) as nat);
    assert(bit_at(s, 8 * i + 6) == ((b >> 1u8) & 1u8) as nat);
    assert(bit_at(s, 8 * i + 7) == ((b >> 0u8) & 1u8) as nat);
    assert(((b >> 7u8) & 1u8) * 128 + ((b >> 6u8) & 1u8) * 64 + ((b >> 5u8) & 1u8) * 32 + ((b >> 4u8)
        & 1u8) * 16 + ((b >> 3u8) & 1u8) * 8 + ((b >> 2u8) & 1u8) * 4 + ((b >> 1u8) & 1u8) * 2 + ((b
        >> 0u8) & 1u8) == b) by (bit_vector);
}

#[verifier::spinoff_prover]
proof fn lemma_bits_value_front(s: Seq<u8>, p: int, n: nat)
    ensures
        bits_value(s, p, n + 1) == vstd::arithmetic::power2::pow2(n) * bit_at(s, p) + bits_value(
            s,
            p + 1,
            n,
        ),
    decreases n,
{
    let b = bit_at(s, p) as int;
    let w = vstd::arithmetic::power2::pow2(n) as int;
    if n > 0 {
        let m = (n - 1) as nat;
        let h = vstd::arithmetic::power2::pow2(m) as int;
        lemma_bits_value_front(s, p, m);
        vstd::arithmetic::power2::lemma_pow2_unfold(n);
        assert(m + 1 == n);
        assert(bits_value(s, p, n) == h * b + bits_value(s, p + 1, m));
        assert(bits_value(s, p, n + 1) == 2 * bits_value(s, p, n) + bit_at(s, p + n));
        assert(p + 1 + n - 1 == p + n);
        assert(bits_value(s, p + 1, n) == 2 * bits_value(s, p + 1, m) + bit_at(s, p + n));
        assert(w * b == 2 * (h * b)) by (nonlinear_arith)
            requires
                w == 2 * h,
        ;
    } else {
        vstd::arithmetic::power2::lemma2_to64();
        reveal_with_fuel(bits_value, 2);
        assert(bits_value(s, p, 1) == bit_at(s, p));
        assert(w == 1);
        assert(w * b == b) by (nonlinear_arith)
            requires
                w == 1,
        ;
    }
}

/// An Exp-Golomb number of `z` zero bits, a one bit and `z` more bits, plus one, is what the bits
/// from the one bit on stand for; the position behind it is behind the last of them. So numbers
/// with more zero bits in front are larger.
pub proof fn law_exp_golomb_value(s: Seq<u8>, p: int, z: nat)
    requires
        0 <= p,
        z < 32,
        p + 2 * z + 1 <= 8 * s.len(),
        forall|k: int| p <= k < p + z ==> #[trigger] bit_at(s, k) == 0,
        bit_at(s, p + z) == 1,
    ensures
        exp_golomb(s, p).0 is Some,
        exp_golomb(s, p).0->Some_0 + 1 == bits_value(s, p + z, z + 1),
        exp_golomb(s, p).1 == p + 2 * z + 1,
        vstd::arithmetic::power2::pow2(z) <= exp_golomb(s, p).0->Some_0 + 1
            < vstd::arithmetic::power2::pow2(z + 1),
{
    lemma_zero_run_is(s, p, z);
    lemma_bits_value_front(s, p + z, z);
    lemma_bits_value_bound(s, p + z + 1, z);
    lemma_pow2_small(z);
    vstd::arithmetic::power2::lemma_pow2_pos(z);
    vstd::arithmetic::power2::lemma_pow2_unfold(z + 1);
}

proof fn lemma_zero_run_is(s: Seq<u8>, p: int, z: nat)
    requires
        p + z < 8 * s.len(),
        forall|k: int| p <= k < p + z ==> #[trigger] bit_at(s, k) == 0,
        bit_at(s, p + z) == 1,
    ensures
        zero_run(s, p) == z,
    decreases z,
{
    if z > 0 {
        assert(bit_at(s, p) == 0);
        lemma_zero_run_is(s, p + 1, (z - 1) as nat);
    }
}

/// There is no Exp-Golomb number behind 32 zero bits, and none where the data ends inside it.
pub proof fn law_exp_golomb_broken(s: Seq<u8>, p: int, z: nat)
    requires
        0 <= p,
        0 < z,
        p + z <= 8 * s.len(),
        forall|k: int| p <= k < p + z ==> #[trigger] bit_at(s, k) == 0,
        z >= 32 || p + 2 * z + 1 > 8 * s.len(),
    ensures
        exp_golomb(s, p).0 is None,
{
    lemma_zero_run_at_least(s, p, z);
}

proof fn lemma_zero_run_at_least(s: Seq<u8>, p: int, z: nat)
    requires
        p + z <= 8 * s.len(),
        forall|k: int| p <= k < p + z ==> #[trigger] bit_at(s, k) == 0,
    ensures
        zero_run(s, p) >= z,
    decreases z,
{
    if z > 0 {
        assert(bit_at(s, p) == 0);
        lemma_zero_run_at_least(s, p + 1, (z - 1) as nat);
    }
}

} // verus!
