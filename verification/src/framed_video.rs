//! The framed video stream: packets behind a twelve-byte header.

use bytes::Bytes;
use vstd::prelude::*;

use crate::error::ScrcpyError;
use crate::text::concat;
use crate::wire::{get_u32, get_u64};

verus! {

/// The number of bytes in a packet header.
pub const SC_PACKET_HEADER_SIZE: usize = 12;

/// The header bit of a configuration packet.
pub const SC_PACKET_FLAG_CONFIG: u64 = 0x8000_0000_0000_0000;

/// The header bit of a key frame.
pub const SC_PACKET_FLAG_KEY_FRAME: u64 = 0x4000_0000_0000_0000;

/// The header bits of the time stamp.
pub const SC_PACKET_PTS_MASK: u64 = 0x3FFF_FFFF_FFFF_FFFF;

/// `bytes::Bytes`, a reference-counted run of bytes.
#[verifier::external_type_specification]
#[verifier::external_body]
pub struct ExBytes(bytes::Bytes);

/// The bytes that a `bytes::Bytes` holds.
pub uninterp spec fn bytes_content(b: bytes::Bytes) -> Seq<u8>;

/// `bytes::Bytes::from` on a vector: the result holds the vector's bytes.
#[verifier::external_body]
fn bytes_from_vec(v: Vec<u8>) -> (r: Bytes)
    ensures
        bytes_content(r) == v@,
{
    Bytes::from(v)
}

/// `to_vec` on the slice that a `bytes::Bytes` dereferences to: a copy of the bytes it holds.
#[verifier::external_body]
fn bytes_to_vec(b: &Bytes) -> (r: Vec<u8>)
    ensures
        r@ == bytes_content(*b),
{
    b.to_vec()
}

/// A packet of the video stream: encoded data, and whether it is configuration or a key frame.
pub struct FramedVideoPacket {
    pub is_config: bool,
    pub is_keyframe: bool,
    pub data: Bytes,
}

impl FramedVideoPacket {
    /// A copy of the packet's data.
    pub fn to_vec(&self) -> (r: Vec<u8>)
        ensures
            r@ == bytes_content(self.data),
    {
        bytes_to_vec(&self.data)
    }
}

/// The flags and the time stamp in the first eight bytes of a header.
#[derive(Debug, Clone, Copy, PartialEq, Eq, Structural)]
pub struct PtsFlags {
    pub is_config: bool,
    pub is_keyframe: bool,
    pub pts: u64,
}

/// What a header says of its packet. A configuration packet has no time stamp.
#[derive(Debug, Clone, Copy, PartialEq, Eq, Structural)]
pub struct PacketHeader {
    pub is_config: bool,
    pub is_keyframe: bool,
    pub pts_us: Option<u64>,
    pub size: u32,
}

/// How an exact read from the stream ended.
pub enum ReadOutcome {
    Data(Vec<u8>),
    EndOfStream,
    Failed(String),
}

/// The flags and the time stamp of a header word: the two highest bits, and the 62 others.
pub open spec fn pts_flags(word: u64) -> PtsFlags {
    PtsFlags {
        is_config: word >= 0x8000_0000_0000_0000,
        is_keyframe: (word / 0x4000_0000_0000_0000) % 2 == 1,
        pts: word % 0x4000_0000_0000_0000,
    }
}

/// What twelve header bytes say.
pub open spec fn header_of(bytes: Seq<u8>) -> PacketHeader {
    let f = pts_flags(crate::wire::be_value(bytes.subrange(0, 8)) as u64);
    PacketHeader {
        is_config: f.is_config,
        is_keyframe: f.is_keyframe,
        pts_us: if f.is_config {
            None
        } else {
            Some(f.pts)
        },
        size: crate::wire::be_value(bytes.subrange(8, 12)) as u32,
    }
}

/// Takes the flags and the time stamp of a header word apart.
pub fn parse_pts_flags(word: u64) -> (r: PtsFlags)
    ensures
        r == pts_flags(word),
{
    assert((word & 0x8000_0000_0000_0000 != 0) == (word >= 0x8000_0000_0000_0000)) by (bit_vector);
    assert((word & 0x4000_0000_0000_0000 != 0) == ((word / 0x4000_0000_0000_0000) % 2 == 1))
        by (bit_vector);
    assert(word & 0x3FFF_FFFF_FFFF_FFFF == word % 0x4000_0000_0000_0000) by (bit_vector);
    PtsFlags {
        is_config: (word & SC_PACKET_FLAG_CONFIG) != 0,
        is_keyframe: (word & SC_PACKET_FLAG_KEY_FRAME) != 0,
        pts: word & SC_PACKET_PTS_MASK,
    }
}

/// Reads a header. A packet without data is an error.
pub fn parse_header(header: &[u8]) -> (r: Result<PacketHeader, ScrcpyError>)
    requires
        header@.len() == SC_PACKET_HEADER_SIZE,
    ensures
        match r {
            Ok(h) => h == header_of(header@) && h.size > 0,
            Err(e) => header_of(header@).size == 0 && e@ == crate::error::ErrorView::VideoStream(
                "invalid framed packet: size=0"@,
            ),
        },
{
    let word: u64 = get_u64(header, 0);
    let size: u32 = get_u32(header, 8);
    if size == 0 {
        return Err(ScrcpyError::VideoStream("invalid framed packet: size=0".to_owned()));
    }
    let flags = parse_pts_flags(word);
    Ok(
        PacketHeader {
            is_config: flags.is_config,
            is_keyframe: flags.is_keyframe,
            pts_us: if flags.is_config {
                None
            } else {
                Some(flags.pts)
            },
            size,
        },
    )
}

/// Reads packets, counting them. The caller reads the bytes: first a header, then as many bytes
/// as the header says.
pub struct FramedVideoStreamReader {
    packet_count: u64,
}

impl FramedVideoStreamReader {
    /// How many packets have been read.
    pub closed spec fn count(&self) -> u64 {
        self.packet_count
    }

    /// A reader that has read nothing.
    pub fn new() -> (r: Self)
        ensures
            r.count() == 0,
    {
        FramedVideoStreamReader { packet_count: 0 }
    }

    /// How many packets have been read.
    pub fn packet_count(&self) -> (r: u64)
        ensures
            r == self.count(),
    {
        self.packet_count
    }

    /// Takes in the outcome of reading a header: the header, nothing at the end of the stream, or
    /// an error.
    pub fn on_header(&self, outcome: ReadOutcome) -> (r: Result<Option<PacketHeader>, ScrcpyError>)
        requires
            outcome matches ReadOutcome::Data(d) ==> d@.len() == SC_PACKET_HEADER_SIZE,
        ensures
            match outcome {
                ReadOutcome::Data(d) => if header_of(d@).size == 0 {
                    r matches Err(e) && e@ == crate::error::ErrorView::VideoStream(
                        "invalid framed packet: size=0"@,
                    )
                } else {
                    r == Ok::<Option<PacketHeader>, ScrcpyError>(Some(header_of(d@)))
                },
                ReadOutcome::EndOfStream => r == Ok::<Option<PacketHeader>, ScrcpyError>(None),
                ReadOutcome::Failed(m) => r matches Err(e) && e@
                    == crate::error::ErrorView::VideoStream("read packet header failed: "@ + m@),
            },
    {
        match outcome {
            ReadOutcome::Data(d) => match parse_header(d.as_slice()) {
                Ok(h) => Ok(Some(h)),
                Err(e) => Err(e),
            },
            ReadOutcome::EndOfStream => Ok(None),
            ReadOutcome::Failed(m) => Err(
                ScrcpyError::VideoStream(concat("read packet header failed: ", m.as_str())),
            ),
        }
    }

    /// Takes in the outcome of reading the data behind a header: the packet, which is counted,
    /// nothing at the end of the stream, or an error.
    pub fn on_payload(&mut self, header: PacketHeader, outcome: ReadOutcome) -> (r: Result<
        Option<FramedVideoPacket>,
        ScrcpyError,
    >)
        requires
            old(self).count() < u64::MAX,
            outcome matches ReadOutcome::Data(d) ==> d@.len() == header.size,
        ensures
            match outcome {
                ReadOutcome::Data(d) => {
                    &&& final(self).count() == old(self).count() + 1
                    &&& r matches Ok(Some(p))
                    &&& p.is_config == header.is_config
                    &&& p.is_keyframe == header.is_keyframe
                    &&& bytes_content(p.data) == d@
                },
                ReadOutcome::EndOfStream => final(self).count() == old(self).count() && r == Ok::<
                    Option<FramedVideoPacket>,
                    ScrcpyError,
                >(None),
                ReadOutcome::Failed(m) => final(self).count() == old(self).count() && (r matches
                    Err(e) && e@ == crate::error::ErrorView::VideoStream(
                    "read packet payload failed: "@ + m@,
                )),
            },
    {
        match outcome {
            ReadOutcome::Data(d) => {
                self.packet_count = self.packet_count + 1;
                Ok(
                    Some(
                        FramedVideoPacket {
                            is_config: header.is_config,
                            is_keyframe: header.is_keyframe,
                            data: bytes_from_vec(d),
                        },
                    ),
                )
            },
            ReadOutcome::EndOfStream => Ok(None),
            ReadOutcome::Failed(m) => Err(
                ScrcpyError::VideoStream(concat("read packet payload failed: ", m.as_str())),
            ),
        }
    }
}

/// The header word with the given flags and time stamp.
pub open spec fn flag_word(f: PtsFlags) -> u64 {
    ((if f.is_config {
        0x8000_0000_0000_0000int
    } else {
        0
    }) + (if f.is_keyframe {
        0x4000_0000_0000_0000int
    } else {
        0
    }) + f.pts) as u64
}

/// The header bytes of a packet.
pub open spec fn header_bytes(f: PtsFlags, size: u32) -> Seq<u8> {
    crate::wire::be(flag_word(f) as nat, 8) + crate::wire::be(size as nat, 4)
}

/// Reading a header gives back the flags, the time stamp and the size that were written.
pub proof fn law_header_round_trip(f: PtsFlags, size: u32)
    requires
        f.pts < 0x4000_0000_0000_0000,
    ensures
        header_bytes(f, size).len() == SC_PACKET_HEADER_SIZE,
        header_of(header_bytes(f, size)) == (PacketHeader {
            is_config: f.is_config,
            is_keyframe: f.is_keyframe,
            pts_us: if f.is_config {
                None
            } else {
                Some(f.pts)
            },
            size,
        }),
{
    let w = flag_word(f);
    let s = header_bytes(f, size);
    crate::wire::lemma_be_len(w as nat, 8);
    crate::wire::lemma_be_len(size as nat, 4);
    crate::wire::lemma_byte_range();
    crate::wire::law_be_round_trip(w as nat, 8);
    crate::wire::law_be_round_trip(size as nat, 4);
    assert(s.subrange(0, 8) =~= crate::wire::be(w as nat, 8));
    assert(s.subrange(8, 12) =~= crate::wire::be(size as nat, 4));
    assert(pts_flags(w) == f);
}

/// The video header before the first packet: one byte that says nothing, and in framed mode the
/// codec and the size of the video.
#[derive(Debug, Clone, Copy, PartialEq, Eq, Structural)]
pub struct CodecMeta {
    pub codec_id: u32,
    pub width: u32,
    pub height: u32,
}

/// How many bytes of codec information follow the first byte.
pub fn codec_meta_len(expect_codec_meta: bool) -> (r: usize)
    ensures
        r == if expect_codec_meta {
            12int
        } else {
            0int
        },
{
    if expect_codec_meta {
        12
    } else {
        0
    }
}

/// What twelve bytes of codec information say.
pub open spec fn codec_meta_of(bytes: Seq<u8>) -> CodecMeta {
    CodecMeta {
        codec_id: crate::wire::be_value(bytes.subrange(0, 4)) as u32,
        width: crate::wire::be_value(bytes.subrange(4, 8)) as u32,
        height: crate::wire::be_value(bytes.subrange(8, 12)) as u32,
    }
}

/// Reads the codec information.
pub fn parse_codec_meta(meta: &[u8]) -> (r: CodecMeta)
    requires
        meta@.len() == 12,
    ensures
        r == codec_meta_of(meta@),
{
    CodecMeta { codec_id: get_u32(meta, 0), width: get_u32(meta, 4), height: get_u32(meta, 8) }
}

/// The codec information is read back as it was written: three numbers of four bytes.
pub proof fn law_codec_meta_round_trip(codec_id: u32, width: u32, height: u32)
    ensures
        codec_meta_of(
            crate::wire::be(codec_id as nat, 4) + crate::wire::be(width as nat, 4)
                + crate::wire::be(height as nat, 4),
        ) == (CodecMeta { codec_id, width, height }),
{
    let s = crate::wire::be(codec_id as nat, 4) + crate::wire::be(width as nat, 4)
        + crate::wire::be(height as nat, 4);
    crate::wire::lemma_be_len(codec_id as nat, 4);
    crate::wire::lemma_be_len(width as nat, 4);
    crate::wire::lemma_be_len(height as nat, 4);
    crate::wire::lemma_byte_range();
    crate::wire::law_be_round_trip(codec_id as nat, 4);
    crate::wire::law_be_round_trip(width as nat, 4);
    crate::wire::law_be_round_trip(height as nat, 4);
    assert(s.subrange(0, 4) =~= crate::wire::be(codec_id as nat, 4));
    assert(s.subrange(4, 8) =~= crate::wire::be(width as nat, 4));
    assert(s.subrange(8, 12) =~= crate::wire::be(height as nat, 4));
}

/// The first byte of a header holds the two flags in its two highest bits: the higher is that of
/// configuration. The flags and the time stamp do not touch one another.
pub proof fn law_flags_in_first_byte(bytes: Seq<u8>)
    requires
        bytes.len() == 12,
    ensures
        header_of(bytes).is_config <==> bytes[0] >= 128,
        header_of(bytes).is_keyframe <==> (bytes[0] / 64) % 2 == 1,
        header_of(bytes).pts_us is None <==> bytes[0] >= 128,
        header_of(bytes).pts_us matches Some(t) ==> t == crate::wire::be_value(
            seq![(bytes[0] % 64) as u8] + bytes.subrange(1, 8),
        ),
        header_of(bytes).size == crate::wire::be_value(bytes.subrange(8, 12)),
{
    let front = seq![bytes[0]];
    let low = seq![(bytes[0] % 64) as u8];
    let rest = bytes.subrange(1, 8);
    assert(bytes.subrange(0, 8) =~= front + rest);
    crate::wire::law_most_significant_first(0, 0, front, rest);
    crate::wire::law_most_significant_first(0, 0, low, rest);
    crate::wire::law_be_value_round_trip(rest);
    crate::wire::law_be_value_round_trip(bytes.subrange(8, 12));
    crate::wire::lemma_byte_range();
    assert(crate::wire::byte_range(8) == 256 * crate::wire::byte_range(7));
    let m = crate::wire::byte_range(7) as int;
    assert(m == 0x100_0000_0000_0000);
    let high = bytes[0] as int;
    let six = (bytes[0] % 64) as int;
    assert(high * m == high * 0x100_0000_0000_0000 && six * m == six * 0x100_0000_0000_0000)
        by (nonlinear_arith)
        requires
            m == 0x100_0000_0000_0000,
    ;
    let tail = crate::wire::be_value(rest) as int;
    let word = crate::wire::be_value(bytes.subrange(0, 8)) as int;
    assert(rest.len() == 7 && 0 <= tail < m);
    assert(word == high * 0x100_0000_0000_0000 + tail);
    lemma_word_parts(word, high, tail);
}

/// The parts of a number of 64 bits whose highest byte is `high`.
proof fn lemma_word_parts(word: int, high: int, tail: int)
    requires
        0 <= high < 256,
        0 <= tail < 0x100_0000_0000_0000,
        word == high * 0x100_0000_0000_0000 + tail,
    ensures
        word < 0x1_0000_0000_0000_0000,
        word >= 0x8000_0000_0000_0000 <==> high >= 128,
        word / 0x4000_0000_0000_0000 == high / 64,
        word % 0x4000_0000_0000_0000 == (high % 64) * 0x100_0000_0000_0000 + tail,
{
    let q = high / 64;
    let r = high % 64;
    assert(word == q * 0x4000_0000_0000_0000 + (r * 0x100_0000_0000_0000 + tail));
}

/// A header is read exactly when its packet has data, as the twelve bytes say: flags and time stamp
/// from the first eight, the size from the others.
pub proof fn law_parse_header(header: &[u8], r: Result<PacketHeader, ScrcpyError>)
    requires
        call_ensures(parse_header, (header,), r),
        header@.len() == 12,
    ensures
        r is Err <==> header@.subrange(8, 12) == seq![0u8, 0u8, 0u8, 0u8],
        r matches Ok(h) ==> {
            &&& h.is_config <==> header@[0] >= 128
            &&& h.is_keyframe <==> (header@[0] / 64) % 2 == 1
            &&& h.pts_us is None <==> h.is_config
            &&& h.size == crate::wire::be_value(header@.subrange(8, 12))
        },
{
    let last = header@.subrange(8, 12);
    law_flags_in_first_byte(header@);
    crate::wire::law_be_value_round_trip(last);
    crate::wire::law_most_significant_first(0, 4, last, last);
    if crate::wire::be_value(last) == 0 {
        assert(last =~= seq![0u8, 0u8, 0u8, 0u8]);
    }
}

} // verus!
