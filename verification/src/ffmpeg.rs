//! The rules around the codec library: which codec is opened, how packets are offered to it, and
//! how its frames are taken.

use vstd::prelude::*;

use crate::backend::{BgraFrame, FfmpegDecodedFrame};
use crate::error::ScrcpyError;
use crate::text::{concat, has_text};
use crate::wire::{extend, to_vec};

verus! {

/// Which codec is wanted.
#[derive(Debug, Clone, Copy, PartialEq, Eq, Structural)]
pub enum FfmpegDecoderMode {
    PreferHw,
    ForceHw,
    ForceSw,
}

impl FfmpegDecoderMode {
    /// The codec where nothing else is said.
    pub fn from_env() -> (r: Self)
        ensures
            r == FfmpegDecoderMode::PreferHw,
    {
        FfmpegDecoderMode::PreferHw
    }
}

/// The hardware codecs, the best first.
pub open spec fn hw_names() -> Seq<Seq<char>> {
    seq!["h264_nvdec"@, "h264_cuvid"@, "h264_d3d11va"@, "h264_qsv"@]
}

/// The hardware codecs to look for, in order; none where software is forced.
pub fn hw_candidates(mode: FfmpegDecoderMode) -> (r: Vec<String>)
    ensures
        crate::text::strings_view(r@) == if mode == FfmpegDecoderMode::ForceSw {
            Seq::empty()
        } else {
            hw_names()
        },
{
    let mut out: Vec<String> = Vec::new();
    match mode {
        FfmpegDecoderMode::ForceSw => {
            assert(crate::text::strings_view(out@) =~= Seq::empty());
        },
        _ => {
            out.push("h264_nvdec".to_owned());
            out.push("h264_cuvid".to_owned());
            out.push("h264_d3d11va".to_owned());
            out.push("h264_qsv".to_owned());
            assert(crate::text::strings_view(out@) =~= hw_names());
        },
    }
    out
}

/// The codec to open: a hardware codec by its place in the list, or the software one.
#[derive(Debug, Clone, Copy, PartialEq, Eq, Structural)]
pub enum CodecChoice {
    Hardware(usize),
    Software,
}

/// The place of the first codec that was found.
pub open spec fn first_found(found: Seq<bool>) -> nat
    decreases found.len(),
{
    if found.len() == 0 || found[0] {
        0
    } else {
        1 + first_found(found.drop_first())
    }
}

proof fn lemma_first_found_is(found: Seq<bool>, n: int)
    requires
        0 <= n <= found.len(),
        forall|j: int| 0 <= j < n ==> !found[j],
        n < found.len() ==> found[n],
    ensures
        first_found(found) == n,
    decreases found.len(),
{
    if n > 0 {
        assert(!found[0]);
        lemma_first_found_is(found.drop_first(), n - 1);
    }
}

/// Chooses the codec. `hw_found` says of each candidate, in order, whether the codec library has
/// it; `sw_found` says so of the software codec.
pub fn choose_codec(mode: FfmpegDecoderMode, hw_found: &[bool], sw_found: bool) -> (r: Result<
    CodecChoice,
    ScrcpyError,
>)
    ensures
        ({
            let n = first_found(hw_found@);
            if mode != FfmpegDecoderMode::ForceSw && n < hw_found@.len() {
                r matches Ok(c) && c == CodecChoice::Hardware(n as usize)
            } else if mode == FfmpegDecoderMode::ForceHw {
                r matches Err(e) && e@ == crate::error::ErrorView::Decode(
                    "force_hw mode enabled, but no hardware decoder found"@,
                )
            } else if sw_found {
                r matches Ok(c) && c == CodecChoice::Software
            } else {
                r matches Err(e) && e@ == crate::error::ErrorView::Decode(
                    "H264 decoder not found"@,
                )
            }
        }),
{
    let mut i: usize = 0;
    while i < hw_found.len() && !hw_found[i]
        invariant
            i <= hw_found.len(),
            forall|j: int| 0 <= j < i ==> !hw_found@[j],
        decreases hw_found.len() - i,
    {
        i = i + 1;
    }
    proof {
        lemma_first_found_is(hw_found@, i as int);
    }
    if mode != FfmpegDecoderMode::ForceSw && i < hw_found.len() {
        return Ok(CodecChoice::Hardware(i));
    }
    if mode == FfmpegDecoderMode::ForceHw {
        return Err(
            ScrcpyError::Decode("force_hw mode enabled, but no hardware decoder found".to_owned()),
        );
    }
    if sw_found {
        Ok(CodecChoice::Software)
    } else {
        Err(ScrcpyError::Decode("H264 decoder not found".to_owned()))
    }
}

/// Whether data starts with a start code of three or four bytes.
pub open spec fn starts_with_code(data: Seq<u8>) -> bool {
    ||| data.len() >= 4 && data[0] == 0 && data[1] == 0 && data[2] == 0 && data[3] == 1
    ||| data.len() >= 3 && data[0] == 0 && data[1] == 0 && data[2] == 1
}

/// What to do after a packet was offered to the codec.
pub enum SendStep {
    /// Take the frames that it completed.
    Drain,
    /// Offer these bytes in its place.
    Retry(Vec<u8>),
    /// The packet gives no frames; it is no error.
    NoFrames,
    /// Decoding the packet failed.
    Fail(ScrcpyError),
}

/// What comes of a packet that the codec refused with the given text: data that it calls invalid
/// is no error, as parameter sets are refused that way.
pub open spec fn refused(step: SendStep, text: Seq<char>) -> bool {
    if crate::text::contains_text(text, "Invalid data"@) {
        step is NoFrames
    } else {
        step matches SendStep::Fail(e) && e@ == crate::error::ErrorView::Decode(
            "send packet failed: "@ + text,
        )
    }
}

/// What one attempt to take a frame gave: a shared texture, a frame in pixels or the reason why
/// it could not be converted, or nothing more.
pub enum ReceiveEvent {
    Direct { handle: i64, width: u32, height: u32, pts: i64 },
    Converted(Result<BgraFrame, ScrcpyError>),
    Finished,
}

/// The frames taken so far, or the end of the taking.
pub enum DrainStep {
    More,
    Done(Result<Vec<FfmpegDecodedFrame>, ScrcpyError>),
}

/// The state of a decoder beside the codec: how many frames it has given, those of the current
/// packet, and the picture format that its pixel conversion is made for.
pub struct FfmpegDecoder {
    frame_count: u64,
    outputs: Vec<FfmpegDecodedFrame>,
    scaler_source: Option<(u32, u32, i32)>,
}

impl FfmpegDecoder {
    /// How many frames the codec has given.
    pub closed spec fn frames_given(&self) -> u64 {
        self.frame_count
    }

    /// The frames of the current packet.
    pub closed spec fn collected(&self) -> Seq<FfmpegDecodedFrame> {
        self.outputs@
    }

    /// Width, height and pixel format that the pixel conversion is made for.
    pub closed spec fn source(&self) -> Option<(u32, u32, i32)> {
        self.scaler_source
    }

    /// A decoder that has given nothing.
    pub fn new() -> (r: Self)
        ensures
            r.frames_given() == 0,
            r.collected() == Seq::<FfmpegDecodedFrame>::empty(),
            r.source() is None,
    {
        FfmpegDecoder { frame_count: 0, outputs: Vec::new(), scaler_source: None }
    }

    /// Whether data starts with a start code.
    pub fn has_start_code(data: &[u8]) -> (r: bool)
        ensures
            r == starts_with_code(data@),
    {
        let n: usize = data.len();
        (n >= 4 && data[0] == 0 && data[1] == 0 && data[2] == 0 && data[3] == 1) || (n >= 3
            && data[0] == 0 && data[1] == 0 && data[2] == 1)
    }

    /// Begins a packet: the bytes to offer to the codec, unchanged, or nothing for an empty
    /// packet, which gives no frames.
    pub fn begin_packet(&mut self, packet_data: &[u8]) -> (r: Option<Vec<u8>>)
        ensures
            final(self).frames_given() == old(self).frames_given(),
            final(self).source() == old(self).source(),
            final(self).collected() == Seq::<FfmpegDecodedFrame>::empty(),
            match r {
                Some(b) => packet_data@.len() > 0 && b@ == packet_data@,
                None => packet_data@.len() == 0,
            },
    {
        self.outputs = Vec::new();
        if packet_data.len() == 0 {
            None
        } else {
            Some(to_vec(packet_data))
        }
    }

    /// What to do after the packet was offered unchanged. A refused packet without a start code
    /// is offered once more behind one.
    pub fn after_send(packet_data: &[u8], outcome: &Result<(), String>) -> (r: SendStep)
        ensures
            match *outcome {
                Ok(_) => r is Drain,
                Err(m) => if starts_with_code(packet_data@) {
                    refused(r, m@)
                } else {
                    r matches SendStep::Retry(b) && b@ == seq![0u8, 0u8, 0u8, 1u8] + packet_data@
                },
            },
    {
        match outcome {
            Ok(_) => SendStep::Drain,
            Err(m) => {
                if Self::has_start_code(packet_data) {
                    Self::refuse(m.as_str())
                } else {
                    let mut b: Vec<u8> = Vec::new();
                    b.push(0);
                    b.push(0);
                    b.push(0);
                    b.push(1);
                    extend(&mut b, packet_data);
                    assert(b@ =~= seq![0u8, 0u8, 0u8, 1u8] + packet_data@);
                    SendStep::Retry(b)
                }
            },
        }
    }

    /// What to do after the packet was offered behind a start code, having been refused with
    /// `first` before.
    pub fn after_retry(first: &str, outcome: &Result<(), String>) -> (r: SendStep)
        ensures
            match *outcome {
                Ok(_) => r is Drain,
                Err(m) => refused(r, first@ + "; retry="@ + m@),
            },
    {
        match outcome {
            Ok(_) => SendStep::Drain,
            Err(m) => {
                let mut text: String = concat(first, "; retry=");
                text.append(m.as_str());
                Self::refuse(text.as_str())
            },
        }
    }

    fn refuse(text: &str) -> (r: SendStep)
        ensures
            refused(r, text@),
    {
        if has_text(text, "Invalid data") {
            SendStep::NoFrames
        } else {
            SendStep::Fail(ScrcpyError::Decode(concat("send packet failed: ", text)))
        }
    }

    /// Takes in one attempt to take a frame. At the end it gives the frames of the packet; a
    /// frame that could not be converted makes the whole packet fail, though it is counted.
    pub fn on_received(&mut self, event: ReceiveEvent) -> (r: DrainStep)
        requires
            old(self).frames_given() < u64::MAX,
        ensures
            final(self).source() == old(self).source(),
            match event {
                ReceiveEvent::Direct { handle, width, height, pts } => {
                    &&& r is More
                    &&& final(self).frames_given() == old(self).frames_given() + 1
                    &&& final(self).collected() == old(self).collected().push(
                        FfmpegDecodedFrame::GpuShared { handle, width, height, pts },
                    )
                },
                ReceiveEvent::Converted(Ok(f)) => {
                    &&& r is More
                    &&& final(self).frames_given() == old(self).frames_given() + 1
                    &&& final(self).collected() == old(self).collected().push(
                        FfmpegDecodedFrame::CpuBgra(f),
                    )
                },
                ReceiveEvent::Converted(Err(e)) => {
                    &&& r == DrainStep::Done(Err(e))
                    &&& final(self).frames_given() == old(self).frames_given() + 1
                    &&& final(self).collected() == Seq::<FfmpegDecodedFrame>::empty()
                },
                ReceiveEvent::Finished => {
                    &&& r matches DrainStep::Done(Ok(frames))
                    &&& frames@ == old(self).collected()
                    &&& final(self).frames_given() == old(self).frames_given()
                    &&& final(self).collected() == Seq::<FfmpegDecodedFrame>::empty()
                },
            },
    {
        match event {
            ReceiveEvent::Direct { handle, width, height, pts } => {
                self.frame_count = self.frame_count + 1;
                self.outputs.push(FfmpegDecodedFrame::GpuShared { handle, width, height, pts });
                DrainStep::More
            },
            ReceiveEvent::Converted(Ok(f)) => {
                self.frame_count = self.frame_count + 1;
                self.outputs.push(FfmpegDecodedFrame::CpuBgra(f));
                DrainStep::More
            },
            ReceiveEvent::Converted(Err(e)) => {
                self.frame_count = self.frame_count + 1;
                self.outputs = Vec::new();
                DrainStep::Done(Err(e))
            },
            ReceiveEvent::Finished => {
                let mut frames: Vec<FfmpegDecodedFrame> = Vec::new();
                std::mem::swap(&mut frames, &mut self.outputs);
                DrainStep::Done(Ok(frames))
            },
        }
    }

    /// How many frames the codec has given.
    pub fn frame_count(&self) -> (r: u64)
        ensures
            r == self.frames_given(),
    {
        self.frame_count
    }

    /// Whether the pixel conversion has to be made anew for a picture, because there is none or
    /// it is for another size or pixel format.
    pub fn needs_scaler(&self, width: u32, height: u32, format: i32) -> (r: bool)
        ensures
            r == (self.source() != Some((width, height, format))),
    {
        match self.scaler_source {
            Some((w, h, f)) => w != width || h != height || f != format,
            None => true,
        }
    }

    /// Notes what the pixel conversion is now made for.
    pub fn scaler_made(&mut self, width: u32, height: u32, format: i32)
        ensures
            final(self).source() == Some((width, height, format)),
            final(self).frames_given() == old(self).frames_given(),
            final(self).collected() == old(self).collected(),
    {
        self.scaler_source = Some((width, height, format));
    }
}

/// The first `width` bytes of each of `rows` rows that lie `stride` bytes apart.
pub open spec fn packed_rows(data: Seq<u8>, stride: int, width: int, rows: nat) -> Seq<u8>
    decreases rows,
{
    if rows == 0 {
        Seq::empty()
    } else {
        packed_rows(data, stride, width, (rows - 1) as nat) + data.subrange(
            (rows - 1) * stride,
            (rows - 1) * stride + width,
        )
    }
}

/// Copies the pixels of a picture without the padding between its rows. Each pixel has four
/// bytes.
pub fn copy_pixel_rows(data: &[u8], stride: usize, width: u32, height: u32) -> (r: Vec<u8>)
    requires
        width * 4 <= stride,
        stride * height <= data@.len(),
    ensures
        r@ == packed_rows(data@, stride as int, width * 4, height as nat),
        r@.len() == width * 4 * height,
{
    let n: usize = data.len();
    let row_len: usize = if height == 0 {
        0
    } else {
        proof {
            assert(stride <= stride * height) by (nonlinear_arith)
                requires
                    height >= 1,
                    stride >= 0,
            ;
        }
        width as usize * 4
    };
    let mut out: Vec<u8> = Vec::new();
    let mut y: u32 = 0;
    let mut start: usize = 0;
    assert(width * 4 * 0 == 0) by (nonlinear_arith);
    while y < height
        invariant
            y <= height,
            n == data@.len(),
            height > 0 ==> row_len == width * 4,
            width * 4 <= stride,
            stride * height <= n,
            start == stride * y,
            out@ == packed_rows(data@, stride as int, width * 4, y as nat),
            out@.len() == width * 4 * y,
        decreases height - y,
    {
        proof {
            assert(stride * (y + 1) == stride * y + stride) by (nonlinear_arith);
            assert(stride * (y + 1) <= stride * height) by (nonlinear_arith)
                requires
                    y + 1 <= height,
                    stride >= 0,
            ;
            assert(width * 4 * (y + 1) == width * 4 * y + width * 4) by (nonlinear_arith);
            assert(y * stride == stride * y) by (nonlinear_arith);
        }
        let row: &[u8] = &data[start..start + row_len];
        extend(&mut out, row);
        start = start + stride;
        y = y + 1;
    }
    out
}

/// Each pixel byte of the copy is the byte at the same place of the picture.
pub proof fn law_packed_rows(data: Seq<u8>, stride: int, width: int, rows: nat, y: int, x: int)
    requires
        0 <= width <= stride,
        stride * rows <= data.len(),
        0 <= y < rows,
        0 <= x < width,
    ensures
        packed_rows(data, stride, width, rows).len() == width * rows,
        0 <= width * y + x < width * rows,
        packed_rows(data, stride, width, rows)[width * y + x] == data[stride * y + x],
    decreases rows,
{
    lemma_packed_rows_len(data, stride, width, rows);
    let m = (rows - 1) as nat;
    assert(width * rows == width * m + width) by (nonlinear_arith)
        requires
            rows == m + 1,
    ;
    assert(stride * rows == m * stride + stride) by (nonlinear_arith)
        requires
            rows == m + 1,
    ;
    assert(stride * m <= stride * rows) by (nonlinear_arith)
        requires
            rows == m + 1,
            stride >= 0,
    ;
    assert(0 <= m * stride) by (nonlinear_arith)
        requires
            m >= 0,
            stride >= 0,
    ;
    assert(0 <= width * y) by (nonlinear_arith)
        requires
            y >= 0,
            width >= 0,
    ;
    lemma_packed_rows_len(data, stride, width, m);
    let row = data.subrange(m * stride, m * stride + width);
    if y == m {
        assert(packed_rows(data, stride, width, rows)[width * y + x] == row[x]);
        assert(stride * y == m * stride) by (nonlinear_arith)
            requires
                y == m,
        ;
    } else {
        law_packed_rows(data, stride, width, m, y, x);
    }
}

proof fn lemma_packed_rows_len(data: Seq<u8>, stride: int, width: int, rows: nat)
    requires
        0 <= width <= stride,
        stride * rows <= data.len(),
    ensures
        packed_rows(data, stride, width, rows).len() == width * rows,
    decreases rows,
{
    if rows > 0 {
        let m = (rows - 1) as nat;
        assert(stride * rows == m * stride + stride && width * rows == width * m + width)
            by (nonlinear_arith)
            requires
                rows == m + 1,
        ;
        assert(0 <= m * stride && stride * m <= stride * rows) by (nonlinear_arith)
            requires
                rows == m + 1,
                stride >= 0,
        ;
        lemma_packed_rows_len(data, stride, width, m);
    } else {
        assert(width * 0 == 0) by (nonlinear_arith);
    }
}

/// The codec that counts is the first one that was found: none in front of it was.
pub proof fn law_first_found(found: Seq<bool>, k: int)
    ensures
        first_found(found) <= found.len(),
        first_found(found) < found.len() ==> found[first_found(found) as int],
        0 <= k < first_found(found) ==> !found[k],
        first_found(found) == found.len() <==> !found.contains(true),
    decreases found.len(),
{
    if found.len() > 0 {
        if found[0] {
            assert(found.contains(found[0]));
        } else {
            let rest = found.drop_first();
            law_first_found(rest, k - 1);
            if 0 < k < first_found(found) {
                assert(rest[k - 1] == found[k]);
            }
            if rest.contains(true) {
                let i = choose|i: int| 0 <= i < rest.len() && rest[i] == true;
                assert(found[i + 1] == true);
            }
            if found.contains(true) {
                let i = choose|i: int| 0 <= i < found.len() && found[i] == true;
                assert(rest[i - 1] == true);
            }
        }
    }
}

/// Data behind a start code of three or four bytes starts with one, so a packet is offered again at
/// most once. Data that starts with another byte than zero does not, nor does any with less than two
/// zeros in front or with a third byte above one.
pub proof fn law_start_codes(data: Seq<u8>)
    ensures
        starts_with_code(seq![0u8, 0u8, 0u8, 1u8] + data),
        starts_with_code(seq![0u8, 0u8, 1u8] + data),
        data.len() < 3 ==> !starts_with_code(data),
        data.len() >= 3 && (data[0] != 0 || data[1] != 0 || data[2] > 1) ==> !starts_with_code(data),
        data.len() >= 3 && data[0] == 0 && data[1] == 0 && data[2] == 1 ==> starts_with_code(data),
        data.len() >= 3 && data[0] == 0 && data[1] == 0 && data[2] == 0 ==> (starts_with_code(data)
            <==> data.len() >= 4 && data[3] == 1),
{
}

/// The hardware codecs are looked for in this order.
pub proof fn law_hardware_codecs()
    ensures
        hw_names() == seq!["h264_nvdec"@, "h264_cuvid"@, "h264_d3d11va"@, "h264_qsv"@],
{
}

/// A refused packet is either no error or a failure with the whole text, and no error exactly where
/// the text calls the data invalid.
pub proof fn law_refused_packets(step: SendStep, text: Seq<char>)
    requires
        refused(step, text),
    ensures
        step is NoFrames <==> exists|i: int|
            0 <= i <= text.len() - "Invalid data"@.len() && #[trigger] text.subrange(
                i,
                i + "Invalid data"@.len(),
            ) == "Invalid data"@,
        step is NoFrames || (step matches SendStep::Fail(e) && e@ == crate::error::ErrorView::Decode(
            "send packet failed: "@ + text,
        )),
{
}

/// The codec that is opened: where software is not forced, the first hardware codec that was found;
/// else the software one, but not where hardware is forced. There is none exactly when the one that
/// may be opened was not found.
pub proof fn law_chosen_codec(
    mode: FfmpegDecoderMode,
    hw_found: &[bool],
    sw_found: bool,
    r: Result<CodecChoice, ScrcpyError>,
    k: int,
)
    requires
        call_ensures(choose_codec, (mode, hw_found, sw_found), r),
        hw_found@.len() <= usize::MAX,
    ensures
        r matches Ok(CodecChoice::Hardware(i)) ==> !(mode is ForceSw) && i < hw_found@.len()
            && hw_found@[i as int] && (0 <= k < i ==> !hw_found@[k]),
        r == Ok::<CodecChoice, ScrcpyError>(CodecChoice::Software) <==> sw_found && !(mode is ForceHw)
            && (mode is ForceSw || !hw_found@.contains(true)),
        r is Err <==> (mode is ForceHw && !hw_found@.contains(true)) || (!(mode is ForceHw)
            && !sw_found && (mode is ForceSw || !hw_found@.contains(true))),
{
    law_first_found(hw_found@, k);
}

/// A packet that is refused is offered once more behind a start code where it has none, and not
/// otherwise; that second packet has one.
pub proof fn law_refused_packets_are_retried(
    data: &[u8],
    outcome: Result<(), String>,
    r: SendStep,
)
    requires
        call_ensures(FfmpegDecoder::after_send, (data, &outcome), r),
    ensures
        r is Drain <==> outcome is Ok,
        r is Retry <==> outcome is Err && !starts_with_code(data@),
        r matches SendStep::Retry(b) ==> starts_with_code(b@) && b@.len() == data@.len() + 4
            && b@.skip(4) == data@,
{
    if let SendStep::Retry(b) = r {
        law_start_codes(data@);
        assert(b@.skip(4) =~= data@);
    }
}

} // verus!
