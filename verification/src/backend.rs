//! Decoder back ends: what they are asked for, what they give, and how frames leave them.

use vstd::prelude::*;

use crate::bounded::queue_of;
use crate::error::ScrcpyError;
use crate::text::concat;

verus! {

/// A frame as BGRA pixels in memory.
#[derive(Debug, Clone)]
pub struct BgraFrame {
    pub data: Vec<u8>,
    pub width: u32,
    pub height: u32,
    pub pts: i64,
}

/// A frame from a decoder.
#[derive(Debug, Clone)]
pub enum DecodedFrame {
    CpuBgra(BgraFrame),
    GpuShared { handle: i64, width: u32, height: u32, pts: i64 },
}

/// A frame from the codec library.
#[derive(Debug, Clone)]
pub enum FfmpegDecodedFrame {
    CpuBgra(BgraFrame),
    GpuShared { handle: i64, width: u32, height: u32, pts: i64 },
}

/// What a decoder has done.
#[derive(Debug, Clone, Copy, PartialEq, Eq, Structural)]
pub struct DecoderStats {
    pub decoded_frames: u64,
    pub dropped_frames: u64,
}

/// Which decoder is wanted.
#[derive(Debug, Clone, Copy, PartialEq, Eq, Structural)]
pub enum DecoderPreference {
    PreferHardware,
    ForceHardware,
    ForceSoftware,
}

/// What kind of frames a decoder gives: shared texture handles, or pixels in memory.
#[derive(Debug, Clone, Copy, PartialEq, Eq, Structural)]
pub enum DecoderOutputMode {
    GpuShared,
    CpuBgra,
}

impl DecoderPreference {
    /// The preference where nothing else is said.
    pub fn from_env() -> (r: Self)
        ensures
            r == DecoderPreference::PreferHardware,
    {
        DecoderPreference::PreferHardware
    }
}

/// A decoder.
pub trait VideoDecoder {
    /// The name of the back end.
    fn name(&self) -> &'static str;

    /// Decodes a packet into the frames that it completes.
    fn decode(&mut self, packet: &[u8]) -> Result<Vec<DecodedFrame>, ScrcpyError>;

    /// Gives out what is left.
    fn flush(&mut self) -> Result<Vec<DecodedFrame>, ScrcpyError>;

    /// What the decoder has done.
    fn stats(&self) -> DecoderStats;
}

/// Makes decoders.
pub struct DecoderFactory;

/// What `create` gives for a preference: the back end that was asked for, or with a preference
/// for hardware the software back end where the hardware one fails.
pub open spec fn created<D, H: Fn(DecoderOutputMode) -> Result<D, ScrcpyError>, S: Fn(
    DecoderOutputMode,
) -> Result<D, ScrcpyError>>(
    preference: DecoderPreference,
    mode: DecoderOutputMode,
    hardware: H,
    software: S,
    r: Result<D, ScrcpyError>,
) -> bool {
    match preference {
        DecoderPreference::ForceSoftware => call_ensures(software, (mode,), r),
        DecoderPreference::ForceHardware => call_ensures(hardware, (mode,), r),
        DecoderPreference::PreferHardware => {
            ||| r is Ok && call_ensures(hardware, (mode,), r)
            ||| call_ensures(software, (mode,), r) && exists|e: ScrcpyError|
                call_ensures(hardware, (mode,), Err::<D, ScrcpyError>(e))
        },
    }
}

impl DecoderFactory {
    /// Makes the decoder for shared textures where nothing else is said.
    pub fn create_from_env<D, H: Fn(DecoderOutputMode) -> Result<D, ScrcpyError>, S: Fn(
        DecoderOutputMode,
    ) -> Result<D, ScrcpyError>>(hardware: H, software: S) -> (r: Result<D, ScrcpyError>)
        requires
            forall|m: DecoderOutputMode| call_requires(hardware, (m,)),
            forall|m: DecoderOutputMode| call_requires(software, (m,)),
        ensures
            created(
                DecoderPreference::PreferHardware,
                DecoderOutputMode::GpuShared,
                hardware,
                software,
                r,
            ),
    {
        Self::create(
            DecoderPreference::from_env(),
            DecoderOutputMode::GpuShared,
            hardware,
            software,
        )
    }

    /// Makes a decoder: `hardware` and `software` make one of their kind.
    pub fn create<D, H: Fn(DecoderOutputMode) -> Result<D, ScrcpyError>, S: Fn(
        DecoderOutputMode,
    ) -> Result<D, ScrcpyError>>(
        preference: DecoderPreference,
        output_mode: DecoderOutputMode,
        hardware: H,
        software: S,
    ) -> (r: Result<D, ScrcpyError>)
        requires
            forall|m: DecoderOutputMode| call_requires(hardware, (m,)),
            forall|m: DecoderOutputMode| call_requires(software, (m,)),
        ensures
            created(preference, output_mode, hardware, software, r),
    {
        match preference {
            DecoderPreference::ForceSoftware => software(output_mode),
            DecoderPreference::ForceHardware => hardware(output_mode),
            DecoderPreference::PreferHardware => {
                match hardware(output_mode) {
                    Ok(d) => Ok(d),
                    Err(_) => software(output_mode),
                }
            },
        }
    }
}

/// The two kinds of back ends.
#[derive(Debug, Clone, Copy, PartialEq, Eq, Structural)]
pub enum BackendKind {
    Software,
    Hardware,
}

impl BackendKind {
    /// The name of the back end.
    pub fn name(self) -> (r: &'static str)
        ensures
            r@ == match self {
                BackendKind::Software => "ffmpeg-sw"@,
                BackendKind::Hardware => "ffmpeg-hw"@,
            },
    {
        match self {
            BackendKind::Software => "ffmpeg-sw",
            BackendKind::Hardware => "ffmpeg-hw",
        }
    }

    /// The word for the back end in error texts.
    pub open spec fn word(self) -> Seq<char> {
        match self {
            BackendKind::Software => "software"@,
            BackendKind::Hardware => "hardware"@,
        }
    }

    fn word_text(self) -> (r: &'static str)
        ensures
            r@ == self.word(),
    {
        match self {
            BackendKind::Software => "software",
            BackendKind::Hardware => "hardware",
        }
    }
}

/// The output side of a decoder back end. With shared textures, pixels have to be uploaded.
pub struct BackendOutput {
    pub kind: BackendKind,
    pub output_mode: DecoderOutputMode,
    pub has_uploader: bool,
    pub stats: DecoderStats,
}

/// What one frame of the codec library becomes. Pixels become a texture only where there is an
/// uploader.
pub open spec fn frame_becomes<U: Fn(&BgraFrame) -> Result<u64, String>>(
    mode: DecoderOutputMode,
    has_uploader: bool,
    upload: U,
    frame: FfmpegDecodedFrame,
    out: DecodedFrame,
) -> bool {
    match (mode, frame) {
        (
            DecoderOutputMode::GpuShared,
            FfmpegDecodedFrame::GpuShared { handle, width, height, pts },
        ) => out == (DecodedFrame::GpuShared { handle, width, height, pts }),
        (DecoderOutputMode::GpuShared, FfmpegDecodedFrame::CpuBgra(f)) => has_uploader
            && exists|handle: u64| #[trigger]
            call_ensures(upload, (&f,), Ok::<u64, String>(handle)) && out == (
            DecodedFrame::GpuShared {
                handle: handle as i64,
                width: f.width,
                height: f.height,
                pts: f.pts,
            }),
        (DecoderOutputMode::CpuBgra, FfmpegDecodedFrame::CpuBgra(f)) => out
            == DecodedFrame::CpuBgra(f),
        (DecoderOutputMode::CpuBgra, FfmpegDecodedFrame::GpuShared { .. }) => false,
    }
}

/// The error for a frame that cannot be given out.
pub open spec fn frame_fails<U: Fn(&BgraFrame) -> Result<u64, String>>(
    kind: BackendKind,
    mode: DecoderOutputMode,
    has_uploader: bool,
    upload: U,
    frame: FfmpegDecodedFrame,
    e: crate::error::ErrorView,
) -> bool {
    match (mode, frame) {
        (DecoderOutputMode::GpuShared, FfmpegDecodedFrame::CpuBgra(f)) => if has_uploader {
            exists|m: String| #[trigger]
                call_ensures(upload, (&f,), Err::<u64, String>(m)) && e
                    == crate::error::ErrorView::Decode(kind.word() + " uploader failed: "@ + m@)
        } else {
            e == crate::error::ErrorView::Decode(kind.word() + " uploader unavailable"@)
        },
        (DecoderOutputMode::CpuBgra, FfmpegDecodedFrame::GpuShared { .. }) => e
            == crate::error::ErrorView::Decode("received GPU frame in CpuBgra mode"@),
        _ => false,
    }
}

impl BackendOutput {
    /// The output side of a new decoder. Only shared textures need an uploader.
    pub fn new(kind: BackendKind, output_mode: DecoderOutputMode) -> (r: Self)
        ensures
            r.kind == kind,
            r.output_mode == output_mode,
            r.has_uploader == (output_mode == DecoderOutputMode::GpuShared),
            r.stats == (DecoderStats { decoded_frames: 0, dropped_frames: 0 }),
    {
        BackendOutput {
            kind,
            output_mode,
            has_uploader: match output_mode {
                DecoderOutputMode::GpuShared => true,
                DecoderOutputMode::CpuBgra => false,
            },
            stats: DecoderStats { decoded_frames: 0, dropped_frames: 0 },
        }
    }

    /// Turns the frames of the codec library into frames of the kind that is wanted, in order.
    /// `upload` puts pixels into a shared texture. The first frame that cannot be given out makes
    /// the whole an error; all frames count as decoded either way.
    pub fn decode<U: Fn(&BgraFrame) -> Result<u64, String>>(
        &mut self,
        frames: Vec<FfmpegDecodedFrame>,
        upload: U,
    ) -> (r: Result<Vec<DecodedFrame>, ScrcpyError>)
        requires
            forall|f: BgraFrame| call_requires(upload, (&f,)),
        ensures
            final(self).kind == old(self).kind,
            final(self).output_mode == old(self).output_mode,
            final(self).has_uploader == old(self).has_uploader,
            final(self).stats.dropped_frames == old(self).stats.dropped_frames,
            final(self).stats.decoded_frames == if old(self).stats.decoded_frames + frames@.len()
                > u64::MAX {
                u64::MAX as int
            } else {
                old(self).stats.decoded_frames + frames@.len()
            },
            match r {
                Ok(out) => out@.len() == frames@.len() && forall|i: int|
                    0 <= i < frames@.len() ==> frame_becomes(
                        old(self).output_mode,
                        old(self).has_uploader,
                        upload,
                        frames@[i],
                        #[trigger] out@[i],
                    ),
                Err(e) => exists|i: int|
                    {
                        &&& 0 <= i < frames@.len()
                        &&& #[trigger] frame_fails(
                            old(self).kind,
                            old(self).output_mode,
                            old(self).has_uploader,
                            upload,
                            frames@[i],
                            e@,
                        )
                        &&& exists|out: Seq<DecodedFrame>|
                            #![trigger out.len()]
                            out.len() == i && forall|j: int|
                                0 <= j < i ==> frame_becomes(
                                    old(self).output_mode,
                                    old(self).has_uploader,
                                    upload,
                                    frames@[j],
                                    #[trigger] out[j],
                                )
                    },
            },
    {
        self.stats.decoded_frames = self.stats.decoded_frames.saturating_add(frames.len() as u64);
        let mut out: Vec<DecodedFrame> = Vec::new();
        let mut rest = queue_of(frames);
        let mut done: Ghost<int> = Ghost(0);
        let ghost me = *self;
        while rest.len() > 0
            invariant
                forall|f: BgraFrame| call_requires(upload, (&f,)),
                *self == me,
                me.kind == old(self).kind,
                me.output_mode == old(self).output_mode,
                me.has_uploader == old(self).has_uploader,
                me.stats.dropped_frames == old(self).stats.dropped_frames,
                me.stats.decoded_frames == if old(self).stats.decoded_frames + frames@.len()
                    > u64::MAX {
                    u64::MAX as int
                } else {
                    old(self).stats.decoded_frames + frames@.len()
                },
                0 <= done@ <= frames@.len(),
                rest@ == frames@.skip(done@),
                out@.len() == done@,
                forall|i: int|
                    0 <= i < done@ ==> frame_becomes(
                        me.output_mode,
                        me.has_uploader,
                        upload,
                        frames@[i],
                        #[trigger] out@[i],
                    ),
            decreases rest.len(),
        {
            let ghost before = out@;
            if let Some(frame) = rest.pop_front() {
                assert(frame == frames@[done@]);
                assert(rest@ =~= frames@.skip(done@ + 1));
                match self.output_frame(frame, &upload) {
                    Ok(d) => {
                        out.push(d);
                        proof {
                            assert forall|i: int| 0 <= i < done@ + 1 implies frame_becomes(
                                me.output_mode,
                                me.has_uploader,
                                upload,
                                frames@[i],
                                #[trigger] out@[i],
                            ) by {
                                if i < done@ {
                                    assert(out@[i] == before[i]);
                                }
                            }
                        }
                    },
                    Err(e) => {
                        assert(before.len() == done@);
                        return Err(e);
                    },
                }
                proof {
                    done@ = done@ + 1;
                }
            }
        }
        Ok(out)
    }

    fn output_frame<U: Fn(&BgraFrame) -> Result<u64, String>>(
        &self,
        frame: FfmpegDecodedFrame,
        upload: &U,
    ) -> (r: Result<DecodedFrame, ScrcpyError>)
        requires
            forall|f: BgraFrame| call_requires(*upload, (&f,)),
        ensures
            match r {
                Ok(d) => frame_becomes(
                    self.output_mode,
                    self.has_uploader,
                    *upload,
                    frame,
                    d,
                ),
                Err(e) => frame_fails(
                    self.kind,
                    self.output_mode,
                    self.has_uploader,
                    *upload,
                    frame,
                    e@,
                ),
            },
    {
        match self.output_mode {
            DecoderOutputMode::GpuShared => match frame {
                FfmpegDecodedFrame::GpuShared { handle, width, height, pts } => Ok(
                    DecodedFrame::GpuShared { handle, width, height, pts },
                ),
                FfmpegDecodedFrame::CpuBgra(f) => {
                    if !self.has_uploader {
                        return Err(
                            ScrcpyError::Decode(
                                concat(self.kind.word_text(), " uploader unavailable"),
                            ),
                        );
                    }
                    match upload(&f) {
                        Ok(handle) => Ok(
                            DecodedFrame::GpuShared {
                                handle: handle as i64,
                                width: f.width,
                                height: f.height,
                                pts: f.pts,
                            },
                        ),
                        Err(m) => {
                            let prefix: String = concat(
                                self.kind.word_text(),
                                " uploader failed: ",
                            );
                            Err(ScrcpyError::Decode(concat(prefix.as_str(), m.as_str())))
                        },
                    }
                },
            },
            DecoderOutputMode::CpuBgra => match frame {
                FfmpegDecodedFrame::CpuBgra(f) => Ok(DecodedFrame::CpuBgra(f)),
                FfmpegDecodedFrame::GpuShared { .. } => Err(
                    ScrcpyError::Decode("received GPU frame in CpuBgra mode".to_owned()),
                ),
            },
        }
    }
}

/// A frame keeps its width, its height and its time whatever it becomes, and becomes a texture where
/// textures are wanted and pixels where pixels are. A frame that is already of that kind stays the
/// same.
pub proof fn law_frames_keep_size_and_time<U: Fn(&BgraFrame) -> Result<u64, String>>(
    mode: DecoderOutputMode,
    has_uploader: bool,
    upload: U,
    frame: FfmpegDecodedFrame,
    out: DecodedFrame,
)
    requires
        frame_becomes(mode, has_uploader, upload, frame, out),
    ensures
        out is GpuShared <==> mode is GpuShared,
        frame matches FfmpegDecodedFrame::CpuBgra(f) ==> match out {
            DecodedFrame::GpuShared { width, height, pts, .. } => has_uploader && width == f.width
                && height == f.height && pts == f.pts,
            DecodedFrame::CpuBgra(g) => g == f,
        },
        frame matches FfmpegDecodedFrame::GpuShared { handle, width, height, pts } ==> out == (
        DecodedFrame::GpuShared { handle, width, height, pts }),
        frame is CpuBgra && mode is GpuShared ==> exists|h: u64| #[trigger]
            call_ensures(upload, (&frame->CpuBgra_0,), Ok::<u64, String>(h)) && out->handle == h as i64,
{
}

/// A frame fails exactly for one of these reasons: a texture came where pixels are wanted, or pixels
/// came where textures are wanted and there is no uploader or the uploader failed. A frame of the
/// wanted kind never fails.
pub proof fn law_frames_that_fail<U: Fn(&BgraFrame) -> Result<u64, String>>(
    kind: BackendKind,
    mode: DecoderOutputMode,
    has_uploader: bool,
    upload: U,
    frame: FfmpegDecodedFrame,
    e: crate::error::ErrorView,
)
    requires
        frame_fails(kind, mode, has_uploader, upload, frame, e),
    ensures
        frame is GpuShared <==> mode is CpuBgra,
        frame is GpuShared ==> e == crate::error::ErrorView::Decode(
            "received GPU frame in CpuBgra mode"@,
        ),
        frame is CpuBgra && !has_uploader && kind is Hardware ==> e
            == crate::error::ErrorView::Decode("hardware"@ + " uploader unavailable"@),
        frame is CpuBgra && !has_uploader && kind is Software ==> e
            == crate::error::ErrorView::Decode("software"@ + " uploader unavailable"@),
        frame is CpuBgra && has_uploader ==> exists|m: String| #[trigger]
            call_ensures(upload, (&frame->CpuBgra_0,), Err::<u64, String>(m)) && e
                == crate::error::ErrorView::Decode(
                (if kind is Hardware {
                    "hardware"@
                } else {
                    "software"@
                }) + " uploader failed: "@ + m@,
            ),
{
}

/// A decoder that is forced comes from the maker of its kind, whatever that gives. Where hardware is
/// only preferred, the software maker is asked exactly after the hardware maker has failed, and an
/// error is always that of the software maker.
pub proof fn law_which_decoder_is_made<
    D,
    H: Fn(DecoderOutputMode) -> Result<D, ScrcpyError>,
    S: Fn(DecoderOutputMode) -> Result<D, ScrcpyError>,
>(
    preference: DecoderPreference,
    mode: DecoderOutputMode,
    hardware: H,
    software: S,
    r: Result<D, ScrcpyError>,
)
    requires
        created(preference, mode, hardware, software, r),
    ensures
        preference is ForceSoftware ==> call_ensures(software, (mode,), r),
        preference is ForceHardware ==> call_ensures(hardware, (mode,), r),
        preference is PreferHardware && r is Err ==> call_ensures(software, (mode,), r),
        preference is PreferHardware && !call_ensures(hardware, (mode,), r) ==> call_ensures(
            software,
            (mode,),
            r,
        ) && exists|e: ScrcpyError| call_ensures(hardware, (mode,), Err::<D, ScrcpyError>(e)),
{
}

} // verus!
