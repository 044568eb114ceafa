//! What the renderer is told about frames.

use vstd::prelude::*;

use crate::backend::DecodedFrame;

verus! {

/// The number of the pixel format with red first.
pub const PIXEL_FORMAT_RGBA32: u32 = 5;

/// Numbers for frames: 1 comes first, and 0 follows the largest number.
#[derive(Debug)]
pub struct FrameCounter {
    next: u64,
}

/// The number behind a number.
pub open spec fn next_number(n: u64) -> u64 {
    if n == u64::MAX {
        0
    } else {
        (n + 1) as u64
    }
}

impl View for FrameCounter {
    type V = u64;

    closed spec fn view(&self) -> u64 {
        self.next
    }
}

impl FrameCounter {
    /// Numbers from 1.
    pub fn new() -> (r: Self)
        ensures
            r@ == 1,
    {
        FrameCounter { next: 1 }
    }

    /// Takes the next number.
    pub fn next_frame_id(&mut self) -> (r: u64)
        ensures
            r == old(self)@,
            final(self)@ == next_number(old(self)@),
    {
        let id: u64 = self.next;
        self.next = if id == u64::MAX {
            0
        } else {
            id + 1
        };
        id
    }
}

/// Pixels with red and blue exchanged. Bytes behind the last whole pixel are left out.
pub open spec fn swapped(src: Seq<u8>) -> Seq<u8> {
    Seq::new(
        src.len() / 4 * 4,
        |i: int|
            if i % 4 == 0 {
                src[i + 2]
            } else if i % 4 == 2 {
                src[i - 2]
            } else {
                src[i]
            },
    )
}

/// Pixels with red first, from pixels with blue first.
pub fn bgra_to_rgba(src: &[u8]) -> (r: Vec<u8>)
    ensures
        r@ == swapped(src@),
{
    let n: usize = src.len();
    let pixels: usize = n / 4;
    let mut out: Vec<u8> = Vec::with_capacity(n);
    let mut i: usize = 0;
    while i < pixels
        invariant
            n == src@.len(),
            pixels == n / 4,
            i <= pixels,
            out@.len() == 4 * i,
            forall|k: int| 0 <= k < out@.len() ==> out@[k] == swapped(src@)[k],
        decreases pixels - i,
    {
        let at: usize = 4 * i;
        out.push(src[at + 2]);
        out.push(src[at + 1]);
        out.push(src[at]);
        out.push(src[at + 3]);
        i = i + 1;
    }
    assert(out@ =~= swapped(src@));
    out
}

/// Exchanging red and blue twice gives whole pixels back as they were.
pub proof fn law_swap_twice(src: Seq<u8>)
    requires
        src.len() % 4 == 0,
    ensures
        swapped(swapped(src)) == src,
{
    assert(swapped(swapped(src)) =~= src);
}

/// What the renderer is told about a frame: a texture that it can open, or pixels.
#[derive(Debug)]
pub enum FrameNotice {
    Texture { handle: i64, width: u32, height: u32, generation: u64, pts: i64 },
    Pixels {
        frame_id: u64,
        data: Vec<u8>,
        width: u32,
        height: u32,
        stride: u32,
        pixel_format: u32,
        generation: u64,
        pts: i64,
    },
}

/// What the renderer is told about a frame, as a mathematical value.
pub enum NoticeView {
    Texture { handle: i64, width: u32, height: u32, generation: u64, pts: i64 },
    Pixels {
        frame_id: u64,
        data: Seq<u8>,
        width: u32,
        height: u32,
        stride: u32,
        pixel_format: u32,
        generation: u64,
        pts: i64,
    },
}

impl View for FrameNotice {
    type V = NoticeView;

    open spec fn view(&self) -> NoticeView {
        match *self {
            FrameNotice::Texture { handle, width, height, generation, pts } => NoticeView::Texture {
                handle,
                width,
                height,
                generation,
                pts,
            },
            FrameNotice::Pixels {
                frame_id,
                data,
                width,
                height,
                stride,
                pixel_format,
                generation,
                pts,
            } => NoticeView::Pixels {
                frame_id,
                data: data@,
                width,
                height,
                stride,
                pixel_format,
                generation,
                pts,
            },
        }
    }
}

/// The bytes of a row of pixels, as far as they can be counted.
pub open spec fn row_bytes(width: u32) -> u32 {
    if width * 4 > u32::MAX {
        u32::MAX
    } else {
        (width * 4) as u32
    }
}

/// What the renderer is told about a frame. Pixels get the next number.
pub open spec fn notice_for(frame: DecodedFrame, generation: u64, next_id: u64) -> NoticeView {
    match frame {
        DecodedFrame::GpuShared { handle, width, height, pts } => NoticeView::Texture {
            handle,
            width,
            height,
            generation,
            pts,
        },
        DecodedFrame::CpuBgra(b) => NoticeView::Pixels {
            frame_id: next_id,
            data: swapped(b.data@),
            width: b.width,
            height: b.height,
            stride: row_bytes(b.width),
            pixel_format: PIXEL_FORMAT_RGBA32,
            generation,
            pts: b.pts,
        },
    }
}

/// The next number after a frame.
pub open spec fn id_after(frame: DecodedFrame, next_id: u64) -> u64 {
    match frame {
        DecodedFrame::GpuShared { .. } => next_id,
        DecodedFrame::CpuBgra(_) => next_number(next_id),
    }
}

/// What the renderer is told about a frame.
pub fn frame_notice(frame: &DecodedFrame, generation: u64, ids: &mut FrameCounter) -> (r:
    FrameNotice)
    ensures
        r@ == notice_for(*frame, generation, old(ids)@),
        final(ids)@ == id_after(*frame, old(ids)@),
{
    match frame {
        DecodedFrame::GpuShared { handle, width, height, pts } => FrameNotice::Texture {
            handle: *handle,
            width: *width,
            height: *height,
            generation,
            pts: *pts,
        },
        DecodedFrame::CpuBgra(b) => FrameNotice::Pixels {
            frame_id: ids.next_frame_id(),
            data: bgra_to_rgba(b.data.as_slice()),
            width: b.width,
            height: b.height,
            stride: match b.width.checked_mul(4) {
                Some(n) => n,
                None => u32::MAX,
            },
            pixel_format: PIXEL_FORMAT_RGBA32,
            generation,
            pts: b.pts,
        },
    }
}

/// A pixel keeps its green and its opacity and exchanges the two others; bytes behind the last whole
/// pixel are left out, and nothing else.
pub proof fn law_swapped_pixels(src: Seq<u8>, p: int)
    requires
        0 <= p,
        4 * p + 3 < src.len(),
    ensures
        swapped(src).len() <= src.len(),
        src.len() - swapped(src).len() < 4,
        swapped(src).len() % 4 == 0,
        swapped(src)[4 * p] == src[4 * p + 2],
        swapped(src)[4 * p + 1] == src[4 * p + 1],
        swapped(src)[4 * p + 2] == src[4 * p],
        swapped(src)[4 * p + 3] == src[4 * p + 3],
{
}

/// Numbers count up by one; zero follows the largest.
pub proof fn law_next_number(n: u64)
    ensures
        n < u64::MAX ==> next_number(n) == n + 1,
        n == u64::MAX ==> next_number(n) == 0,
{
}

/// A row of pixels has four bytes for each pixel, as far as they can be counted.
pub proof fn law_row_bytes(width: u32)
    ensures
        width < 0x4000_0000 ==> row_bytes(width) == 4 * width,
        width >= 0x4000_0000 ==> row_bytes(width) == u32::MAX,
{
}

/// The renderer is told of a texture by its handle, and of pixels by a number of their own, with red
/// first, without gaps between rows. Its size, its generation and its time are those of the frame.
/// Only pixels use a number up.
pub proof fn law_frame_notices(frame: DecodedFrame, generation: u64, next_id: u64)
    ensures
        frame is GpuShared ==> notice_for(frame, generation, next_id) == (NoticeView::Texture {
            handle: frame->handle,
            width: frame->width,
            height: frame->height,
            generation,
            pts: frame->pts,
        }) && id_after(frame, next_id) == next_id,
        frame matches DecodedFrame::CpuBgra(b) ==> notice_for(frame, generation, next_id) == (
        NoticeView::Pixels {
            frame_id: next_id,
            data: swapped(b.data@),
            width: b.width,
            height: b.height,
            stride: row_bytes(b.width),
            pixel_format: 5,
            generation,
            pts: b.pts,
        }) && id_after(frame, next_id) == next_number(next_id),
{
}

} // verus!
