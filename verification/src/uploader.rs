//! The upload of pixels into shared textures: two textures, written in turn.

use vstd::prelude::*;

use crate::text::{concat, to_decimal};

verus! {

/// What the making of a graphics context comes to: the graphics card's, or the software
/// renderer's where the card gives none. Where both fail, the text holds both reasons.
pub open spec fn context_made<
    C,
    H: Fn() -> Result<C, String>,
    W: Fn() -> Result<C, String>,
>(hardware: H, warp: W, r: Result<C, String>) -> bool {
    ||| r is Ok && call_ensures(hardware, (), r)
    ||| exists|hw: String|
        {
            &&& #[trigger] call_ensures(hardware, (), Err(hw))
            &&& match r {
                Ok(_) => call_ensures(warp, (), r),
                Err(text) => exists|sw: String|
                    {
                        &&& #[trigger] call_ensures(warp, (), Err(sw))
                        &&& text@ == "create D3D11 context failed: hw="@ + hw@ + ", warp="@ + sw@
                    },
            }
        }
}

/// Makes a graphics context: `hardware` makes one on the graphics card, `warp` one in software.
pub fn create_context<C, H: Fn() -> Result<C, String>, W: Fn() -> Result<C, String>>(
    hardware: H,
    warp: W,
) -> (r: Result<C, String>)
    requires
        call_requires(hardware, ()),
        call_requires(warp, ()),
    ensures
        context_made(hardware, warp, r),
{
    match hardware() {
        Ok(c) => Ok(c),
        Err(hw) => match warp() {
            Ok(c) => {
                assert(call_ensures(hardware, (), Err(hw)));
                Ok(c)
            },
            Err(sw) => {
                let mut text: String = concat("create D3D11 context failed: hw=", hw.as_str());
                text.append(", warp=");
                text.append(sw.as_str());
                assert(call_ensures(hardware, (), Err(hw)));
                assert(call_ensures(warp, (), Err(sw)));
                Err(text)
            },
        },
    }
}

/// Where the next frame goes, and whether its texture has to be made first.
#[derive(Debug, Clone, Copy, PartialEq, Eq, Structural)]
pub struct UploadPlan {
    pub slot: usize,
    pub recreate: bool,
}

/// The sizes of the two textures, and the number of frames that were uploaded.
pub struct TextureSlots {
    first: Option<(u32, u32)>,
    second: Option<(u32, u32)>,
    frame_index: u64,
}

/// Whether a texture is missing or has another size.
pub open spec fn size_differs(texture: Option<(u32, u32)>, width: u32, height: u32) -> bool {
    texture != Some((width, height))
}

/// Whether a texture is missing or has another size.
pub fn needs_texture(texture: &Option<(u32, u32)>, width: u32, height: u32) -> (r: bool)
    ensures
        r == size_differs(*texture, width, height),
{
    match texture {
        Some((w, h)) => *w != width || *h != height,
        None => true,
    }
}

/// The texture for the next frame, after `uploaded` frames.
pub open spec fn slot_for(uploaded: int) -> int {
    uploaded % 2
}

/// The number of bytes of a BGRA picture, where it fits in 32 bits.
pub open spec fn picture_bytes(width: u32, height: u32) -> Option<u32> {
    if width * height * 4 <= u32::MAX {
        Some((width * height * 4) as u32)
    } else {
        None
    }
}

/// The text for a picture with too few bytes.
pub open spec fn too_short(got: nat, expect: nat, width: u32, height: u32) -> Seq<char> {
    "BGRA data too short: got="@ + crate::text::decimal(got) + " bytes, expect="@
        + crate::text::decimal(expect) + " bytes ("@ + crate::text::decimal(width as nat) + "x"@
        + crate::text::decimal(height as nat) + "x4)"@
}

/// Whether a picture can be uploaded, and what is wrong with it otherwise.
pub open spec fn picture_error(width: u32, height: u32, len: nat) -> Option<Seq<char>> {
    if width == 0 || height == 0 {
        Some("invalid frame size: width or height is zero"@)
    } else {
        match picture_bytes(width, height) {
            None => Some("frame size overflow (width * height * 4 > u32::MAX)"@),
            Some(n) => if len < n {
                Some(too_short(len, n as nat, width, height))
            } else {
                None
            },
        }
    }
}

impl TextureSlots {
    /// The size of a texture.
    pub closed spec fn texture(&self, slot: int) -> Option<(u32, u32)> {
        if slot == 0 {
            self.first
        } else {
            self.second
        }
    }

    /// How many frames were uploaded.
    pub closed spec fn uploaded(&self) -> u64 {
        self.frame_index
    }

    /// Two textures that are still to be made.
    pub fn new() -> (r: Self)
        ensures
            r.texture(0) is None,
            r.texture(1) is None,
            r.uploaded() == 0,
    {
        TextureSlots { first: None, second: None, frame_index: 0 }
    }

    /// Looks at a picture of `len` bytes: where it goes, or what is wrong with it.
    pub fn plan_upload(&self, width: u32, height: u32, len: usize) -> (r: Result<
        UploadPlan,
        String,
    >)
        ensures
            match picture_error(width, height, len as nat) {
                Some(text) => r matches Err(m) && m@ == text,
                None => r matches Ok(p) && p.slot == slot_for(self.uploaded() as int) && p.recreate
                    == size_differs(self.texture(p.slot as int), width, height),
            },
    {
        if width == 0 || height == 0 {
            return Err("invalid frame size: width or height is zero".to_owned());
        }
        proof {
            let a = width as int;
            let b = height as int;
            assert(a * b * 4 == (a * b) * 4);
            assert(0 <= a * b) by (nonlinear_arith)
                requires
                    a >= 0,
                    b >= 0,
            ;
        }
        let expect: u32 = match width.checked_mul(height) {
            Some(v) => match v.checked_mul(4) {
                Some(e) => e,
                None => {
                    return Err("frame size overflow (width * height * 4 > u32::MAX)".to_owned());
                },
            },
            None => {
                return Err("frame size overflow (width * height * 4 > u32::MAX)".to_owned());
            },
        };
        if len < expect as usize {
            let mut m: String = "BGRA data too short: got=".to_owned();
            m.append(to_decimal(len as u64).as_str());
            m.append(" bytes, expect=");
            m.append(to_decimal(expect as u64).as_str());
            m.append(" bytes (");
            m.append(to_decimal(width as u64).as_str());
            m.append("x");
            m.append(to_decimal(height as u64).as_str());
            m.append("x4)");
            return Err(m);
        }
        if self.frame_index % 2 == 0 {
            Ok(UploadPlan { slot: 0, recreate: needs_texture(&self.first, width, height) })
        } else {
            Ok(UploadPlan { slot: 1, recreate: needs_texture(&self.second, width, height) })
        }
    }

    /// Notes that a texture was made.
    pub fn texture_made(&mut self, slot: usize, width: u32, height: u32)
        requires
            slot < 2,
        ensures
            final(self).texture(slot as int) == Some((width, height)),
            final(self).texture(1 - slot) == old(self).texture(1 - slot),
            final(self).uploaded() == old(self).uploaded(),
    {
        if slot == 0 {
            self.first = Some((width, height));
        } else {
            self.second = Some((width, height));
        }
    }

    /// Notes that a frame was uploaded.
    pub fn frame_uploaded(&mut self)
        ensures
            final(self).uploaded() == if old(self).uploaded() == u64::MAX {
                u64::MAX as int
            } else {
                old(self).uploaded() + 1
            },
            final(self).texture(0) == old(self).texture(0),
            final(self).texture(1) == old(self).texture(1),
    {
        self.frame_index = self.frame_index.saturating_add(1);
    }
}

/// Neighbouring frames go to different textures, so that one can be read while the other is
/// written; every second frame goes to the same one.
pub proof fn law_slots_alternate(uploaded: int)
    requires
        uploaded >= 0,
    ensures
        slot_for(uploaded + 1) != slot_for(uploaded),
        slot_for(uploaded + 2) == slot_for(uploaded),
{
}

/// The first frame goes to the first texture, and only two textures are used.
pub proof fn law_first_slot(uploaded: int)
    requires
        uploaded >= 0,
    ensures
        slot_for(0) == 0,
        slot_for(uploaded) == 0 || slot_for(uploaded) == 1,
        slot_for(uploaded) == 0 <==> uploaded % 2 == 0,
{
}

/// A texture serves a picture exactly when it has both its width and its height.
pub proof fn law_textures_are_kept(texture: Option<(u32, u32)>, width: u32, height: u32)
    ensures
        size_differs(None, width, height),
        texture is Some ==> (size_differs(texture, width, height) <==> texture->Some_0.0 != width
            || texture->Some_0.1 != height),
{
}

/// A picture can be uploaded exactly when it has a width and a height, has no more bytes than 32
/// bits count, and they are all there; more do no harm.
pub proof fn law_pictures_that_can_be_uploaded(width: u32, height: u32, len: nat)
    ensures
        picture_error(width, height, len) is None <==> width > 0 && height > 0 && 4 * (width * height)
            <= u32::MAX && len >= 4 * (width * height),
        width == 0 || height == 0 ==> picture_error(width, height, len)
            == Some("invalid frame size: width or height is zero"@),
        width > 0 && height > 0 && 4 * (width * height) > u32::MAX ==> picture_error(
            width,
            height,
            len,
        ) == Some("frame size overflow (width * height * 4 > u32::MAX)"@),
        width > 0 && height > 0 && len < 4 * (width * height) <= u32::MAX ==> picture_error(
            width,
            height,
            len,
        ) == Some(
            "BGRA data too short: got="@ + crate::text::decimal(len) + " bytes, expect="@
                + crate::text::decimal((4 * (width * height)) as nat) + " bytes ("@
                + crate::text::decimal(width as nat) + "x"@ + crate::text::decimal(height as nat)
                + "x4)"@,
        ),
{
    let a = width as int;
    let b = height as int;
    assert(a * b * 4 == 4 * (a * b));
    assert(a * b >= 0) by (nonlinear_arith)
        requires
            a >= 0,
            b >= 0,
    ;
}

/// A graphics context is made on the graphics card, or in software where the card gives none; where
/// neither works, both reasons are given, the card's first.
pub proof fn law_contexts<C, H: Fn() -> Result<C, String>, W: Fn() -> Result<C, String>>(
    hardware: H,
    warp: W,
    r: Result<C, String>,
)
    requires
        context_made(hardware, warp, r),
    ensures
        !call_ensures(hardware, (), r) || r is Err ==> exists|hw: String| #[trigger]
            call_ensures(hardware, (), Err(hw)),
        r is Ok && !call_ensures(hardware, (), r) ==> call_ensures(warp, (), r),
        r matches Err(text) ==> exists|hw: String, sw: String|
            {
                &&& #[trigger] call_ensures(hardware, (), Err(hw))
                &&& #[trigger] call_ensures(warp, (), Err(sw))
                &&& text@ == "create D3D11 context failed: hw="@ + hw@ + ", warp="@ + sw@
            },
{
}

} // verus!
