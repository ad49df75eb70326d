use std::sync::Arc;

use image::{ImageBuffer, RgbaImage};
use vstd::prelude::*;

verus! {

/// A decoded RGBA image (`image::RgbaImage`), held opaquely: the contracts
/// speak of it through `frame_pixels`.
#[verifier::external_body]
pub struct RgbaFrame {
    image: RgbaImage,
}

/// A frame shared between animations without copying its pixels.
pub type Texture = Arc<RgbaFrame>;

/// The pixels of a frame: each in-bounds coordinate `(x, y)` maps to its
/// four channel values (red, green, blue, alpha); no other coordinate is in
/// the map.
pub uninterp spec fn frame_pixels(f: RgbaFrame) -> Map<(u32, u32), (u8, u8, u8, u8)>;

/// Width of the sprite artwork, in pixels.
pub const SPRITE_WIDTH: usize = 80;

/// Height of the sprite artwork, in pixels.
pub const SPRITE_HEIGHT: usize = 64;

/// Width of the pet window, in pixels.
pub const WINDOW_WIDTH: usize = 128;

/// Height of the pet window, in pixels.
pub const WINDOW_HEIGHT: usize = 128;

/// Byte length of the window's RGBA frame buffer.
pub const CANVAS_BYTES: usize = 65536;

/// Whether `bytes` holds the row-major RGBA pixels of a `width` by `height`
/// image (at least `width * height * 4` bytes, pixel `(x, y)` at byte
/// `(y * width + x) * 4`), and `f` is that image.
pub open spec fn frame_of_bytes(f: RgbaFrame, width: u32, height: u32, bytes: Seq<u8>) -> bool {
    &&& forall|x: u32, y: u32| #[trigger]
        frame_pixels(f).contains_key((x, y)) <==> (x < width && y < height)
    &&& forall|x: u32, y: u32|
        x < width && y < height ==> {
            let i = (y * width + x) * 4;
            #[trigger] frame_pixels(f)[(x, y)] == (bytes[i], bytes[i + 1], bytes[i + 2], bytes[i
                + 3])
        }
}

impl RgbaFrame {
    /// A frame over row-major RGBA bytes (pixel `(x, y)` at byte
    /// `(y * width + x) * 4`); `None` when the buffer is shorter than
    /// `width * height * 4` bytes.
    pub fn from_raw(width: u32, height: u32, bytes: Vec<u8>) -> (r: Option<RgbaFrame>)
        ensures
            r is Some <==> width * height * 4 <= bytes@.len(),
            r matches Some(f) ==> frame_of_bytes(f, width, height, bytes@),
    {
        image_from_raw(width, height, bytes)
    }

    /// `ImageBuffer::dimensions`: the width and height of the image; a
    /// coordinate is in bounds exactly when it lies below both.
    #[verifier::external_body]
    pub(crate) fn dimensions(&self) -> (wh: (u32, u32))
        ensures
            forall|x: u32, y: u32| #[trigger]
                frame_pixels(*self).contains_key((x, y)) <==> (x < wh.0 && y < wh.1),
    {
        self.image.dimensions()
    }

    /// `ImageBuffer::get_pixel`: the channels of the pixel at `(x, y)`, which
    /// must be in bounds (the call panics otherwise).
    #[verifier::external_body]
    pub(crate) fn pixel(&self, x: u32, y: u32) -> (px: (u8, u8, u8, u8))
        requires
            frame_pixels(*self).contains_key((x, y)),
        ensures
            px == frame_pixels(*self)[(x, y)],
    {
        let p = self.image.get_pixel(x, y);
        (p.0[0], p.0[1], p.0[2], p.0[3])
    }
}

/// `ImageBuffer::from_raw`: an image over row-major RGBA bytes; `None` when
/// the buffer is shorter than `width * height * 4` bytes.
#[verifier::external_body]
fn image_from_raw(width: u32, height: u32, bytes: Vec<u8>) -> (r: Option<RgbaFrame>)
    ensures
        r is Some <==> width * height * 4 <= bytes@.len(),
        r matches Some(f) ==> frame_of_bytes(f, width, height, bytes@),
{
    match ImageBuffer::from_raw(width, height, bytes) {
        Some(image) => Some(RgbaFrame { image }),
        None => None,
    }
}

/// Whether the frame covers the whole sprite area (80 by 64 pixels).
pub open spec fn covers_sprite(f: RgbaFrame) -> bool {
    forall|x: u32, y: u32|
        x < SPRITE_WIDTH && y < SPRITE_HEIGHT ==> #[trigger] frame_pixels(f).contains_key((x, y))
}

/// Tests whether a frame is large enough to be drawn by `draw_sprite`.
pub fn frame_covers_sprite(f: &RgbaFrame) -> (b: bool)
    ensures
        b == covers_sprite(*f),
{
    let (w, h) = f.dimensions();
    proof {
        if !(w >= 80 && h >= 64) {
            if w < 80 {
                assert(!frame_pixels(*f).contains_key((w, 0)));
            } else {
                assert(!frame_pixels(*f).contains_key((0, h)));
            }
        }
    }
    w >= 80 && h >= 64
}

/// The sprite column shown at window column `x` (nearest neighbour).
pub open spec fn source_x(x: int) -> int {
    let s = x * 80 / 128;
    if s < 79 {
        s
    } else {
        79
    }
}

/// The sprite row shown at window row `y` (nearest neighbour).
pub open spec fn source_y(y: int) -> int {
    let s = y * 64 / 128;
    if s < 63 {
        s
    } else {
        63
    }
}

/// Channel `c` (0 red, 1 green, 2 blue, 3 alpha) of a pixel.
pub open spec fn channel(px: (u8, u8, u8, u8), c: int) -> u8 {
    if c == 0 {
        px.0
    } else if c == 1 {
        px.1
    } else if c == 2 {
        px.2
    } else {
        px.3
    }
}

/// The byte the window frame holds at `(x, y)`, channel `c`, once the sprite
/// `f` is drawn: the channel of the sprite pixel nearest to it, or 0 in all
/// four channels where that pixel is fully transparent (alpha 0), so the
/// desktop shows through.
pub open spec fn drawn_byte(f: RgbaFrame, x: int, y: int, c: int) -> u8 {
    let px = frame_pixels(f)[(source_x(x) as u32, source_y(y) as u32)];
    if px.3 == 0 {
        0
    } else {
        channel(px, c)
    }
}

/// Nearest-neighbour lookup: window column `x` shows sprite column `sx`, the
/// one whose scaled span `[sx * 128 / 80, (sx + 1) * 128 / 80)` holds `x`;
/// window row `y` shows sprite row `sy`, the one whose span
/// `[sy * 128 / 64, (sy + 1) * 128 / 64)` holds `y`.
pub proof fn lemma_nearest_source(x: int, y: int)
    requires
        0 <= x < 128,
        0 <= y < 128,
    ensures
        0 <= source_x(x) < 80,
        source_x(x) * 128 <= x * 80 < (source_x(x) + 1) * 128,
        0 <= source_y(y) < 64,
        source_y(y) * 128 <= y * 64 < (source_y(y) + 1) * 128,
{
}

/// A drawn window pixel is its nearest sprite pixel, copied unchanged in all
/// four channels when that pixel is visible (alpha above 0) and cleared to 0
/// in all four when it is fully transparent.
pub proof fn lemma_drawn_pixel(f: RgbaFrame, x: int, y: int)
    requires
        0 <= x < 128,
        0 <= y < 128,
    ensures
        ({
            let px = frame_pixels(f)[(source_x(x) as u32, source_y(y) as u32)];
            &&& px.3 != 0 ==> {
                &&& drawn_byte(f, x, y, 0) == px.0
                &&& drawn_byte(f, x, y, 1) == px.1
                &&& drawn_byte(f, x, y, 2) == px.2
                &&& drawn_byte(f, x, y, 3) == px.3
            }
            &&& px.3 == 0 ==> {
                &&& drawn_byte(f, x, y, 0) == 0
                &&& drawn_byte(f, x, y, 1) == 0
                &&& drawn_byte(f, x, y, 2) == 0
                &&& drawn_byte(f, x, y, 3) == 0
            }
        }),
{
}

/// Draws the 80 by 64 sprite scaled to the 128 by 128 window into the
/// window's RGBA buffer, by nearest-neighbour lookup; fully transparent
/// sprite pixels are written as 0 in all four channels.
pub fn draw_sprite(texture: &RgbaFrame, frame: &mut [u8])
    requires
        old(frame)@.len() == CANVAS_BYTES,
        covers_sprite(*texture),
    ensures
        final(frame)@.len() == CANVAS_BYTES,
        forall|x: int, y: int, c: int|
            0 <= x < 128 && 0 <= y < 128 && 0 <= c < 4 ==> #[trigger] final(frame)@[(y * 128 + x)
                * 4 + c] == drawn_byte(*texture, x, y, c),
{
    let mut y: usize = 0;
    while y < WINDOW_HEIGHT
        invariant
            y <= 128,
            frame@.len() == CANVAS_BYTES,
            covers_sprite(*texture),
            forall|xx: int, yy: int, c: int|
                0 <= xx < 128 && 0 <= yy < y && 0 <= c < 4 ==> #[trigger] frame@[(yy * 128 + xx)
                    * 4 + c] == drawn_byte(*texture, xx, yy, c),
        decreases 128 - y,
    {
        let mut x: usize = 0;
        while x < WINDOW_WIDTH
            invariant
                x <= 128,
                y < 128,
                frame@.len() == CANVAS_BYTES,
                covers_sprite(*texture),
                forall|xx: int, yy: int, c: int|
                    0 <= xx < 128 && 0 <= yy < y && 0 <= c < 4 ==> #[trigger] frame@[(yy * 128
                        + xx) * 4 + c] == drawn_byte(*texture, xx, yy, c),
                forall|xx: int, c: int|
                    0 <= xx < x && 0 <= c < 4 ==> #[trigger] frame@[(y * 128 + xx) * 4 + c]
                        == drawn_byte(*texture, xx, y as int, c),
            decreases 128 - x,
        {
            let sx0 = x * SPRITE_WIDTH / WINDOW_WIDTH;
            let src_x = if sx0 < SPRITE_WIDTH - 1 {
                sx0
            } else {
                SPRITE_WIDTH - 1
            };
            let sy0 = y * SPRITE_HEIGHT / WINDOW_HEIGHT;
            let src_y = if sy0 < SPRITE_HEIGHT - 1 {
                sy0
            } else {
                SPRITE_HEIGHT - 1
            };
            let px = texture.pixel(src_x as u32, src_y as u32);
            let idx = (y * WINDOW_WIDTH + x) * 4;
            let ghost before = frame@;
            if px.3 == 0 {
                frame[idx] = 0;
                frame[idx + 1] = 0;
                frame[idx + 2] = 0;
                frame[idx + 3] = 0;
            } else {
                frame[idx] = px.0;
                frame[idx + 1] = px.1;
                frame[idx + 2] = px.2;
                frame[idx + 3] = px.3;
            }
            proof {
                assert(px == frame_pixels(*texture)[(source_x(x as int) as u32, source_y(y as int) as u32)]);
                assert forall|xx: int, yy: int, c: int|
                    0 <= xx < 128 && 0 <= yy < y && 0 <= c < 4 implies #[trigger] frame@[(yy * 128
                        + xx) * 4 + c] == drawn_byte(*texture, xx, yy, c) by {
                    assert(frame@[(yy * 128 + xx) * 4 + c] == before[(yy * 128 + xx) * 4 + c]);
                }
                assert forall|xx: int, c: int|
                    0 <= xx < x + 1 && 0 <= c < 4 implies #[trigger] frame@[(y * 128 + xx) * 4 + c]
                        == drawn_byte(*texture, xx, y as int, c) by {
                    if xx < x {
                        assert(frame@[(y * 128 + xx) * 4 + c] == before[(y * 128 + xx) * 4 + c]);
                    }
                }
            }
            x = x + 1;
        }
        y = y + 1;
    }
}

} // verus!
