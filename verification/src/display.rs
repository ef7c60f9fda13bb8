//! What the display backend decides on plain values: which mode belongs to
//! a touch strip, and the pixels of the bitmap that is shown after a crash.

use vstd::prelude::*;

verus! {

/// A strip is at least this many times as long as it is wide.
pub const MIN_ASPECT: u16 = 30;

/// Bytes per pixel of the frame buffer.
pub const BYTES_PER_PIXEL: usize = 4;

/// Whether a mode of `disp_width` by `disp_height` pixels looks like a
/// touch strip's: the whole quotient of height by width is at least
/// `MIN_ASPECT`. A mode without width does not.
pub open spec fn is_strip_mode(disp_width: u16, disp_height: u16) -> bool {
    disp_width > 0 && disp_height / disp_width >= MIN_ASPECT
}

pub fn looks_like_touch_bar(disp_width: u16, disp_height: u16) -> (r: bool)
    ensures
        r == is_strip_mode(disp_width, disp_height),
{
    disp_width > 0 && disp_height / disp_width >= MIN_ASPECT
}

/// Colour of pixel `i` of a byte of the bitmap: bits are taken from the
/// lowest up, a clear bit is white and a set bit black.
pub open spec fn pixel_level(byte: u8, i: u8) -> u8 {
    if (byte >> i) & 1 == 0 {
        0xFF
    } else {
        0
    }
}

/// `pixels` is `bitmap` painted: eight pixels per byte, four equal bytes per
/// pixel.
pub open spec fn is_painted(bitmap: Seq<u8>, pixels: Seq<u8>) -> bool {
    &&& pixels.len() == bitmap.len() * 32
    &&& forall|p: int|
        0 <= p < pixels.len() ==> #[trigger] pixels[p] == pixel_level(
            bitmap[p / 32],
            ((p % 32) / 4) as u8,
        )
}

/// The frame buffer's bytes for a one-bit bitmap.
pub fn crash_pixels(bitmap: &Vec<u8>) -> (pixels: Vec<u8>)
    requires
        bitmap@.len() * 32 <= usize::MAX,
    ensures
        is_painted(bitmap@, pixels@),
{
    let mut pixels: Vec<u8> = Vec::new();
    let mut k: usize = 0;
    while k < bitmap.len()
        invariant
            k <= bitmap@.len(),
            bitmap@.len() * 32 <= usize::MAX,
            pixels@.len() == k * 32,
            forall|p: int|
                0 <= p < pixels@.len() ==> #[trigger] pixels@[p] == pixel_level(
                    bitmap@[p / 32],
                    ((p % 32) / 4) as u8,
                ),
        decreases bitmap.len() - k,
    {
        let byte = bitmap[k];
        let mut i: u8 = 0;
        while i < 8
            invariant
                i <= 8,
                k < bitmap@.len(),
                byte == bitmap@[k as int],
                pixels@.len() == k * 32 + i * 4,
                forall|p: int|
                    0 <= p < pixels@.len() ==> #[trigger] pixels@[p] == pixel_level(
                        bitmap@[p / 32],
                        ((p % 32) / 4) as u8,
                    ),
            decreases 8 - i,
        {
            let level: u8 = if (byte >> i) & 1 == 0 {
                0xFF
            } else {
                0
            };
            let mut c: usize = 0;
            while c < BYTES_PER_PIXEL
                invariant
                    c <= BYTES_PER_PIXEL,
                    i < 8,
                    k < bitmap@.len(),
                    byte == bitmap@[k as int],
                    level == pixel_level(byte, i),
                    pixels@.len() == k * 32 + i * 4 + c,
                    forall|p: int|
                        0 <= p < pixels@.len() ==> #[trigger] pixels@[p] == pixel_level(
                            bitmap@[p / 32],
                            ((p % 32) / 4) as u8,
                        ),
                decreases BYTES_PER_PIXEL - c,
            {
                pixels.push(level);
                c = c + 1;
            }
            i = i + 1;
        }
        k = k + 1;
    }
    pixels
}

} // verus!
