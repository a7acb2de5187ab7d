use vstd::prelude::*;

use crate::color::Color;

verus! {

/// The colour of a captured one-pixel image, if the capture holds one:
/// both sides must be non-empty and the data must hold a whole pixel, whose
/// bytes come in blue, green, red, alpha order.
pub open spec fn pixel_color(width: usize, height: usize, data: Seq<u8>) -> Option<Color> {
    if width == 0 || height == 0 || data.len() < 4 {
        None
    } else {
        Some(Color { r: data[2], g: data[1], b: data[0] })
    }
}

/// Reads the sampled colour out of a captured image of `width` by `height`
/// pixels whose first pixel starts `data`.
pub fn decode_pixel(width: usize, height: usize, data: &[u8]) -> (c: Option<Color>)
    ensures
        c == pixel_color(width, height, data@),
{
    if width == 0 || height == 0 {
        return None;
    }
    if data.len() >= 4 {
        Some(Color::new(data[2], data[1], data[0]))
    } else {
        None
    }
}

/// Any capture that is not empty and holds a whole pixel gives a colour,
/// whatever its bytes: red from the third byte, green from the second, blue
/// from the first; an empty capture or a short one gives none.
pub proof fn lemma_pixel_color_reads_bgra(width: usize, height: usize, data: Seq<u8>)
    ensures
        width > 0 && height > 0 && data.len() >= 4 ==> pixel_color(width, height, data) == Some(
            Color { r: data[2], g: data[1], b: data[0] },
        ),
        width == 0 || height == 0 || data.len() < 4 ==> (pixel_color(width, height, data) is None),
{
}

} // verus!
