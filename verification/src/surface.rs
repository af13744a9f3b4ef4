//! Choices made when configuring the window's drawing surface.
use vstd::prelude::*;

verus! {

/// The surface extent for a window of `width` by `height` pixels: each side
/// at least one pixel.
pub fn surface_extent(width: u32, height: u32) -> (extent: (u32, u32))
    ensures
        extent.0 == (if width >= 1 { width } else { 1 }),
        extent.1 == (if height >= 1 { height } else { 1 }),
{
    let w = if width >= 1 { width } else { 1 };
    let h = if height >= 1 { height } else { 1 };
    (w, h)
}

/// Which of the surface's supported texture formats to draw in, given for
/// each whether it is an sRGB format: the first sRGB one, else the first.
pub fn preferred_format_index(is_srgb: &[bool]) -> (index: usize)
    requires
        is_srgb@.len() > 0,
    ensures
        index < is_srgb@.len(),
        forall|j: int| 0 <= j < index ==> !is_srgb@[j],
        is_srgb@[index as int] || (index == 0 && forall|j: int|
            0 <= j < is_srgb@.len() ==> !is_srgb@[j]),
{
    let mut i: usize = 0;
    while i < is_srgb.len()
        invariant
            i <= is_srgb@.len(),
            forall|j: int| 0 <= j < i ==> !is_srgb@[j],
        decreases is_srgb@.len() - i,
    {
        if is_srgb[i] {
            return i;
        }
        i = i + 1;
    }
    0
}

} // verus!
