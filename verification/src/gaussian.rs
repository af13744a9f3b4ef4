//! The Gaussian primitive that the conversion produces and the exporters
//! write. Every `f32` of the primitive is held as its IEEE-754 bit pattern,
//! so that its exact value passes through the library unchanged.
use vstd::prelude::*;

verus! {

/// Bit pattern of `0.0f32`.
pub const F32_ZERO: u32 = 0x0000_0000;

/// Bit pattern of `1.0f32`.
pub const F32_ONE: u32 = 0x3f80_0000;

/// One 3D Gaussian: centre, surface normal, per-axis scale, orientation
/// quaternion `(x, y, z, w)`, RGBA colour and opacity.
#[derive(Clone, Copy, Debug, PartialEq, Eq)]
pub struct Gaussian {
    pub position: [u32; 3],
    pub normal: [u32; 3],
    pub scale: [u32; 3],
    pub rotation: [u32; 4],
    pub color: [u32; 4],
    pub opacity: u32,
}

impl Gaussian {
    /// The Gaussian that `default` returns: at the origin, normal `+y`, unit
    /// scale, identity rotation, opaque white.
    pub open spec fn spec_default() -> Gaussian {
        Gaussian {
            position: [F32_ZERO, F32_ZERO, F32_ZERO],
            normal: [F32_ZERO, F32_ONE, F32_ZERO],
            scale: [F32_ONE, F32_ONE, F32_ONE],
            rotation: [F32_ZERO, F32_ZERO, F32_ZERO, F32_ONE],
            color: [F32_ONE, F32_ONE, F32_ONE, F32_ONE],
            opacity: F32_ONE,
        }
    }

    /// A Gaussian with the given attributes.
    pub fn new(
        position: [u32; 3],
        normal: [u32; 3],
        scale: [u32; 3],
        rotation: [u32; 4],
        color: [u32; 4],
        opacity: u32,
    ) -> (g: Gaussian)
        ensures
            g.position == position,
            g.normal == normal,
            g.scale == scale,
            g.rotation == rotation,
            g.color == color,
            g.opacity == opacity,
    {
        Gaussian { position, normal, scale, rotation, color, opacity }
    }

    /// The default Gaussian (see `spec_default`).
    pub fn default() -> (g: Gaussian)
        ensures
            g == Gaussian::spec_default(),
    {
        Gaussian {
            position: [F32_ZERO, F32_ZERO, F32_ZERO],
            normal: [F32_ZERO, F32_ONE, F32_ZERO],
            scale: [F32_ONE, F32_ONE, F32_ONE],
            rotation: [F32_ZERO, F32_ZERO, F32_ZERO, F32_ONE],
            color: [F32_ONE, F32_ONE, F32_ONE, F32_ONE],
            opacity: F32_ONE,
        }
    }
}

impl Default for Gaussian {
    fn default() -> (g: Gaussian)
        ensures
            g == Gaussian::spec_default(),
    {
        Gaussian::default()
    }
}

} // verus!
