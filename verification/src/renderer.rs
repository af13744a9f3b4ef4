//! The preview renderer. It holds no state yet and draws nothing.
use vstd::prelude::*;

verus! {

/// A GPU device, carried through opaque.
#[verifier::external_type_specification]
#[verifier::external_body]
pub struct ExDevice(wgpu::Device);

/// A GPU command queue, carried through opaque.
#[verifier::external_type_specification]
#[verifier::external_body]
pub struct ExQueue(wgpu::Queue);

/// A GPU command encoder, carried through opaque.
#[verifier::external_type_specification]
#[verifier::external_body]
pub struct ExCommandEncoder(wgpu::CommandEncoder);

/// A view of a GPU texture, carried through opaque.
#[verifier::external_type_specification]
#[verifier::external_body]
pub struct ExTextureView(wgpu::TextureView);

/// Preview renderer for converted Gaussians.
pub struct SplatRenderer {}

impl SplatRenderer {
    /// A renderer for `device` and `queue`; it keeps neither.
    pub fn new(_device: &wgpu::Device, _queue: &wgpu::Queue) -> (r: SplatRenderer)
        ensures
            r == (SplatRenderer {}),
    {
        SplatRenderer {}
    }

    /// Records the preview into `encoder` for `view`: nothing yet, so the
    /// encoder and the renderer are left as they were.
    pub fn render(&mut self, encoder: &mut wgpu::CommandEncoder, _view: &wgpu::TextureView)
        ensures
            *final(self) == *old(self),
            *final(encoder) == *old(encoder),
    {
    }
}

} // verus!
