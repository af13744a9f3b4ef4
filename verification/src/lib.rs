//! Mesh-to-Gaussian-splat conversion: the data model, the `.ply` and
//! `.splat` file encodings, the assembly of meshes from glTF primitives, the
//! planning of the GPU conversion pass and the state of the interactive front
//! end. Floating-point values are carried as their IEEE-754 bit patterns.
pub mod bytes;
pub mod converter;
pub mod export;
pub mod gaussian;
pub mod gui;
pub mod mesh;
pub mod ply;
pub mod renderer;
pub mod splat;
pub mod surface;
