# mesh2splat

Converts triangle meshes (`.glb` / `.gltf`) into 3D Gaussian splats on the
GPU and writes them as binary `.ply` or packed `.splat` files.

- `src/` is the library, written in Verus and verified: the Gaussian data
  model, the `.ply` and `.splat` encodings with their length and read-back
  laws, the flattening of glTF primitives into one mesh, the sizes and
  dispatch of the GPU conversion pass, the export naming and format choice,
  and the state of the interactive front end. `f32` values are carried as
  their bit patterns.
- `app/` is the program around it: command line, window and egui panels,
  glTF reading, the wgpu compute pass, colour quantisation for `.splat`
  (floating point) and file output.
- `tests/` exercises the library on concrete values.
