# yuki

The data structures and scene front end of a small physically based renderer,
written in Verus with their behaviour stated in contracts and proved.

- `src/` is the verified library:
  - `common`: the numeric traits of the math types.
  - `math`: vectors, points, normals, spectra, pixel bounds and their
    row-by-row iteration, 4x4 matrices and transforms.
  - `scene::pbrt`: the pbrt-v3 scene format: number literals, tokens, the
    tokenizer, parameter declarations, parameter sets and the grammar of
    directives and parameter lists.
  - `scene::mitsuba`: the Mitsuba 2 scene format: the XML events of a file
    (read with `xml-rs`) and the scene they describe, with numbers kept as
    the text the file holds.
  - `scene::ply`: reading and checking a PLY header (with `ply-rs`) and
    turning faces into an indexed triangle mesh.
  - `sampling`: sampler settings and the permutation of strata.
  - `renderer`: render settings and the bookkeeping of renders, workers and
    tiles.
  - `textures`: constant textures.
- `app/` is a command-line front end that reads pbrt-v3 scenes, Mitsuba 2
  scenes and PLY meshes and reports what they hold; it does the file I/O and
  the `f32` arithmetic (transforms, camera checks, mesh payloads).
- `tests/` runs the library on concrete inputs.

Not part of this crate: the ray tracing itself (shapes, intersection, the
bounding volume hierarchy, lights, materials' scattering, integrators), the
film and its tile order, image output, and the interactive window and its
user interface.
