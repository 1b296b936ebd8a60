# saddle-procgen-noise

Deterministic procedural-noise toolkit.

- `src/` is the verified core: lattice hashing and seeds, the corner order of
  simplex cells, Worley cell scans and the choice of the two nearest features,
  row-major grid traversal and grid signatures, RGBA pixel layout, recipe
  descriptions, and the scheduler that decides when preview jobs run. Every
  function carries a contract that Verus proves; the laws of the library are
  proof functions beside the code they speak of.
- `app/` is the Bevy layer around it: the floating-point samplers (Perlin,
  simplex, value, Worley, fractals, warping, tiling), grid statistics, image
  assets, the ECS plugin and the RON/JSON asset loaders. It hands the core
  plain integers and takes plain integers back.
- `tests/` exercises the core on concrete values.
