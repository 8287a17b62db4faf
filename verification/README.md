# cymatrox

A cymatics toolkit: granular grains on a vibrating plate, Faraday waves on a
liquid surface and a standing-wave acoustic field, each stepped on the GPU.

- `src/` is the verified library (Verus): the integer clauses of every
  configuration and the order in which all clauses are checked, the strided
  readback layout and dispatch sizes, the seeded SplitMix64 generator, the
  grid layout of grains, the error messages, and the live server's routing,
  query parsing, frame cadence and replies.
- `app/` is the host side in plain Rust: the GPU context and the three
  simulations, the floating-point parts of each configuration, the seeded
  initial states, the live server's sockets and files, and the browser
  bridge.
- `tests/` exercises the library on concrete values.

The WGSL kernels are read at run time from the directory named by
`CYMATROX_SHADER_DIR` (`shaders` by default).
