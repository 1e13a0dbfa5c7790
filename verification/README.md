# render_wgpu

CPU-side logic of a wgpu renderer, verified with Verus.

- `src/` — the verified library: draw batching (`draw_list`), the static
  frame graph and its invariant (`graph`), frame-graph declarations,
  hazard validation and compilation (`framegraph`, `passes_graph`), image
  lifetimes and texture aliasing (`graph_alloc`), the bind-group LRU cache
  (`bindgroups`), the upload-ring allocator (`upload`), voxel chunk
  bookkeeping (`voxel_upload`), input decisions (`controls`, `input`),
  batch statistics (`passes`), deterministic generators and terrain mesh
  indices (`terrain`, `rocks`, `update`), and the rebuild bus.
- `app/` — the GPU and platform side: wgpu buffers, textures and graph
  execution around the library's plans, floating-point sky, terrain and
  camera math, and filesystem lookups.
- `tests/` — executable tests of the library.
