# gsplat-render-wgpu (verified core)

The bookkeeping and resource-planning core of a `wgpu` Gaussian-splatting
renderer, written in Verus. Every function under `src/` carries a contract
that Verus proves; `app/` is the device-facing shell that Verus does not see.

## Layout

- `src/evidence/` — measurement tickets and their terminal receipts:
  submission identities, the fixed-capacity evidence ring, take-once count
  ledgers, the compatibility store that joins each receipt to the context it
  was issued with, presentation-fenced publication of retained receipts,
  receipts joined to a presented frame, the session publication state (last
  statistics, current-stats availability, held receipts, capture), terminal
  plan samples, and the lossless producer-success lane over any run.
- `src/order_ring.rs`, `src/gpu_telemetry.rs` — the non-blocking measurement
  rings: reservation, ticket namespaces, generation invalidation, terminal
  decisions, and little-endian readback decoding; `src/ring_trace.rs` states
  what a ring reports over any run of its operations.
- `src/gpu/` — GPU resource planning: device limits, prefix-scan levels,
  external-prefix radix byte plans and admission, projection admission,
  the little-endian images of the uniform parameter and control buffers,
  two-dimensional dispatch, and the color-resolve dispatch.
- `src/packed_atlas.rs`, `src/packed_gpu.rs`, `src/offscreen.rs` — packed
  hot-record and SH-sidecar layout arithmetic, atlas dimensions, the CPU mirror
  of the hot-record buffer, and RGBA8 readback row layout.
- `src/page_atlas.rs`, `src/paged_gpu.rs`, `src/paged_active_set.rs`,
  `src/page_source.rs`, `src/page_scheduler.rs`, `src/residency.rs`,
  `src/spatial_pages.rs` — fixed-slot page residency: token admission and
  slot generations, active-entry listing, payload validation, eviction choice
  and eviction down to the resident target.
- `src/renderer.rs` — render-target and sorted-order checks, and the device
  limits an offscreen renderer requests.
- `src/api.rs`, `src/plans.rs`, `src/gpu_error.rs` — shared vocabulary.
- `app/` — `wgpu` limit conversion, error messages, the timed receipts that
  carry floating-point timings, the image comparison metrics, the device side of the measurement ring, and
  texture readback.
- `tests/` — executable tests of the library.
