# conservation-spectral-core

Spectral analysis of tension graphs (Laplacians, eigendecompositions,
conservation ratios, anomalies, fingerprints, a sliding-window tracker).

Layout:

- `src/` — the verified library (Verus): the graph topology with its
  vertex interning (`graph`), the tracker's window bookkeeping
  (`tracker`), and the `LaplacianType` / `AnomalyType` enumerations.
  Contracts and the laws that relate the operations are proved there.
- `app/` — ordinary Rust on top of it: everything that computes with
  floating-point numbers (vertex attributes, Laplacians, nalgebra
  eigendecompositions, power and Lanczos iteration, conservation ratios,
  anomalies, fingerprints, the tracker's ratio computation and alert test).
- `tests/` — tests of the verified library.
