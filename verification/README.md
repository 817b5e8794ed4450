# bloom_cook

The verified core of the Bloom asset tools: the rules by which assets are
named, keyed, cooked, stored, indexed and checked, with their contracts
proved by Verus.

- `src/` is the library. Every function in it carries a contract over
  mathematical models (`Seq`, `Map`, `int`, spec functions and views), and
  the properties that span several functions stand as public proof
  functions named `law_*`.
- Store bookkeeping: `store`, `profile`, `resolver`, `index`, `manifest`,
  `texture_manifest`, `artifact`, `scene_manifest`, `texture`.
- Reading JSON documents: `json` queries a document by JSON pointer
  through `serde_json`; `manifest_json` and `index_json` read geometry and
  scene manifests and the asset index from their bytes.
- Geometry: `meshlet`, `options`, `hierarchy`, `hierarchy_builder`,
  `hierarchy_stats`, `vertex_dedup`, `primitive_rules`, `pages`, `records`,
  `container`, `bvh`.
- Writing files safely: `install`, the steps that put a written temporary
  file in place of a destination.
- Command lines and reports: `cli`, `numbers`, `diff_cli`, `perf_cli`,
  `reference_cli`, `perf`, `benchmark`, `diff`, `diff_images`, `readback`,
  `sampling`, `rng`.
- `bytes` and `text` hold the byte encodings, SHA-256 hex text and string
  helpers that the rest builds on.
- `app/` is the image-diff program around the library: image files,
  floating-point metrics and printing.
- `tests/` exercises the library from outside.

Two lookups are kept as sequences rather than ordered maps: welding
vertices (keyed by eighteen 32-bit words) and counting unique chunks (keyed
by a SHA-256 hex string). vstd specifies `BTreeMap` only for keys whose
ordering obeys its comparison specification, which neither key type gives,
so the contracts could say nothing of such a map's contents. The sequence
scans keep the same first-seen order, at quadratic rather than
`n log n` cost.
