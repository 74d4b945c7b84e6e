# veronica

The engine core of a procedural modeling tool, verified with Verus.

- `src/` is the verified library:
  - `domain`: ids, mesh buffer validation, the bounded undo/redo history;
  - `digraph`, `node_graph`: the dependency store (over `petgraph`, behind
    trusted wrappers) and its evaluation order;
  - `params`, `operator_graph`: typed parameters, the operator network, its
    intents and its versioned snapshots;
  - `geometry`, `topology`: parameter cooking into implicit cubes and
    spheres, and the integer topology of their realization;
  - `face_id`, `pick`, `selection`: the 24-bit face identity codec, tap
    resolution, and the polygon-granular selection and its retention;
  - `frame`, `surface`: frame and viewport rules, render handoff checks,
    surface upload layout;
  - `session`: the state behind the C boundary and its result codes;
  - `text`: the string helpers the contracts are stated over.
- `tests/` exercises the library from outside.
- `app/` is the unverified host side: the JSON wire form (serde), the
  floating-point realization, render narrowing and camera math, and the
  C ABI over the session.
