# pax_carbon

Verified core of the Pax tooling, written in Verus.

- `src/api.rs`, `src/expressions.rs`, `src/properties.rs`: property
  expressions, their memoized values and their transition queues.
- `src/scene.rs`, `src/scene_laws.rs`: the Carbon scene graph, the order in
  which rectangles are painted and properties are evaluated, and what those
  orders guarantee.
- `src/engine.rs`: frame counting, the hues and tiles of the "disco" demo,
  and the scene the engine starts with.
- `src/lsp/`: the language server's decisions: resolving the node under the
  cursor, recording the editor's answers, completions, the word and character
  before the cursor, diagnostics, and what to do with opened, changed and
  saved documents.
- `app/`: what stays outside the verified library: floating-point geometry
  and drawing with `piet`, the browser chassis, and the language server's
  protocol plumbing with `tower-lsp`.
