# layerscript

A front end for LayerScript, a small language whose programs are trees of
layers (functions, bindings, blocks, loops, conditionals, structs), with
`where` refinements on types that a built-in solver tries to discharge.

Every function of the library is verified with Verus against a contract
over mathematical models (sequences, maps, spec enums that mirror the
executable types).

- `src/lexer`: characters to tokens; `CollectTokens` is specified exactly by
  `next_token_spec`.
- `src/ast`: the layer tree. Layers take their ids from a `LayerIds`
  counter that the caller holds; `lemma_ids_distinct` proves that layers
  taken from one counter get distinct ids.
- `src/parser`: tokens to a layer tree. `expressions.rs`, `types.rs` and
  `grammar.rs` state the grammar as readings from a position; every parsing
  method is proved to follow them, errors and cursor positions included.
  `numbering.rs` proves that a parse gives each layer its own id; the parser
  goes on from the counter it is given.
- `src/elaboration`: name resolution (layer 1), type checking (layer 2),
  refinement obligations (layer 3), the interval-and-enumeration solver
  (layer 4) and the optimizations that use its verdicts (layer 5). The
  solver's `Unsat` is proved sound (`lemma_unsat_means_no_model`), and so are
  the erasures and branch removals built on it.
- `tests/`: executable tests of the library.
- `app/`: the command-line driver (argument parsing with clap, file reading,
  printing).
