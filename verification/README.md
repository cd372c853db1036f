# lynx

The discovery layer that turns a query into repository coordinates: symbol
identifiers, files and line ranges.

- `src/` is the verified library: query classification, the search plan,
  reciprocal rank fusion and the ranking heuristics, symbol extraction from
  Go, Python and JavaScript syntax trees, the index document layouts, and
  the `file:line` and symbol identifier formats. Contracts are stated in
  `requires`/`ensures`; the `law_*` proof functions state the properties
  that hold across functions. What tree-sitter, tantivy, blake3 and
  `std::path` compute is trusted, not proved: the contracts speak of it
  through named results, and the doc comments of the wrappers in
  `syntax.rs`, `schema.rs`, `parser.rs`, `navigation.rs` and
  `symbol_extraction/` say what each one claims and leaves unstated.
- `app/` is the `lx` command line around it: the tantivy indexes on disk,
  the embedding cache, repository walking, the floating-point scoring of the
  ranker's plan, and the MCP server.
- `tests/` runs the library on concrete inputs.
