# java-atlas

`java-atlas` walks a Java source tree and builds a compact atlas of every
`.java` file it finds: a Markdown document for reading, a full JSON export,
and package-scoped JSONL shards for search.

The library in `src/` is written in Verus. Its functions carry contracts
that state what they compute, and Verus proves them.

## Layout

- `src/java_ast/syntax.rs` - the tree-sitter-java syntax tree as a preorder
  list of nodes, and navigation over it (subtrees, children, node text).
- `src/java_ast/helpers.rs` - reading type references, annotations,
  annotation values, modifiers, parameters and type parameters.
- `src/java_ast/javadoc.rs` - Javadoc comments: description and block tags.
- `src/java_ast/parse.rs` - the model of a file: package, imports, top-level
  types and their members.
- `src/java_ast/resolve.rs` - cross-file resolution of type references to
  fully qualified names of parsed types.
- `src/java_ast/render.rs`, `display.rs` - single-file Markdown and the Java
  spelling of types and annotations. Markdown leaves imports out, folds
  standard accessors into their fields as `[getter]`, `[setter]` and `[add]`,
  skips plain no-argument constructors and shows Javadoc descriptions inline.
- `src/markdown.rs` - structural validation of Markdown headings
  (pulldown-cmark events).
- `src/output/` - the multi-file Markdown atlas, the compaction rules, the
  JSONL records and package shards, and the pruning that leaves `null` and
  empty-array members out of JSONL.
- `app/` - the command-line program and the JSON encodings (serde).

## Usage

```bash
java-atlas init [path] [--out-dir .atlas]
java-atlas [path] [--format markdown|json|jsonl]
```

`init` writes `atlas.md` and package shards under `packages/` into the output
directory. Direct rendering scans `path`; without one, the program prints
existing `.atlas` artifacts where it can.
