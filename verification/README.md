# shapez

A voxel shape language: its syntax tree, parser and compiler, with the
editor's voxel tiles, undo history, tools and modes. The functions under
`src/` are verified with Verus against their contracts, except the small
wrappers marked `external_body` in `tables`, `text` and `nodefx`, which call
std, `rustc-hash` and `indexmap` and whose contracts are trusted.

- `token`, `ast`, `text`, `error`, `idverifier`: tokens, the syntax tree,
  number and swizzle literals, errors, and variable scopes.
- `grammar`: what parsing means, as spec functions; `parser` implements it.
- `node`, `semantics`: the instructions of a compiled program and what
  compiling means; `compile` implements it.
- `tables`: the hash and insertion-ordered maps of `rustc-hash` and
  `indexmap`, with the contracts the library relies on.
- `tile`, `undo`, `modes`, `tools`, `nodefx`: editor state and rules.

`app/` holds what the library leaves to its users: reading files, and the
conversion of exact literals and voxel coordinates to 32-bit floats.
