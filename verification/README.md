# waterui lints

Lints for code written with the `waterui` UI framework and its reactive layer `nami`:
needless erasures, hand-written signal combinators, untranslated text, unlabelled images,
blocking calls on the UI thread, and more. Each lint is a verified function from a tree of
the code under inspection to findings with suggested fixes.

- `src/` — the lints, verified with Verus. `hir` is the tree, `builder` makes one,
  `diagnostics` is what a lint says, and each remaining module is one lint or what a few
  of them share. `laws` and the public proof functions beside the lints state what holds
  of all inputs: which lint speaks of which code, that chains report once, that templates
  read back, that no comment is deleted by an automatic fix.
- `tests/` — one scenario or more for every lint, with the exact fix it suggests.
- `app/` — the compiler plugin: it lowers a crate to the tree, runs the lints, and emits
  what they find. It needs a nightly toolchain with the compiler's own crates.

What is taken on trust: the Rust lexer and the string-literal escaper of the compiler, the
TOML parser, and `std`'s `Debug` form of strings and its table of alphabetic characters.
