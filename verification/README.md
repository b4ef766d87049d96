# clippy_lints: consistent macro braces, verified

The library checks that well-known macros are called with their
conventional brackets (`vec![..]`, `println!(..)`, ...), with a table of
expected braces that the user's configuration extends and overrides.

- `src/text.rs`: whitespace, trimming, prefix stripping and splitting over
  the character view of strings.
- `src/brace_table.rs`: the table of braces by macro name, viewed as a map.
- `src/token.rs`: token trees of macro definition bodies, as plain values.
- `src/nonstandard_macro_braces.rs`: the brace table with its defaults, the
  checks of macro calls and of `macro_rules!` bodies, the suggested rewrite,
  and the laws that relate them.
- `app/`: the compiler-facing lint passes, which read the compiler's state
  and emit diagnostics; they need the compiler's internal crates.
