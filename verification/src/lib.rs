//! Consistent bracing of well-known macros: the brace table built from the
//! defaults and the user's configuration, and the checks that find macro
//! calls (and macro calls inside `macro_rules!` bodies) written with other
//! brackets than the configured ones.
pub mod text;
pub mod brace_table;
pub mod token;
pub mod nonstandard_macro_braces;
