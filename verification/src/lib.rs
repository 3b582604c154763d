//! The logic of a small interactive Unix-like shell: tokenizing a command
//! line, splitting off its redirections, deciding what each builtin prints,
//! history bookkeeping, completion candidates and `$PATH` lookups.

pub mod text;
pub mod tokenizer;
pub mod redirect;
pub mod path;
pub mod number;
pub mod builtins;
pub mod dir;
pub mod history;
pub mod completion;
pub mod pipeline;
pub mod exec;


