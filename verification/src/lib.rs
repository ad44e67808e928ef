//! Turns a procedural-macro package into a package that ships its macros
//! as a precompiled WebAssembly module.

pub mod compile;
pub mod document;
pub mod files;
pub mod host;
pub mod manifest;
pub mod modifications;
pub mod options;
pub mod process;
pub mod propagate;
pub mod registry;
pub mod rewrite;
pub mod source;
pub mod source_lemmas;
pub mod syntax;
pub mod tempdir;
pub mod text;
pub mod verify;
