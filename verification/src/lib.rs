//! The core of a binding generator for WebAssembly.
//!
//! A compiled module carries, in custom sections of a reserved name, the
//! metadata of what it exports to and imports from its host. This crate takes
//! that metadata out of the module, makes the module ready for bindings to be
//! generated, and plans the files of a run. It reads no file and writes none:
//! [`Bindgen::generate`] is one step of a run, and says what its driver is to
//! do next.
//!
//! The modules, from the ground up:
//!
//! - [`text`], [`search`]: strings as sequences of characters;
//! - [`frames`]: the length-prefixed frames that metadata is written in;
//! - [`schema`]: the header frame, which gates a payload by its schema;
//! - [`binary`]: what is asked of bytes before they are parsed;
//! - [`depth`]: how deep the expressions of a function may nest;
//! - [`wasm`]: the module in memory, which is walrus's;
//! - [`extract`]: taking the metadata out of a module;
//! - [`transform`]: threads, readable names, and the one linear memory;
//! - [`indent`]: indentation of generated text;
//! - [`shim`]: the loader of a binary on a server-side host;
//! - [`bindgen`]: the options of a run, and its steps;
//! - [`error`]: what stops a run.

pub mod binary;
pub mod bindgen;
pub mod depth;
pub mod error;
pub mod extract;
pub mod frames;
pub mod indent;
pub mod schema;
pub mod search;
pub mod shim;
pub mod text;
pub mod transform;
pub mod wasm;

pub use crate::bindgen::Bindgen;
