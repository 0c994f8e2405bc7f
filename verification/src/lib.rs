//! Code-generation backend of an FFI-binding generator.
//!
//! The crate consumes an ordered model of C declarations (structs, unions,
//! enums, typedefs, global variables, functions) and lowers it into a list of
//! foreign-linkage declarations for a target systems language: type aliases,
//! record definitions, opaque placeholders, integer constants, and one linkage
//! block tagged with the native library name.  Parsing C headers into the
//! model and rendering the output declarations as text are left to callers.

pub mod ident;
pub mod model;
pub mod output;
pub mod lower;
pub mod laws;
