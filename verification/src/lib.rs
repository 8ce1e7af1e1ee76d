//! Import-stub generation for a scripting engine's shared library.
//!
//! The crate holds the decisions of a four-step build pipeline: where the
//! shared library is expected, how the export listing of the library
//! inspector is read, what the module-definition file contains, and how the
//! librarian is invoked. Reading the configuration store, running the tools
//! and writing files is left to the caller.

pub mod error;
pub mod text;
pub mod exports;
pub mod module_def;
pub mod platform;
pub mod toolchain;
pub mod pipeline;
pub mod wrapper;
