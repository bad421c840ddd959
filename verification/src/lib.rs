//! A runtime registry of pluggable modules.
//!
//! A module is either built into the host or comes out of a shared library.
//! The registry keeps one record per module name and replaces a record only
//! when a freshly loaded instance reports the very same name; every failure
//! leaves the registry as it was.
//!
//! Opening a library image and copying files is the host's business. The
//! registry decides what to load, what to keep and what to clean up, and it
//! hands the host the staged copies that are ready to be deleted.

pub mod base;
pub mod error;
pub mod laws;
pub mod loader;
pub mod module;
pub mod record;
pub mod staging;

pub use base::{Base, Ping};
pub use error::{ModuleError, ModuleErrorView};
pub use loader::ModuleLoader;
pub use module::{command_names, Command, Module};
pub use record::{Candidate, LoadedModule, ModuleSource};
pub use staging::staged_file_name;
