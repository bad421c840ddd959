//! Module records: an instance together with where it came from.

use std::path::PathBuf;
use libloading::Library;
use vstd::prelude::*;

verus! {

/// `libloading::Library`, the handle of an opened library image. Nothing is
/// known of a handle but its identity.
#[verifier::external_type_specification]
#[verifier::external_body]
pub struct ExLibrary(libloading::Library);

/// `std::path::PathBuf`. The registry carries paths and never looks inside.
#[verifier::external_type_specification]
#[verifier::external_body]
pub struct ExPathBuf(std::path::PathBuf);

/// `libloading::Library::close` unloads the image. The outcome depends on the
/// platform, so nothing is claimed of it.
pub assume_specification[ libloading::Library::close ](lib: libloading::Library) -> (r: Result<
    (),
    libloading::Error,
>)
;

/// Where a module came from.
pub enum ModuleSource {
    /// Built into the host: there is no artifact behind it.
    Crate,
    /// Loaded from a shared library.
    Library {
        /// The opened image. The instance's code lives in it.
        lib: Library,
        /// The artifact that the module was loaded from.
        path: PathBuf,
        /// The staged copy of the artifact that was actually opened.
        temp_path: PathBuf,
    },
}

/// A module record: the instance and its origin.
///
/// `module` stands before `source`, so that a record that is simply dropped
/// lets go of the instance before the image that holds its code.
pub struct LoadedModule<M> {
    /// The actual module.
    pub module: M,
    /// The source that the module came from.
    pub source: ModuleSource,
}

/// What loading an artifact yields: a fresh instance, the image it lives in
/// and the staged copy that the image was opened from.
pub struct Candidate<M> {
    pub module: M,
    pub lib: Library,
    pub temp_path: PathBuf,
}

impl ModuleSource {
    /// The staged copy that this origin owns, if it owns one.
    pub open spec fn staged(self) -> Seq<PathBuf> {
        match self {
            ModuleSource::Crate => Seq::empty(),
            ModuleSource::Library { temp_path, .. } => seq![temp_path],
        }
    }
}

/// Lets go of a value.
fn discard<T>(value: T) {
}

/// Lets go of an instance and then unloads the image that holds its code,
/// in this order. Unloading is best effort: a failure is not reported.
pub(crate) fn unload<M>(module: M, lib: Library) {
    discard(module);
    let closed = lib.close();
}

impl<M> LoadedModule<M> {
    /// The record of a module that is built into the host.
    pub fn builtin(module: M) -> (record: Self)
        ensures
            record == (LoadedModule { module, source: ModuleSource::Crate }),
    {
        LoadedModule { module, source: ModuleSource::Crate }
    }

    /// The record of a freshly loaded module that came from `path`.
    pub fn from_candidate(candidate: Candidate<M>, path: PathBuf) -> (record: Self)
        ensures
            record == candidate.installed(path),
    {
        let Candidate { module, lib, temp_path } = candidate;
        LoadedModule { module, source: ModuleSource::Library { lib, path, temp_path } }
    }

    /// Tears the record down in the one safe order: first the instance, then
    /// the image that holds its code. What is left is the staged copy, which
    /// the caller deletes.
    pub fn release(self) -> (staged: Option<PathBuf>)
        ensures
            staged == match self.source {
                ModuleSource::Crate => None,
                ModuleSource::Library { temp_path, .. } => Some(temp_path),
            },
    {
        let LoadedModule { module, source } = self;
        match source {
            ModuleSource::Crate => None,
            ModuleSource::Library { lib, path, temp_path } => {
                unload(module, lib);
                Some(temp_path)
            },
        }
    }
}

impl<M> Candidate<M> {
    /// The record that this candidate becomes once it is stored as loaded
    /// from `path`.
    pub open spec fn installed(self, path: PathBuf) -> LoadedModule<M> {
        LoadedModule {
            module: self.module,
            source: ModuleSource::Library { lib: self.lib, path, temp_path: self.temp_path },
        }
    }

    /// Gives up a candidate that will not be stored: first the instance, then
    /// its image. What is left is the staged copy, which the caller deletes.
    pub fn release(self) -> (staged: PathBuf)
        ensures
            staged == self.temp_path,
    {
        let Candidate { module, lib, temp_path } = self;
        unload(module, lib);
        temp_path
    }
}

} // verus!
