//! What holds of the registry whatever is loaded into it.
//!
//! The laws speak of the registry as a map from names to records, which is
//! how the contracts of `ModuleLoader` speak of it.

use crate::error::{ModuleError, ModuleErrorView};
use crate::loader::{
    keyed_by_name, load_registry, load_result, reload_discards, reload_registry, reload_result,
    staged_of, Registry,
};
use crate::module::Module;
use crate::record::{Candidate, ModuleSource};
use std::path::PathBuf;
use vstd::prelude::*;

verus! {

/// A module that was loaded is stored under the name that its instance
/// reports, and that name is what `load` returns.
pub proof fn law_load_stores_under_reported_name<M: Module>(
    registry: Registry<M>,
    path: PathBuf,
    candidate: Candidate<M>,
)
    ensures
        load_result(Ok::<Candidate<M>, ModuleError>(candidate)) == Ok::<Seq<char>, ModuleErrorView>(
            candidate.module.spec_name(),
        ),
        load_registry(registry, path, Ok(candidate)).contains_key(candidate.module.spec_name()),
        load_registry(registry, path, Ok(candidate))[candidate.module.spec_name()].module
            == candidate.module,
        load_registry(registry, path, Ok(candidate))[candidate.module.spec_name()].source == (
        ModuleSource::Library { lib: candidate.lib, path, temp_path: candidate.temp_path }),
{
}

/// Loading keeps every record under the name of its instance.
pub proof fn law_load_keeps_names<M: Module>(
    registry: Registry<M>,
    path: PathBuf,
    loaded: Result<Candidate<M>, ModuleError>,
)
    requires
        keyed_by_name(registry),
    ensures
        keyed_by_name(load_registry(registry, path, loaded)),
{
    let after = load_registry(registry, path, loaded);
    assert forall|name: Seq<char>| #[trigger] after.contains_key(name) implies after[name].module.spec_name()
        == name by {
        if registry.contains_key(name) {
        }
    }
}

/// A load that failed changes nothing and hands the error on.
pub proof fn law_failed_load_changes_nothing<M: Module>(
    registry: Registry<M>,
    path: PathBuf,
    e: ModuleError,
)
    ensures
        load_result(Err::<Candidate<M>, ModuleError>(e)) == Err::<Seq<char>, ModuleErrorView>(e@),
        load_registry(registry, path, Err::<Candidate<M>, ModuleError>(e)) == registry,
{
}

/// Reloading a name that is not registered fails with `ModuleNotFound`, and
/// the registry, its set of names included, stays as it is.
pub proof fn law_reload_of_unknown_name<M: Module>(
    registry: Registry<M>,
    name: Seq<char>,
    loaded: Result<Candidate<M>, ModuleError>,
)
    requires
        !registry.contains_key(name),
    ensures
        reload_result(registry, name, loaded) == Err::<Seq<char>, ModuleErrorView>(
            ModuleErrorView::ModuleNotFound(name),
        ),
        reload_registry(registry, name, loaded) == registry,
        reload_registry(registry, name, loaded).dom() == registry.dom(),
{
}

/// Reloading a module that is built in fails with `NoReload`, and the stored
/// instance stays the one it was.
pub proof fn law_reload_of_builtin<M: Module>(
    registry: Registry<M>,
    name: Seq<char>,
    loaded: Result<Candidate<M>, ModuleError>,
)
    requires
        registry.contains_key(name),
        registry[name].source is Crate,
    ensures
        reload_result(registry, name, loaded) == Err::<Seq<char>, ModuleErrorView>(
            ModuleErrorView::NoReload(name),
        ),
        reload_registry(registry, name, loaded) == registry,
        reload_registry(registry, name, loaded)[name].module == registry[name].module,
{
}

/// Where the artifact now reports another name, reloading fails with
/// `NameMismatch`. The registry still holds the original instance under the
/// original name, never the candidate, whose staged copy is queued for
/// deletion.
pub proof fn law_reload_with_other_name<M: Module>(
    registry: Registry<M>,
    name: Seq<char>,
    candidate: Candidate<M>,
)
    requires
        registry.contains_key(name),
        registry[name].source is Library,
        candidate.module.spec_name() != name,
    ensures
        reload_result(registry, name, Ok(candidate)) == Err::<Seq<char>, ModuleErrorView>(
            ModuleErrorView::NameMismatch { expected: name, actual: candidate.module.spec_name() },
        ),
        reload_registry(registry, name, Ok(candidate)) == registry,
        reload_registry(registry, name, Ok(candidate))[name] == registry[name],
        reload_discards(registry, name, Ok(candidate)) == seq![candidate.temp_path],
{
}

/// Where loading the artifact failed, reloading fails with the error of the
/// load, and the registry stays as it is.
pub proof fn law_reload_after_failed_load<M: Module>(
    registry: Registry<M>,
    name: Seq<char>,
    e: ModuleError,
)
    requires
        registry.contains_key(name),
        registry[name].source is Library,
    ensures
        reload_result(registry, name, Err::<Candidate<M>, ModuleError>(e)) == Err::<
            Seq<char>,
            ModuleErrorView,
        >(e@),
        reload_registry(registry, name, Err::<Candidate<M>, ModuleError>(e)) == registry,
        reload_discards(registry, name, Err::<Candidate<M>, ModuleError>(e)) == Seq::<
            PathBuf,
        >::empty(),
{
}

/// A reload is all or nothing: whenever it fails, for whatever reason, the
/// registry is what it was before.
pub proof fn law_failed_reload_changes_nothing<M: Module>(
    registry: Registry<M>,
    name: Seq<char>,
    loaded: Result<Candidate<M>, ModuleError>,
)
    requires
        reload_result(registry, name, loaded) is Err,
    ensures
        reload_registry(registry, name, loaded) == registry,
{
}

/// A reload succeeds exactly when the name is registered, its module came
/// from a library, loading succeeded and the fresh instance reports the same
/// name. It then returns that name, the fresh instance stands in place of
/// the old one under the same source path, no name is added or lost, and
/// the staged copy of the old record is queued for deletion.
pub proof fn law_reload_success<M: Module>(
    registry: Registry<M>,
    name: Seq<char>,
    loaded: Result<Candidate<M>, ModuleError>,
)
    ensures
        reload_result(registry, name, loaded) is Ok <==> (registry.contains_key(name)
            && registry[name].source is Library && loaded is Ok
            && loaded->Ok_0.module.spec_name() == name),
        reload_result(registry, name, loaded) is Ok ==> {
            let after = reload_registry(registry, name, loaded);
            &&& reload_result(registry, name, loaded) == Ok::<Seq<char>, ModuleErrorView>(name)
            &&& after.dom() == registry.dom()
            &&& after[name].module == loaded->Ok_0.module
            &&& after[name].source is Library
            &&& after[name].source->lib == loaded->Ok_0.lib
            &&& after[name].source->path == registry[name].source->path
            &&& after[name].source->temp_path == loaded->Ok_0.temp_path
            &&& forall|other: Seq<char>|
                other != name && registry.contains_key(other) ==> #[trigger] after[other]
                    == registry[other]
            &&& reload_discards(registry, name, loaded) == seq![registry[name].source->temp_path]
        },
{
    if reload_result(registry, name, loaded) is Ok {
        let after = reload_registry(registry, name, loaded);
        assert(after.dom() =~= registry.dom());
    }
}

/// Reloading keeps every record under the name of its instance.
pub proof fn law_reload_keeps_names<M: Module>(
    registry: Registry<M>,
    name: Seq<char>,
    loaded: Result<Candidate<M>, ModuleError>,
)
    requires
        keyed_by_name(registry),
    ensures
        keyed_by_name(reload_registry(registry, name, loaded)),
{
    let after = reload_registry(registry, name, loaded);
    assert forall|other: Seq<char>| #[trigger] after.contains_key(other) implies after[other].module.spec_name()
        == other by {
        if registry.contains_key(other) {
        }
    }
}

/// Reloading again and again works the same each time. Where two loads of
/// one artifact in a row both yield an instance of the name asked for, both
/// reloads return that name, and the registry holds the same names
/// throughout. After each reload the record holds the latest instance, so
/// instances with the same commands show the same commands. Each reload
/// queues the staged copy of the record it replaces, so the module owns one
/// staged copy at any time: that of its latest load.
pub proof fn law_reload_repeats<M: Module>(
    registry: Registry<M>,
    name: Seq<char>,
    first: Candidate<M>,
    second: Candidate<M>,
)
    requires
        registry.contains_key(name),
        registry[name].source is Library,
        first.module.spec_name() == name,
        second.module.spec_name() == name,
    ensures
        ({
            let once = reload_registry(registry, name, Ok(first));
            let twice = reload_registry(once, name, Ok(second));
            &&& reload_result(registry, name, Ok(first)) == Ok::<Seq<char>, ModuleErrorView>(name)
            &&& reload_result(once, name, Ok(second)) == Ok::<Seq<char>, ModuleErrorView>(name)
            &&& once.dom() == registry.dom()
            &&& twice.dom() == registry.dom()
            &&& once[name].module == first.module
            &&& twice[name].module == second.module
            &&& second.module.spec_commands() == first.module.spec_commands()
                ==> twice[name].module.spec_commands() == once[name].module.spec_commands()
            &&& twice[name].source->path == registry[name].source->path
            &&& reload_discards(registry, name, Ok(first)) == staged_of(registry, name)
            &&& reload_discards(once, name, Ok(second)) == seq![first.temp_path]
            &&& staged_of(twice, name) == seq![second.temp_path]
        }),
{
    let once = reload_registry(registry, name, Ok(first));
    let twice = reload_registry(once, name, Ok(second));
    assert(once.dom() =~= registry.dom());
    assert(twice.dom() =~= registry.dom());
}

/// A record owns at most one staged copy, and only a module that came from a
/// library owns one.
pub proof fn law_one_staged_copy<M>(registry: Registry<M>, name: Seq<char>)
    ensures
        staged_of(registry, name).len() <= 1,
        staged_of(registry, name).len() == 1 <==> (registry.contains_key(name)
            && registry[name].source is Library),
{
}

} // verus!
