//! The registry of modules and its reload transaction.

use crate::error::{outcome_view, ModuleError, ModuleErrorView};
use crate::module::Module;
use crate::record::{unload, Candidate, LoadedModule, ModuleSource};
use std::path::PathBuf;
use vstd::pervasive::unreached;
use vstd::prelude::*;

verus! {

/// One stored record under the name it is found by.
struct Slot<M> {
    name: String,
    record: LoadedModule<M>,
}

/// The registry: at most one record per module name.
///
/// Seen from outside it is a map from names to records (`view`), walked in
/// some order (`order`), together with the staged copies of records that are
/// gone and whose files wait to be deleted (`pending`).
pub struct ModuleLoader<M> {
    slots: Vec<Slot<M>>,
    stale: Vec<PathBuf>,
}

/// A registry as contracts speak of it.
pub type Registry<M> = Map<Seq<char>, LoadedModule<M>>;

spec fn occurs<M>(slots: Seq<Slot<M>>, key: Seq<char>) -> bool {
    exists|i: int| 0 <= i < slots.len() && #[trigger] slots[i].name@ == key
}

spec fn slot_of<M>(slots: Seq<Slot<M>>, key: Seq<char>) -> int {
    choose|i: int| 0 <= i < slots.len() && #[trigger] slots[i].name@ == key
}

spec fn distinct<M>(slots: Seq<Slot<M>>) -> bool {
    forall|i: int, j: int|
        0 <= i < j < slots.len() ==> #[trigger] slots[i].name@ != #[trigger] slots[j].name@
}

spec fn named<M: Module>(slots: Seq<Slot<M>>) -> bool {
    forall|i: int|
        0 <= i < slots.len() ==> (#[trigger] slots[i]).name@ == slots[i].record.module.spec_name()
}

spec fn as_map<M>(slots: Seq<Slot<M>>) -> Registry<M> {
    Map::new(|key: Seq<char>| occurs(slots, key), |key: Seq<char>| slots[slot_of(slots, key)].record)
}

spec fn names<M>(slots: Seq<Slot<M>>) -> Seq<Seq<char>> {
    Seq::new(slots.len(), |i: int| slots[i].name@)
}

proof fn lemma_entry<M>(slots: Seq<Slot<M>>, i: int)
    requires
        distinct(slots),
        0 <= i < slots.len(),
    ensures
        as_map(slots).contains_key(slots[i].name@),
        as_map(slots)[slots[i].name@] == slots[i].record,
{
    let key = slots[i].name@;
    assert(occurs(slots, key));
    let j = slot_of(slots, key);
    assert(0 <= j < slots.len() && slots[j].name@ == key);
    if j < i {
        assert(slots[j].name@ != slots[i].name@);
    } else if i < j {
        assert(slots[i].name@ != slots[j].name@);
    }
}

proof fn lemma_update<M>(slots: Seq<Slot<M>>, i: int, slot: Slot<M>)
    requires
        distinct(slots),
        0 <= i < slots.len(),
        slot.name@ == slots[i].name@,
    ensures
        distinct(slots.update(i, slot)),
        as_map(slots.update(i, slot)) == as_map(slots).insert(slot.name@, slot.record),
        names(slots.update(i, slot)) == names(slots),
{
    let after = slots.update(i, slot);
    assert forall|a: int, b: int| 0 <= a < b < after.len() implies #[trigger] after[a].name@
        != #[trigger] after[b].name@ by {
        assert(after[a].name@ == slots[a].name@);
        assert(after[b].name@ == slots[b].name@);
    }
    assert forall|key: Seq<char>| occurs(after, key) <==> occurs(slots, key) by {
        if occurs(after, key) {
            let j = slot_of(after, key);
            assert(slots[j].name@ == key);
        }
        if occurs(slots, key) {
            let j = slot_of(slots, key);
            assert(after[j].name@ == key);
        }
    }
    assert forall|key: Seq<char>| occurs(after, key) implies as_map(after)[key] == as_map(
        slots,
    ).insert(slot.name@, slot.record)[key] by {
        let j = slot_of(after, key);
        lemma_entry(after, j);
        lemma_entry(slots, j);
    }
    assert(as_map(after) =~= as_map(slots).insert(slot.name@, slot.record));
    assert(names(after) =~= names(slots));
}

proof fn lemma_push<M>(slots: Seq<Slot<M>>, slot: Slot<M>)
    requires
        distinct(slots),
        !occurs(slots, slot.name@),
    ensures
        distinct(slots.push(slot)),
        as_map(slots.push(slot)) == as_map(slots).insert(slot.name@, slot.record),
        names(slots.push(slot)) == names(slots).push(slot.name@),
{
    let after = slots.push(slot);
    assert forall|a: int, b: int| 0 <= a < b < after.len() implies #[trigger] after[a].name@
        != #[trigger] after[b].name@ by {
        if b == slots.len() {
            assert(slots[a].name@ != slot.name@);
        } else {
            assert(after[a].name@ == slots[a].name@);
            assert(after[b].name@ == slots[b].name@);
        }
    }
    assert forall|key: Seq<char>| occurs(after, key) <==> (occurs(slots, key) || key == slot.name@) by {
        if occurs(after, key) {
            let j = slot_of(after, key);
            if j < slots.len() {
                assert(slots[j].name@ == key);
            }
        }
        if occurs(slots, key) {
            let j = slot_of(slots, key);
            assert(after[j].name@ == key);
        }
        if key == slot.name@ {
            assert(after[slots.len() as int].name@ == key);
        }
    }
    assert forall|key: Seq<char>| occurs(after, key) implies as_map(after)[key] == as_map(
        slots,
    ).insert(slot.name@, slot.record)[key] by {
        let j = slot_of(after, key);
        lemma_entry(after, j);
        if j < slots.len() {
            lemma_entry(slots, j);
        }
    }
    assert(as_map(after) =~= as_map(slots).insert(slot.name@, slot.record));
    assert(names(after) =~= names(slots).push(slot.name@));
}

/// The staged copy that the record under `name` owns, if there is such a
/// record and it owns one.
pub open spec fn staged_of<M>(registry: Registry<M>, name: Seq<char>) -> Seq<PathBuf> {
    if registry.contains_key(name) {
        registry[name].source.staged()
    } else {
        Seq::empty()
    }
}

/// The staged copies of the records under `names`, in that order.
pub open spec fn staged_in<M>(registry: Registry<M>, names: Seq<Seq<char>>) -> Seq<PathBuf>
    decreases names.len(),
{
    if names.len() == 0 {
        Seq::empty()
    } else {
        staged_in(registry, names.drop_last()) + staged_of(registry, names.last())
    }
}

/// The walk after a record was stored under `name`: a new name goes to the
/// end, a name that was there keeps its place.
pub open spec fn order_with<M>(
    registry: Registry<M>,
    order: Seq<Seq<char>>,
    name: Seq<char>,
) -> Seq<Seq<char>> {
    if registry.contains_key(name) {
        order
    } else {
        order.push(name)
    }
}

/// Every record is stored under the name that its instance reports.
pub open spec fn keyed_by_name<M: Module>(registry: Registry<M>) -> bool {
    forall|name: Seq<char>| #[trigger]
        registry.contains_key(name) ==> registry[name].module.spec_name() == name
}

/// What `load` returns: the name that the fresh instance reports, or the
/// error that loading ended in.
pub open spec fn load_result<M: Module>(loaded: Result<Candidate<M>, ModuleError>) -> Result<
    Seq<char>,
    ModuleErrorView,
> {
    match loaded {
        Ok(candidate) => Ok(candidate.module.spec_name()),
        Err(e) => Err(e@),
    }
}

/// The registry after `load`: the candidate is stored under the name it
/// reports, as loaded from `path`; a failed load changes nothing.
pub open spec fn load_registry<M: Module>(
    registry: Registry<M>,
    path: PathBuf,
    loaded: Result<Candidate<M>, ModuleError>,
) -> Registry<M> {
    match loaded {
        Ok(candidate) => registry.insert(candidate.module.spec_name(), candidate.installed(path)),
        Err(_) => registry,
    }
}

/// The walk after `load`.
pub open spec fn load_order<M: Module>(
    registry: Registry<M>,
    order: Seq<Seq<char>>,
    loaded: Result<Candidate<M>, ModuleError>,
) -> Seq<Seq<char>> {
    match loaded {
        Ok(candidate) => order_with(registry, order, candidate.module.spec_name()),
        Err(_) => order,
    }
}

/// The staged copies that `load` queues for deletion: that of the record
/// which the candidate replaces.
pub open spec fn load_discards<M: Module>(
    registry: Registry<M>,
    loaded: Result<Candidate<M>, ModuleError>,
) -> Seq<PathBuf> {
    match loaded {
        Ok(candidate) => staged_of(registry, candidate.module.spec_name()),
        Err(_) => Seq::empty(),
    }
}

/// What has to be loaded to reload `name`: the artifact that the record under
/// `name` came from. There is none for a name that is not registered, nor
/// for a module that is built in.
pub open spec fn reload_source_of<M>(registry: Registry<M>, name: Seq<char>) -> Result<
    PathBuf,
    ModuleErrorView,
> {
    if !registry.contains_key(name) {
        Err(ModuleErrorView::ModuleNotFound(name))
    } else {
        match registry[name].source {
            ModuleSource::Crate => Err(ModuleErrorView::NoReload(name)),
            ModuleSource::Library { path, .. } => Ok(path),
        }
    }
}

/// What `reload` returns. The checks come in this order: the name must be
/// registered, its module must have come from a library, loading must have
/// succeeded, and the fresh instance must report the name asked for.
pub open spec fn reload_result<M: Module>(
    registry: Registry<M>,
    name: Seq<char>,
    loaded: Result<Candidate<M>, ModuleError>,
) -> Result<Seq<char>, ModuleErrorView> {
    match reload_source_of(registry, name) {
        Err(e) => Err(e),
        Ok(_) => match loaded {
            Err(e) => Err(e@),
            Ok(candidate) => if candidate.module.spec_name() == name {
                Ok(name)
            } else {
                Err(
                    ModuleErrorView::NameMismatch {
                        expected: name,
                        actual: candidate.module.spec_name(),
                    },
                )
            },
        },
    }
}

/// The registry after `reload`. On success the candidate stands under `name`
/// with the source path of the record it replaces; on any failure the
/// registry is what it was.
pub open spec fn reload_registry<M: Module>(
    registry: Registry<M>,
    name: Seq<char>,
    loaded: Result<Candidate<M>, ModuleError>,
) -> Registry<M> {
    if reload_result(registry, name, loaded) is Ok {
        registry.insert(name, loaded->Ok_0.installed(registry[name].source->path))
    } else {
        registry
    }
}

/// The staged copies that `reload` queues for deletion: on success that of
/// the record which was replaced, on failure that of the candidate, if
/// there was one.
pub open spec fn reload_discards<M: Module>(
    registry: Registry<M>,
    name: Seq<char>,
    loaded: Result<Candidate<M>, ModuleError>,
) -> Seq<PathBuf> {
    match loaded {
        Err(_) => Seq::empty(),
        Ok(candidate) => if reload_result(registry, name, loaded) is Ok {
            staged_of(registry, name)
        } else {
            seq![candidate.temp_path]
        },
    }
}

impl<M: Module> View for ModuleLoader<M> {
    type V = Registry<M>;

    /// The records by name.
    closed spec fn view(&self) -> Registry<M> {
        as_map(self.slots@)
    }
}

impl<M: Module> ModuleLoader<M> {
    /// The registry holds no name twice, and every record under the name of
    /// its instance.
    pub closed spec fn wf(&self) -> bool {
        distinct(self.slots@) && named(self.slots@)
    }

    /// The names in the order in which the registry is walked. The order
    /// carries no meaning: it is some arrangement of the registered names.
    pub closed spec fn order(&self) -> Seq<Seq<char>> {
        names(self.slots@)
    }

    /// The staged copies of records that are gone. Their files wait to be
    /// deleted.
    pub closed spec fn pending(&self) -> Seq<PathBuf> {
        self.stale@
    }

    /// What well-formedness means for the registry seen as a map: the walk
    /// visits every registered name exactly once, and every record is stored
    /// under the name of its instance.
    pub proof fn lemma_wf(&self)
        requires
            self.wf(),
        ensures
            self.order().no_duplicates(),
            forall|name: Seq<char>| self.order().contains(name) <==> self@.contains_key(name),
            keyed_by_name(self@),
    {
        let slots = self.slots@;
        assert forall|name: Seq<char>| self.order().contains(name) implies self@.contains_key(
            name,
        ) by {
            let i = choose|i: int| 0 <= i < self.order().len() && self.order()[i] == name;
            assert(slots[i].name@ == name);
        }
        assert forall|name: Seq<char>| self@.contains_key(name) implies self.order().contains(
            name,
        ) by {
            let i = slot_of(slots, name);
            assert(self.order()[i] == name);
        }
        assert forall|name: Seq<char>| #[trigger] self@.contains_key(name) implies self@[name].module.spec_name()
            == name by {
            let i = slot_of(slots, name);
            lemma_entry(slots, i);
        }
    }

    /// An empty registry.
    pub fn new() -> (loader: Self)
        ensures
            loader.wf(),
            loader@ == Map::<Seq<char>, LoadedModule<M>>::empty(),
            loader.order() == Seq::<Seq<char>>::empty(),
            loader.pending() == Seq::<PathBuf>::empty(),
    {
        let loader = ModuleLoader { slots: Vec::new(), stale: Vec::new() };
        assert(loader@ =~= Map::<Seq<char>, LoadedModule<M>>::empty());
        assert(loader.order() =~= Seq::<Seq<char>>::empty());
        loader
    }

    /// Where the record under `key` is stored.
    fn position(&self, key: &String) -> (found: Option<usize>)
        ensures
            match found {
                Some(i) => i < self.slots@.len() && self.slots@[i as int].name@ == key@,
                None => !occurs(self.slots@, key@),
            },
    {
        let mut i: usize = 0;
        while i < self.slots.len()
            invariant
                i <= self.slots@.len(),
                forall|j: int| 0 <= j < i ==> (#[trigger] self.slots@[j]).name@ != key@,
            decreases self.slots@.len() - i,
        {
            if self.slots[i].name == *key {
                return Some(i);
            }
            i += 1;
        }
        None
    }

    /// Stores `record` under `name`, in place of the record that was there.
    /// The record that was there is torn down and its staged copy queued.
    fn put(&mut self, name: String, record: LoadedModule<M>)
        requires
            old(self).wf(),
            name@ == record.module.spec_name(),
        ensures
            final(self).wf(),
            final(self)@ == old(self)@.insert(name@, record),
            final(self).order() == order_with(old(self)@, old(self).order(), name@),
            final(self).pending() == old(self).pending() + staged_of(old(self)@, name@),
    {
        match self.position(&name) {
            None => {
                proof {
                    lemma_push(self.slots@, Slot { name, record });
                }
                self.slots.push(Slot { name, record });
                assert(final(self).pending() =~= old(self).pending() + staged_of(
                    old(self)@,
                    name@,
                ));
            },
            Some(i) => {
                proof {
                    lemma_entry(self.slots@, i as int);
                    lemma_update(self.slots@, i as int, Slot { name, record });
                }
                let held = self.slots.remove(i);
                self.slots.insert(i, Slot { name, record });
                assert(self.slots@ =~= old(self).slots@.update(i as int, Slot { name, record }));
                match held.record.release() {
                    None => {},
                    Some(staged) => {
                        self.stale.push(staged);
                    },
                }
                assert(final(self).pending() =~= old(self).pending() + staged_of(
                    old(self)@,
                    name@,
                ));
            },
        }
    }

    /// Registers a module that is built into the host, under the name that
    /// the module reports. A record that was stored under that name is
    /// replaced. Returns the name.
    pub fn insert(&mut self, module: M) -> (name: String)
        requires
            old(self).wf(),
        ensures
            final(self).wf(),
            name@ == module.spec_name(),
            final(self)@ == old(self)@.insert(
                name@,
                (LoadedModule { module, source: ModuleSource::Crate }),
            ),
            final(self).order() == order_with(old(self)@, old(self).order(), name@),
            final(self).pending() == old(self).pending() + staged_of(old(self)@, name@),
    {
        let name = module.name().to_owned();
        self.put(name.clone(), LoadedModule::builtin(module));
        name
    }

    /// Stores a freshly loaded module under the name that its instance
    /// reports, as loaded from `path`. A record that was stored under that
    /// name is replaced. Returns the name. Where loading failed, the error is
    /// handed on and the registry stays as it is.
    pub fn load(&mut self, path: PathBuf, loaded: Result<Candidate<M>, ModuleError>) -> (r: Result<
        String,
        ModuleError,
    >)
        requires
            old(self).wf(),
        ensures
            final(self).wf(),
            outcome_view(r) == load_result(loaded),
            final(self)@ == load_registry(old(self)@, path, loaded),
            final(self).order() == load_order(old(self)@, old(self).order(), loaded),
            final(self).pending() == old(self).pending() + load_discards(old(self)@, loaded),
    {
        match loaded {
            Err(e) => Err(e),
            Ok(candidate) => {
                let name = candidate.module.name().to_owned();
                self.put(name.clone(), LoadedModule::from_candidate(candidate, path));
                Ok(name)
            },
        }
    }

    /// The instance that is registered under `name`.
    pub fn get(&self, name: &str) -> (found: Option<&M>)
        requires
            self.wf(),
        ensures
            match found {
                Some(module) => self@.contains_key(name@) && *module == self@[name@].module,
                None => !self@.contains_key(name@),
            },
    {
        let key = name.to_owned();
        match self.position(&key) {
            None => None,
            Some(i) => {
                proof {
                    lemma_entry(self.slots@, i as int);
                }
                Some(&self.slots[i].record.module)
            },
        }
    }

    /// All registered instances, in the order of the walk.
    pub fn modules(&self) -> (out: Vec<&M>)
        requires
            self.wf(),
        ensures
            out@.len() == self.order().len(),
            forall|i: int|
                0 <= i < out@.len() ==> *(#[trigger] out@[i]) == self@[self.order()[i]].module,
    {
        let mut out: Vec<&M> = Vec::new();
        let mut i: usize = 0;
        while i < self.slots.len()
            invariant
                self.wf(),
                i <= self.slots@.len(),
                out@.len() == i,
                forall|j: int|
                    0 <= j < i ==> *(#[trigger] out@[j]) == self@[self.order()[j]].module,
            decreases self.slots@.len() - i,
        {
            proof {
                lemma_entry(self.slots@, i as int);
            }
            out.push(&self.slots[i].record.module);
            i += 1;
        }
        out
    }

    /// The first step of a reload: says which artifact the host has to load.
    /// The outcome of that load goes to `reload`.
    pub fn reload_source(&self, name: &str) -> (r: Result<&PathBuf, ModuleError>)
        requires
            self.wf(),
        ensures
            match r {
                Ok(path) => reload_source_of(self@, name@) == Ok::<PathBuf, ModuleErrorView>(*path),
                Err(e) => reload_source_of(self@, name@) == Err::<PathBuf, ModuleErrorView>(e@),
            },
    {
        let key = name.to_owned();
        match self.position(&key) {
            None => Err(ModuleError::ModuleNotFound(key)),
            Some(i) => {
                proof {
                    lemma_entry(self.slots@, i as int);
                }
                match &self.slots[i].record.source {
                    ModuleSource::Crate => Err(ModuleError::NoReload(key)),
                    ModuleSource::Library { path, .. } => Ok(path),
                }
            },
        }
    }

    /// Queues the staged copy of a candidate that is not stored.
    fn reject(&mut self, loaded: Result<Candidate<M>, ModuleError>)
        ensures
            final(self).slots == old(self).slots,
            final(self).pending() == old(self).pending() + match loaded {
                Ok(candidate) => seq![candidate.temp_path],
                Err(_) => Seq::empty(),
            },
    {
        match loaded {
            Err(_) => {
                assert(self.stale@ =~= old(self).stale@ + Seq::<PathBuf>::empty());
            },
            Ok(candidate) => {
                let staged = candidate.release();
                self.stale.push(staged);
                assert(self.stale@ =~= old(self).stale@ + seq![staged]);
            },
        }
    }

    /// Reloads the module `name`, given the outcome of loading its artifact
    /// anew (see `reload_source`).
    ///
    /// The record under `name` stays where it is while the outcome is judged,
    /// so the module it holds is usable throughout. Only a fresh instance that
    /// reports the same name takes its place; the old record is then torn
    /// down and its staged copy queued for deletion. In every other case the
    /// registry is not touched, and a candidate that came with the outcome is
    /// given up.
    pub fn reload(&mut self, name: &str, loaded: Result<Candidate<M>, ModuleError>) -> (r: Result<
        String,
        ModuleError,
    >)
        requires
            old(self).wf(),
        ensures
            final(self).wf(),
            outcome_view(r) == reload_result(old(self)@, name@, loaded),
            final(self)@ == reload_registry(old(self)@, name@, loaded),
            final(self).order() == old(self).order(),
            final(self).pending() == old(self).pending() + reload_discards(
                old(self)@,
                name@,
                loaded,
            ),
    {
        let key = name.to_owned();
        let i = match self.position(&key) {
            None => {
                self.reject(loaded);
                return Err(ModuleError::ModuleNotFound(key));
            },
            Some(i) => i,
        };
        proof {
            lemma_entry(self.slots@, i as int);
        }
        if let ModuleSource::Crate = &self.slots[i].record.source {
            self.reject(loaded);
            return Err(ModuleError::NoReload(key));
        }
        let candidate = match loaded {
            Err(e) => {
                assert(self.stale@ =~= old(self).stale@ + Seq::<PathBuf>::empty());
                return Err(e);
            },
            Ok(candidate) => candidate,
        };
        let discovered = candidate.module.name().to_owned();
        if discovered != key {
            self.reject(Ok(candidate));
            return Err(ModuleError::NameMismatch { expected: key, actual: discovered });
        }
        let Slot { name: held_name, record } = self.slots.remove(i);
        let LoadedModule { module, source } = record;
        match source {
            ModuleSource::Crate => unreached(),
            ModuleSource::Library { lib, path, temp_path } => {
                let fresh = Slot {
                    name: held_name,
                    record: LoadedModule::from_candidate(candidate, path),
                };
                proof {
                    lemma_update(old(self).slots@, i as int, fresh);
                }
                self.slots.insert(i, fresh);
                assert(self.slots@ =~= old(self).slots@.update(i as int, fresh));
                unload(module, lib);
                self.stale.push(temp_path);
                assert(self.stale@ =~= old(self).stale@ + seq![temp_path]);
                Ok(discovered)
            },
        }
    }

    /// Hands out the staged copies that wait to be deleted, and forgets them.
    pub fn take_stale(&mut self) -> (staged: Vec<PathBuf>)
        ensures
            staged@ == old(self).pending(),
            final(self).pending() == Seq::<PathBuf>::empty(),
            final(self)@ == old(self)@,
            final(self).order() == old(self).order(),
            old(self).wf() ==> final(self).wf(),
    {
        let mut staged: Vec<PathBuf> = Vec::new();
        std::mem::swap(&mut staged, &mut self.stale);
        staged
    }
    /// Tears the registry down: every record is released, in the order of
    /// the walk. Returns the staged copies that are left to delete: those
    /// that were waiting already, then those of the records.
    pub fn teardown(self) -> (staged: Vec<PathBuf>)
        requires
            self.wf(),
        ensures
            staged@ == self.pending() + staged_in(self@, self.order()),
    {
        let ghost registry = self@;
        let ghost order = self.order();
        let ghost all = self.slots@;
        let ModuleLoader { slots, stale } = self;
        let mut slots = slots;
        let mut staged = stale;
        let count = slots.len();
        let mut done: usize = 0;
        assert(order.subrange(0, 0) =~= Seq::<Seq<char>>::empty());
        while done < count
            invariant
                distinct(all),
                registry == as_map(all),
                order == names(all),
                count == all.len(),
                done <= count,
                slots@ == all.subrange(done as int, count as int),
                staged@ == stale@ + staged_in(registry, order.subrange(0, done as int)),
            decreases count - done,
        {
            proof {
                lemma_entry(all, done as int);
                assert(order.subrange(0, done + 1).drop_last() =~= order.subrange(0, done as int));
                assert(order.subrange(0, done + 1).last() == all[done as int].name@);
            }
            let slot = slots.remove(0);
            assert(slot == all[done as int]);
            match slot.record.release() {
                None => {},
                Some(copy) => {
                    staged.push(copy);
                },
            }
            done += 1;
            assert(slots@ =~= all.subrange(done as int, count as int));
            assert(staged@ =~= stale@ + staged_in(registry, order.subrange(0, done as int)));
        }
        assert(order.subrange(0, count as int) =~= order);
        staged
    }
}

impl<M: Module> Default for ModuleLoader<M> {
    /// An empty registry.
    fn default() -> (loader: Self)
        ensures
            loader.wf(),
            loader@ == Map::<Seq<char>, LoadedModule<M>>::empty(),
            loader.order() == Seq::<Seq<char>>::empty(),
            loader.pending() == Seq::<PathBuf>::empty(),
    {
        ModuleLoader::new()
    }
}

} // verus!
