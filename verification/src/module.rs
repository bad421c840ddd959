//! What every module has to offer: a name and a list of commands.

use vstd::prelude::*;

verus! {

/// A command that a module exposes. At this layer a command is a name and
/// nothing more.
pub trait Command {
    /// The command's name, as contracts speak of it. An implementation says
    /// here what `name` returns; one that leaves the default says nothing of
    /// it.
    open spec fn spec_name(&self) -> Seq<char> {
        arbitrary()
    }

    /// The command's name.
    fn name(&self) -> (r: &str)
        ensures
            r@ == self.spec_name(),
    ;
}

/// A pluggable unit, built into the host or loaded from a shared library.
///
/// The name identifies the module in the registry, so it has to be stable:
/// `name` returns the same text on every call.
pub trait Module {
    /// The module's name, as contracts speak of it. An implementation says
    /// here what `name` returns; one that leaves the default says nothing of
    /// it.
    open spec fn spec_name(&self) -> Seq<char> {
        arbitrary()
    }

    /// The names of the module's commands, in the module's own order. As
    /// with `spec_name`, the default says nothing of them.
    open spec fn spec_commands(&self) -> Seq<Seq<char>> {
        arbitrary()
    }

    /// The name of the module.
    fn name(&self) -> (r: &str)
        ensures
            r@ == self.spec_name(),
    ;

    /// All commands provided by this module.
    fn commands(&self) -> (r: Vec<Box<dyn Command>>)
        ensures
            names_of(r@) == self.spec_commands(),
    ;
}

/// The names of a list of commands, in the list's order.
pub open spec fn names_of(commands: Seq<Box<dyn Command>>) -> Seq<Seq<char>> {
    Seq::new(commands.len(), |i: int| commands[i].spec_name())
}

/// The views of a list of strings.
pub open spec fn views_of(strings: Seq<String>) -> Seq<Seq<char>> {
    Seq::new(strings.len(), |i: int| strings[i]@)
}

/// A boxed module is the module inside the box. This lets one registry hold
/// modules of different types as `Box<dyn Module>`.
impl<T: Module + ?Sized> Module for Box<T> {
    open spec fn spec_name(&self) -> Seq<char> {
        (**self).spec_name()
    }

    open spec fn spec_commands(&self) -> Seq<Seq<char>> {
        (**self).spec_commands()
    }

    fn name(&self) -> (r: &str) {
        (**self).name()
    }

    fn commands(&self) -> (r: Vec<Box<dyn Command>>) {
        (**self).commands()
    }
}

/// The names of a module's commands, in the module's order.
pub fn command_names<M: Module + ?Sized>(module: &M) -> (out: Vec<String>)
    ensures
        views_of(out@) == module.spec_commands(),
{
    let commands = module.commands();
    let mut out: Vec<String> = Vec::new();
    let mut i: usize = 0;
    while i < commands.len()
        invariant
            i <= commands@.len(),
            out@.len() == i,
            forall|j: int| 0 <= j < i ==> (#[trigger] out@[j])@ == commands@[j].spec_name(),
        decreases commands@.len() - i,
    {
        let name = commands[i].name().to_owned();
        out.push(name);
        i += 1;
    }
    assert(views_of(out@) =~= names_of(commands@));
    out
}

} // verus!
