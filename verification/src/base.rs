//! The module that ships with the host.

use crate::module::{names_of, Command, Module};
use vstd::prelude::*;

verus! {

/// The `ping` command.
pub struct Ping;

impl Command for Ping {
    open spec fn spec_name(&self) -> Seq<char> {
        "ping"@
    }

    fn name(&self) -> (r: &str) {
        "ping"
    }
}

/// The built-in module `base`, whose only command is `ping`.
pub struct Base;

impl Base {
    pub fn new() -> (base: Self) {
        Base
    }
}

impl Module for Base {
    open spec fn spec_name(&self) -> Seq<char> {
        "base"@
    }

    open spec fn spec_commands(&self) -> Seq<Seq<char>> {
        seq!["ping"@]
    }

    fn name(&self) -> (r: &str) {
        "base"
    }

    fn commands(&self) -> (r: Vec<Box<dyn Command>>) {
        let commands: Vec<Box<dyn Command>> = vec![Box::new(Ping)];
        assert(names_of(commands@) =~= seq!["ping"@]);
        commands
    }
}

} // verus!
