//! The subcommand surface of the tool: maintaining the list of named
//! patterns. Argument parsing itself happens outside the core; these are
//! the plain values it produces.

use vstd::prelude::*;

verus! {

/// Arguments of the subcommand that adds a named pattern.
#[derive(Debug)]
pub struct AddArgs {
    pub name: String,
    pub regex: String,
}

/// Arguments of the subcommand that removes a named pattern.
#[derive(Debug)]
pub struct RemoveArgs {
    name: String,
}

impl RemoveArgs {
    /// Arguments naming the pattern to remove.
    pub fn new(name: String) -> (a: RemoveArgs)
        ensures
            a.spec_name() == name@,
    {
        RemoveArgs { name }
    }

    /// The name of the pattern to remove.
    pub closed spec fn spec_name(&self) -> Seq<char> {
        self.name@
    }

    /// The name of the pattern to remove.
    pub fn name(&self) -> (n: &String)
        ensures
            n@ == self.spec_name(),
    {
        &self.name
    }
}

/// A maintenance subcommand on the named-pattern list.
#[derive(Debug)]
pub enum Commands {
    Add(AddArgs),
    Remove(RemoveArgs),
    List,
}

} // verus!
