//! The arguments of one invocation of the container engine.

use vstd::prelude::*;
use vstd::string::*;
use crate::text::texts;

verus! {

/// An invocation of the container engine, as the list of its arguments.
/// Running it is left to the caller.
#[derive(Debug, PartialEq, Eq)]
pub struct DockerCommand {
    arguments: Vec<String>,
}

impl View for DockerCommand {
    type V = Seq<Seq<char>>;

    closed spec fn view(&self) -> Seq<Seq<char>> {
        texts(self.arguments@)
    }
}

impl DockerCommand {
    /// An invocation without arguments.
    pub fn new() -> (command: Self)
        ensures
            command@ == Seq::<Seq<char>>::empty(),
    {
        let command = DockerCommand { arguments: Vec::new() };
        assert(command@ =~= Seq::<Seq<char>>::empty());
        command
    }

    /// Puts one more argument at the end.
    pub fn append(&mut self, argument: &str) -> (command: &mut Self)
        ensures
            command@ == old(self)@.push(argument@),
            *final(self) == *final(command),
    {
        self.arguments.push(String::from_str(argument));
        assert(self@ =~= old(self)@.push(argument@));
        self
    }

    /// The arguments in order.
    pub fn arguments(&self) -> (arguments: &Vec<String>)
        ensures
            texts(arguments@) == self@,
    {
        &self.arguments
    }
}

} // verus!
