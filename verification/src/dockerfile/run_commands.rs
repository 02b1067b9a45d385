//! The shell commands that a stage runs.

use vstd::prelude::*;
use vstd::string::*;
use crate::text::{clone_strings, join, joined, texts};
use crate::dockerfile::single_or_multiple_items_visitor::SingleOrMultipleItemsVisitor;

verus! {

/// The directive that runs the commands, one after the other, each only if the
/// one before it succeeded.
pub open spec fn run_commands_text(commands: Seq<Seq<char>>) -> Seq<char> {
    "RUN "@ + joined(commands, " && "@) + "\n"@
}

/// The commands of one stage, in the order in which they run. There is always
/// at least one.
#[derive(Debug, PartialEq, Eq)]
pub struct RunCommands {
    commands: Vec<String>,
}

impl View for RunCommands {
    type V = Seq<Seq<char>>;

    closed spec fn view(&self) -> Seq<Seq<char>> {
        texts(self.commands@)
    }
}

impl Clone for RunCommands {
    fn clone(&self) -> (copy: Self)
        ensures
            copy@ == self@,
    {
        proof {
            use_type_invariant(self);
        }
        let commands = clone_strings(&self.commands);
        RunCommands { commands }
    }
}

impl RunCommands {
    #[verifier::type_invariant]
    spec fn well_formed(&self) -> bool {
        self.commands@.len() > 0
    }

    /// The commands given as a sequence. `None` exactly when the sequence is
    /// empty.
    pub fn new(commands: Vec<String>) -> (r: Option<RunCommands>)
        ensures
            match r {
                Some(run) => commands@.len() > 0 && run@ == texts(commands@),
                None => commands@.len() == 0,
            },
    {
        if commands.len() == 0 {
            None
        } else {
            Some(RunCommands { commands })
        }
    }

    /// A single command.
    pub fn single(command: &str) -> (run: RunCommands)
        ensures
            run@ == seq![command@],
    {
        let commands = SingleOrMultipleItemsVisitor.visit_str(command);
        assert(commands@.len() == texts(commands@).len());
        RunCommands { commands }
    }

    /// How many commands there are; never zero.
    pub fn len(&self) -> (n: usize)
        ensures
            n == self@.len(),
            n > 0,
    {
        proof {
            use_type_invariant(self);
        }
        self.commands.len()
    }

    /// The command at position `index`.
    pub fn get(&self, index: usize) -> (command: Option<&str>)
        ensures
            match command {
                Some(c) => index < self@.len() && c@ == self@[index as int],
                None => index >= self@.len(),
            },
    {
        if index < self.commands.len() {
            Some(self.commands[index].as_str())
        } else {
            None
        }
    }

    /// Appends the directive to `out`.
    pub fn write_to(&self, out: &mut String)
        ensures
            final(out)@ == old(out)@ + run_commands_text(self@),
    {
        out.append("RUN ");
        let commands = join(&self.commands, " && ");
        out.append(commands.as_str());
        out.append("\n");
        assert(out@ =~= old(out)@ + run_commands_text(self@));
    }

    /// The directive that runs the commands.
    pub fn to_string(&self) -> (text: String)
        ensures
            text@ == run_commands_text(self@),
    {
        let mut out = String::new();
        self.write_to(&mut out);
        assert(out@ =~= run_commands_text(self@));
        out
    }
}

} // verus!
