//! The command that creates a project.

use vstd::prelude::*;
use vstd::string::*;
use crate::docker::docker_command::DockerCommand;
use crate::docker_environment::DockerEnvironment;

verus! {

/// The mathematical value of a [`New`].
pub struct NewView {
    pub environment: Seq<char>,
    pub name: Seq<char>,
}

impl NewView {
    /// The command as it is written on a command line.
    pub open spec fn text(self) -> Seq<char> {
        "new "@ + self.environment + " "@ + self.name
    }
}

/// The `new` command: the environment and the name of the project to create
/// in it.
#[derive(Debug, PartialEq, Eq)]
pub struct New {
    environment: String,
    name: String,
}

impl View for New {
    type V = NewView;

    closed spec fn view(&self) -> NewView {
        NewView { environment: self.environment@, name: self.name@ }
    }
}

impl New {
    /// The command that creates the project `name` in `environment`.
    pub fn new(environment: String, name: String) -> (command: New)
        ensures
            command@ == (NewView { environment: environment@, name: name@ }),
    {
        New { environment, name }
    }

    /// The name of the environment, by which its configuration is found.
    pub fn environment(&self) -> (name: &str)
        ensures
            name@ == self@.environment,
    {
        self.environment.as_str()
    }

    /// The two invocations that create the project, in the order in which they
    /// have to run: the one that creates the project's volume, and the one
    /// that sets the project up in the environment.
    pub fn run(self, environment: &DockerEnvironment) -> (commands: (DockerCommand, DockerCommand))
        ensures
            commands.0@ == seq!["volume"@, "create"@, "--name"@, self@.name],
            commands.1@ == environment@.initialize(self@.name),
    {
        let create = crate::docker::volume().create(self.name.as_str());
        let initialize = environment.initialize(self.name.as_str());
        (create, initialize)
    }

    /// The command as it is written on a command line.
    pub fn to_string(&self) -> (text: String)
        ensures
            text@ == self@.text(),
    {
        let mut out = String::from_str("new ");
        out.append(self.environment.as_str());
        out.append(" ");
        out.append(self.name.as_str());
        out
    }
}

} // verus!
