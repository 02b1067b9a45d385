//! The command that opens a project in its environment.

use vstd::prelude::*;
use vstd::string::*;
use crate::docker::docker_command::DockerCommand;
use crate::docker_environment::DockerEnvironment;

verus! {

/// The mathematical value of a [`Run`].
pub struct RunView {
    pub environment: Seq<char>,
    pub project: Seq<char>,
}

impl RunView {
    /// The command as it is written on a command line.
    pub open spec fn text(self) -> Seq<char> {
        "run "@ + self.environment + " "@ + self.project
    }
}

/// The `run` command: the environment and the project to open in it.
#[derive(Debug, PartialEq, Eq)]
pub struct Run {
    environment: String,
    project: String,
}

impl View for Run {
    type V = RunView;

    closed spec fn view(&self) -> RunView {
        RunView { environment: self.environment@, project: self.project@ }
    }
}

impl Run {
    /// The command that opens `project` in `environment`.
    pub fn new(environment: String, project: String) -> (run: Run)
        ensures
            run@ == (RunView { environment: environment@, project: project@ }),
    {
        Run { environment, project }
    }

    /// The name of the environment, by which its configuration is found.
    pub fn environment(&self) -> (name: &str)
        ensures
            name@ == self@.environment,
    {
        self.environment.as_str()
    }

    /// The invocation that opens the project, given the configuration of the
    /// environment that the command names.
    pub fn run(self, environment: &DockerEnvironment) -> (command: DockerCommand)
        ensures
            command@ == environment@.run(self@.project),
    {
        environment.run(self.project.as_str())
    }

    /// The command as it is written on a command line.
    pub fn to_string(&self) -> (text: String)
        ensures
            text@ == self@.text(),
    {
        let mut out = String::from_str("run ");
        out.append(self.environment.as_str());
        out.append(" ");
        out.append(self.project.as_str());
        out
    }
}

} // verus!
