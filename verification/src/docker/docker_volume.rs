//! Invocations that deal with volumes.

use vstd::prelude::*;
use crate::docker::docker_command::DockerCommand;

verus! {

/// The `volume` subcommand of the container engine.
#[derive(Debug, PartialEq, Eq)]
pub struct DockerVolume;

impl DockerVolume {
    /// The `volume` subcommand.
    pub fn new() -> Self {
        DockerVolume
    }

    /// The invocation that inspects the volume `name`. It succeeds exactly
    /// when the volume exists.
    pub fn inspect(self, name: &str) -> (command: DockerCommand)
        ensures
            command@ == seq!["volume"@, "inspect"@, name@],
    {
        let mut command = DockerCommand::new();
        command.append("volume").append("inspect").append(name);
        assert(command@ =~= seq!["volume"@, "inspect"@, name@]);
        command
    }

    /// The invocation that creates the volume `name`.
    pub fn create(self, name: &str) -> (command: DockerCommand)
        ensures
            command@ == seq!["volume"@, "create"@, "--name"@, name@],
    {
        let mut command = DockerCommand::new();
        command.append("volume").append("create").append("--name").append(name);
        assert(command@ =~= seq!["volume"@, "create"@, "--name"@, name@]);
        command
    }
}

} // verus!
