//! Invocations of the container engine.
//!
//! Nothing here starts a process: every function gives the list of arguments
//! of an invocation, which the caller hands to the engine.

pub mod docker_command;
pub mod docker_run;
pub mod docker_volume;

pub use self::docker_command::DockerCommand;
pub use self::docker_run::DockerRun;
pub use self::docker_volume::DockerVolume;

use vstd::prelude::*;
use crate::docker::docker_run::DockerRunView;

verus! {

/// Starts the invocation that runs `image`.
pub fn run(image: &str) -> (run: DockerRun)
    ensures
        run@ == (DockerRunView { image: image@, arguments: seq!["run"@] }),
{
    DockerRun::new(image)
}

/// The `volume` subcommand.
pub fn volume() -> DockerVolume {
    DockerVolume::new()
}

} // verus!
