//! The arguments of the command line, and the invocation that runs the tool
//! in a container of its own.

use vstd::prelude::*;
use vstd::string::*;
use crate::commands::{Commands, CommandsView};
use crate::docker::docker_command::DockerCommand;
use crate::docker::docker_run::{mount, read_only_mount};

verus! {

/// The mathematical value of [`Arguments`].
pub struct ArgumentsView {
    pub disable_config_volume: bool,
    pub command: CommandsView,
}

impl ArgumentsView {
    /// The arguments as they are written on a command line.
    pub open spec fn text(self) -> Seq<char> {
        if self.disable_config_volume {
            "--disable-config-volume "@ + self.command.text()
        } else {
            self.command.text()
        }
    }

    /// The shell command that runs the tool with these arguments inside its
    /// own container, where the configuration volume is not looked for again.
    pub open spec fn inner_command(self) -> Seq<char> {
        "dkr --disable-config-volume "@ + self.text()
    }

    /// The invocation that runs the tool in a container of its own: a
    /// temporary container of the tool's image, with the configuration volume
    /// mounted read-only and the engine's socket passed through.
    pub open spec fn container_invocation(self) -> Seq<Seq<char>> {
        seq![
            "run"@,
            "--rm"@,
            "-v"@,
            read_only_mount("dkr-config"@, "/root/.config/dkr"@),
            "-v"@,
            mount("/var/run/docker.sock"@, "/var/run/docker.sock"@),
            "dkr"@,
            "sh"@,
            "-c"@,
            self.inner_command(),
        ]
    }
}

/// What the tool was called with.
#[derive(Debug, PartialEq, Eq)]
pub struct Arguments {
    disable_config_volume: bool,
    command: Commands,
}

impl View for Arguments {
    type V = ArgumentsView;

    closed spec fn view(&self) -> ArgumentsView {
        ArgumentsView { disable_config_volume: self.disable_config_volume, command: self.command@ }
    }
}

impl Arguments {
    /// The arguments for `command`.
    pub fn new(disable_config_volume: bool, command: Commands) -> (arguments: Arguments)
        ensures
            arguments@ == (ArgumentsView { disable_config_volume, command: command@ }),
    {
        Arguments { disable_config_volume, command }
    }

    /// Whether the configuration volume is to be used where it exists.
    pub fn is_config_volume_enabled(&self) -> (enabled: bool)
        ensures
            enabled == !self@.disable_config_volume,
    {
        !self.disable_config_volume
    }

    /// The command to run.
    pub fn command(&self) -> (command: &Commands)
        ensures
            command@ == self@.command,
    {
        &self.command
    }

    /// The command to run, taken out of the arguments.
    pub fn into_command(self) -> (command: Commands)
        ensures
            command@ == self@.command,
    {
        self.command
    }

    /// The arguments as they are written on a command line.
    pub fn to_string(&self) -> (text: String)
        ensures
            text@ == self@.text(),
    {
        if self.disable_config_volume {
            let mut out = String::from_str("--disable-config-volume ");
            let command = self.command.to_string();
            out.append(command.as_str());
            out
        } else {
            self.command.to_string()
        }
    }
}

/// The invocation that tells whether the configuration volume exists: it
/// succeeds exactly when it does.
pub fn config_volume_exists() -> (command: DockerCommand)
    ensures
        command@ == seq!["volume"@, "inspect"@, "dkr-config"@],
{
    crate::docker::volume().inspect("dkr-config")
}

/// The invocation that runs the tool with the given arguments in a container
/// of its own.
pub fn run_in_container(arguments: &Arguments) -> (command: DockerCommand)
    ensures
        command@ == arguments@.container_invocation(),
{
    let mut command = crate::docker::run("dkr");
    command.temporary().read_only_volume("dkr-config", "/root/.config/dkr").volume(
        "/var/run/docker.sock",
        "/var/run/docker.sock",
    );
    let mut inner = String::from_str("dkr --disable-config-volume ");
    let text = arguments.to_string();
    inner.append(text.as_str());
    let finished = command.run_shell_command(inner.as_str());
    assert(finished@ =~= arguments@.container_invocation());
    finished
}

} // verus!
