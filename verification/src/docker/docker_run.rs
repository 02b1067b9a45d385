//! The invocation that runs a container.

use vstd::prelude::*;
use vstd::string::*;
use crate::docker::docker_command::DockerCommand;

verus! {

/// The mathematical value of a [`DockerRun`].
pub struct DockerRunView {
    /// The image to run.
    pub image: Seq<char>,
    /// The arguments that stand before the image.
    pub arguments: Seq<Seq<char>>,
}

impl DockerRunView {
    /// The same invocation with one more argument before the image.
    pub open spec fn with(self, argument: Seq<char>) -> DockerRunView {
        DockerRunView { image: self.image, arguments: self.arguments.push(argument) }
    }

    /// The same invocation with an option and its value before the image.
    pub open spec fn with_option(self, option: Seq<char>, value: Seq<char>) -> DockerRunView {
        self.with(option).with(value)
    }
}

/// A mount of `source` at `target`.
pub open spec fn mount(source: Seq<char>, target: Seq<char>) -> Seq<char> {
    source + ":"@ + target
}

/// A mount of `source` at `target` that cannot be written to.
pub open spec fn read_only_mount(source: Seq<char>, target: Seq<char>) -> Seq<char> {
    source + ":"@ + target + ":ro"@
}

/// The setting of `variable` to `value`.
pub open spec fn assignment(variable: Seq<char>, value: Seq<char>) -> Seq<char> {
    variable + "="@ + value
}

/// The `run` invocation of the container engine while it is put together: the
/// options so far, and the image that will follow them.
#[derive(Debug, PartialEq, Eq)]
pub struct DockerRun {
    image: String,
    command: DockerCommand,
}

impl View for DockerRun {
    type V = DockerRunView;

    closed spec fn view(&self) -> DockerRunView {
        DockerRunView { image: self.image@, arguments: self.command@ }
    }
}

impl DockerRun {
    /// The invocation that runs `image`, without options yet.
    pub fn new(image: &str) -> (run: Self)
        ensures
            run@ == (DockerRunView { image: image@, arguments: seq!["run"@] }),
    {
        let mut command = DockerCommand::new();
        command.append("run");
        assert(command@ =~= seq!["run"@]);
        DockerRun { image: String::from_str(image), command }
    }

    /// Has the container removed when it exits.
    pub fn temporary(&mut self) -> (run: &mut Self)
        ensures
            run@ == old(self)@.with("--rm"@),
            *final(self) == *final(run),
    {
        self.command.append("--rm");
        self
    }

    /// Attaches a terminal to the container.
    pub fn interactive(&mut self) -> (run: &mut Self)
        ensures
            run@ == old(self)@.with("-it"@),
            *final(self) == *final(run),
    {
        self.command.append("-it");
        self
    }

    /// Mounts the volume or directory `source` at `target`.
    pub fn volume(&mut self, source: &str, target: &str) -> (run: &mut Self)
        ensures
            run@ == old(self)@.with_option("-v"@, mount(source@, target@)),
            *final(self) == *final(run),
    {
        let mut value = String::from_str(source);
        value.append(":");
        value.append(target);
        self.command.append("-v").append(value.as_str());
        self
    }

    /// Mounts the volume or directory `source` at `target`, read-only.
    pub fn read_only_volume(&mut self, source: &str, target: &str) -> (run: &mut Self)
        ensures
            run@ == old(self)@.with_option("-v"@, read_only_mount(source@, target@)),
            *final(self) == *final(run),
    {
        let mut value = String::from_str(source);
        value.append(":");
        value.append(target);
        value.append(":ro");
        self.command.append("-v").append(value.as_str());
        self
    }

    /// Sets the environment variable `variable` to `value` in the container.
    pub fn env(&mut self, variable: &str, value: &str) -> (run: &mut Self)
        ensures
            run@ == old(self)@.with_option("-e"@, assignment(variable@, value@)),
            *final(self) == *final(run),
    {
        let mut setting = String::from_str(variable);
        setting.append("=");
        setting.append(value);
        self.command.append("-e").append(setting.as_str());
        self
    }

    /// The finished invocation: the options, then the image.
    pub fn run(self) -> (command: DockerCommand)
        ensures
            command@ == self@.arguments.push(self@.image),
    {
        let mut command = self.command;
        command.append(self.image.as_str());
        command
    }

    /// The finished invocation of a shell command in the container: the
    /// options, the image, and the shell with the command.
    pub fn run_shell_command(self, shell_command: &str) -> (command: DockerCommand)
        ensures
            command@ == self@.arguments.push(self@.image).push("sh"@).push("-c"@).push(
                shell_command@,
            ),
    {
        let mut command = self.command;
        command.append(self.image.as_str()).append("sh").append("-c").append(shell_command);
        command
    }
}

} // verus!
