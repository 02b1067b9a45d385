//! Project environments: an image, the command that sets a new project up in
//! it, and the volumes that its containers get.

pub mod shared_volume;

pub use self::shared_volume::SharedVolume;

use vstd::prelude::*;
use vstd::string::*;
use crate::docker::docker_command::DockerCommand;
use crate::docker::docker_run::{assignment, mount, DockerRun, DockerRunView};
use crate::docker_environment::shared_volume::SharedVolumeView;
use crate::text::optional_text;

verus! {

/// The mathematical value of a [`DockerEnvironment`].
pub struct DockerEnvironmentView {
    pub image: Seq<char>,
    pub new: Seq<char>,
    pub project_path: Option<Seq<char>>,
    pub shared_volumes: Seq<SharedVolumeView>,
}

/// The invocation with the given volumes mounted, in their order.
pub open spec fn with_volumes(run: DockerRunView, volumes: Seq<SharedVolumeView>) -> DockerRunView
    decreases volumes.len(),
{
    if volumes.len() == 0 {
        run
    } else {
        with_volumes(run, volumes.drop_last()).with_option(
            "-v"@,
            mount(volumes.last().name, volumes.last().at),
        )
    }
}

/// The finished invocation that runs the image behind the options.
pub open spec fn finished(run: DockerRunView) -> Seq<Seq<char>> {
    run.arguments.push(run.image)
}

/// The finished invocation that runs a shell command in the image.
pub open spec fn finished_shell(run: DockerRunView, shell_command: Seq<char>) -> Seq<Seq<char>> {
    run.arguments.push(run.image).push("sh"@).push("-c"@).push(shell_command)
}

impl DockerEnvironmentView {
    /// Where the project is mounted: the configured path, or `/project`.
    pub open spec fn project_path(self) -> Seq<char> {
        match self.project_path {
            Some(path) => path,
            None => "/project"@,
        }
    }

    /// The invocation without options.
    pub open spec fn start(self) -> DockerRunView {
        DockerRunView { image: self.image, arguments: seq!["run"@] }
    }

    /// The invocation that sets up the new project `project`: a temporary
    /// container with the project's volume, its name in `NAME` and the shared
    /// volumes, running the set-up command in a shell.
    pub open spec fn initialize(self, project: Seq<char>) -> Seq<Seq<char>> {
        finished_shell(
            with_volumes(
                self.start().with("--rm"@).with_option(
                    "-v"@,
                    mount(project, self.project_path()),
                ).with_option("-e"@, assignment("NAME"@, project)),
                self.shared_volumes,
            ),
            self.new,
        )
    }

    /// The invocation that opens the project `project`: a temporary container
    /// with a terminal, the project's volume and the shared volumes.
    pub open spec fn run(self, project: Seq<char>) -> Seq<Seq<char>> {
        finished(
            with_volumes(
                self.start().with("--rm"@).with("-it"@).with_option(
                    "-v"@,
                    mount(project, self.project_path()),
                ),
                self.shared_volumes,
            ),
        )
    }
}

/// The views of the volumes.
pub open spec fn volume_views(volumes: Seq<SharedVolume>) -> Seq<SharedVolumeView> {
    volumes.map_values(|volume: SharedVolume| volume@)
}

/// An environment for projects.
#[derive(Debug, PartialEq, Eq)]
pub struct DockerEnvironment {
    image: String,
    new: String,
    project_path: Option<String>,
    shared_volumes: Vec<SharedVolume>,
}

impl View for DockerEnvironment {
    type V = DockerEnvironmentView;

    closed spec fn view(&self) -> DockerEnvironmentView {
        DockerEnvironmentView {
            image: self.image@,
            new: self.new@,
            project_path: optional_text(self.project_path),
            shared_volumes: volume_views(self.shared_volumes@),
        }
    }
}

impl DockerEnvironment {
    /// An environment from its parts.
    pub fn new(
        image: String,
        new: String,
        project_path: Option<String>,
        shared_volumes: Vec<SharedVolume>,
    ) -> (environment: DockerEnvironment)
        ensures
            environment@ == (DockerEnvironmentView {
                image: image@,
                new: new@,
                project_path: optional_text(project_path),
                shared_volumes: volume_views(shared_volumes@),
            }),
    {
        DockerEnvironment { image, new, project_path, shared_volumes }
    }

    /// Mounts the shared volumes.
    fn mount_shared(&self, command: &mut DockerRun)
        ensures
            final(command)@ == with_volumes(old(command)@, self@.shared_volumes),
    {
        let ghost volumes = self@.shared_volumes;
        let mut i: usize = 0;
        while i < self.shared_volumes.len()
            invariant
                i <= self.shared_volumes.len(),
                volumes == volume_views(self.shared_volumes@),
                command@ == with_volumes(old(command)@, volumes.take(i as int)),
            decreases self.shared_volumes.len() - i,
        {
            let shared_volume = &self.shared_volumes[i];
            proof {
                assert(volumes.take(i + 1).drop_last() =~= volumes.take(i as int));
                assert(volumes.take(i + 1).last() == shared_volume@);
            }
            command.volume(shared_volume.name(), shared_volume.at());
            i += 1;
        }
        assert(volumes.take(i as int) =~= volumes);
    }

    /// The invocation that sets up a new project in the environment.
    pub fn initialize(&self, project: &str) -> (command: DockerCommand)
        ensures
            command@ == self@.initialize(project@),
    {
        let mut command = crate::docker::run(self.image.as_str());
        command.temporary().volume(project, self.project_path()).env("NAME", project);
        self.mount_shared(&mut command);
        command.run_shell_command(self.new.as_str())
    }

    /// The invocation that opens a project in the environment.
    pub fn run(&self, project: &str) -> (command: DockerCommand)
        ensures
            command@ == self@.run(project@),
    {
        let mut command = crate::docker::run(self.image.as_str());
        command.temporary().interactive().volume(project, self.project_path());
        self.mount_shared(&mut command);
        command.run()
    }

    /// Where the project is mounted in the container.
    pub fn project_path(&self) -> (path: &str)
        ensures
            path@ == self@.project_path(),
    {
        match &self.project_path {
            Some(path) => path.as_str(),
            None => "/project",
        }
    }
}

} // verus!
