//! One image of a build plan: its tag, its description and the directory that
//! its build takes files from.

use vstd::prelude::*;
use vstd::string::*;
use crate::docker::docker_command::DockerCommand;
use crate::dockerfile::{Dockerfile, DockerfileView};
use crate::tag::{Tag, TagView};
use crate::text::chars_of;

verus! {

/// The path `base` extended by one component. The separator goes between
/// them unless `base` is empty or ends in one already.
pub open spec fn joined_path(base: Seq<char>, component: Seq<char>) -> Seq<char> {
    if base.len() == 0 || base.last() == '/' {
        base + component
    } else {
        base + "/"@ + component
    }
}

/// The directory of the image `tag` below `base_dir`: the namespace, and in
/// it the name.
pub open spec fn source_directory_of(base_dir: Seq<char>, tag: TagView) -> Seq<char> {
    joined_path(joined_path(base_dir, tag.namespace), tag.name)
}

/// The file that holds the description of the image `tag` below `base_dir`:
/// `dockerfile.yml` in the directory of the image.
pub open spec fn definition_path_of(base_dir: Seq<char>, tag: TagView) -> Seq<char> {
    joined_path(source_directory_of(base_dir, tag), "dockerfile.yml"@)
}

/// The arguments that have the container engine build an image.
pub open spec fn build_arguments(
    tag: Seq<char>,
    dockerfile_path: Seq<char>,
    source_directory: Seq<char>,
) -> Seq<Seq<char>> {
    seq!["build"@, "-t"@, tag, "-f"@, dockerfile_path, source_directory]
}

/// The mathematical value of a [`DockerImage`].
pub struct DockerImageView {
    pub tag: TagView,
    pub dockerfile: DockerfileView,
    pub source_directory: Seq<char>,
}

/// Extends a path by one component.
pub fn join_path(base: &str, component: &str) -> (path: String)
    ensures
        path@ == joined_path(base@, component@),
{
    let chars = chars_of(base);
    let mut path = String::from_str(base);
    if chars.len() > 0 && chars[chars.len() - 1] != '/' {
        path.append("/");
    }
    path.append(component);
    path
}

/// The file that holds the description of an image.
pub fn definition_path(base_dir: &str, tag: &Tag) -> (path: String)
    ensures
        path@ == definition_path_of(base_dir@, tag@),
{
    let below_namespace = join_path(base_dir, tag.namespace());
    let source_directory = join_path(below_namespace.as_str(), tag.name());
    join_path(source_directory.as_str(), "dockerfile.yml")
}

/// An image to build.
#[derive(Debug, PartialEq, Eq)]
pub struct DockerImage {
    tag: Tag,
    dockerfile: Dockerfile,
    source_directory: String,
}

impl View for DockerImage {
    type V = DockerImageView;

    closed spec fn view(&self) -> DockerImageView {
        DockerImageView {
            tag: self.tag@,
            dockerfile: self.dockerfile@,
            source_directory: self.source_directory@,
        }
    }
}

impl DockerImage {
    /// The image `tag` with its description. Its files lie below `base_dir`,
    /// in the directory of the namespace and there in that of the name.
    pub fn new(base_dir: &str, tag: Tag, dockerfile: Dockerfile) -> (image: DockerImage)
        ensures
            image@ == (DockerImageView {
                tag: tag@,
                dockerfile: dockerfile@,
                source_directory: source_directory_of(base_dir@, tag@),
            }),
    {
        let below_namespace = join_path(base_dir, tag.namespace());
        let source_directory = join_path(below_namespace.as_str(), tag.name());
        DockerImage { tag, dockerfile, source_directory }
    }

    /// The tag of the image.
    pub fn tag(&self) -> (tag: &Tag)
        ensures
            tag@ == self@.tag,
    {
        &self.tag
    }

    /// The description of the image.
    pub fn dockerfile(&self) -> (dockerfile: &Dockerfile)
        ensures
            dockerfile@ == self@.dockerfile,
    {
        &self.dockerfile
    }

    /// The directory that the build takes files from.
    pub fn source_directory(&self) -> (path: &str)
        ensures
            path@ == self@.source_directory,
    {
        self.source_directory.as_str()
    }

    /// The references to the images that the stages start from, in the order
    /// of the stages.
    pub fn source_images(&self) -> (bases: Vec<&str>)
        ensures
            bases@.len() == self@.dockerfile.stages.len(),
            forall|i: int|
                0 <= i < bases@.len() ==> (#[trigger] bases@[i])@
                    == self@.dockerfile.bases()[i].text(),
    {
        self.dockerfile.from()
    }

    /// The text of the description, as the container engine reads it.
    pub fn text(&self) -> (text: String)
        ensures
            text@ == self@.dockerfile.text(),
    {
        self.dockerfile.to_string()
    }

    /// The invocation that builds the image from the description written to
    /// the file at `dockerfile_path`.
    pub fn build(&self, dockerfile_path: &str) -> (command: DockerCommand)
        ensures
            command@ == build_arguments(
                self@.tag.text(),
                dockerfile_path@,
                self@.source_directory,
            ),
    {
        let mut command = DockerCommand::new();
        command.append("build").append("-t").append(self.tag.as_str()).append("-f").append(
            dockerfile_path,
        ).append(self.source_directory.as_str());
        assert(command@ =~= build_arguments(
            self@.tag.text(),
            dockerfile_path@,
            self@.source_directory,
        ));
        command
    }
}

} // verus!
