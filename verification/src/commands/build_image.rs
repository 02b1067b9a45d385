//! The command that builds an image and the images that it is based on.

use vstd::prelude::*;
use vstd::string::*;
use crate::config::Config;
use crate::resolver::{Discovery, DiscoveryView};
use crate::tag::{establish_namespace, established_namespace, resolved, Tag, TagError};
use crate::text::optional_text;

verus! {

/// The mathematical value of a [`Build`].
pub struct BuildView {
    pub images_dir: Option<Seq<char>>,
    pub image_tag: Seq<char>,
}

/// The directory below which the definitions lie: the one given with the
/// command, else the configured one, else `/project`.
pub open spec fn chosen_images_dir(given: Option<Seq<char>>, configured: Option<Seq<char>>) -> Seq<
    char,
> {
    match given {
        Some(path) => path,
        None => match configured {
            Some(path) => path,
            None => "/project"@,
        },
    }
}

impl BuildView {
    /// The command as it is written on a command line.
    pub open spec fn text(self) -> Seq<char> {
        match self.images_dir {
            Some(path) => "build "@ + "-d "@ + path + " "@ + self.image_tag,
            None => "build "@ + self.image_tag,
        }
    }
}

/// The `build` command: the image to build, and optionally the directory
/// below which the definitions lie.
#[derive(Debug, PartialEq, Eq)]
pub struct Build {
    images_dir: Option<String>,
    image_tag: String,
}

impl View for Build {
    type V = BuildView;

    closed spec fn view(&self) -> BuildView {
        BuildView { images_dir: optional_text(self.images_dir), image_tag: self.image_tag@ }
    }
}

/// What a build starts from: the namespace in force, the directory of the
/// definitions, and the search for the images that are needed.
#[derive(Debug)]
pub struct BuildStart {
    pub namespace: String,
    pub images_dir: String,
    pub discovery: Discovery,
}

impl Build {
    /// The command that builds `image_tag`.
    pub fn new(images_dir: Option<String>, image_tag: String) -> (build: Build)
        ensures
            build@ == (BuildView { images_dir: optional_text(images_dir), image_tag: image_tag@ }),
    {
        Build { images_dir, image_tag }
    }

    /// The directory below which the definitions lie.
    pub fn images_dir(&self, config: &Config) -> (path: String)
        ensures
            path@ == chosen_images_dir(self@.images_dir, optional_text(config.images_dir)),
    {
        match &self.images_dir {
            Some(path) => path.clone(),
            None => match &config.images_dir {
                Some(path) => path.clone(),
                None => String::from_str("/project"),
            },
        }
    }

    /// Starts the build: establishes the namespace, resolves the root tag and
    /// begins the search for the images that it needs.
    ///
    /// Fails with `MissingNamespace` when no namespace is configured and the
    /// tag has none, and with `InvalidTagFormat` when the tag does not resolve
    /// under the namespace.
    pub fn run(&self, config: &Config) -> (r: Result<BuildStart, TagError>)
        ensures
            match established_namespace(optional_text(config.tag_namespace), self@.image_tag) {
                None => r matches Err(error) && error is MissingNamespace && error.reference()
                    == self@.image_tag,
                Some(namespace) => match resolved(self@.image_tag, namespace) {
                    None => r matches Err(error) && error is InvalidTagFormat && error.reference()
                        == self@.image_tag,
                    Some(root) => r matches Ok(start) && start.namespace@ == namespace
                        && start.images_dir@ == chosen_images_dir(
                        self@.images_dir,
                        optional_text(config.images_dir),
                    ) && start.discovery@ == DiscoveryView::started(root),
                },
            },
    {
        let configured = match &config.tag_namespace {
            Some(namespace) => Some(namespace.as_str()),
            None => None,
        };
        let namespace = match establish_namespace(configured, self.image_tag.as_str()) {
            Ok(namespace) => namespace,
            Err(error) => {
                return Err(error);
            },
        };
        let root = match Tag::resolve(self.image_tag.as_str(), namespace.as_str()) {
            Ok(root) => root,
            Err(error) => {
                return Err(error);
            },
        };
        Ok(BuildStart { namespace, images_dir: self.images_dir(config), discovery: Discovery::new(root) })
    }

    /// The command as it is written on a command line.
    pub fn to_string(&self) -> (text: String)
        ensures
            text@ == self@.text(),
    {
        let mut out = String::from_str("build ");
        match &self.images_dir {
            Some(path) => {
                out.append("-d ");
                out.append(path.as_str());
                out.append(" ");
                out.append(self.image_tag.as_str());
                assert(out@ =~= self@.text());
            },
            None => {
                out.append(self.image_tag.as_str());
            },
        }
        out
    }
}

} // verus!
