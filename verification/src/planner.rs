//! Planning a build from definitions that are held in memory.
//!
//! The planner establishes the namespace, resolves the root, reads the
//! descriptions that the search asks for out of the given sources, and puts
//! the images in build order. It stops at the first error.

use vstd::prelude::*;
use vstd::string::*;
use crate::docker_image::{DockerImage, DockerImageView};
use crate::dockerfile::decode::described;
use crate::dockerfile::schema::Fault;
use crate::dockerfile::{Dockerfile, ParseError};
use crate::resolver::graph::planned;
use crate::resolver::{image_tags, image_views, planned_images, tag_views, Discovery,
    DiscoveryView};
use crate::tag::{establish_namespace, established_namespace, resolved, Tag, TagView};
use crate::text::{first_position, lemma_first_position, lemma_first_position_none,
    lemma_first_position_some, str_eq};

verus! {

/// The mathematical value of a [`Source`].
pub struct SourceView {
    pub tag: Seq<char>,
    pub text: Seq<char>,
}

/// The text of the description of one image, under the canonical text of its
/// tag.
#[derive(Debug, PartialEq, Eq)]
pub struct Source {
    pub tag: String,
    pub text: String,
}

impl View for Source {
    type V = SourceView;

    open spec fn view(&self) -> SourceView {
        SourceView { tag: self.tag@, text: self.text@ }
    }
}

/// The views of the sources.
pub open spec fn source_views(sources: Seq<Source>) -> Seq<SourceView> {
    sources.map_values(|source: Source| source@)
}

/// The views of the sources that are referred to.
pub open spec fn remaining_views(sources: Seq<&Source>) -> Seq<SourceView> {
    sources.map_values(|source: &Source| source@)
}

/// The tags of the sources, in order.
pub open spec fn source_tags(sources: Seq<SourceView>) -> Seq<Seq<char>> {
    sources.map_values(|source: SourceView| source.tag)
}

/// Why a build could not be planned.
pub enum PlanFault {
    /// No namespace could be established for the root.
    MissingNamespace(Seq<char>),
    /// The root does not resolve under the namespace.
    InvalidTagFormat(Seq<char>),
    /// There is no description for the last tag of the path.
    DefinitionNotFound(Seq<TagView>),
    /// The description of the last tag of the path could not be read.
    Parse(Seq<TagView>, Fault),
    /// The images with these tags depend on each other in a circle, or on
    /// images that do.
    CycleDetected(Seq<TagView>),
}

/// Why a build could not be planned.
#[derive(Debug, PartialEq, Eq)]
pub enum PlanError {
    /// No namespace could be established for the root. Holds the root.
    MissingNamespace(String),
    /// The root does not resolve under the namespace. Holds the root.
    InvalidTagFormat(String),
    /// There is no description for an image. Holds the way by which the
    /// search came to it: the root first, the image itself last.
    DefinitionNotFound(Vec<Tag>),
    /// The description of an image could not be read. Holds the way by which
    /// the search came to it: the root first, the image itself last.
    Parse(Vec<Tag>, ParseError),
    /// The images with these tags depend on each other in a circle, or on
    /// images that do.
    CycleDetected(Vec<Tag>),
}

impl View for PlanError {
    type V = PlanFault;

    open spec fn view(&self) -> PlanFault {
        match self {
            PlanError::MissingNamespace(root) => PlanFault::MissingNamespace(root@),
            PlanError::InvalidTagFormat(root) => PlanFault::InvalidTagFormat(root@),
            PlanError::DefinitionNotFound(path) => PlanFault::DefinitionNotFound(tag_views(path@)),
            PlanError::Parse(path, error) => PlanFault::Parse(tag_views(path@), error@),
            PlanError::CycleDetected(tags) => PlanFault::CycleDetected(tag_views(tags@)),
        }
    }
}

/// The state in which the search ends when every description that it asks
/// for is taken from the sources, or the first error on the way. A source is
/// used once: the first one with the tag that is asked for. An error holds the
/// way by which the search came to the image that it is about.
pub open spec fn explored(
    state: DiscoveryView,
    sources: Seq<SourceView>,
    namespace: Seq<char>,
) -> Result<DiscoveryView, PlanFault>
    decreases sources.len(),
    via explored_decreases
{
    match state.pending() {
        None => Ok(state),
        Some(tag) => match first_position(source_tags(sources), tag.text()) {
            None => Err(PlanFault::DefinitionNotFound(state.path())),
            Some(i) => match described(sources[i].text, namespace) {
                Err(fault) => Err(PlanFault::Parse(state.path(), fault)),
                Ok(document) => explored(state.supplied(document), sources.remove(i), namespace),
            },
        },
    }
}

#[via_fn]
proof fn explored_decreases(state: DiscoveryView, sources: Seq<SourceView>, namespace: Seq<char>) {
    if state.pending() is Some {
        let tag = state.pending()->0;
        if first_position(source_tags(sources), tag.text()) is Some {
            lemma_first_position_some(source_tags(sources), tag.text());
        }
    }
}

/// The plan for building `root` from the sources: the images in build order,
/// each with its description and its directory below `base_dir`, or the first
/// error.
pub open spec fn planned_build(
    root: Seq<char>,
    configured: Option<Seq<char>>,
    base_dir: Seq<char>,
    sources: Seq<SourceView>,
) -> Result<Seq<DockerImageView>, PlanFault> {
    match established_namespace(configured, root) {
        None => Err(PlanFault::MissingNamespace(root)),
        Some(namespace) => match resolved(root, namespace) {
            None => Err(PlanFault::InvalidTagFormat(root)),
            Some(tag) => match explored(DiscoveryView::started(tag), sources, namespace) {
                Err(fault) => Err(fault),
                Ok(state) => match planned(state.definitions()) {
                    Ok(_) => Ok(planned_images(state.definitions(), base_dir)),
                    Err(rest) => Err(PlanFault::CycleDetected(rest)),
                },
            },
        },
    }
}

/// Finds the first source with the given tag.
fn find_source(sources: &Vec<&Source>, tag: &str) -> (r: Option<usize>)
    ensures
        match r {
            Some(i) => i < sources@.len() && first_position(
                source_tags(remaining_views(sources@)),
                tag@,
            ) == Some(i as int),
            None => first_position(source_tags(remaining_views(sources@)), tag@) is None,
        },
{
    let ghost tags = source_tags(remaining_views(sources@));
    let mut i: usize = 0;
    while i < sources.len()
        invariant
            i <= sources.len(),
            tags == source_tags(remaining_views(sources@)),
            forall|k: int| 0 <= k < i ==> tags[k] != tag@,
        decreases sources.len() - i,
    {
        if str_eq(sources[i].tag.as_str(), tag) {
            proof {
                lemma_first_position(tags, tag@, i as int);
            }
            return Some(i);
        }
        i += 1;
    }
    proof {
        lemma_first_position_none(tags, tag@);
    }
    None
}

/// References to the sources, in order.
fn references(sources: &Vec<Source>) -> (all: Vec<&Source>)
    ensures
        remaining_views(all@) == source_views(sources@),
{
    let mut all: Vec<&Source> = Vec::new();
    let mut i: usize = 0;
    while i < sources.len()
        invariant
            i <= sources.len(),
            all@.len() == i,
            forall|k: int| 0 <= k < i ==> (#[trigger] all@[k])@ == sources@[k]@,
        decreases sources.len() - i,
    {
        all.push(&sources[i]);
        i += 1;
    }
    assert(remaining_views(all@) =~= source_views(sources@));
    all
}

/// Runs the search for the images that a build needs, taking every
/// description that is asked for from the sources.
fn explore(start: Discovery, sources: &Vec<Source>, namespace: &str) -> (r: Result<
    Discovery,
    PlanError,
>)
    ensures
        match r {
            Ok(end) => explored(start@, source_views(sources@), namespace@) == Ok::<
                DiscoveryView,
                PlanFault,
            >(end@) && end@.pending() is None,
            Err(error) => explored(start@, source_views(sources@), namespace@) == Err::<
                DiscoveryView,
                PlanFault,
            >(error@),
        },
{
    let ghost goal = explored(start@, source_views(sources@), namespace@);
    let mut remaining = references(sources);
    let mut discovery = start;
    let mut finished = false;
    while !finished
        invariant
            goal == explored(start@, source_views(sources@), namespace@),
            explored(discovery@, remaining_views(remaining@), namespace@) == goal,
            finished ==> discovery@.pending() is None,
        decreases remaining@.len() + if finished { 0int } else { 1int },
    {
        let wanted = match discovery.pending() {
            Some(tag) => Some(tag.clone()),
            None => None,
        };
        match wanted {
            None => {
                finished = true;
            },
            Some(tag) => {
                let ghost before = remaining_views(remaining@);
                match find_source(&remaining, tag.as_str()) {
                    None => {
                        return Err(PlanError::DefinitionNotFound(discovery.path()));
                    },
                    Some(i) => {
                        let source = remaining.remove(i);
                        assert(source@ == before[i as int]);
                        assert(remaining_views(remaining@) =~= before.remove(i as int));
                        match Dockerfile::parse(source.text.as_str(), namespace) {
                            Err(error) => {
                                return Err(PlanError::Parse(discovery.path(), error));
                            },
                            Ok(document) => {
                                discovery = discovery.supply(document);
                            },
                        }
                    },
                }
            },
        }
    }
    Ok(discovery)
}

/// Plans the build of `root` from definitions that are held in memory.
///
/// The namespace is the configured one or else the one of the root; the root
/// has to resolve under it. The description of every image that is needed is
/// read from the first source with its tag. On success the result holds the
/// images in build order, each with its description and the directory below
/// `base_dir` that its build takes files from. The first error ends the
/// planning, and nothing is returned for a part of the images.
pub fn plan(root: &str, configured: Option<&str>, base_dir: &str, sources: &Vec<Source>) -> (r:
    Result<Vec<DockerImage>, PlanError>)
    ensures
        match r {
            Ok(images) => planned_build(
                root@,
                match configured {
                    Some(namespace) => Some(namespace@),
                    None => None,
                },
                base_dir@,
                source_views(sources@),
            ) == Ok::<Seq<DockerImageView>, PlanFault>(image_views(images@)) && image_tags(
                images@,
            ).no_duplicates(),
            Err(error) => planned_build(
                root@,
                match configured {
                    Some(namespace) => Some(namespace@),
                    None => None,
                },
                base_dir@,
                source_views(sources@),
            ) == Err::<Seq<DockerImageView>, PlanFault>(error@),
        },
{
    let namespace = match establish_namespace(configured, root) {
        Ok(namespace) => namespace,
        Err(_) => {
            return Err(PlanError::MissingNamespace(String::from_str(root)));
        },
    };
    let tag = match Tag::resolve(root, namespace.as_str()) {
        Ok(tag) => tag,
        Err(_) => {
            return Err(PlanError::InvalidTagFormat(String::from_str(root)));
        },
    };
    let discovery = match explore(Discovery::new(tag), sources, namespace.as_str()) {
        Ok(discovery) => discovery,
        Err(error) => {
            return Err(error);
        },
    };
    match discovery.into_set().plan(base_dir) {
        Ok(images) => Ok(images),
        Err(cycle) => Err(PlanError::CycleDetected(cycle.remaining)),
    }
}

} // verus!
