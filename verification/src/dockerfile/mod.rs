//! The description of an image: one or more build stages.

pub mod add_file;
pub mod copy_file;
pub mod decode;
pub mod env;
pub mod packages;
pub mod run_commands;
pub mod schema;
pub mod single_or_multiple_items_visitor;
pub mod stage;
pub mod yaml;

use vstd::prelude::*;
use vstd::string::*;
use crate::dockerfile::copy_file::{CopyFile, CopyFileView};
use crate::dockerfile::env::unique_keys;
use crate::dockerfile::schema::{Fault, Field};
use yaml_rust::ScanError;
use crate::dockerfile::stage::{Stage, StageView};
use crate::tag::ReferenceView;
use crate::text::{concatenated, lemma_append_append, lemma_concatenated_next};

verus! {

/// A copy entry may name only a stage that comes before its own.
pub open spec fn reference_ok(entry: CopyFileView, stage: int) -> bool {
    match entry.stage {
        Some(origin) => origin < stage,
        None => true,
    }
}

/// Every copy entry of the stage at position `index` names an earlier stage
/// or none.
pub open spec fn references_ok(stage: StageView, index: int) -> bool {
    forall|k: int| 0 <= k < stage.copy.len() ==> reference_ok(#[trigger] stage.copy[k], index)
}

/// A managed base names a valid tag.
pub open spec fn base_ok(base: ReferenceView) -> bool {
    base matches ReferenceView::Managed(tag) ==> tag.valid()
}

/// Entry `entry` of stage `stage` is the first copy entry, in the order of the
/// document, that names a stage which is not an earlier one.
pub open spec fn first_bad_reference(stages: Seq<StageView>, stage: int, entry: int) -> bool {
    &&& 0 <= stage < stages.len()
    &&& 0 <= entry < stages[stage].copy.len()
    &&& !reference_ok(stages[stage].copy[entry], stage)
    &&& forall|k: int| 0 <= k < entry ==> reference_ok(#[trigger] stages[stage].copy[k], stage)
    &&& forall|i: int| 0 <= i < stage ==> references_ok(#[trigger] stages[i], i)
}

/// The mathematical value of a [`Dockerfile`].
pub struct DockerfileView {
    pub stages: Seq<StageView>,
}

impl DockerfileView {
    /// There is at least one stage; every stage runs at least one command,
    /// sets no variable twice and starts from an image whose tag, where it is
    /// managed, is valid; and every copy entry that names a stage names an
    /// earlier one.
    pub open spec fn valid(self) -> bool {
        &&& self.stages.len() > 0
        &&& forall|i: int|
            0 <= i < self.stages.len() ==> {
                &&& (#[trigger] self.stages[i]).run.len() > 0
                &&& unique_keys(self.stages[i].env)
                &&& references_ok(self.stages[i], i)
                &&& base_ok(self.stages[i].from)
            }
    }

    /// The text of the description: every stage in order, each followed by an
    /// empty line.
    pub open spec fn text(self) -> Seq<char> {
        concatenated(self.stages.map_values(|stage: StageView| stage.text() + "\n"@))
    }

    /// The references to the images that the stages start from, in order.
    pub open spec fn bases(self) -> Seq<ReferenceView> {
        self.stages.map_values(|stage: StageView| stage.from)
    }
}

/// Why a text or a tree of nodes is not a description. Except for the first
/// two, every error holds the position of the stage that it is about.
#[derive(Debug, PartialEq, Eq)]
pub enum ParseError {
    /// The text is not YAML. Holds the error of the YAML reader.
    Syntax(ScanError),
    /// The description holds no stage.
    NoStages,
    /// The document of a stage is not a mapping.
    NotAMapping { stage: usize },
    /// A key of the stage, or of one of its entries, is not a string.
    InvalidKey { stage: usize },
    /// The stage, or one of its entries, has a field that the schema does not
    /// know. Holds the name of the field.
    UnknownField { stage: usize, name: String },
    /// The stage lacks a field that it must have.
    MissingField { stage: usize, field: Field },
    /// A field holds something of the wrong shape.
    MalformedField { stage: usize, field: Field },
    /// A copy entry names a stage that does not come before its own. Holds
    /// the position of the entry among the copy entries of its stage.
    InvalidStageReference { stage: usize, entry: usize },
    /// The base of the stage lies in the namespace but is no valid tag. Holds
    /// the base as it was written.
    InvalidBase { stage: usize, reference: String },
}

impl View for ParseError {
    type V = Fault;

    open spec fn view(&self) -> Fault {
        match self {
            ParseError::Syntax(_) => Fault::Syntax,
            ParseError::NoStages => Fault::NoStages,
            ParseError::NotAMapping { stage } => Fault::NotAMapping { stage: *stage as int },
            ParseError::InvalidKey { stage } => Fault::InvalidKey { stage: *stage as int },
            ParseError::UnknownField { stage, name } => Fault::UnknownField {
                stage: *stage as int,
                name: name@,
            },
            ParseError::MissingField { stage, field } => Fault::MissingField {
                stage: *stage as int,
                field: *field,
            },
            ParseError::MalformedField { stage, field } => Fault::MalformedField {
                stage: *stage as int,
                field: *field,
            },
            ParseError::InvalidStageReference { stage, entry } => Fault::InvalidStageReference {
                stage: *stage as int,
                entry: *entry as int,
            },
            ParseError::InvalidBase { stage, reference } => Fault::InvalidBase {
                stage: *stage as int,
                reference: reference@,
            },
        }
    }
}

/// The views of the stages.
pub open spec fn stage_views(stages: Seq<Stage>) -> Seq<StageView> {
    stages.map_values(|stage: Stage| stage@)
}

/// The description of one image: its stages in order. The image is the result
/// of the last stage.
#[derive(Debug, PartialEq, Eq)]
pub struct Dockerfile {
    stages: Vec<Stage>,
}

impl View for Dockerfile {
    type V = DockerfileView;

    closed spec fn view(&self) -> DockerfileView {
        DockerfileView { stages: stage_views(self.stages@) }
    }
}

impl Clone for Dockerfile {
    fn clone(&self) -> (copy: Self)
        ensures
            copy@ == self@,
    {
        proof {
            use_type_invariant(self);
        }
        let mut stages: Vec<Stage> = Vec::new();
        let mut i: usize = 0;
        while i < self.stages.len()
            invariant
                i <= self.stages.len(),
                stages@.len() == i,
                forall|k: int| 0 <= k < i ==> (#[trigger] stages@[k])@ == self.stages@[k]@,
            decreases self.stages.len() - i,
        {
            stages.push(self.stages[i].clone());
            i += 1;
        }
        assert(stage_views(stages@) =~= stage_views(self.stages@));
        Dockerfile { stages }
    }
}

/// Looks for the first copy entry of a stage that names a stage which is not
/// an earlier one.
fn find_bad_reference(entries: &Vec<CopyFile>, index: usize) -> (r: Option<usize>)
    ensures
        match r {
            Some(k) => {
                &&& k < entries@.len()
                &&& !reference_ok(entries@[k as int]@, index as int)
                &&& forall|j: int| 0 <= j < k ==> reference_ok(#[trigger] entries@[j]@, index as int)
            },
            None => forall|j: int|
                0 <= j < entries@.len() ==> reference_ok(#[trigger] entries@[j]@, index as int),
        },
{
    let mut k: usize = 0;
    while k < entries.len()
        invariant
            k <= entries.len(),
            forall|j: int| 0 <= j < k ==> reference_ok(#[trigger] entries@[j]@, index as int),
        decreases entries.len() - k,
    {
        match entries[k].stage {
            Some(origin) => {
                if origin >= index {
                    return Some(k);
                }
            },
            None => {},
        }
        k += 1;
    }
    None
}

impl Dockerfile {
    #[verifier::type_invariant]
    spec fn well_formed(&self) -> bool {
        self@.valid()
    }

    /// Builds a description from its stages.
    ///
    /// Fails with `NoStages` where there is none, and with
    /// `InvalidStageReference` for the first copy entry that names a stage
    /// which does not come before its own.
    pub fn new(stages: Vec<Stage>) -> (r: Result<Dockerfile, ParseError>)
        ensures
            match r {
                Ok(dockerfile) => dockerfile@.stages == stage_views(stages@) && dockerfile@.valid(),
                Err(ParseError::NoStages) => stages@.len() == 0,
                Err(ParseError::InvalidStageReference { stage, entry }) => first_bad_reference(
                    stage_views(stages@),
                    stage as int,
                    entry as int,
                ),
                Err(_) => false,
            },
    {
        if stages.len() == 0 {
            return Err(ParseError::NoStages);
        }
        let ghost views = stage_views(stages@);
        let mut i: usize = 0;
        while i < stages.len()
            invariant
                i <= stages.len(),
                views == stage_views(stages@),
                forall|k: int|
                    0 <= k < i ==> {
                        &&& (#[trigger] views[k]).run.len() > 0
                        &&& unique_keys(views[k].env)
                        &&& references_ok(views[k], k)
                        &&& base_ok(views[k].from)
                    },
            decreases stages.len() - i,
        {
            let stage = &stages[i];
            assert(views[i as int] == stage@);
            assert(forall|k: int|
                0 <= k < stage.copy@.len() ==> #[trigger] stage@.copy[k] == stage.copy@[k]@);
            match find_bad_reference(&stage.copy, i) {
                Some(entry) => {
                    return Err(ParseError::InvalidStageReference { stage: i, entry });
                },
                None => {},
            }
            // The parts of a stage answer for their own validity when asked:
            // the commands are not empty, no variable is set twice, and a
            // managed base is a valid tag.
            let _ = stage.run.len();
            let _ = stage.env.len();
            let _ = stage.from.managed();
            i += 1;
        }
        Ok(Dockerfile { stages })
    }

    /// How many stages there are; never zero.
    pub fn len(&self) -> (n: usize)
        ensures
            n == self@.stages.len(),
            n > 0,
            self@.valid(),
    {
        proof {
            use_type_invariant(self);
        }
        self.stages.len()
    }

    /// The stage at position `index`.
    pub fn stage(&self, index: usize) -> (stage: Option<&Stage>)
        ensures
            match stage {
                Some(s) => index < self@.stages.len() && s@ == self@.stages[index as int],
                None => index >= self@.stages.len(),
            },
    {
        if index < self.stages.len() {
            Some(&self.stages[index])
        } else {
            None
        }
    }

    /// The references to the images that the stages start from, as text and in
    /// the order of the stages.
    pub fn from(&self) -> (bases: Vec<&str>)
        ensures
            bases@.len() == self@.stages.len(),
            forall|i: int|
                0 <= i < bases@.len() ==> (#[trigger] bases@[i])@ == self@.bases()[i].text(),
    {
        let mut bases: Vec<&str> = Vec::new();
        let mut i: usize = 0;
        while i < self.stages.len()
            invariant
                i <= self.stages.len(),
                bases@.len() == i,
                forall|k: int| 0 <= k < i ==> (#[trigger] bases@[k])@ == self@.bases()[k].text(),
            decreases self.stages.len() - i,
        {
            bases.push(self.stages[i].from());
            i += 1;
        }
        bases
    }

    /// Appends the text of the description to `out`.
    pub fn write_to(&self, out: &mut String)
        ensures
            final(out)@ == old(out)@ + self@.text(),
    {
        let ghost parts = self@.stages.map_values(|stage: StageView| stage.text() + "\n"@);
        let mut i: usize = 0;
        assert(out@ =~= old(out)@ + concatenated(parts.take(0)));
        while i < self.stages.len()
            invariant
                i <= self.stages.len(),
                parts.len() == self.stages.len(),
                forall|k: int|
                    0 <= k < parts.len() ==> #[trigger] parts[k] == self.stages@[k]@.text() + "\n"@,
                out@ == old(out)@ + concatenated(parts.take(i as int)),
            decreases self.stages.len() - i,
        {
            let ghost before = out@;
            self.stages[i].write_to(out);
            out.append("\n");
            proof {
                lemma_concatenated_next(parts, i as int);
                lemma_append_append(before, self.stages@[i as int]@.text(), "\n"@);
                lemma_append_append(old(out)@, concatenated(parts.take(i as int)), parts[i as int]);
            }
            i += 1;
        }
        assert(parts.take(i as int) =~= parts);
    }

    /// The text of the description, ready to be handed to the container engine.
    pub fn to_string(&self) -> (text: String)
        ensures
            text@ == self@.text(),
    {
        let mut out = String::new();
        self.write_to(&mut out);
        assert(out@ =~= self@.text());
        out
    }
}

/// Rendering keeps the order of the stages: the text of an earlier stage
/// stands before the text of every later one.
pub proof fn lemma_stage_order(dockerfile: DockerfileView, i: int, j: int)
    requires
        0 <= i < j < dockerfile.stages.len(),
    ensures
        crate::dockerfile::stage::stands_before(
            dockerfile.text(),
            dockerfile.stages[i].text(),
            dockerfile.stages[j].text(),
        ),
{
    let parts = dockerfile.stages.map_values(|stage: StageView| stage.text() + "\n"@);
    let (before, between, after) = crate::text::lemma_concatenated_order(parts, i, j);
    let first = dockerfile.stages[i].text();
    let second = dockerfile.stages[j].text();
    assert(dockerfile.text() =~= before + first + ("\n"@ + between) + second + ("\n"@ + after));
}

} // verus!
