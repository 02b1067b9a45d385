//! The shape of a description: which fields a stage has, what each may hold,
//! and what a tree of YAML nodes stands for when it has that shape.

use vstd::prelude::*;
use crate::dockerfile::add_file::AddFileView;
use crate::dockerfile::copy_file::CopyFileView;
use crate::dockerfile::env::with_variable;
use crate::dockerfile::stage::StageView;
use crate::dockerfile::yaml::Node;
use crate::dockerfile::DockerfileView;
use crate::tag::{classified, ReferenceView};
use crate::text::first_position;

verus! {

/// The fields of a stage.
#[derive(Debug, Clone, Copy, PartialEq, Eq, Structural)]
pub enum Field {
    From,
    Workdir,
    User,
    Add,
    Copy,
    Env,
    Install,
    Run,
    Entrypoint,
    Cmd,
}

/// Why a tree of nodes is not a description.
pub enum Fault {
    /// The text is not YAML.
    Syntax,
    /// There is no document, and so no stage.
    NoStages,
    /// The document of the stage is not a mapping.
    NotAMapping { stage: int },
    /// A key of the stage, or of one of its entries, is not a string.
    InvalidKey { stage: int },
    /// The stage, or one of its entries, has a field that the schema does not
    /// know.
    UnknownField { stage: int, name: Seq<char> },
    /// The stage lacks a field that it must have.
    MissingField { stage: int, field: Field },
    /// The field holds something of the wrong shape.
    MalformedField { stage: int, field: Field },
    /// A copy entry names a stage that is not an earlier one.
    InvalidStageReference { stage: int, entry: int },
    /// The base lies in the namespace but is no valid tag.
    InvalidBase { stage: int, reference: Seq<char> },
}

/// Why an entry of a list is not what the schema asks for.
pub enum EntryFault {
    /// Something has the wrong shape.
    Malformed,
    /// A key is not a string.
    InvalidKey,
    /// There is a field that the schema does not know.
    Unknown(Seq<char>),
    /// The entry names a stage that is not an earlier one.
    BadReference,
}

/// The fault of a stage that comes from a fault in one of its entries.
pub open spec fn stage_fault(stage: int, field: Field, entry: int, fault: EntryFault) -> Fault {
    match fault {
        EntryFault::Malformed => Fault::MalformedField { stage, field },
        EntryFault::InvalidKey => Fault::InvalidKey { stage },
        EntryFault::Unknown(name) => Fault::UnknownField { stage, name },
        EntryFault::BadReference => Fault::InvalidStageReference { stage, entry },
    }
}

/// The names of the fields of a stage.
pub open spec fn stage_names() -> Seq<Seq<char>> {
    seq![
        "from"@,
        "workdir"@,
        "user"@,
        "add"@,
        "copy"@,
        "env"@,
        "install"@,
        "run"@,
        "entrypoint"@,
        "cmd"@,
    ]
}

/// The names of the fields of an entry that adds a file.
pub open spec fn add_names() -> Seq<Seq<char>> {
    seq!["from"@, "to"@]
}

/// The names of the fields of an entry that copies a file.
pub open spec fn copy_names() -> Seq<Seq<char>> {
    seq!["from"@, "to"@, "stage"@]
}

/// The text of a key, where the key is a string.
pub open spec fn key_text(key: Node) -> Option<Seq<char>> {
    match key {
        Node::String(text) => Some(text@),
        _ => None,
    }
}

/// The keys of a mapping, in order.
pub open spec fn keys(entries: Seq<(Node, Node)>) -> Seq<Option<Seq<char>>> {
    entries.map_values(|entry: (Node, Node)| key_text(entry.0))
}

/// The value that a mapping holds under a name: that of the first entry with
/// this key.
pub open spec fn lookup(entries: Seq<(Node, Node)>, name: Seq<char>) -> Option<Node> {
    match first_position(keys(entries), Some(name)) {
        Some(i) => Some(entries[i].1),
        None => None,
    }
}

/// The key is a string and one of the names.
pub open spec fn known(key: Option<Seq<char>>, names: Seq<Seq<char>>) -> bool {
    match key {
        Some(text) => names.contains(text),
        None => false,
    }
}

/// For each entry, whether its key is known.
pub open spec fn known_keys(entries: Seq<(Node, Node)>, names: Seq<Seq<char>>) -> Seq<bool> {
    entries.map_values(|entry: (Node, Node)| known(key_text(entry.0), names))
}

/// The fault of the first entry whose key is not one of the names, if there
/// is such an entry.
pub open spec fn unknown_key(entries: Seq<(Node, Node)>, names: Seq<Seq<char>>) -> Option<
    EntryFault,
> {
    match first_position(known_keys(entries, names), false) {
        Some(i) => match key_text(entries[i].0) {
            Some(name) => Some(EntryFault::Unknown(name)),
            None => Some(EntryFault::InvalidKey),
        },
        None => None,
    }
}

/// The text that a field holds: none where the field is absent or null, and
/// no answer at all where it holds something that is not a string.
pub open spec fn text_of(node: Option<Node>) -> Option<Option<Seq<char>>> {
    match node {
        None => Some(None),
        Some(Node::Null) => Some(None),
        Some(Node::String(text)) => Some(Some(text@)),
        Some(_) => None,
    }
}

/// The text that a field holds, where it holds a string.
pub open spec fn required_text(node: Option<Node>) -> Option<Seq<char>> {
    match text_of(node) {
        Some(Some(text)) => Some(text),
        _ => None,
    }
}

/// The texts of the nodes, where every node is a string.
pub open spec fn strings_of(items: Seq<Node>) -> Option<Seq<Seq<char>>>
    decreases items.len(),
{
    if items.len() == 0 {
        Some(Seq::empty())
    } else {
        match (strings_of(items.drop_last()), items.last()) {
            (Some(before), Node::String(text)) => Some(before.push(text@)),
            _ => None,
        }
    }
}

/// The list of strings that a node stands for: a single string stands for the
/// list that holds just it, a sequence of strings for its items. Nothing else
/// stands for a list.
pub open spec fn items_of(node: Node) -> Option<Seq<Seq<char>>> {
    match node {
        Node::String(text) => Some(seq![text@]),
        Node::Array(items) => strings_of(items@),
        _ => None,
    }
}

/// The nodes of a list field: none where the field is absent or null, the
/// items where it holds a sequence, and no answer otherwise.
pub open spec fn list_of(node: Option<Node>) -> Option<Seq<Node>> {
    match node {
        None => Some(Seq::empty()),
        Some(Node::Null) => Some(Seq::empty()),
        Some(Node::Array(items)) => Some(items@),
        Some(_) => None,
    }
}

/// The entry that a node stands for in the list of files to add.
pub open spec fn add_entry(item: Node) -> Result<AddFileView, EntryFault> {
    match item {
        Node::Hash(map) => {
            let entries = map@;
            let from = required_text(lookup(entries, "from"@));
            let to = required_text(lookup(entries, "to"@));
            let unknown = unknown_key(entries, add_names());
            if unknown is Some {
                Err(unknown->0)
            } else if from is None || to is None {
                Err(EntryFault::Malformed)
            } else {
                Ok(AddFileView { from: from->0, to: to->0 })
            }
        },
        _ => Err(EntryFault::Malformed),
    }
}

/// The stage that a copy entry of stage `index` names: none where the field
/// is absent or null, and otherwise an integer that has to be the position of
/// an earlier stage.
pub open spec fn origin_of(node: Option<Node>, index: int) -> Result<Option<nat>, EntryFault> {
    match node {
        None => Ok(None),
        Some(Node::Null) => Ok(None),
        Some(Node::Integer(origin)) => if 0 <= origin < index {
            Ok(Some(origin as nat))
        } else {
            Err(EntryFault::BadReference)
        },
        Some(_) => Err(EntryFault::Malformed),
    }
}

/// The entry that a node stands for in the list of files to copy in stage
/// `index`.
pub open spec fn copy_entry(item: Node, index: int) -> Result<CopyFileView, EntryFault> {
    match item {
        Node::Hash(map) => {
            let entries = map@;
            let from = required_text(lookup(entries, "from"@));
            let to = required_text(lookup(entries, "to"@));
            let stage = origin_of(lookup(entries, "stage"@), index);
            let unknown = unknown_key(entries, copy_names());
            if unknown is Some {
                Err(unknown->0)
            } else if from is None || to is None {
                Err(EntryFault::Malformed)
            } else if stage is Err {
                Err(stage->Err_0)
            } else {
                Ok(CopyFileView { from: from->0, to: to->0, stage: stage->Ok_0 })
            }
        },
        _ => Err(EntryFault::Malformed),
    }
}

/// The files to add that the nodes stand for, or the position and the fault
/// of the first node that stands for none.
pub open spec fn add_entries(items: Seq<Node>) -> Result<Seq<AddFileView>, (int, EntryFault)>
    decreases items.len(),
{
    if items.len() == 0 {
        Ok(Seq::empty())
    } else {
        match add_entries(items.drop_last()) {
            Err(fault) => Err(fault),
            Ok(before) => match add_entry(items.last()) {
                Err(fault) => Err((items.len() - 1, fault)),
                Ok(entry) => Ok(before.push(entry)),
            },
        }
    }
}

/// The files to copy that the nodes stand for, or the position and the fault
/// of the first node that stands for none.
pub open spec fn copy_entries(items: Seq<Node>, index: int) -> Result<
    Seq<CopyFileView>,
    (int, EntryFault),
>
    decreases items.len(),
{
    if items.len() == 0 {
        Ok(Seq::empty())
    } else {
        match copy_entries(items.drop_last(), index) {
            Err(fault) => Err(fault),
            Ok(before) => match copy_entry(items.last(), index) {
                Err(fault) => Err((items.len() - 1, fault)),
                Ok(entry) => Ok(before.push(entry)),
            },
        }
    }
}

/// The variables that the entries of a mapping set, one after the other,
/// where every key and every value is a string.
pub open spec fn variables_of(entries: Seq<(Node, Node)>) -> Option<Seq<(Seq<char>, Seq<char>)>>
    decreases entries.len(),
{
    if entries.len() == 0 {
        Some(Seq::empty())
    } else {
        match (variables_of(entries.drop_last()), entries.last().0, entries.last().1) {
            (Some(before), Node::String(key), Node::String(value)) => Some(
                with_variable(before, key@, value@),
            ),
            _ => None,
        }
    }
}

/// The text of an optional field of stage `stage`.
pub open spec fn text_field(node: Option<Node>, stage: int, field: Field) -> Result<
    Option<Seq<char>>,
    Fault,
> {
    match text_of(node) {
        Some(text) => Ok(text),
        None => Err(Fault::MalformedField { stage, field }),
    }
}

/// The files to add of stage `stage`.
pub open spec fn add_field(node: Option<Node>, stage: int) -> Result<Seq<AddFileView>, Fault> {
    match list_of(node) {
        None => Err(Fault::MalformedField { stage, field: Field::Add }),
        Some(items) => match add_entries(items) {
            Ok(entries) => Ok(entries),
            Err(fault) => Err(stage_fault(stage, Field::Add, fault.0, fault.1)),
        },
    }
}

/// The files to copy of stage `stage`.
pub open spec fn copy_field(node: Option<Node>, stage: int) -> Result<Seq<CopyFileView>, Fault> {
    match list_of(node) {
        None => Err(Fault::MalformedField { stage, field: Field::Copy }),
        Some(items) => match copy_entries(items, stage) {
            Ok(entries) => Ok(entries),
            Err(fault) => Err(stage_fault(stage, Field::Copy, fault.0, fault.1)),
        },
    }
}

/// The variables of the field `env` of stage `stage`: none where the field is
/// absent or null.
pub open spec fn env_field(node: Option<Node>, stage: int) -> Result<
    Seq<(Seq<char>, Seq<char>)>,
    Fault,
> {
    match node {
        None => Ok(Seq::empty()),
        Some(Node::Null) => Ok(Seq::empty()),
        Some(Node::Hash(map)) => match variables_of(map@) {
            Some(variables) => Ok(variables),
            None => Err(Fault::MalformedField { stage, field: Field::Env }),
        },
        Some(_) => Err(Fault::MalformedField { stage, field: Field::Env }),
    }
}

/// The packages of the field `install` of stage `stage`: no list where the
/// field is absent or null.
pub open spec fn install_field(node: Option<Node>, stage: int) -> Result<
    Option<Seq<Seq<char>>>,
    Fault,
> {
    match node {
        None => Ok(None),
        Some(Node::Null) => Ok(None),
        Some(other) => match items_of(other) {
            Some(items) => Ok(Some(items)),
            None => Err(Fault::MalformedField { stage, field: Field::Install }),
        },
    }
}

/// The commands of the field `run` of stage `stage`. The field has to be
/// there and to hold at least one command.
pub open spec fn run_field(node: Option<Node>, stage: int) -> Result<Seq<Seq<char>>, Fault> {
    match node {
        None => Err(Fault::MissingField { stage, field: Field::Run }),
        Some(Node::Null) => Err(Fault::MissingField { stage, field: Field::Run }),
        Some(other) => match items_of(other) {
            Some(items) => if items.len() > 0 {
                Ok(items)
            } else {
                Err(Fault::MalformedField { stage, field: Field::Run })
            },
            None => Err(Fault::MalformedField { stage, field: Field::Run }),
        },
    }
}

/// The base of stage `stage`, classified under the namespace. The field has
/// to be there and to hold a string, and a base inside the namespace has to be
/// a valid tag.
pub open spec fn base_field(node: Option<Node>, stage: int, namespace: Seq<char>) -> Result<
    ReferenceView,
    Fault,
> {
    match text_of(node) {
        None => Err(Fault::MalformedField { stage, field: Field::From }),
        Some(None) => Err(Fault::MissingField { stage, field: Field::From }),
        Some(Some(raw)) => match classified(raw, namespace) {
            Some(reference) => Ok(reference),
            None => Err(Fault::InvalidBase { stage, reference: raw }),
        },
    }
}

/// The fault of a stage that has a field which the schema does not know.
pub open spec fn unknown_field(entries: Seq<(Node, Node)>, stage: int) -> Option<Fault> {
    match unknown_key(entries, stage_names()) {
        Some(fault) => Some(stage_fault(stage, Field::From, 0, fault)),
        None => None,
    }
}

/// The stage at position `index` that a node stands for under a namespace,
/// or the first fault: an unknown field before anything else, and then the
/// fields in the order in which a stage is rendered.
pub open spec fn decoded_stage(node: Node, index: int, namespace: Seq<char>) -> Result<
    StageView,
    Fault,
> {
    match node {
        Node::Hash(map) => {
            let entries = map@;
            let unknown = unknown_field(entries, index);
            let from = base_field(lookup(entries, "from"@), index, namespace);
            let workdir = text_field(lookup(entries, "workdir"@), index, Field::Workdir);
            let user = text_field(lookup(entries, "user"@), index, Field::User);
            let add = add_field(lookup(entries, "add"@), index);
            let copy = copy_field(lookup(entries, "copy"@), index);
            let env = env_field(lookup(entries, "env"@), index);
            let install = install_field(lookup(entries, "install"@), index);
            let run = run_field(lookup(entries, "run"@), index);
            let entrypoint = text_field(lookup(entries, "entrypoint"@), index, Field::Entrypoint);
            let cmd = text_field(lookup(entries, "cmd"@), index, Field::Cmd);
            if unknown is Some {
                Err(unknown->0)
            } else if from is Err {
                Err(from->Err_0)
            } else if workdir is Err {
                Err(workdir->Err_0)
            } else if user is Err {
                Err(user->Err_0)
            } else if add is Err {
                Err(add->Err_0)
            } else if copy is Err {
                Err(copy->Err_0)
            } else if env is Err {
                Err(env->Err_0)
            } else if install is Err {
                Err(install->Err_0)
            } else if run is Err {
                Err(run->Err_0)
            } else if entrypoint is Err {
                Err(entrypoint->Err_0)
            } else if cmd is Err {
                Err(cmd->Err_0)
            } else {
                Ok(
                    StageView {
                        from: from->Ok_0,
                        workdir: workdir->Ok_0,
                        user: user->Ok_0,
                        add: add->Ok_0,
                        copy: copy->Ok_0,
                        env: env->Ok_0,
                        install: install->Ok_0,
                        run: run->Ok_0,
                        entrypoint: entrypoint->Ok_0,
                        cmd: cmd->Ok_0,
                    },
                )
            }
        },
        _ => Err(Fault::NotAMapping { stage: index }),
    }
}

/// The stages that the documents stand for, or the fault of the first
/// document that stands for none.
pub open spec fn decoded_stages(nodes: Seq<Node>, namespace: Seq<char>) -> Result<
    Seq<StageView>,
    Fault,
>
    decreases nodes.len(),
{
    if nodes.len() == 0 {
        Ok(Seq::empty())
    } else {
        match decoded_stages(nodes.drop_last(), namespace) {
            Err(fault) => Err(fault),
            Ok(before) => match decoded_stage(nodes.last(), nodes.len() - 1, namespace) {
                Err(fault) => Err(fault),
                Ok(stage) => Ok(before.push(stage)),
            },
        }
    }
}

/// The description that the documents of a text stand for under a namespace:
/// one stage for each document, in order.
pub open spec fn decoded(nodes: Seq<Node>, namespace: Seq<char>) -> Result<DockerfileView, Fault> {
    if nodes.len() == 0 {
        Err(Fault::NoStages)
    } else {
        match decoded_stages(nodes, namespace) {
            Ok(stages) => Ok(DockerfileView { stages }),
            Err(fault) => Err(fault),
        }
    }
}

/// A single string stands for the same list as the sequence that holds just
/// that string.
pub proof fn lemma_single_item(text: String, items: Vec<Node>)
    requires
        items@ == seq![Node::String(text)],
    ensures
        items_of(Node::String(text)) == items_of(Node::Array(items)),
        items_of(Node::String(text)) == Some(seq![text@]),
{
    assert(items@.drop_last() =~= Seq::<Node>::empty());
    assert(strings_of(items@.drop_last()) == Some(Seq::<Seq<char>>::empty()));
    assert(Seq::<Seq<char>>::empty().push(text@) =~= seq![text@]);
}

} // verus!
