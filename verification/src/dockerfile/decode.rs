//! Decoding a description from the trees of its YAML documents.

use vstd::prelude::*;
use vstd::string::*;
use crate::dockerfile::add_file::{AddFile, AddFileView};
use crate::dockerfile::copy_file::{CopyFile, CopyFileView};
use crate::dockerfile::env::Env;
use crate::dockerfile::packages::Packages;
use crate::dockerfile::run_commands::RunCommands;
use crate::dockerfile::schema::{add_entries, add_entry, add_field, add_names, base_field,
    copy_entries, copy_entry, copy_field, copy_names, decoded, decoded_stage, decoded_stages,
    env_field, install_field, items_of, keys, known_keys, lookup, origin_of, required_text,
    run_field, stage_fault, stage_names, strings_of, text_field, unknown_key, variables_of,
    EntryFault, Fault, Field};
use crate::dockerfile::single_or_multiple_items_visitor::SingleOrMultipleItemsVisitor;
use crate::dockerfile::stage::{Stage, StageView};
use crate::dockerfile::yaml::{load_documents, parsed, Node};
use crate::dockerfile::{references_ok, stage_views, Dockerfile, ParseError};
use crate::tag::Reference;
use crate::text::{lemma_first_position, lemma_first_position_none, optional_text, str_eq, texts};

verus! {

/// Why an entry of a list is not what the schema asks for.
pub enum EntryError {
    Malformed,
    InvalidKey,
    Unknown(String),
    BadReference,
}

impl View for EntryError {
    type V = EntryFault;

    open spec fn view(&self) -> EntryFault {
        match self {
            EntryError::Malformed => EntryFault::Malformed,
            EntryError::InvalidKey => EntryFault::InvalidKey,
            EntryError::Unknown(name) => EntryFault::Unknown(name@),
            EntryError::BadReference => EntryFault::BadReference,
        }
    }
}

/// The node that a reference points to, if there is one.
pub open spec fn held(node: Option<&Node>) -> Option<Node> {
    match node {
        Some(node) => Some(*node),
        None => None,
    }
}

/// The texts of the names.
pub open spec fn name_texts(names: Seq<&'static str>) -> Seq<Seq<char>> {
    names.map_values(|name: &'static str| name@)
}

/// The error of a stage that comes from an error in one of its entries.
fn stage_error(stage: usize, field: Field, entry: usize, error: EntryError) -> (r: ParseError)
    ensures
        r@ == stage_fault(stage as int, field, entry as int, error@),
{
    match error {
        EntryError::Malformed => ParseError::MalformedField { stage, field },
        EntryError::InvalidKey => ParseError::InvalidKey { stage },
        EntryError::Unknown(name) => ParseError::UnknownField { stage, name },
        EntryError::BadReference => ParseError::InvalidStageReference { stage, entry },
    }
}

/// Looks a name up in a mapping.
fn find<'a>(entries: &'a Vec<(Node, Node)>, name: &str) -> (r: Option<&'a Node>)
    ensures
        held(r) == lookup(entries@, name@),
{
    let mut i: usize = 0;
    while i < entries.len()
        invariant
            i <= entries.len(),
            forall|k: int| 0 <= k < i ==> keys(entries@)[k] != Some(name@),
        decreases entries.len() - i,
    {
        let entry = &entries[i];
        match &entry.0 {
            Node::String(key) => {
                if str_eq(key.as_str(), name) {
                    proof {
                        lemma_first_position(keys(entries@), Some(name@), i as int);
                    }
                    return Some(&entry.1);
                }
            },
            _ => {},
        }
        i += 1;
    }
    proof {
        lemma_first_position_none(keys(entries@), Some(name@));
    }
    None
}

/// Whether the text is one of the names.
fn is_name(text: &str, names: &Vec<&'static str>) -> (r: bool)
    ensures
        r == name_texts(names@).contains(text@),
{
    let mut i: usize = 0;
    while i < names.len()
        invariant
            i <= names.len(),
            forall|k: int| 0 <= k < i ==> name_texts(names@)[k] != text@,
        decreases names.len() - i,
    {
        if str_eq(names[i], text) {
            assert(name_texts(names@)[i as int] == text@);
            return true;
        }
        i += 1;
    }
    false
}

/// Looks for the first key of a mapping that is not one of the names.
fn check_keys(entries: &Vec<(Node, Node)>, names: &Vec<&'static str>) -> (r: Option<EntryError>)
    ensures
        match r {
            Some(error) => unknown_key(entries@, name_texts(names@)) == Some(error@),
            None => unknown_key(entries@, name_texts(names@)) is None,
        },
{
    let ghost flags = known_keys(entries@, name_texts(names@));
    let mut i: usize = 0;
    while i < entries.len()
        invariant
            i <= entries.len(),
            flags == known_keys(entries@, name_texts(names@)),
            forall|k: int| 0 <= k < i ==> flags[k] != false,
        decreases entries.len() - i,
    {
        match &entries[i].0 {
            Node::String(key) => {
                if !is_name(key.as_str(), names) {
                    proof {
                        assert(flags[i as int] == false);
                        lemma_first_position(flags, false, i as int);
                    }
                    return Some(EntryError::Unknown(key.clone()));
                }
            },
            _ => {
                proof {
                    assert(flags[i as int] == false);
                    lemma_first_position(flags, false, i as int);
                }
                return Some(EntryError::InvalidKey);
            },
        }
        i += 1;
    }
    proof {
        lemma_first_position_none(flags, false);
    }
    None
}

/// The names of the fields of a stage.
fn stage_field_names() -> (names: Vec<&'static str>)
    ensures
        name_texts(names@) == stage_names(),
{
    let names = vec![
        "from",
        "workdir",
        "user",
        "add",
        "copy",
        "env",
        "install",
        "run",
        "entrypoint",
        "cmd",
    ];
    assert(name_texts(names@) =~= stage_names());
    names
}

/// The names of the fields of an entry that adds a file.
fn add_field_names() -> (names: Vec<&'static str>)
    ensures
        name_texts(names@) == add_names(),
{
    let names = vec!["from", "to"];
    assert(name_texts(names@) =~= add_names());
    names
}

/// The names of the fields of an entry that copies a file.
fn copy_field_names() -> (names: Vec<&'static str>)
    ensures
        name_texts(names@) == copy_names(),
{
    let names = vec!["from", "to", "stage"];
    assert(name_texts(names@) =~= copy_names());
    names
}

/// The text of an optional field.
fn optional_string(node: Option<&Node>, stage: usize, field: Field) -> (r: Result<
    Option<String>,
    ParseError,
>)
    ensures
        match r {
            Ok(text) => text_field(held(node), stage as int, field) == Ok::<
                Option<Seq<char>>,
                Fault,
            >(optional_text(text)),
            Err(error) => text_field(held(node), stage as int, field) == Err::<
                Option<Seq<char>>,
                Fault,
            >(error@),
        },
{
    match node {
        None => Ok(None),
        Some(Node::Null) => Ok(None),
        Some(Node::String(text)) => Ok(Some(text.clone())),
        Some(_) => Err(ParseError::MalformedField { stage, field }),
    }
}

/// The text of a field that has to hold a string.
fn required_string(node: Option<&Node>) -> (r: Option<String>)
    ensures
        optional_text(r) == required_text(held(node)),
{
    match node {
        Some(Node::String(text)) => Some(text.clone()),
        _ => None,
    }
}

/// The texts of the nodes, where every node is a string.
fn strings(items: &Vec<Node>) -> (r: Option<Vec<String>>)
    ensures
        match r {
            Some(list) => strings_of(items@) == Some(texts(list@)),
            None => strings_of(items@) is None,
        },
{
    let mut list: Vec<String> = Vec::new();
    let mut i: usize = 0;
    assert(items@.take(0) =~= Seq::<Node>::empty());
    assert(texts(list@) =~= Seq::<Seq<char>>::empty());
    while i < items.len()
        invariant
            i <= items.len(),
            strings_of(items@.take(i as int)) == Some(texts(list@)),
        decreases items.len() - i,
    {
        proof {
            assert(items@.take(i + 1).drop_last() =~= items@.take(i as int));
            assert(items@.take(i + 1).last() == items@[i as int]);
        }
        match &items[i] {
            Node::String(text) => {
                let ghost before = texts(list@);
                list.push(text.clone());
                assert(texts(list@) =~= before.push(text@));
            },
            _ => {
                proof {
                    lemma_strings_of_prefix(items@, i + 1);
                }
                return None;
            },
        }
        i += 1;
    }
    assert(items@.take(i as int) =~= items@);
    Some(list)
}

/// Where a prefix of the nodes holds something that is no string, so do the
/// nodes.
proof fn lemma_strings_of_prefix(items: Seq<Node>, n: int)
    requires
        0 <= n <= items.len(),
        strings_of(items.take(n)) is None,
    ensures
        strings_of(items) is None,
    decreases items.len() - n,
{
    if n < items.len() {
        assert(items.take(n + 1).drop_last() =~= items.take(n));
        lemma_strings_of_prefix(items, n + 1);
    } else {
        assert(items.take(n) =~= items);
    }
}

/// The list of strings that a node stands for.
fn items(node: &Node) -> (r: Option<Vec<String>>)
    ensures
        match r {
            Some(list) => items_of(*node) == Some(texts(list@)),
            None => items_of(*node) is None,
        },
{
    match node {
        Node::String(text) => Some(SingleOrMultipleItemsVisitor.visit_str(text.as_str())),
        Node::Array(items) => strings(items),
        _ => None,
    }
}

/// The entry that a node stands for in the list of files to add.
fn add_entry_from(item: &Node) -> (r: Result<AddFile, EntryError>)
    ensures
        match r {
            Ok(entry) => add_entry(*item) == Ok::<AddFileView, EntryFault>(entry@),
            Err(error) => add_entry(*item) == Err::<AddFileView, EntryFault>(error@),
        },
{
    match item {
        Node::Hash(entries) => {
            let names = add_field_names();
            match check_keys(entries, &names) {
                Some(error) => {
                    return Err(error);
                },
                None => {},
            }
            let from = required_string(find(entries, "from"));
            let to = required_string(find(entries, "to"));
            match (from, to) {
                (Some(from), Some(to)) => Ok(AddFile { from, to }),
                _ => Err(EntryError::Malformed),
            }
        },
        _ => Err(EntryError::Malformed),
    }
}

/// The stage that a copy entry names.
fn origin(node: Option<&Node>, index: usize) -> (r: Result<Option<usize>, EntryError>)
    ensures
        match r {
            Ok(Some(origin)) => origin_of(held(node), index as int) == Ok::<
                Option<nat>,
                EntryFault,
            >(Some(origin as nat)),
            Ok(None) => origin_of(held(node), index as int) == Ok::<Option<nat>, EntryFault>(None),
            Err(error) => origin_of(held(node), index as int) == Err::<Option<nat>, EntryFault>(
                error@,
            ),
        },
{
    match node {
        None => Ok(None),
        Some(Node::Null) => Ok(None),
        Some(Node::Integer(number)) => {
            let number: i64 = *number;
            if number >= 0 && (number as u64) < (index as u64) {
                Ok(Some(number as usize))
            } else {
                Err(EntryError::BadReference)
            }
        },
        Some(_) => Err(EntryError::Malformed),
    }
}

/// The entry that a node stands for in the list of files to copy.
fn copy_entry_from(item: &Node, index: usize) -> (r: Result<CopyFile, EntryError>)
    ensures
        match r {
            Ok(entry) => copy_entry(*item, index as int) == Ok::<CopyFileView, EntryFault>(entry@),
            Err(error) => copy_entry(*item, index as int) == Err::<CopyFileView, EntryFault>(
                error@,
            ),
        },
{
    match item {
        Node::Hash(entries) => {
            let names = copy_field_names();
            match check_keys(entries, &names) {
                Some(error) => {
                    return Err(error);
                },
                None => {},
            }
            let from = required_string(find(entries, "from"));
            let to = required_string(find(entries, "to"));
            let stage = origin(find(entries, "stage"), index);
            match (from, to) {
                (Some(from), Some(to)) => match stage {
                    Ok(stage) => Ok(CopyFile { from, to, stage }),
                    Err(error) => Err(error),
                },
                _ => Err(EntryError::Malformed),
            }
        },
        _ => Err(EntryError::Malformed),
    }
}

/// Where a prefix of the nodes has a fault, the nodes have the same one.
proof fn lemma_add_entries_prefix(items: Seq<Node>, n: int)
    requires
        0 <= n <= items.len(),
        add_entries(items.take(n)) is Err,
    ensures
        add_entries(items) == add_entries(items.take(n)),
    decreases items.len() - n,
{
    if n < items.len() {
        assert(items.take(n + 1).drop_last() =~= items.take(n));
        lemma_add_entries_prefix(items, n + 1);
    } else {
        assert(items.take(n) =~= items);
    }
}

/// Where a prefix of the nodes has a fault, the nodes have the same one.
proof fn lemma_copy_entries_prefix(items: Seq<Node>, index: int, n: int)
    requires
        0 <= n <= items.len(),
        copy_entries(items.take(n), index) is Err,
    ensures
        copy_entries(items, index) == copy_entries(items.take(n), index),
    decreases items.len() - n,
{
    if n < items.len() {
        assert(items.take(n + 1).drop_last() =~= items.take(n));
        lemma_copy_entries_prefix(items, index, n + 1);
    } else {
        assert(items.take(n) =~= items);
    }
}

/// The description that a text stands for under a namespace: the text has to
/// be YAML, and its documents have to decode.
pub open spec fn described(source: Seq<char>, namespace: Seq<char>) -> Result<
    crate::dockerfile::DockerfileView,
    Fault,
> {
    match parsed(source) {
        None => Err(Fault::Syntax),
        Some(nodes) => decoded(nodes, namespace),
    }
}

/// The views of the entries.
pub open spec fn add_views(entries: Seq<AddFile>) -> Seq<AddFileView> {
    entries.map_values(|entry: AddFile| entry@)
}

/// The views of the entries.
pub open spec fn copy_views(entries: Seq<CopyFile>) -> Seq<CopyFileView> {
    entries.map_values(|entry: CopyFile| entry@)
}

/// The files to add of a stage.
fn add_files(node: Option<&Node>, stage: usize) -> (r: Result<Vec<AddFile>, ParseError>)
    ensures
        match r {
            Ok(entries) => add_field(held(node), stage as int) == Ok::<Seq<AddFileView>, Fault>(
                add_views(entries@),
            ),
            Err(error) => add_field(held(node), stage as int) == Err::<Seq<AddFileView>, Fault>(
                error@,
            ),
        },
{
    let mut entries: Vec<AddFile> = Vec::new();
    assert(add_views(entries@) =~= Seq::<AddFileView>::empty());
    let items = match node {
        None => {
            return Ok(entries);
        },
        Some(Node::Null) => {
            return Ok(entries);
        },
        Some(Node::Array(items)) => items,
        Some(_) => {
            return Err(ParseError::MalformedField { stage, field: Field::Add });
        },
    };
    let mut i: usize = 0;
    assert(items@.take(0) =~= Seq::<Node>::empty());
    while i < items.len()
        invariant
            i <= items.len(),
            crate::dockerfile::schema::list_of(held(node)) == Some(items@),
            add_entries(items@.take(i as int)) == Ok::<Seq<AddFileView>, (int, EntryFault)>(
                add_views(entries@),
            ),
        decreases items.len() - i,
    {
        proof {
            assert(items@.take(i + 1).drop_last() =~= items@.take(i as int));
            assert(items@.take(i + 1).last() == items@[i as int]);
        }
        match add_entry_from(&items[i]) {
            Ok(entry) => {
                let ghost before = add_views(entries@);
                entries.push(entry);
                assert(add_views(entries@) =~= before.push(entry@));
            },
            Err(error) => {
                proof {
                    assert(add_entries(items@.take(i + 1)) == Err::<
                        Seq<AddFileView>,
                        (int, EntryFault),
                    >((i as int, error@)));
                    lemma_add_entries_prefix(items@, i + 1);
                }
                return Err(stage_error(stage, Field::Add, i, error));
            },
        }
        i += 1;
    }
    assert(items@.take(i as int) =~= items@);
    Ok(entries)
}

/// The files to copy of a stage.
fn copy_files(node: Option<&Node>, stage: usize) -> (r: Result<Vec<CopyFile>, ParseError>)
    ensures
        match r {
            Ok(entries) => copy_field(held(node), stage as int) == Ok::<Seq<CopyFileView>, Fault>(
                copy_views(entries@),
            ),
            Err(error) => copy_field(held(node), stage as int) == Err::<Seq<CopyFileView>, Fault>(
                error@,
            ),
        },
{
    let mut entries: Vec<CopyFile> = Vec::new();
    assert(copy_views(entries@) =~= Seq::<CopyFileView>::empty());
    let items = match node {
        None => {
            return Ok(entries);
        },
        Some(Node::Null) => {
            return Ok(entries);
        },
        Some(Node::Array(items)) => items,
        Some(_) => {
            return Err(ParseError::MalformedField { stage, field: Field::Copy });
        },
    };
    let mut i: usize = 0;
    assert(items@.take(0) =~= Seq::<Node>::empty());
    while i < items.len()
        invariant
            i <= items.len(),
            crate::dockerfile::schema::list_of(held(node)) == Some(items@),
            copy_entries(items@.take(i as int), stage as int) == Ok::<
                Seq<CopyFileView>,
                (int, EntryFault),
            >(copy_views(entries@)),
        decreases items.len() - i,
    {
        proof {
            assert(items@.take(i + 1).drop_last() =~= items@.take(i as int));
            assert(items@.take(i + 1).last() == items@[i as int]);
        }
        match copy_entry_from(&items[i], stage) {
            Ok(entry) => {
                let ghost before = copy_views(entries@);
                entries.push(entry);
                assert(copy_views(entries@) =~= before.push(entry@));
            },
            Err(error) => {
                proof {
                    assert(copy_entries(items@.take(i + 1), stage as int) == Err::<
                        Seq<CopyFileView>,
                        (int, EntryFault),
                    >((i as int, error@)));
                    lemma_copy_entries_prefix(items@, stage as int, i + 1);
                }
                return Err(stage_error(stage, Field::Copy, i, error));
            },
        }
        i += 1;
    }
    assert(items@.take(i as int) =~= items@);
    Ok(entries)
}

/// Where a prefix of the entries holds a key or a value that is no string, so
/// do the entries.
proof fn lemma_variables_of_prefix(entries: Seq<(Node, Node)>, n: int)
    requires
        0 <= n <= entries.len(),
        variables_of(entries.take(n)) is None,
    ensures
        variables_of(entries) is None,
    decreases entries.len() - n,
{
    if n < entries.len() {
        assert(entries.take(n + 1).drop_last() =~= entries.take(n));
        lemma_variables_of_prefix(entries, n + 1);
    } else {
        assert(entries.take(n) =~= entries);
    }
}

/// The variables of a stage.
fn variables(node: Option<&Node>, stage: usize) -> (r: Result<Env, ParseError>)
    ensures
        match r {
            Ok(env) => env_field(held(node), stage as int) == Ok::<
                Seq<(Seq<char>, Seq<char>)>,
                Fault,
            >(env@),
            Err(error) => env_field(held(node), stage as int) == Err::<
                Seq<(Seq<char>, Seq<char>)>,
                Fault,
            >(error@),
        },
{
    let mut env = Env::new();
    let entries = match node {
        None => {
            return Ok(env);
        },
        Some(Node::Null) => {
            return Ok(env);
        },
        Some(Node::Hash(entries)) => entries,
        Some(_) => {
            return Err(ParseError::MalformedField { stage, field: Field::Env });
        },
    };
    let mut i: usize = 0;
    assert(entries@.take(0) =~= Seq::<(Node, Node)>::empty());
    while i < entries.len()
        invariant
            i <= entries.len(),
            held(node) == Some(Node::Hash(*entries)),
            variables_of(entries@.take(i as int)) == Some(env@),
        decreases entries.len() - i,
    {
        proof {
            assert(entries@.take(i + 1).drop_last() =~= entries@.take(i as int));
            assert(entries@.take(i + 1).last() == entries@[i as int]);
        }
        let entry = &entries[i];
        match (&entry.0, &entry.1) {
            (Node::String(key), Node::String(value)) => {
                env.insert(key.as_str(), value.as_str());
            },
            _ => {
                proof {
                    assert(variables_of(entries@.take(i + 1)) is None);
                    lemma_variables_of_prefix(entries@, i + 1);
                }
                return Err(ParseError::MalformedField { stage, field: Field::Env });
            },
        }
        i += 1;
    }
    assert(entries@.take(i as int) =~= entries@);
    Ok(env)
}

/// The packages of a stage.
fn install(node: Option<&Node>, stage: usize) -> (r: Result<Option<Packages>, ParseError>)
    ensures
        match r {
            Ok(Some(packages)) => install_field(held(node), stage as int) == Ok::<
                Option<Seq<Seq<char>>>,
                Fault,
            >(Some(packages@)),
            Ok(None) => install_field(held(node), stage as int) == Ok::<
                Option<Seq<Seq<char>>>,
                Fault,
            >(None),
            Err(error) => install_field(held(node), stage as int) == Err::<
                Option<Seq<Seq<char>>>,
                Fault,
            >(error@),
        },
{
    match node {
        None => Ok(None),
        Some(Node::Null) => Ok(None),
        Some(other) => match items(other) {
            Some(list) => Ok(Some(Packages::new(list))),
            None => Err(ParseError::MalformedField { stage, field: Field::Install }),
        },
    }
}

/// The commands of a stage.
fn commands(node: Option<&Node>, stage: usize) -> (r: Result<RunCommands, ParseError>)
    ensures
        match r {
            Ok(run) => run_field(held(node), stage as int) == Ok::<Seq<Seq<char>>, Fault>(run@),
            Err(error) => run_field(held(node), stage as int) == Err::<Seq<Seq<char>>, Fault>(
                error@,
            ),
        },
{
    match node {
        None => Err(ParseError::MissingField { stage, field: Field::Run }),
        Some(Node::Null) => Err(ParseError::MissingField { stage, field: Field::Run }),
        Some(other) => match items(other) {
            Some(list) => match RunCommands::new(list) {
                Some(run) => Ok(run),
                None => Err(ParseError::MalformedField { stage, field: Field::Run }),
            },
            None => Err(ParseError::MalformedField { stage, field: Field::Run }),
        },
    }
}

/// The base of a stage.
fn base(node: Option<&Node>, stage: usize, namespace: &str) -> (r: Result<Reference, ParseError>)
    ensures
        match r {
            Ok(reference) => base_field(held(node), stage as int, namespace@) == Ok::<
                crate::tag::ReferenceView,
                Fault,
            >(reference@) && crate::dockerfile::base_ok(reference@),
            Err(error) => base_field(held(node), stage as int, namespace@) == Err::<
                crate::tag::ReferenceView,
                Fault,
            >(error@),
        },
{
    match node {
        None => Err(ParseError::MissingField { stage, field: Field::From }),
        Some(Node::Null) => Err(ParseError::MissingField { stage, field: Field::From }),
        Some(Node::String(raw)) => match Reference::classify(raw.as_str(), namespace) {
            Ok(reference) => Ok(reference),
            Err(_) => Err(ParseError::InvalidBase { stage, reference: raw.clone() }),
        },
        Some(_) => Err(ParseError::MalformedField { stage, field: Field::From }),
    }
}

impl Stage {
    /// Decodes the stage at position `index` of a description from the tree
    /// of its document. References to base images are classified under
    /// `namespace`.
    ///
    /// Succeeds exactly on the trees that the schema accepts, and otherwise
    /// fails with the first fault that the schema finds.
    pub fn from_node(node: &Node, index: usize, namespace: &str) -> (r: Result<Stage, ParseError>)
        ensures
            match r {
                Ok(stage) => decoded_stage(*node, index as int, namespace@) == Ok::<
                    StageView,
                    Fault,
                >(stage@) && references_ok(stage@, index as int) && crate::dockerfile::base_ok(
                    stage@.from,
                ),
                Err(error) => decoded_stage(*node, index as int, namespace@) == Err::<
                    StageView,
                    Fault,
                >(error@),
            },
    {
        let entries = match node {
            Node::Hash(entries) => entries,
            _ => {
                return Err(ParseError::NotAMapping { stage: index });
            },
        };
        let names = stage_field_names();
        match check_keys(entries, &names) {
            Some(error) => {
                return Err(stage_error(index, Field::From, 0, error));
            },
            None => {},
        }
        let from = match base(find(entries, "from"), index, namespace) {
            Ok(value) => value,
            Err(error) => {
                return Err(error);
            },
        };
        let workdir = match optional_string(find(entries, "workdir"), index, Field::Workdir) {
            Ok(value) => value,
            Err(error) => {
                return Err(error);
            },
        };
        let user = match optional_string(find(entries, "user"), index, Field::User) {
            Ok(value) => value,
            Err(error) => {
                return Err(error);
            },
        };
        let add = match add_files(find(entries, "add"), index) {
            Ok(value) => value,
            Err(error) => {
                return Err(error);
            },
        };
        let copy = match copy_files(find(entries, "copy"), index) {
            Ok(value) => value,
            Err(error) => {
                return Err(error);
            },
        };
        let env = match variables(find(entries, "env"), index) {
            Ok(value) => value,
            Err(error) => {
                return Err(error);
            },
        };
        let install = match install(find(entries, "install"), index) {
            Ok(value) => value,
            Err(error) => {
                return Err(error);
            },
        };
        let run = match commands(find(entries, "run"), index) {
            Ok(value) => value,
            Err(error) => {
                return Err(error);
            },
        };
        let entrypoint = match optional_string(find(entries, "entrypoint"), index, Field::Entrypoint) {
            Ok(value) => value,
            Err(error) => {
                return Err(error);
            },
        };
        let cmd = match optional_string(find(entries, "cmd"), index, Field::Cmd) {
            Ok(value) => value,
            Err(error) => {
                return Err(error);
            },
        };
        proof {
            lemma_copy_entries_ok(
                crate::dockerfile::schema::list_of(lookup(entries@, "copy"@))->0,
                index as int,
            );
        }
        Ok(Stage { from, workdir, user, add, copy, env, install, run, entrypoint, cmd })
    }
}

/// Copy entries that were decoded for a stage name earlier stages only.
proof fn lemma_copy_entries_ok(items: Seq<Node>, index: int)
    requires
        copy_entries(items, index) is Ok,
    ensures
        forall|k: int|
            0 <= k < copy_entries(items, index)->Ok_0.len() ==> crate::dockerfile::reference_ok(
                #[trigger] copy_entries(items, index)->Ok_0[k],
                index,
            ),
    decreases items.len(),
{
    if items.len() > 0 {
        lemma_copy_entries_ok(items.drop_last(), index);
    }
}

/// Where a prefix of the documents has a fault, the documents have the same
/// one.
proof fn lemma_decoded_stages_prefix(nodes: Seq<Node>, namespace: Seq<char>, n: int)
    requires
        0 <= n <= nodes.len(),
        decoded_stages(nodes.take(n), namespace) is Err,
    ensures
        decoded_stages(nodes, namespace) == decoded_stages(nodes.take(n), namespace),
    decreases nodes.len() - n,
{
    if n < nodes.len() {
        assert(nodes.take(n + 1).drop_last() =~= nodes.take(n));
        lemma_decoded_stages_prefix(nodes, namespace, n + 1);
    } else {
        assert(nodes.take(n) =~= nodes);
    }
}

impl Dockerfile {
    /// Decodes a description from the trees of its documents, one stage from
    /// each. References to base images are classified under `namespace`.
    ///
    /// Succeeds exactly on the trees that the schema accepts, and otherwise
    /// fails with the first fault that the schema finds.
    pub fn from_nodes(nodes: &Vec<Node>, namespace: &str) -> (r: Result<Dockerfile, ParseError>)
        ensures
            match r {
                Ok(dockerfile) => decoded(nodes@, namespace@) == Ok::<
                    crate::dockerfile::DockerfileView,
                    Fault,
                >(dockerfile@) && dockerfile@.valid(),
                Err(error) => decoded(nodes@, namespace@) == Err::<
                    crate::dockerfile::DockerfileView,
                    Fault,
                >(error@),
            },
    {
        if nodes.len() == 0 {
            return Err(ParseError::NoStages);
        }
        let mut stages: Vec<Stage> = Vec::new();
        let mut i: usize = 0;
        assert(nodes@.take(0) =~= Seq::<Node>::empty());
        assert(stage_views(stages@) =~= Seq::<StageView>::empty());
        while i < nodes.len()
            invariant
                i <= nodes.len(),
                stages@.len() == i,
                decoded_stages(nodes@.take(i as int), namespace@) == Ok::<Seq<StageView>, Fault>(
                    stage_views(stages@),
                ),
                forall|k: int|
                    0 <= k < i ==> references_ok(#[trigger] stage_views(stages@)[k], k),
            decreases nodes.len() - i,
        {
            proof {
                assert(nodes@.take(i + 1).drop_last() =~= nodes@.take(i as int));
                assert(nodes@.take(i + 1).last() == nodes@[i as int]);
            }
            match Stage::from_node(&nodes[i], i, namespace) {
                Ok(stage) => {
                    let ghost before = stage_views(stages@);
                    stages.push(stage);
                    assert(stage_views(stages@) =~= before.push(stage@));
                },
                Err(error) => {
                    proof {
                        lemma_decoded_stages_prefix(nodes@, namespace@, i + 1);
                    }
                    return Err(error);
                },
            }
            i += 1;
        }
        assert(nodes@.take(i as int) =~= nodes@);
        match Dockerfile::new(stages) {
            Ok(dockerfile) => Ok(dockerfile),
            Err(error) => {
                proof {
                    if let ParseError::InvalidStageReference { stage, entry } = error {
                        assert(!references_ok(stage_views(stages@)[stage as int], stage as int));
                    }
                    assert(false);
                }
                Err(error)
            },
        }
    }

    /// Reads a description from its text: YAML documents, one for each stage.
    /// References to base images are classified under `namespace`.
    ///
    /// Fails with `Syntax` exactly on the texts that are not YAML, and
    /// otherwise succeeds or fails as [`Dockerfile::from_nodes`] does on the
    /// trees of the documents.
    pub fn parse(source: &str, namespace: &str) -> (r: Result<Dockerfile, ParseError>)
        ensures
            match r {
                Ok(dockerfile) => described(source@, namespace@) == Ok::<
                    crate::dockerfile::DockerfileView,
                    Fault,
                >(dockerfile@) && dockerfile@.valid(),
                Err(error) => described(source@, namespace@) == Err::<
                    crate::dockerfile::DockerfileView,
                    Fault,
                >(error@),
            },
    {
        match load_documents(source) {
            Ok(nodes) => Dockerfile::from_nodes(&nodes, namespace),
            Err(error) => Err(ParseError::Syntax(error)),
        }
    }
}

} // verus!
