//! YAML documents as trees of plain values.
//!
//! The text of a description is read by the `yaml-rust` crate. What it finds
//! is handed on as a tree of [`Node`]s, which the rest of the crate decodes.

use vstd::prelude::*;
use yaml_rust::{ScanError, Yaml, YamlLoader};

verus! {

/// The error with which `yaml-rust` rejects a text that is not YAML.
#[verifier::external_type_specification]
#[verifier::external_body]
pub struct ExScanError(ScanError);

/// A node of a YAML document, as `yaml-rust` hands it out.
#[verifier::external_type_specification]
#[verifier::external_body]
pub struct ExYaml(Yaml);

/// A node of a YAML document.
#[derive(Debug, PartialEq, Eq)]
pub enum Node {
    /// A floating-point number, kept as it was written.
    Real(String),
    /// An integer.
    Integer(i64),
    /// A string.
    String(String),
    /// A truth value.
    Boolean(bool),
    /// A sequence of nodes.
    Array(Vec<Node>),
    /// A mapping, as its keys and values in the order in which the mapping
    /// hands them out.
    Hash(Vec<(Node, Node)>),
    /// A reference to an anchor, by its number.
    Alias(usize),
    /// The null value.
    Null,
    /// The value of a document that holds nothing, or of a node that could not
    /// be read.
    BadValue,
}

/// The documents that `yaml-rust` finds in a text, or nothing where it
/// rejects the text.
pub uninterp spec fn yaml_documents(source: Seq<char>) -> Option<Seq<Yaml>>;

/// The tree that a node of `yaml-rust` holds.
pub uninterp spec fn yaml_tree(yaml: Yaml) -> Node;

/// The trees of the documents of a text, or nothing where the text is not
/// YAML.
pub open spec fn parsed(source: Seq<char>) -> Option<Seq<Node>> {
    match yaml_documents(source) {
        Some(documents) => Some(documents.map_values(|yaml: Yaml| yaml_tree(yaml))),
        None => None,
    }
}

/// Reads the documents of a text.
///
/// Trusted: the body calls `YamlLoader::load_from_str` of `yaml-rust`. The
/// contract claims that the call returns for every text, and that what it
/// returns depends on the text alone; it names the result and says nothing
/// else about it.
#[verifier::external_body]
fn load_from_str(source: &str) -> (r: Result<Vec<Yaml>, ScanError>)
    ensures
        match r {
            Ok(documents) => yaml_documents(source@) == Some(documents@),
            Err(_) => yaml_documents(source@) is None,
        },
{
    YamlLoader::load_from_str(source)
}

/// Copies a node of `yaml-rust` into a tree of plain values.
///
/// Trusted: the body tells the variants of `yaml_rust::Yaml` apart and moves
/// what each holds into the variant of the same name, the items of a sequence
/// in their order and the keys and values of a mapping in the order in which
/// its iterator hands them out. The contract names the result and says
/// nothing else about it.
#[verifier::external_body]
fn tree_of(yaml: &Yaml) -> (node: Node)
    ensures
        node == yaml_tree(*yaml),
{
    match yaml {
        Yaml::Real(text) => Node::Real(text.clone()),
        Yaml::Integer(number) => Node::Integer(*number),
        Yaml::String(text) => Node::String(text.clone()),
        Yaml::Boolean(flag) => Node::Boolean(*flag),
        Yaml::Array(items) => Node::Array(items.iter().map(tree_of).collect()),
        Yaml::Hash(map) => Node::Hash(map.iter().map(|(k, v)| (tree_of(k), tree_of(v))).collect()),
        Yaml::Alias(anchor) => Node::Alias(*anchor),
        Yaml::Null => Node::Null,
        Yaml::BadValue => Node::BadValue,
    }
}

/// Reads the documents of a text as trees. Fails exactly on the texts that
/// `yaml-rust` rejects, with its error.
pub fn load_documents(source: &str) -> (r: Result<Vec<Node>, ScanError>)
    ensures
        match r {
            Ok(nodes) => parsed(source@) == Some(nodes@),
            Err(_) => parsed(source@) is None,
        },
{
    let documents = match load_from_str(source) {
        Ok(documents) => documents,
        Err(error) => {
            return Err(error);
        },
    };
    let mut nodes: Vec<Node> = Vec::new();
    let mut i: usize = 0;
    while i < documents.len()
        invariant
            i <= documents.len(),
            nodes@ == documents@.map_values(|yaml: Yaml| yaml_tree(yaml)).take(i as int),
        decreases documents.len() - i,
    {
        nodes.push(tree_of(&documents[i]));
        assert(nodes@ =~= documents@.map_values(|yaml: Yaml| yaml_tree(yaml)).take(i + 1));
        i += 1;
    }
    assert(nodes@ =~= documents@.map_values(|yaml: Yaml| yaml_tree(yaml)));
    Ok(nodes)
}

} // verus!
