use dkr::dockerfile::schema::Field;
use dkr::dockerfile::stage::Stage;
use dkr::dockerfile::yaml::{load_documents, Node};
use dkr::dockerfile::{Dockerfile, ParseError};
use dkr::tag::{Reference, Tag};

fn text(value: &str) -> Node {
    Node::String(value.to_string())
}

fn mapping(entries: Vec<(&str, Node)>) -> Node {
    Node::Hash(entries.into_iter().map(|(key, value)| (text(key), value)).collect())
}

fn parse(source: &str) -> Result<Dockerfile, ParseError> {
    Dockerfile::parse(source, "ns")
}

#[test]
fn yaml_nodes_are_passed_on() {
    let nodes = load_documents("a: 1\nb: [x, 2.5, true, ~]\n").unwrap();
    assert_eq!(
        nodes,
        vec![Node::Hash(vec![
            (text("a"), Node::Integer(1)),
            (
                text("b"),
                Node::Array(vec![
                    text("x"),
                    Node::Real("2.5".to_string()),
                    Node::Boolean(true),
                    Node::Null
                ])
            ),
        ])]
    );
}

#[test]
fn yaml_documents_are_separated() {
    let nodes = load_documents("a\n---\nb\n---\n- c\n").unwrap();
    assert_eq!(nodes, vec![text("a"), text("b"), Node::Array(vec![text("c")])]);
    assert_eq!(load_documents("").unwrap(), Vec::new());
}

#[test]
fn yaml_mappings_keep_their_order() {
    let nodes = load_documents("z: 1\na: 2\nm: 3\n").unwrap();
    assert_eq!(
        nodes,
        vec![Node::Hash(vec![
            (text("z"), Node::Integer(1)),
            (text("a"), Node::Integer(2)),
            (text("m"), Node::Integer(3)),
        ])]
    );
}

#[test]
fn text_that_is_not_yaml_is_a_syntax_error() {
    assert!(load_documents("a: [1, 2").is_err());
    assert!(matches!(parse("a: [1, 2"), Err(ParseError::Syntax(_))));
}

#[test]
fn minimal_description() {
    let dockerfile = parse("from: debian:stable\nrun: echo hi\n").unwrap();
    assert_eq!(dockerfile.to_string(), "FROM debian:stable\nRUN echo hi\n\n");
}

#[test]
fn a_bare_command_is_a_sequence_of_one() {
    let scalar = parse("from: debian\nrun: echo hi\n").unwrap();
    let sequence = parse("from: debian\nrun:\n  - echo hi\n").unwrap();
    let inline = parse("from: debian\nrun: [\"echo hi\"]\n").unwrap();
    assert_eq!(scalar, sequence);
    assert_eq!(scalar, inline);
    assert_eq!(scalar.to_string(), sequence.to_string());
    assert_eq!(scalar.to_string(), "FROM debian\nRUN echo hi\n\n");
}

#[test]
fn a_bare_package_is_a_sequence_of_one() {
    let scalar = parse("from: debian\ninstall: curl\nrun: 'true'\n").unwrap();
    let sequence = parse("from: debian\ninstall: [curl]\nrun: 'true'\n").unwrap();
    assert_eq!(scalar, sequence);
    assert!(scalar.to_string().contains("apt-get install -y curl;"));
}

#[test]
fn empty_package_list_from_yaml() {
    let dockerfile = parse("from: debian\ninstall: []\nrun: 'true'\n").unwrap();
    assert_eq!(
        dockerfile.to_string(),
        "FROM debian\nRUN if [ \"$UID\" -eq 0 ]; then apt-get update -y; else sudo apt-get update -y; fi\nRUN true\n\n"
    );
}

#[test]
fn full_description() {
    let source = "\
from: rust:1
workdir: /src
add:
  - from: a
    to: b
  - from: c
    to: d
run:
  - cargo build
  - cargo test
---
from: ns/base
user: app
copy:
  - from: /src/target/app
    to: /usr/bin/app
    stage: 0
  - from: conf
    to: /etc/app
env:
  ZED: last
  ALPHA: first
install:
  - curl
  - git
run: ldconfig
entrypoint: /usr/bin/app
cmd: --serve
";
    let dockerfile = parse(source).unwrap();
    let text = dockerfile.to_string();
    assert!(text.starts_with(
        "FROM rust:1\nWORKDIR /src\nADD a b\nADD c d\nRUN cargo build && cargo test\n\nFROM ns/base\nUSER app\nCOPY --from=0 /src/target/app /usr/bin/app\nCOPY conf /etc/app\nENV ZED=last ALPHA=first\nRUN if "
    ));
    assert!(text.ends_with(
        "sudo apt-get install -y curl git; \\\n                fi\nRUN ldconfig\nENTRYPOINT /usr/bin/app\nCMD --serve\n\n"
    ));
    assert_eq!(dockerfile.from(), vec!["rust:1", "ns/base"]);
    let second = dockerfile.stage(1).unwrap();
    assert_eq!(second.from, Reference::Managed(Tag::resolve("base", "ns").unwrap()));
    assert_eq!(dockerfile.stage(0).unwrap().from, Reference::Opaque("rust:1".to_string()));
    assert_eq!(parse(source).unwrap(), dockerfile);
}

#[test]
fn null_fields_are_absent() {
    let dockerfile = parse("from: debian\nworkdir: ~\nadd: ~\nenv: ~\ninstall: ~\nrun: x\ncmd: null\n");
    assert_eq!(dockerfile.unwrap().to_string(), "FROM debian\nRUN x\n\n");
}

#[test]
fn no_document_is_no_stage() {
    assert_eq!(parse(""), Err(ParseError::NoStages));
    assert_eq!(Dockerfile::from_nodes(&Vec::new(), "ns"), Err(ParseError::NoStages));
}

#[test]
fn a_stage_must_be_a_mapping() {
    assert_eq!(parse("- a\n- b\n"), Err(ParseError::NotAMapping { stage: 0 }));
    assert_eq!(
        parse("from: debian\nrun: x\n---\njust text\n"),
        Err(ParseError::NotAMapping { stage: 1 })
    );
}

#[test]
fn unknown_fields_are_rejected() {
    assert_eq!(
        parse("from: debian\nrun: x\nvolume: /data\n"),
        Err(ParseError::UnknownField { stage: 0, name: "volume".to_string() })
    );
    assert_eq!(
        parse("from: debian\nrun: x\n---\nfrom: debian\nrun: x\nFrom: y\n"),
        Err(ParseError::UnknownField { stage: 1, name: "From".to_string() })
    );
    assert_eq!(
        parse("from: debian\nrun: x\nadd:\n  - from: a\n    to: b\n    mode: 7\n"),
        Err(ParseError::UnknownField { stage: 0, name: "mode".to_string() })
    );
    assert_eq!(
        parse("from: debian\nrun: x\ncopy:\n  - from: a\n    to: b\n    chown: me\n"),
        Err(ParseError::UnknownField { stage: 0, name: "chown".to_string() })
    );
}

#[test]
fn unknown_fields_come_before_other_faults() {
    assert_eq!(
        parse("workdir: 5\nbogus: 1\n"),
        Err(ParseError::UnknownField { stage: 0, name: "bogus".to_string() })
    );
}

#[test]
fn keys_must_be_strings() {
    assert_eq!(parse("from: debian\nrun: x\n1: y\n"), Err(ParseError::InvalidKey { stage: 0 }));
}

#[test]
fn required_fields() {
    assert_eq!(
        parse("run: x\n"),
        Err(ParseError::MissingField { stage: 0, field: Field::From })
    );
    assert_eq!(
        parse("from: debian\n"),
        Err(ParseError::MissingField { stage: 0, field: Field::Run })
    );
    assert_eq!(
        parse("from: debian\nrun: ~\n"),
        Err(ParseError::MissingField { stage: 0, field: Field::Run })
    );
}

#[test]
fn malformed_fields() {
    let cases = [
        ("from: 5\nrun: x\n", Field::From),
        ("from: debian\nworkdir: [a]\nrun: x\n", Field::Workdir),
        ("from: debian\nuser: 1000\nrun: x\n", Field::User),
        ("from: debian\nadd: a\nrun: x\n", Field::Add),
        ("from: debian\nadd: [a]\nrun: x\n", Field::Add),
        ("from: debian\nadd:\n  - from: a\nrun: x\n", Field::Add),
        ("from: debian\ncopy: {from: a, to: b}\nrun: x\n", Field::Copy),
        ("from: debian\ncopy:\n  - from: a\n    to: b\n    stage: first\nrun: x\n", Field::Copy),
        ("from: debian\nenv: [A=b]\nrun: x\n", Field::Env),
        ("from: debian\nenv:\n  A: 1\nrun: x\n", Field::Env),
        ("from: debian\ninstall: {a: b}\nrun: x\n", Field::Install),
        ("from: debian\ninstall: [a, 2]\nrun: x\n", Field::Install),
        ("from: debian\nrun: []\n", Field::Run),
        ("from: debian\nrun: 5\n", Field::Run),
        ("from: debian\nrun: [a, [b]]\n", Field::Run),
        ("from: debian\nrun: x\nentrypoint: true\n", Field::Entrypoint),
        ("from: debian\nrun: x\ncmd: 1.5\n", Field::Cmd),
    ];
    for (source, field) in cases {
        assert_eq!(
            parse(source),
            Err(ParseError::MalformedField { stage: 0, field }),
            "{}",
            source
        );
    }
}

#[test]
fn faults_are_reported_in_field_order() {
    assert_eq!(
        parse("cmd: 5\nworkdir: 7\nfrom: debian\n"),
        Err(ParseError::MalformedField { stage: 0, field: Field::Workdir })
    );
    assert_eq!(
        parse("from: debian\nrun: x\n---\nfrom: 1\n---\nfrom: debian\n"),
        Err(ParseError::MalformedField { stage: 1, field: Field::From })
    );
}

#[test]
fn copy_entries_must_name_earlier_stages() {
    assert_eq!(
        parse("from: debian\nrun: x\ncopy:\n  - from: a\n    to: b\n    stage: 0\n"),
        Err(ParseError::InvalidStageReference { stage: 0, entry: 0 })
    );
    assert_eq!(
        parse("from: a\nrun: x\n---\nfrom: b\nrun: x\ncopy:\n  - {from: a, to: b, stage: 0}\n  - {from: a, to: b, stage: 1}\n"),
        Err(ParseError::InvalidStageReference { stage: 1, entry: 1 })
    );
    assert_eq!(
        parse("from: a\nrun: x\n---\nfrom: b\nrun: x\ncopy:\n  - {from: a, to: b, stage: -1}\n"),
        Err(ParseError::InvalidStageReference { stage: 1, entry: 0 })
    );
    assert!(parse("from: a\nrun: x\n---\nfrom: b\nrun: x\ncopy:\n  - {from: a, to: b, stage: 0}\n").is_ok());
}

#[test]
fn bases_in_the_namespace_must_be_tags() {
    assert_eq!(
        parse("from: ns/a/b\nrun: x\n"),
        Err(ParseError::InvalidBase { stage: 0, reference: "ns/a/b".to_string() })
    );
}

#[test]
fn classification_follows_the_namespace() {
    let inside = Dockerfile::parse("from: team/base\nrun: x\n", "team").unwrap();
    assert!(inside.stage(0).unwrap().from.managed().is_some());
    let outside = Dockerfile::parse("from: team/base\nrun: x\n", "ns").unwrap();
    assert!(outside.stage(0).unwrap().from.managed().is_none());
    assert_eq!(inside.to_string(), outside.to_string());
}

#[test]
fn stages_decode_from_trees() {
    let node = mapping(vec![
        ("run", Node::Array(vec![text("a"), text("b")])),
        ("from", text("debian")),
    ]);
    let stage = Stage::from_node(&node, 0, "ns").unwrap();
    assert_eq!(stage.to_string(), "FROM debian\nRUN a && b\n");
    assert_eq!(
        Stage::from_node(&Node::BadValue, 3, "ns"),
        Err(ParseError::NotAMapping { stage: 3 })
    );
    assert_eq!(
        Stage::from_node(&Node::Alias(1), 0, "ns"),
        Err(ParseError::NotAMapping { stage: 0 })
    );
}

#[test]
fn the_first_of_two_equal_keys_is_read() {
    let node = Node::Hash(vec![
        (text("from"), text("first")),
        (text("from"), text("second")),
        (text("run"), text("x")),
    ]);
    assert_eq!(Stage::from_node(&node, 0, "ns").unwrap().from(), "first");
}

#[test]
fn a_scalar_and_a_sequence_of_one_decode_alike() {
    let scalar = mapping(vec![("from", text("debian")), ("run", text("echo hi"))]);
    let sequence =
        mapping(vec![("from", text("debian")), ("run", Node::Array(vec![text("echo hi")]))]);
    assert_eq!(
        Stage::from_node(&scalar, 0, "ns").unwrap(),
        Stage::from_node(&sequence, 0, "ns").unwrap()
    );
}
