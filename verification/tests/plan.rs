use dkr::dockerfile::schema::Field;
use dkr::dockerfile::ParseError;
use dkr::planner::{plan, PlanError, Source};
use dkr::tag::Tag;

fn source(tag: &str, text: &str) -> Source {
    Source { tag: tag.to_string(), text: text.to_string() }
}

fn tag(name: &str) -> Tag {
    Tag::resolve(name, "ns").unwrap()
}

fn tags(result: &Result<Vec<dkr::docker_image::DockerImage>, PlanError>) -> Vec<String> {
    result.as_ref().unwrap().iter().map(|image| image.tag().to_string()).collect()
}

#[test]
fn an_image_and_its_base_end_to_end() {
    let sources = vec![
        source("ns/app", "from: ns/base\nrun: make\n"),
        source("ns/base", "from: debian:stable\nrun:\n  - apt-get update\n  - apt-get upgrade -y\n"),
    ];
    let result = plan("ns/app", None, "/images", &sources);
    assert_eq!(tags(&result), vec!["ns/base", "ns/app"]);
    let images = result.unwrap();
    assert_eq!(
        images[0].text(),
        "FROM debian:stable\nRUN apt-get update && apt-get upgrade -y\n\n"
    );
    assert_eq!(images[0].source_directory(), "/images/ns/base");
    assert_eq!(images[1].text(), "FROM ns/base\nRUN make\n\n");
    assert_eq!(images[1].source_directory(), "/images/ns/app");
    assert!(!images.iter().any(|image| image.tag().as_str().contains("debian")));
}

#[test]
fn the_configured_namespace_completes_the_root() {
    let sources = vec![
        source("team/lib", "from: alpine\nrun: 'true'\n"),
        source("team/app", "from: team/lib\nrun: 'true'\n---\nfrom: team/lib\nrun: 'true'\n"),
    ];
    let result = plan("app", Some("team"), "", &sources);
    assert_eq!(tags(&result), vec!["team/lib", "team/app"]);
    assert_eq!(result.unwrap()[0].source_directory(), "team/lib");
}

#[test]
fn planning_is_repeatable() {
    let sources = vec![
        source("ns/app", "from: ns/b\nrun: x\n---\nfrom: ns/a\nrun: x\n"),
        source("ns/a", "from: ns/c\nrun: x\n"),
        source("ns/b", "from: ns/c\nrun: x\n"),
        source("ns/c", "from: scratch\nrun: x\n"),
    ];
    let first = plan("ns/app", None, "/i", &sources);
    let second = plan("ns/app", None, "/i", &sources);
    assert_eq!(first, second);
    assert_eq!(tags(&first), vec!["ns/c", "ns/a", "ns/b", "ns/app"]);
    let reversed: Vec<Source> =
        sources.iter().rev().map(|entry| source(&entry.tag, &entry.text)).collect();
    assert_eq!(plan("ns/app", None, "/i", &reversed), first);
}

#[test]
fn the_first_source_of_a_tag_is_used() {
    let sources = vec![
        source("ns/app", "from: one\nrun: x\n"),
        source("ns/app", "from: two\nrun: x\n"),
    ];
    let images = plan("ns/app", None, "/i", &sources).unwrap();
    assert_eq!(images.len(), 1);
    assert_eq!(images[0].source_images(), vec!["one"]);
}

#[test]
fn a_root_without_namespace_is_refused() {
    assert_eq!(
        plan("app", None, "/i", &Vec::new()),
        Err(PlanError::MissingNamespace("app".to_string()))
    );
}

#[test]
fn a_root_outside_the_namespace_is_refused() {
    assert_eq!(
        plan("other/app", Some("ns"), "/i", &Vec::new()),
        Err(PlanError::InvalidTagFormat("other/app".to_string()))
    );
    assert_eq!(
        plan("ns/a/b", None, "/i", &Vec::new()),
        Err(PlanError::InvalidTagFormat("ns/a/b".to_string()))
    );
}

#[test]
fn a_missing_definition_ends_the_planning() {
    let sources = vec![source("ns/app", "from: ns/base\nrun: x\n")];
    assert_eq!(
        plan("ns/app", None, "/i", &sources),
        Err(PlanError::DefinitionNotFound(vec![tag("app"), tag("base")]))
    );
    assert_eq!(
        plan("ns/app", None, "/i", &Vec::new()),
        Err(PlanError::DefinitionNotFound(vec![tag("app")]))
    );
}

#[test]
fn a_bad_description_ends_the_planning() {
    let sources = vec![
        source("ns/app", "from: ns/base\nrun: x\n"),
        source("ns/base", "from: debian\nrun: x\nports: [80]\n"),
    ];
    assert_eq!(
        plan("ns/app", None, "/i", &sources),
        Err(PlanError::Parse(
            vec![tag("app"), tag("base")],
            ParseError::UnknownField { stage: 0, name: "ports".to_string() }
        ))
    );
    let sources = vec![source("ns/app", "from: debian\n")];
    assert_eq!(
        plan("ns/app", None, "/i", &sources),
        Err(PlanError::Parse(
            vec![tag("app")],
            ParseError::MissingField { stage: 0, field: Field::Run }
        ))
    );
    let sources = vec![source("ns/app", "from: [debian\n")];
    assert!(matches!(
        plan("ns/app", None, "/i", &sources),
        Err(PlanError::Parse(_, ParseError::Syntax(_)))
    ));
}

#[test]
fn the_first_error_is_reported() {
    let sources = vec![
        source("ns/app", "from: ns/gone\nrun: x\n---\nfrom: ns/bad\nrun: x\n"),
        source("ns/bad", "nonsense"),
    ];
    assert_eq!(
        plan("ns/app", None, "/i", &sources),
        Err(PlanError::DefinitionNotFound(vec![tag("app"), tag("gone")]))
    );
}

#[test]
fn errors_hold_the_way_from_the_root() {
    let sources = vec![
        source("ns/app", "from: ns/web\nrun: x\n---\nfrom: ns/db\nrun: x\n"),
        source("ns/web", "from: ns/runtime\nrun: x\n"),
        source("ns/db", "from: ns/runtime\nrun: x\n---\nfrom: ns/store\nrun: x\n"),
        source("ns/runtime", "from: ns/core\nrun: x\n"),
        source("ns/store", "from: ns/core\nrun: x\n"),
    ];
    assert_eq!(
        plan("ns/app", None, "/i", &sources),
        Err(PlanError::DefinitionNotFound(vec![
            tag("app"),
            tag("web"),
            tag("runtime"),
            tag("core")
        ]))
    );
}

#[test]
fn a_cycle_ends_the_planning() {
    let sources = vec![
        source("ns/a", "from: ns/b\nrun: x\n"),
        source("ns/b", "from: ns/a\nrun: x\n"),
    ];
    assert_eq!(
        plan("ns/a", None, "/i", &sources),
        Err(PlanError::CycleDetected(vec![tag("a"), tag("b")]))
    );
    assert_eq!(
        plan("ns/b", None, "/i", &sources),
        Err(PlanError::CycleDetected(vec![tag("b"), tag("a")]))
    );
}

#[test]
fn unused_sources_are_never_read() {
    let sources = vec![
        source("ns/app", "from: debian\nrun: x\n"),
        source("ns/other", "this: [is: not, a description"),
    ];
    assert_eq!(tags(&plan("ns/app", None, "/i", &sources)), vec!["ns/app"]);
}
