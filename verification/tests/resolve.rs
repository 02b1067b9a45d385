use dkr::docker_image::{definition_path, join_path, DockerImage};
use dkr::dockerfile::Dockerfile;
use dkr::order::chars_precede;
use dkr::resolver::{CycleDetected, Discovery, DocumentSet};
use dkr::tag::Tag;

fn tag(name: &str) -> Tag {
    Tag::resolve(name, "ns").unwrap()
}

fn description(bases: &[&str]) -> Dockerfile {
    let source: Vec<String> =
        bases.iter().map(|base| format!("from: {}\nrun: echo {}\n", base, base)).collect();
    Dockerfile::parse(&source.join("---\n"), "ns").unwrap()
}

fn discover(root: &str, store: &[(&str, &[&str])]) -> Result<DocumentSet, String> {
    let mut discovery = Discovery::new(tag(root));
    let mut loads = 0;
    loop {
        let wanted = match discovery.pending() {
            Some(tag) => tag.as_str().to_string(),
            None => break,
        };
        match store.iter().find(|(name, _)| *name == wanted) {
            Some((_, bases)) => discovery = discovery.supply(description(bases)),
            None => return Err(wanted),
        }
        loads += 1;
        assert!(loads <= store.len(), "a description was asked for twice");
    }
    match discovery.finish() {
        Ok(set) => Ok(set),
        Err(_) => panic!("nothing was pending"),
    }
}

fn names(tags: &[Tag]) -> Vec<String> {
    tags.iter().map(|tag| tag.to_string()).collect()
}

fn order(root: &str, store: &[(&str, &[&str])]) -> Result<Vec<String>, Vec<String>> {
    match discover(root, store).unwrap().build_order() {
        Ok(tags) => Ok(names(&tags)),
        Err(cycle) => Err(names(&cycle.remaining)),
    }
}

#[test]
fn base_is_built_before_the_image() {
    let store: [(&str, &[&str]); 2] = [("ns/app", &["ns/base"]), ("ns/base", &["debian:stable"])];
    assert_eq!(order("ns/app", &store), Ok(vec!["ns/base".to_string(), "ns/app".to_string()]));
}

#[test]
fn opaque_bases_never_appear() {
    let store: [(&str, &[&str]); 2] = [("ns/app", &["ns/base"]), ("ns/base", &["debian:stable"])];
    let plan = order("ns/app", &store).unwrap();
    assert!(!plan.iter().any(|name| name.contains("debian")));
    assert_eq!(plan.len(), 2);
}

#[test]
fn a_single_image_is_its_own_plan() {
    let store: [(&str, &[&str]); 1] = [("ns/app", &["debian", "alpine"])];
    assert_eq!(order("ns/app", &store), Ok(vec!["ns/app".to_string()]));
}

#[test]
fn diamond_dependencies_are_built_once() {
    let store: [(&str, &[&str]); 4] = [
        ("ns/app", &["ns/right", "ns/left"]),
        ("ns/left", &["ns/base"]),
        ("ns/right", &["ns/base"]),
        ("ns/base", &["debian"]),
    ];
    assert_eq!(
        order("ns/app", &store),
        Ok(vec![
            "ns/base".to_string(),
            "ns/left".to_string(),
            "ns/right".to_string(),
            "ns/app".to_string()
        ])
    );
}

#[test]
fn ties_are_broken_by_tag_text() {
    let store: [(&str, &[&str]); 4] = [
        ("ns/app", &["ns/zeta", "ns/beta", "ns/alpha"]),
        ("ns/zeta", &["debian"]),
        ("ns/beta", &["debian"]),
        ("ns/alpha", &["debian"]),
    ];
    assert_eq!(
        order("ns/app", &store),
        Ok(vec![
            "ns/alpha".to_string(),
            "ns/beta".to_string(),
            "ns/zeta".to_string(),
            "ns/app".to_string()
        ])
    );
}

#[test]
fn the_order_does_not_depend_on_the_order_of_discovery() {
    let one: [(&str, &[&str]); 4] = [
        ("ns/app", &["ns/b", "ns/a"]),
        ("ns/a", &["ns/c"]),
        ("ns/b", &["ns/c"]),
        ("ns/c", &[]),
    ];
    let other: [(&str, &[&str]); 4] = [
        ("ns/app", &["ns/a", "debian", "ns/b"]),
        ("ns/a", &["ns/c"]),
        ("ns/b", &["debian", "ns/c"]),
        ("ns/c", &[]),
    ];
    let store_one: Vec<(&str, &[&str])> =
        one.iter().map(|(n, b)| (*n, if b.is_empty() { &["x"][..] } else { *b })).collect();
    let store_other: Vec<(&str, &[&str])> =
        other.iter().map(|(n, b)| (*n, if b.is_empty() { &["x"][..] } else { *b })).collect();
    assert_eq!(order("ns/app", &store_one), order("ns/app", &store_other));
}

#[test]
fn planning_twice_gives_the_same_plan() {
    let store: [(&str, &[&str]); 3] =
        [("ns/app", &["ns/lib", "ns/base"]), ("ns/lib", &["ns/base"]), ("ns/base", &["debian"])];
    let first = order("ns/app", &store);
    let second = order("ns/app", &store);
    assert_eq!(first, second);
    let set = discover("ns/app", &store).unwrap();
    assert_eq!(set.build_order(), set.build_order());
}

#[test]
fn every_dependency_comes_first_and_nothing_twice() {
    let store: [(&str, &[&str]); 6] = [
        ("ns/app", &["ns/web", "ns/db", "ns/tools"]),
        ("ns/web", &["ns/runtime", "ns/tools"]),
        ("ns/db", &["ns/runtime"]),
        ("ns/tools", &["ns/core"]),
        ("ns/runtime", &["ns/core"]),
        ("ns/core", &["debian"]),
    ];
    let plan = order("ns/app", &store).unwrap();
    assert_eq!(plan.len(), store.len());
    for (name, bases) in store.iter() {
        let place = plan.iter().position(|entry| entry == name).unwrap();
        assert_eq!(plan.iter().filter(|entry| entry == name).count(), 1);
        for base in bases.iter().filter(|base| base.starts_with("ns/")) {
            let before = plan.iter().position(|entry| entry == base).unwrap();
            assert!(before < place, "{} must come before {}", base, name);
        }
    }
    assert_eq!(plan.last().unwrap(), "ns/app");
    assert_eq!(
        plan,
        vec!["ns/core", "ns/runtime", "ns/db", "ns/tools", "ns/web", "ns/app"]
    );
}

#[test]
fn a_cycle_of_two_is_detected() {
    let store: [(&str, &[&str]); 2] = [("ns/a", &["ns/b"]), ("ns/b", &["ns/a"])];
    assert_eq!(order("ns/a", &store), Err(vec!["ns/a".to_string(), "ns/b".to_string()]));
}

#[test]
fn an_image_based_on_itself_is_a_cycle() {
    let store: [(&str, &[&str]); 1] = [("ns/a", &["ns/a"])];
    assert_eq!(order("ns/a", &store), Err(vec!["ns/a".to_string()]));
}

#[test]
fn a_cycle_reports_what_could_not_be_placed() {
    let store: [(&str, &[&str]); 5] = [
        ("ns/app", &["ns/x", "ns/free"]),
        ("ns/x", &["ns/y"]),
        ("ns/y", &["ns/z", "ns/free"]),
        ("ns/z", &["ns/x"]),
        ("ns/free", &["debian"]),
    ];
    let set = discover("ns/app", &store).unwrap();
    match set.build_order() {
        Err(CycleDetected { remaining }) => {
            assert_eq!(names(&remaining), vec!["ns/app", "ns/x", "ns/y", "ns/z"]);
        }
        Ok(plan) => panic!("a plan was made: {:?}", plan),
    }
    assert!(set.plan("/images").is_err());
}

#[test]
fn discovery_asks_for_each_description_once() {
    let mut discovery = Discovery::new(tag("app"));
    assert_eq!(discovery.pending().unwrap().as_str(), "ns/app");
    discovery = discovery.supply(description(&["ns/b", "debian", "ns/a", "ns/b"]));
    assert_eq!(discovery.pending().unwrap().as_str(), "ns/b");
    discovery = discovery.supply(description(&["ns/a", "ns/app"]));
    assert_eq!(discovery.pending().unwrap().as_str(), "ns/a");
    let discovery = match discovery.finish() {
        Err(discovery) => discovery,
        Ok(_) => panic!("a description is still wanted"),
    };
    let discovery = discovery.supply(description(&["alpine"]));
    assert!(discovery.pending().is_none());
    let discovery = discovery.supply(description(&["ns/late"]));
    assert!(discovery.pending().is_none());
    let set = match discovery.finish() {
        Ok(set) => set,
        Err(_) => panic!("nothing is wanted any more"),
    };
    assert_eq!(set.len(), 3);
    assert_eq!(set.get(0).unwrap().0.as_str(), "ns/app");
    assert_eq!(set.get(1).unwrap().0.as_str(), "ns/b");
    assert_eq!(set.get(2).unwrap().0.as_str(), "ns/a");
    assert_eq!(set.get(2).unwrap().1.from(), vec!["alpine"]);
    assert!(set.get(3).is_none());
}

#[test]
fn the_search_knows_its_way() {
    let mut discovery = Discovery::new(tag("app"));
    assert_eq!(names(&discovery.path()), vec!["ns/app"]);
    discovery = discovery.supply(description(&["ns/b", "ns/a"]));
    assert_eq!(names(&discovery.path()), vec!["ns/app", "ns/b"]);
    discovery = discovery.supply(description(&["ns/a", "ns/c"]));
    assert_eq!(names(&discovery.path()), vec!["ns/app", "ns/a"]);
    discovery = discovery.supply(description(&["ns/c", "ns/d"]));
    assert_eq!(names(&discovery.path()), vec!["ns/app", "ns/b", "ns/c"]);
    discovery = discovery.supply(description(&["debian"]));
    assert_eq!(names(&discovery.path()), vec!["ns/app", "ns/a", "ns/d"]);
    discovery = discovery.supply(description(&["debian"]));
    assert!(discovery.path().is_empty());
}

#[test]
fn a_missing_definition_stops_discovery() {
    let store: [(&str, &[&str]); 1] = [("ns/app", &["ns/gone"])];
    assert_eq!(discover("ns/app", &store).err(), Some("ns/gone".to_string()));
}

#[test]
fn the_plan_holds_text_and_directory() {
    let store: [(&str, &[&str]); 2] = [("ns/app", &["ns/base"]), ("ns/base", &["debian:stable"])];
    let set = discover("ns/app", &store).unwrap();
    let plan = set.plan("/images").unwrap();
    assert_eq!(plan.len(), 2);
    assert_eq!(plan[0].tag().as_str(), "ns/base");
    assert_eq!(plan[0].text(), "FROM debian:stable\nRUN echo debian:stable\n\n");
    assert_eq!(plan[0].source_directory(), "/images/ns/base");
    assert_eq!(plan[0].source_images(), vec!["debian:stable"]);
    assert_eq!(plan[1].tag().as_str(), "ns/app");
    assert_eq!(plan[1].text(), "FROM ns/base\nRUN echo ns/base\n\n");
    assert_eq!(plan[1].source_directory(), "/images/ns/app");
    assert_eq!(plan[1].dockerfile(), &description(&["ns/base"]));
    assert_eq!(
        plan[1].build("/tmp/x").arguments(),
        &vec!["build", "-t", "ns/app", "-f", "/tmp/x", "/images/ns/app"]
    );
}

#[test]
fn paths_are_joined_like_paths() {
    assert_eq!(join_path("/images", "ns"), "/images/ns");
    assert_eq!(join_path("/images/", "ns"), "/images/ns");
    assert_eq!(join_path("", "ns"), "ns");
    assert_eq!(join_path("/", "ns"), "/ns");
    assert_eq!(definition_path("base", &tag("app")), "base/ns/app/dockerfile.yml");
    let image = DockerImage::new("rel/", tag("app"), description(&["debian"]));
    assert_eq!(image.source_directory(), "rel/ns/app");
}

#[test]
fn texts_are_ordered_like_strings() {
    let cases = ["", "a", "ab", "b", "B", "a/b", "ä", "z", "ns/app", "ns/apple", "ns/b"];
    for left in cases {
        for right in cases {
            let a: Vec<char> = left.chars().collect();
            let b: Vec<char> = right.chars().collect();
            assert_eq!(chars_precede(&a, &b), left < right, "{:?} {:?}", left, right);
        }
    }
}
