use dkr::dockerfile::add_file::AddFile;
use dkr::dockerfile::copy_file::CopyFile;
use dkr::dockerfile::env::Env;
use dkr::dockerfile::packages::Packages;
use dkr::dockerfile::run_commands::RunCommands;
use dkr::dockerfile::single_or_multiple_items_visitor::SingleOrMultipleItemsVisitor;
use dkr::dockerfile::stage::Stage;
use dkr::dockerfile::{Dockerfile, ParseError};
use dkr::tag::Reference;
use dkr::text::{decimal_string, join};

fn strings(items: &[&str]) -> Vec<String> {
    items.iter().map(|item| item.to_string()).collect()
}

fn opaque(raw: &str) -> Reference {
    Reference::Opaque(raw.to_string())
}

fn install_text(packages: &str) -> String {
    format!(
        r#"RUN if [ "$UID" -eq 0 ]; then apt-get update -y; else sudo apt-get update -y; fi && if [ "$UID" -eq 0 ]; then \
                    apt-get install -y {packages}; \
                else \
                    sudo apt-get install -y {packages}; \
                fi
"#,
        packages = packages
    )
}

#[test]
fn add_file_is_one_declaration() {
    assert_eq!(AddFile::new("a", "b").to_string(), "ADD a b\n");
}

#[test]
fn copy_file_without_stage() {
    assert_eq!(CopyFile::new("src", "/dst", None).to_string(), "COPY src /dst\n");
}

#[test]
fn copy_file_names_its_stage() {
    assert_eq!(CopyFile::new("/out", "/bin", Some(0)).to_string(), "COPY --from=0 /out /bin\n");
    assert_eq!(CopyFile::new("/out", "/bin", Some(12)).to_string(), "COPY --from=12 /out /bin\n");
}

#[test]
fn decimal_numbers() {
    assert_eq!(decimal_string(0), "0");
    assert_eq!(decimal_string(7), "7");
    assert_eq!(decimal_string(10), "10");
    assert_eq!(decimal_string(9081726354), "9081726354");
    assert_eq!(decimal_string(usize::MAX), usize::MAX.to_string());
}

#[test]
fn joining_strings() {
    assert_eq!(join(&strings(&[]), ", "), "");
    assert_eq!(join(&strings(&["a"]), ", "), "a");
    assert_eq!(join(&strings(&["a", "b", "c"]), ", "), "a, b, c");
    assert_eq!(join(&strings(&["", ""]), "-"), "-");
}

#[test]
fn empty_package_list_refreshes_only() {
    let packages = Packages::new(Vec::new());
    assert_eq!(
        packages.to_string(),
        "RUN if [ \"$UID\" -eq 0 ]; then apt-get update -y; else sudo apt-get update -y; fi\n"
    );
    assert!(!packages.to_string().contains("install"));
}

#[test]
fn packages_are_refreshed_then_installed() {
    let packages = Packages::new(strings(&["curl", "git"]));
    let text = packages.to_string();
    assert_eq!(text, install_text("curl git"));
    let refresh = text.find("apt-get update -y").unwrap();
    let and = text.find(" && ").unwrap();
    let install = text.find("apt-get install -y curl git").unwrap();
    assert!(refresh < and && and < install);
    assert_eq!(text.matches("apt-get install -y curl git").count(), 2);
    assert_eq!(text.matches("[ \"$UID\" -eq 0 ]").count(), 2);
    assert_eq!(packages.len(), 2);
    assert_eq!(packages.get(1), Some("git"));
    assert_eq!(packages.get(2), None);
}

#[test]
fn run_commands_are_joined_by_and() {
    let run = RunCommands::new(strings(&["make", "make install", "make clean"])).unwrap();
    assert_eq!(run.to_string(), "RUN make && make install && make clean\n");
    assert_eq!(run.len(), 3);
    assert_eq!(run.get(0), Some("make"));
    assert_eq!(run.get(3), None);
}

#[test]
fn run_commands_cannot_be_empty() {
    assert_eq!(RunCommands::new(Vec::new()), None);
}

#[test]
fn single_command_is_a_sequence_of_one() {
    let single = RunCommands::single("echo hi");
    let sequence = RunCommands::new(strings(&["echo hi"])).unwrap();
    assert_eq!(single, sequence);
    assert_eq!(single.to_string(), "RUN echo hi\n");
    assert_eq!(single.to_string(), sequence.to_string());
}

#[test]
fn visitor_wraps_a_single_string() {
    assert_eq!(SingleOrMultipleItemsVisitor.visit_str("a b"), strings(&["a b"]));
    assert_eq!(SingleOrMultipleItemsVisitor.visit_string("x".to_string()), strings(&["x"]));
}

#[test]
fn env_keeps_insertion_order() {
    let mut env = Env::new();
    assert_eq!(env.to_string(), "");
    env.insert("ZED", "1");
    env.insert("ALPHA", "2");
    env.insert("MID", "3");
    assert_eq!(env.to_string(), "ENV ZED=1 ALPHA=2 MID=3\n");
    assert_eq!(env.len(), 3);
    assert_eq!(env.get(1), Some(("ALPHA", "2")));
    assert_eq!(env.get(3), None);
}

#[test]
fn env_replaces_in_place() {
    let mut env = Env::new();
    env.insert("A", "1");
    env.insert("B", "2");
    env.insert("A", "3");
    assert_eq!(env.to_string(), "ENV A=3 B=2\n");
    assert_eq!(env.len(), 2);
}

#[test]
fn minimal_stage() {
    let stage = Stage::new(opaque("debian:stable"), RunCommands::single("true"));
    assert_eq!(stage.to_string(), "FROM debian:stable\nRUN true\n");
    assert_eq!(stage.from(), "debian:stable");
}

fn full_stage() -> Stage {
    let mut stage = Stage::new(
        Reference::classify("ns/base", "ns").unwrap(),
        RunCommands::new(strings(&["make", "make install"])).unwrap(),
    );
    stage.workdir = Some("/work".to_string());
    stage.user = Some("builder".to_string());
    stage.add = vec![AddFile::new("a", "b"), AddFile::new("c", "d")];
    stage.copy = vec![CopyFile::new("e", "f", None), CopyFile::new("g", "h", Some(0))];
    stage.env.insert("K", "v");
    stage.env.insert("L", "w");
    stage.install = Some(Packages::new(strings(&["curl"])));
    stage.entrypoint = Some("/bin/app".to_string());
    stage.cmd = Some("--help".to_string());
    stage
}

#[test]
fn sections_come_in_their_fixed_order() {
    let expected = format!(
        "FROM ns/base\nWORKDIR /work\nUSER builder\nADD a b\nADD c d\nCOPY e f\nCOPY --from=0 g h\nENV K=v L=w\n{}RUN make && make install\nENTRYPOINT /bin/app\nCMD --help\n",
        install_text("curl")
    );
    assert_eq!(full_stage().to_string(), expected);
    assert_eq!(full_stage().from(), "ns/base");
}

#[test]
fn added_files_keep_their_order() {
    let text = full_stage().to_string();
    let first = text.find("ADD a b\n").unwrap();
    let second = text.find("ADD c d\n").unwrap();
    assert!(first + "ADD a b\n".len() <= second);
    let swapped = {
        let mut stage = full_stage();
        stage.add = vec![AddFile::new("c", "d"), AddFile::new("a", "b")];
        stage.to_string()
    };
    assert!(swapped.find("ADD c d\n").unwrap() < swapped.find("ADD a b\n").unwrap());
}

#[test]
fn rendering_is_repeatable() {
    assert_eq!(full_stage().to_string(), full_stage().to_string());
    assert_eq!(full_stage().clone().to_string(), full_stage().to_string());
    assert_eq!(full_stage().clone(), full_stage());
}

#[test]
fn stages_are_followed_by_an_empty_line() {
    let first = Stage::new(opaque("rust"), RunCommands::single("cargo build"));
    let mut second = Stage::new(opaque("debian"), RunCommands::single("true"));
    second.copy = vec![CopyFile::new("/app", "/app", Some(0))];
    let dockerfile = Dockerfile::new(vec![first, second]).unwrap();
    assert_eq!(
        dockerfile.to_string(),
        "FROM rust\nRUN cargo build\n\nFROM debian\nCOPY --from=0 /app /app\nRUN true\n\n"
    );
    assert_eq!(dockerfile.from(), vec!["rust", "debian"]);
    assert_eq!(dockerfile.len(), 2);
    assert_eq!(dockerfile.stage(1).unwrap().from(), "debian");
    assert!(dockerfile.stage(2).is_none());
    assert_eq!(dockerfile.clone(), dockerfile);
}

#[test]
fn a_description_needs_a_stage() {
    assert_eq!(Dockerfile::new(Vec::new()), Err(ParseError::NoStages));
}

#[test]
fn a_copy_entry_must_name_an_earlier_stage() {
    let mut only = Stage::new(opaque("debian"), RunCommands::single("true"));
    only.copy = vec![CopyFile::new("a", "b", None), CopyFile::new("a", "b", Some(0))];
    assert_eq!(
        Dockerfile::new(vec![only]),
        Err(ParseError::InvalidStageReference { stage: 0, entry: 1 })
    );
    let first = Stage::new(opaque("debian"), RunCommands::single("true"));
    let mut second = Stage::new(opaque("debian"), RunCommands::single("true"));
    second.copy = vec![CopyFile::new("a", "b", Some(1))];
    assert_eq!(
        Dockerfile::new(vec![first, second]),
        Err(ParseError::InvalidStageReference { stage: 1, entry: 0 })
    );
}
