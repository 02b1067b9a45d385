use dkr::arguments::{config_volume_exists, run_in_container, Arguments};
use dkr::commands::{Build, Clean, Commands, New, Run};
use dkr::config::Config;
use dkr::docker::{run, volume, DockerCommand, DockerRun, DockerVolume};
use dkr::docker_environment::{DockerEnvironment, SharedVolume};
use dkr::split::split_chars;
use dkr::tag::TagError;

fn chars(text: &str) -> Vec<char> {
    text.chars().collect()
}

#[test]
fn commands_collect_arguments() {
    let mut command = DockerCommand::new();
    assert!(command.arguments().is_empty());
    command.append("a").append("b c");
    command.append("");
    assert_eq!(command.arguments(), &vec!["a", "b c", ""]);
}

#[test]
fn run_puts_the_image_behind_the_options() {
    let mut command = run("debian");
    command.temporary().interactive();
    assert_eq!(command.run().arguments(), &vec!["run", "--rm", "-it", "debian"]);
    assert_eq!(DockerRun::new("x").run().arguments(), &vec!["run", "x"]);
}

#[test]
fn run_options() {
    let mut command = DockerRun::new("img");
    command.volume("data", "/data").read_only_volume("/etc/conf", "/conf").env("KEY", "value");
    assert_eq!(
        command.run().arguments(),
        &vec!["run", "-v", "data:/data", "-v", "/etc/conf:/conf:ro", "-e", "KEY=value", "img"]
    );
}

#[test]
fn run_a_shell_command() {
    let mut command = DockerRun::new("img");
    command.temporary();
    assert_eq!(
        command.run_shell_command("echo a && echo b").arguments(),
        &vec!["run", "--rm", "img", "sh", "-c", "echo a && echo b"]
    );
}

#[test]
fn volume_commands() {
    assert_eq!(volume().inspect("data").arguments(), &vec!["volume", "inspect", "data"]);
    assert_eq!(
        DockerVolume::new().create("data").arguments(),
        &vec!["volume", "create", "--name", "data"]
    );
}

fn environment(project_path: Option<&str>) -> DockerEnvironment {
    DockerEnvironment::new(
        "rust-env".to_string(),
        "cargo init --name $NAME".to_string(),
        project_path.map(|path| path.to_string()),
        vec![SharedVolume::new("cargo-cache", "/root/.cargo"), SharedVolume::new("ssh", "/root/.ssh")],
    )
}

#[test]
fn shared_volumes_have_a_name_and_a_place() {
    let shared = SharedVolume::new("cache", "/var/cache");
    assert_eq!(shared.name(), "cache");
    assert_eq!(shared.at(), "/var/cache");
}

#[test]
fn environments_set_projects_up() {
    assert_eq!(
        environment(None).initialize("demo").arguments(),
        &vec![
            "run",
            "--rm",
            "-v",
            "demo:/project",
            "-e",
            "NAME=demo",
            "-v",
            "cargo-cache:/root/.cargo",
            "-v",
            "ssh:/root/.ssh",
            "rust-env",
            "sh",
            "-c",
            "cargo init --name $NAME"
        ]
    );
}

#[test]
fn environments_open_projects() {
    assert_eq!(
        environment(Some("/work")).run("demo").arguments(),
        &vec![
            "run",
            "--rm",
            "-it",
            "-v",
            "demo:/work",
            "-v",
            "cargo-cache:/root/.cargo",
            "-v",
            "ssh:/root/.ssh",
            "rust-env"
        ]
    );
    assert_eq!(environment(Some("/work")).project_path(), "/work");
    assert_eq!(environment(None).project_path(), "/project");
}

#[test]
fn the_run_command_opens_a_project() {
    let command = Run::new("rust".to_string(), "demo".to_string());
    assert_eq!(command.environment(), "rust");
    assert_eq!(command.to_string(), "run rust demo");
    assert_eq!(command.run(&environment(None)), environment(None).run("demo"));
}

#[test]
fn the_new_command_creates_a_volume_and_sets_up() {
    let command = New::new("rust".to_string(), "demo".to_string());
    assert_eq!(command.environment(), "rust");
    assert_eq!(command.to_string(), "new rust demo");
    let (create, initialize) = command.run(&environment(None));
    assert_eq!(create.arguments(), &vec!["volume", "create", "--name", "demo"]);
    assert_eq!(initialize, environment(None).initialize("demo"));
}

#[test]
fn the_build_command_as_text() {
    assert_eq!(Build::new(None, "ns/app".to_string()).to_string(), "build ns/app");
    assert_eq!(
        Build::new(Some("/images".to_string()), "app".to_string()).to_string(),
        "build -d /images app"
    );
}

#[test]
fn the_images_directory_is_chosen() {
    let configured = Config { tag_namespace: None, images_dir: Some("/configured".to_string()) };
    let given = Build::new(Some("/given".to_string()), "ns/app".to_string());
    let plain = Build::new(None, "ns/app".to_string());
    assert_eq!(given.images_dir(&configured), "/given");
    assert_eq!(plain.images_dir(&configured), "/configured");
    assert_eq!(plain.images_dir(&Config::default()), "/project");
    assert_eq!(Config::default(), Config { tag_namespace: None, images_dir: None });
}

#[test]
fn a_build_starts_at_the_root() {
    let start = Build::new(None, "ns/app".to_string()).run(&Config::default()).unwrap();
    assert_eq!(start.namespace, "ns");
    assert_eq!(start.images_dir, "/project");
    assert_eq!(start.discovery.pending().unwrap().as_str(), "ns/app");

    let config = Config { tag_namespace: Some("team".to_string()), images_dir: None };
    let start = Build::new(None, "app".to_string()).run(&config).unwrap();
    assert_eq!(start.namespace, "team");
    assert_eq!(start.discovery.pending().unwrap().as_str(), "team/app");
}

#[test]
fn a_build_needs_a_namespace_and_a_tag_in_it() {
    assert_eq!(
        Build::new(None, "app".to_string()).run(&Config::default()).err(),
        Some(TagError::MissingNamespace("app".to_string()))
    );
    let config = Config { tag_namespace: Some("team".to_string()), images_dir: None };
    assert_eq!(
        Build::new(None, "other/app".to_string()).run(&config).err(),
        Some(TagError::InvalidTagFormat("other/app".to_string()))
    );
}

#[test]
fn arguments_as_text() {
    let build = Commands::Build(Build::new(Some("/i".to_string()), "ns/app".to_string()));
    assert_eq!(Arguments::new(false, build).to_string(), "build -d /i ns/app");
    let run = Commands::Run(Run::new("rust".to_string(), "demo".to_string()));
    let arguments = Arguments::new(true, run);
    assert_eq!(arguments.to_string(), "--disable-config-volume run rust demo");
    assert!(!arguments.is_config_volume_enabled());
    assert_eq!(arguments.command().to_string(), "run rust demo");
    assert_eq!(Commands::Clean(Clean::new()).to_string(), "clean");
    let new = Commands::New(New::new("rust".to_string(), "demo".to_string()));
    assert!(Arguments::new(false, new).is_config_volume_enabled());
}

#[test]
fn the_tool_runs_in_its_own_container() {
    let arguments =
        Arguments::new(false, Commands::Build(Build::new(None, "ns/app".to_string())));
    assert_eq!(
        run_in_container(&arguments).arguments(),
        &vec![
            "run",
            "--rm",
            "-v",
            "dkr-config:/root/.config/dkr:ro",
            "-v",
            "/var/run/docker.sock:/var/run/docker.sock",
            "dkr",
            "sh",
            "-c",
            "dkr --disable-config-volume build ns/app"
        ]
    );
    assert_eq!(config_volume_exists().arguments(), &vec!["volume", "inspect", "dkr-config"]);
}

#[test]
fn dangling_images_are_removed() {
    let output = "\
REPOSITORY          TAG                 IMAGE ID            CREATED             SIZE
ns/app              latest              0123456789ab        2 hours ago         120MB
<none>              <none>              aaaaaaaaaaaa        3 hours ago         110MB
debian              <none>              bbbbbbbbbbbb        3 days ago          100MB
<none>              stable              cccccccccccc        3 days ago          100MB
<none>              <none>              dddddddddddd        4 weeks ago         90MB
";
    assert_eq!(Clean::new().list().arguments(), &vec!["images"]);
    assert_eq!(
        Clean::new().run(output).arguments(),
        &vec!["rmi", "aaaaaaaaaaaa", "dddddddddddd"]
    );
}

#[test]
fn the_heading_is_never_an_image() {
    assert_eq!(Clean::new().run("<none> <none> abc\n").arguments(), &vec!["rmi"]);
    assert_eq!(Clean::new().run("").arguments(), &vec!["rmi"]);
    assert_eq!(Clean::new().run("\n").arguments(), &vec!["rmi"]);
    assert_eq!(
        Clean::new().run("heading\n<none> <none> abc").arguments(),
        &vec!["rmi", "abc"]
    );
}

#[test]
fn lines_may_end_in_carriage_returns() {
    assert_eq!(
        Clean::new().run("heading\r\n<none> <none> abc\r\n  <none>   <none>   def  \r\n<none> <none>\r\n").arguments(),
        &vec!["rmi", "abc", "def"]
    );
}

#[test]
fn text_is_split_at_every_separator() {
    let pieces = split_chars(&chars("a,,b,"), ',');
    assert_eq!(pieces, vec![chars("a"), chars(""), chars("b"), chars("")]);
    assert_eq!(split_chars(&chars(""), ','), vec![chars("")]);
    assert_eq!(split_chars(&chars("abc"), ','), vec![chars("abc")]);
}
