use agito::command::{classify, ExecCommand, Verb};
use agito::dispatch::{
    exit_status, on_new_repository_checked, on_repository_checked, on_repository_initialised,
    on_spawn_failed, plan_exec, Step,
};
use agito::git::create_remote_request;

fn reply(message: &str, exit_code: u32) -> Step {
    Step::Reply { message: message.to_string(), exit_code }
}

#[test]
fn upload_pack_on_existing_repository_spawns() {
    let step = plan_exec("git-upload-pack 'myrepo.git'", "/srv/repos");
    assert_eq!(
        step,
        Step::CheckRepository {
            program: "git-upload-pack".to_string(),
            path: "/srv/repos/myrepo.git".to_string(),
            reference: "myrepo.git".to_string(),
        }
    );
    let next = on_repository_checked(
        "git-upload-pack".to_string(),
        "/srv/repos/myrepo.git".to_string(),
        "myrepo.git".to_string(),
        true,
    );
    assert_eq!(
        next,
        Step::Spawn {
            program: "git-upload-pack".to_string(),
            path: "/srv/repos/myrepo.git".to_string(),
        }
    );
    assert_eq!(exit_status(Some(0)), 0);
}

#[test]
fn receive_pack_with_double_quotes_and_leading_slash() {
    let step = plan_exec("git-receive-pack \"/team/app.git\"", "/srv/repos/");
    assert_eq!(
        step,
        Step::CheckRepository {
            program: "git-receive-pack".to_string(),
            path: "/srv/repos/team/app.git".to_string(),
            reference: "team/app.git".to_string(),
        }
    );
}

#[test]
fn missing_repository_is_reported() {
    let next = on_repository_checked(
        "git-upload-pack".to_string(),
        "/srv/repos/nope.git".to_string(),
        "nope.git".to_string(),
        false,
    );
    assert_eq!(next, reply("Repository not found: nope.git\n", 1));
}

#[test]
fn create_repository_demo() {
    let step = plan_exec("agito-create-repo demo", "/srv/repos");
    assert_eq!(
        step,
        Step::CheckNewRepository {
            name: "demo.git".to_string(),
            path: "/srv/repos/demo.git".to_string(),
        }
    );
    let next = on_new_repository_checked(
        "demo.git".to_string(),
        "/srv/repos/demo.git".to_string(),
        false,
    );
    assert_eq!(
        next,
        Step::InitRepository {
            name: "demo.git".to_string(),
            path: "/srv/repos/demo.git".to_string(),
        }
    );
    assert_eq!(
        on_repository_initialised("demo.git", None),
        reply("Repository created: demo.git\n", 0)
    );
}

#[test]
fn create_repository_demo_again_conflicts() {
    let step = plan_exec("agito-create-repo demo", "/srv/repos");
    assert_eq!(
        step,
        Step::CheckNewRepository {
            name: "demo.git".to_string(),
            path: "/srv/repos/demo.git".to_string(),
        }
    );
    let next = on_new_repository_checked(
        "demo.git".to_string(),
        "/srv/repos/demo.git".to_string(),
        true,
    );
    assert_eq!(next, reply("Repository already exists: demo.git\n", 1));
}

#[test]
fn create_foo_and_foo_git_name_the_same_repository() {
    let a = plan_exec("agito-create-repo foo", "/r");
    let b = plan_exec("agito-create-repo foo.git", "/r");
    assert_eq!(a, b);
    assert_eq!(
        a,
        Step::CheckNewRepository { name: "foo.git".to_string(), path: "/r/foo.git".to_string() }
    );
}

#[test]
fn unknown_command_is_refused() {
    assert_eq!(plan_exec("rm -rf /", "/srv/repos"), reply("Unknown command: rm -rf /\n", 1));
}

#[test]
fn empty_command_is_refused() {
    assert_eq!(plan_exec("", "/srv/repos"), reply("Unknown command: \n", 1));
}

#[test]
fn escaping_reference_is_refused() {
    assert_eq!(
        plan_exec("git-upload-pack '../secret'", "/srv/repos"),
        reply("Invalid repository path\n", 1)
    );
    assert_eq!(
        plan_exec("git-receive-pack 'a/../../etc'", "/srv/repos"),
        reply("Invalid repository path\n", 1)
    );
}

#[test]
fn pack_command_without_path_is_refused() {
    assert_eq!(plan_exec("git-upload-pack", "/srv"), reply("Invalid git command\n", 1));
    assert_eq!(plan_exec("  git-receive-pack   ", "/srv"), reply("Invalid git command\n", 1));
}

#[test]
fn create_without_name_shows_usage() {
    assert_eq!(
        plan_exec("agito-create-repo", "/srv"),
        reply("Usage: agito-create-repo <repo-name>\n", 1)
    );
}

#[test]
fn create_with_invalid_name_is_refused() {
    assert_eq!(
        plan_exec("agito-create-repo a/b", "/srv"),
        reply("Invalid repository name\n", 1)
    );
    assert_eq!(
        plan_exec("agito-create-repo ..x", "/srv"),
        reply("Invalid repository name\n", 1)
    );
}

#[test]
fn failed_initialisation_is_reported() {
    assert_eq!(
        on_repository_initialised("demo.git", Some("disk full".to_string())),
        reply("Failed to create repository: disk full\n", 1)
    );
}

#[test]
fn spawn_failure_becomes_exit_one() {
    assert_eq!(
        on_spawn_failed("git-upload-pack"),
        reply("Failed to start git-upload-pack\n", 1)
    );
}

#[test]
fn exit_status_defaults_to_one() {
    assert_eq!(exit_status(None), 1);
    assert_eq!(exit_status(Some(128)), 128);
}

#[test]
fn classify_by_first_word() {
    assert_eq!(
        classify("git-upload-pack\t'x.git' extra"),
        ExecCommand::Run { verb: Verb::UploadPack, argument: "'x.git'".to_string() }
    );
    assert_eq!(
        classify("agito-create-repo"),
        ExecCommand::MissingArgument { verb: Verb::CreateRepo }
    );
    assert_eq!(classify("git-upload-packx repo"), ExecCommand::Unrecognized);
}

#[test]
fn remote_request_with_port() {
    let r = create_remote_request("example.org:2222", "git", "proj");
    assert_eq!(r.host, "example.org");
    assert_eq!(r.port, "2222");
    assert_eq!(r.destination, "git@example.org");
    assert_eq!(r.command, "agito-create-repo proj.git");
}

#[test]
fn remote_request_default_port() {
    let r = create_remote_request("localhost", "alice", "proj.git");
    assert_eq!(r.host, "localhost");
    assert_eq!(r.port, "22");
    assert_eq!(r.destination, "alice@localhost");
    assert_eq!(r.command, "agito-create-repo proj.git");
}

#[test]
fn second_command_on_a_channel_is_refused() {
    assert_eq!(
        agito::dispatch::on_repeated_exec(),
        reply("A command was already given on this channel\n", 1)
    );
}
