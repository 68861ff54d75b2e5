//! What a channel does with an exec request. Each stage that needs the file system or
//! a process ends in a step that names the work; the caller does it and hands the
//! result to the next decision.
use crate::command::{
    classify, command_verb, second_word, verb_program, verb_text, ExecCommand, Verb,
};
use crate::path_guard::{
    confined, dot_segment_in, join_path, join_below, new_repo_name, relative_part, repo_reference,
    validate_new_repo_name, with_git_suffix, has_parent_segment, lemma_new_name_idempotent,
    lemma_parent_reference_refused,
};
use vstd::prelude::*;

verus! {

/// The next thing to do on a channel that received an exec request.
#[derive(PartialEq, Eq, Debug, Clone)]
pub enum Step {
    /// Send `message` as channel data, report `exit_code`, then end and close the channel.
    Reply { message: String, exit_code: u32 },
    /// See whether the repository at `path` exists (`reference` is how the client named it).
    CheckRepository { program: String, path: String, reference: String },
    /// See whether anything exists at `path`, where repository `name` is to be created.
    CheckNewRepository { name: String, path: String },
    /// Start `program` with `path` as its argument and bridge it to the channel.
    Spawn { program: String, path: String },
    /// Initialise a bare repository `name` at `path`.
    InitRepository { name: String, path: String },
}

pub enum StepView {
    Reply { message: Seq<char>, exit_code: u32 },
    CheckRepository { program: Seq<char>, path: Seq<char>, reference: Seq<char> },
    CheckNewRepository { name: Seq<char>, path: Seq<char> },
    Spawn { program: Seq<char>, path: Seq<char> },
    InitRepository { name: Seq<char>, path: Seq<char> },
}

impl View for Step {
    type V = StepView;

    open spec fn view(&self) -> StepView {
        match self {
            Step::Reply { message, exit_code } => StepView::Reply {
                message: message@,
                exit_code: *exit_code,
            },
            Step::CheckRepository { program, path, reference } => StepView::CheckRepository {
                program: program@,
                path: path@,
                reference: reference@,
            },
            Step::CheckNewRepository { name, path } => StepView::CheckNewRepository {
                name: name@,
                path: path@,
            },
            Step::Spawn { program, path } => StepView::Spawn { program: program@, path: path@ },
            Step::InitRepository { name, path } => StepView::InitRepository {
                name: name@,
                path: path@,
            },
        }
    }
}

pub open spec fn reply(message: Seq<char>, exit_code: u32) -> StepView {
    StepView::Reply { message, exit_code }
}

pub open spec fn line(prefix: Seq<char>, text: Seq<char>) -> Seq<char> {
    prefix + text + "\n"@
}

/// The first decision on an exec request `command`, for repositories under `root`.
pub open spec fn plan_of(command: Seq<char>, root: Seq<char>) -> StepView {
    match command_verb(command) {
        None => reply(line("Unknown command: "@, command), 1),
        Some(v) => match second_word(command) {
            None => if v == Verb::CreateRepo {
                reply("Usage: agito-create-repo <repo-name>\n"@, 1)
            } else {
                reply("Invalid git command\n"@, 1)
            },
            Some(arg) => if v == Verb::CreateRepo {
                match new_repo_name(arg) {
                    Ok(n) => StepView::CheckNewRepository { name: n, path: join_path(root, n) },
                    Err(_) => reply("Invalid repository name\n"@, 1),
                }
            } else {
                let rel = relative_part(arg);
                if confined(rel) {
                    StepView::CheckRepository {
                        program: verb_text(v),
                        path: join_path(root, rel),
                        reference: rel,
                    }
                } else {
                    reply("Invalid repository path\n"@, 1)
                }
            },
        },
    }
}

/// The decision once it is known whether the repository to serve exists.
pub open spec fn repository_checked(
    program: Seq<char>,
    path: Seq<char>,
    reference: Seq<char>,
    exists: bool,
) -> StepView {
    if exists {
        StepView::Spawn { program, path }
    } else {
        reply(line("Repository not found: "@, reference), 1)
    }
}

/// The decision once it is known whether the path of a new repository is taken.
pub open spec fn new_repository_checked(name: Seq<char>, path: Seq<char>, exists: bool) -> StepView {
    if exists {
        reply(line("Repository already exists: "@, name), 1)
    } else {
        StepView::InitRepository { name, path }
    }
}

/// The reply once initialisation of repository `name` succeeded or failed with `error`.
pub open spec fn repository_initialised(name: Seq<char>, error: Option<Seq<char>>) -> StepView {
    match error {
        None => reply(line("Repository created: "@, name), 0),
        Some(e) => reply(line("Failed to create repository: "@, e), 1),
    }
}

fn message_line(prefix: &str, text: &str) -> (r: String)
    ensures
        r@ == line(prefix@, text@),
{
    let mut m = String::from_str(prefix);
    m.append(text);
    m.append("\n");
    m
}

fn reply_with(message: &str, exit_code: u32) -> (r: Step)
    ensures
        r@ == reply(message@, exit_code),
{
    Step::Reply { message: String::from_str(message), exit_code }
}

/// Decides what to do with exec request `command` for repositories under `root`: a
/// diagnostic reply for an unknown or malformed command, a reference outside the root
/// or an invalid new name, and otherwise the existence check that comes next. No path
/// is handed on that is not confined below `root`.
pub fn plan_exec(command: &str, root: &str) -> (r: Step)
    ensures
        r@ == plan_of(command@, root@),
{
    match classify(command) {
        ExecCommand::Unrecognized => Step::Reply {
            message: message_line("Unknown command: ", command),
            exit_code: 1,
        },
        ExecCommand::MissingArgument { verb } => {
            if verb == Verb::CreateRepo {
                reply_with("Usage: agito-create-repo <repo-name>\n", 1)
            } else {
                reply_with("Invalid git command\n", 1)
            }
        },
        ExecCommand::Run { verb, argument } => {
            if verb == Verb::CreateRepo {
                match validate_new_repo_name(argument.as_str()) {
                    Ok(name) => {
                        let path = join_below(root, name.as_str());
                        Step::CheckNewRepository { name, path }
                    },
                    Err(_) => reply_with("Invalid repository name\n", 1),
                }
            } else {
                let rel = repo_reference(argument.as_str());
                if rel.unicode_len() == 0 || dot_segment_in(rel) {
                    reply_with("Invalid repository path\n", 1)
                } else {
                    Step::CheckRepository {
                        program: String::from_str(verb_program(verb)),
                        path: join_below(root, rel),
                        reference: String::from_str(rel),
                    }
                }
            }
        },
    }
}

/// Decides, once it is known whether the repository at `path` exists, between
/// starting `program` on it and reporting it missing.
pub fn on_repository_checked(program: String, path: String, reference: String, exists: bool) -> (r:
    Step)
    ensures
        r@ == repository_checked(program@, path@, reference@, exists),
{
    if exists {
        Step::Spawn { program, path }
    } else {
        Step::Reply {
            message: message_line("Repository not found: ", reference.as_str()),
            exit_code: 1,
        }
    }
}

/// Decides, once it is known whether the path of new repository `name` is taken,
/// between creating it and reporting the conflict.
pub fn on_new_repository_checked(name: String, path: String, exists: bool) -> (r: Step)
    ensures
        r@ == new_repository_checked(name@, path@, exists),
{
    if exists {
        Step::Reply {
            message: message_line("Repository already exists: ", name.as_str()),
            exit_code: 1,
        }
    } else {
        Step::InitRepository { name, path }
    }
}

/// The reply once initialising repository `name` has succeeded, or failed with `error`.
pub fn on_repository_initialised(name: &str, error: Option<String>) -> (r: Step)
    ensures
        r@ == repository_initialised(
            name@,
            match error {
                Some(e) => Some(e@),
                None => None,
            },
        ),
{
    match error {
        None => Step::Reply { message: message_line("Repository created: ", name), exit_code: 0 },
        Some(e) => Step::Reply {
            message: message_line("Failed to create repository: ", e.as_str()),
            exit_code: 1,
        },
    }
}

/// The reply when `program` could not be started: the channel fails with exit code 1
/// like every other refused request.
pub fn on_spawn_failed(program: &str) -> (r: Step)
    ensures
        r@ == reply(line("Failed to start "@, program@), 1),
{
    Step::Reply { message: message_line("Failed to start ", program), exit_code: 1 }
}

/// The reply to a second exec request on a channel that already has a command.
pub fn on_repeated_exec() -> (r: Step)
    ensures
        r@ == reply("A command was already given on this channel\n"@, 1),
{
    reply_with("A command was already given on this channel\n", 1)
}

/// The exit status reported for a finished process: its exit code, or 1 where it has
/// none (it was ended by a signal, or waiting for it failed).
pub fn exit_status(code: Option<i32>) -> (r: u32)
    ensures
        r == match code {
            Some(c) => c as u32,
            None => 1u32,
        },
{
    match code {
        Some(c) => c as u32,
        None => 1,
    }
}

/// The whole reply to a creation request for `name` under `root`, where the paths in
/// `existing` are taken and initialisation succeeds.
pub open spec fn create_reply(existing: Set<Seq<char>>, root: Seq<char>, name: Seq<char>) -> StepView {
    match new_repo_name(name) {
        Err(_) => reply("Invalid repository name\n"@, 1),
        Ok(n) => match new_repository_checked(n, join_path(root, n), existing.contains(join_path(root, n))) {
            StepView::InitRepository { name, .. } => repository_initialised(name, None),
            other => other,
        },
    }
}

/// The paths that are taken after a creation request for `name` under `root`.
pub open spec fn after_create(existing: Set<Seq<char>>, root: Seq<char>, name: Seq<char>) -> Set<Seq<char>> {
    match new_repo_name(name) {
        Ok(n) => existing.insert(join_path(root, n)),
        Err(_) => existing,
    }
}

/// Once `name` has been created, asking to create `name` again, or `name` with `.git`
/// appended, meets the existing repository.
pub proof fn lemma_create_twice_conflicts(existing: Set<Seq<char>>, root: Seq<char>, name: Seq<char>)
    requires
        new_repo_name(name) is Ok,
    ensures
        ({
            let n = new_repo_name(name)->Ok_0;
            let later = after_create(existing, root, name);
            &&& create_reply(later, root, name) == reply(line("Repository already exists: "@, n), 1)
            &&& create_reply(later, root, with_git_suffix(name)) == reply(
                line("Repository already exists: "@, n),
                1,
            )
        }),
{
    lemma_new_name_idempotent(name);
}

/// A pack command whose repository reference has a `..` segment is answered with a
/// refusal at once: no existence check on any path is asked for.
pub proof fn lemma_escaping_reference_refused(command: Seq<char>, root: Seq<char>)
    requires
        command_verb(command) == Some(Verb::UploadPack) || command_verb(command) == Some(
            Verb::ReceivePack,
        ),
        second_word(command) matches Some(arg) && has_parent_segment(relative_part(arg)),
    ensures
        plan_of(command, root) == reply("Invalid repository path\n"@, 1),
{
    let arg = second_word(command)->Some_0;
    lemma_parent_reference_refused(arg, root);
}

} // verus!
