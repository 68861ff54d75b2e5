//! Classification of the command string of an exec request.
use crate::text::{next_token, next_token_at, lemma_next_token_bounds};
use vstd::prelude::*;

verus! {

/// The commands this server carries out.
#[derive(PartialEq, Eq, Structural, Debug, Clone, Copy)]
pub enum Verb {
    /// `git-upload-pack <repository>`: a fetch.
    UploadPack,
    /// `git-receive-pack <repository>`: a push.
    ReceivePack,
    /// `agito-create-repo <name>`: creation of a bare repository.
    CreateRepo,
}

/// An exec request's command, by its first two whitespace-delimited words.
#[derive(PartialEq, Eq, Debug, Clone)]
pub enum ExecCommand {
    /// A known verb with its argument.
    Run { verb: Verb, argument: String },
    /// A known verb given without an argument.
    MissingArgument { verb: Verb },
    /// Anything else.
    Unrecognized,
}

pub open spec fn verb_text(v: Verb) -> Seq<char> {
    match v {
        Verb::UploadPack => "git-upload-pack"@,
        Verb::ReceivePack => "git-receive-pack"@,
        Verb::CreateRepo => "agito-create-repo"@,
    }
}

/// The verb that a word names, if any.
pub open spec fn verb_named(w: Seq<char>) -> Option<Verb> {
    if w == verb_text(Verb::UploadPack) {
        Some(Verb::UploadPack)
    } else if w == verb_text(Verb::ReceivePack) {
        Some(Verb::ReceivePack)
    } else if w == verb_text(Verb::CreateRepo) {
        Some(Verb::CreateRepo)
    } else {
        None
    }
}

pub open spec fn first_word(s: Seq<char>) -> Option<Seq<char>> {
    match next_token(s, 0) {
        Some((a, b)) => Some(s.subrange(a, b)),
        None => None,
    }
}

pub open spec fn second_word(s: Seq<char>) -> Option<Seq<char>> {
    match next_token(s, 0) {
        Some((a, b)) => match next_token(s, b) {
            Some((c, d)) => Some(s.subrange(c, d)),
            None => None,
        },
        None => None,
    }
}

/// The verb of a command string, if its first word is one.
pub open spec fn command_verb(s: Seq<char>) -> Option<Verb> {
    match first_word(s) {
        Some(w) => verb_named(w),
        None => None,
    }
}

/// Tells whether two strings hold the same characters.
pub fn same_text(a: &str, b: &str) -> (r: bool)
    ensures
        r == (a@ == b@),
{
    let n = a.unicode_len();
    if n != b.unicode_len() {
        return false;
    }
    let mut i: usize = 0;
    while i < n
        invariant
            n == a@.len(),
            n == b@.len(),
            i <= n,
            forall|k: int| 0 <= k < i ==> a@[k] == b@[k],
        decreases n - i,
    {
        if a.get_char(i) != b.get_char(i) {
            return false;
        }
        i = i + 1;
    }
    assert(a@ =~= b@);
    true
}

/// The program that a verb runs, or the name it is given by.
pub fn verb_program(v: Verb) -> (r: &'static str)
    ensures
        r@ == verb_text(v),
{
    match v {
        Verb::UploadPack => "git-upload-pack",
        Verb::ReceivePack => "git-receive-pack",
        Verb::CreateRepo => "agito-create-repo",
    }
}

/// The verb that a word names, if any.
pub fn parse_verb(w: &str) -> (r: Option<Verb>)
    ensures
        r == verb_named(w@),
{
    if same_text(w, verb_program(Verb::UploadPack)) {
        Some(Verb::UploadPack)
    } else if same_text(w, verb_program(Verb::ReceivePack)) {
        Some(Verb::ReceivePack)
    } else if same_text(w, verb_program(Verb::CreateRepo)) {
        Some(Verb::CreateRepo)
    } else {
        None
    }
}

/// Classifies an exec request by its first whitespace-delimited word and takes the
/// second as the argument.
pub fn classify(command: &str) -> (r: ExecCommand)
    ensures
        match r {
            ExecCommand::Run { verb, argument } => command_verb(command@) == Some(verb)
                && second_word(command@) == Some(argument@),
            ExecCommand::MissingArgument { verb } => command_verb(command@) == Some(verb)
                && second_word(command@) is None,
            ExecCommand::Unrecognized => command_verb(command@) is None,
        },
{
    let n = command.unicode_len();
    proof {
        lemma_next_token_bounds(command@, 0);
    }
    match next_token_at(command, n, 0) {
        None => ExecCommand::Unrecognized,
        Some((a, b)) => {
            match parse_verb(command.substring_char(a, b)) {
                None => ExecCommand::Unrecognized,
                Some(verb) => {
                    proof {
                        lemma_next_token_bounds(command@, b as int);
                    }
                    match next_token_at(command, n, b) {
                        None => ExecCommand::MissingArgument { verb },
                        Some((c, d)) => ExecCommand::Run {
                            verb,
                            argument: String::from_str(command.substring_char(c, d)),
                        },
                    }
                },
            }
        },
    }
}

} // verus!
