//! Requests that the command-line client sends to a server.
use crate::path_guard::{has_git_suffix, with_git_suffix};
use vstd::prelude::*;

verus! {

/// How to ask a server, over `ssh`, to create a repository.
#[derive(PartialEq, Eq, Debug, Clone)]
pub struct RemoteCreate {
    /// The host part of the server address.
    pub host: String,
    /// The port part, `22` where the address gives none.
    pub port: String,
    /// `user@host`.
    pub destination: String,
    /// The command run on the server.
    pub command: String,
}

/// Index of the first `:` in `s`, if any.
pub open spec fn first_colon(s: Seq<char>) -> Option<int> {
    if exists|i: int| 0 <= i < s.len() && s[i] == ':' {
        Some(choose|i: int| 0 <= i < s.len() && s[i] == ':' && forall|k: int| 0 <= k < i ==> s[k] != ':')
    } else {
        None
    }
}

/// The host and the port of a `host[:port]` server address.
pub open spec fn host_and_port(server: Seq<char>) -> (Seq<char>, Seq<char>) {
    match first_colon(server) {
        Some(i) => (server.subrange(0, i), server.subrange(i + 1, server.len() as int)),
        None => (server, "22"@),
    }
}

fn find_colon(s: &str) -> (r: Option<usize>)
    ensures
        match r {
            Some(i) => first_colon(s@) == Some(i as int) && i < s@.len(),
            None => first_colon(s@) is None,
        },
{
    let n = s.unicode_len();
    let mut i: usize = 0;
    while i < n
        invariant
            n == s@.len(),
            i <= n,
            forall|k: int| 0 <= k < i ==> s@[k] != ':',
        decreases n - i,
    {
        if s.get_char(i) == ':' {
            let ghost j = choose|j: int| 0 <= j < s@.len() && s@[j] == ':' && forall|k: int|
                0 <= k < j ==> s@[k] != ':';
            assert(s@[i as int] == ':');
            assert(j == i) by {
                if j < i {
                    assert(s@[j] != ':');
                }
                if j > i {
                    assert(s@[i as int] != ':');
                }
            }
            return Some(i);
        }
        i = i + 1;
    }
    None
}

/// The `ssh` request that creates repository `repo_name` (`.git` appended unless
/// present) on `server` (`host` or `host:port`) as `user`.
pub fn create_remote_request(server: &str, user: &str, repo_name: &str) -> (r: RemoteCreate)
    ensures
        r.host@ == host_and_port(server@).0,
        r.port@ == host_and_port(server@).1,
        r.destination@ == user@ + "@"@ + host_and_port(server@).0,
        r.command@ == "agito-create-repo "@ + with_git_suffix(repo_name@),
{
    let mut command = String::from_str("agito-create-repo ");
    command.append(repo_name);
    if !has_git_suffix(repo_name) {
        command.append(".git");
        proof {
            reveal_strlit(".git");
        }
    }
    assert(command@ =~= "agito-create-repo "@ + with_git_suffix(repo_name@));
    let n = server.unicode_len();
    let (host, port) = match find_colon(server) {
        Some(i) => (server.substring_char(0, i), server.substring_char(i + 1, n)),
        None => (server, "22"),
    };
    let mut destination = String::from_str(user);
    destination.append("@");
    destination.append(host);
    RemoteCreate {
        host: String::from_str(host),
        port: String::from_str(port),
        destination,
        command,
    }
}

} // verus!
