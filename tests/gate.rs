use agito::auth::authenticate;
use agito::channel::{ChannelPhase, ChannelTable, Channels};
use agito::path_guard::{resolve_repo_path, validate_new_repo_name, GuardError};
use agito::relay::{ReadEvent, Relay, RelayAction};
use agito::ssh::Server;
use agito::web::{html_escape, WebServer};
use russh_keys::key::KeyPair;
use russh_keys::PublicKeyBase64;

fn generated_key() -> (String, Vec<u8>) {
    let pair = KeyPair::generate_ed25519().unwrap();
    let public = pair.clone_public_key().unwrap();
    (public.public_key_base64(), public.public_key_bytes())
}

#[test]
fn parent_segments_are_refused() {
    assert_eq!(resolve_repo_path("../../etc", "/srv/repos"), Err(GuardError::OutsideRoot));
    assert_eq!(resolve_repo_path("'a/..'", "/srv/repos"), Err(GuardError::OutsideRoot));
    assert_eq!(resolve_repo_path("/", "/srv/repos"), Err(GuardError::OutsideRoot));
    assert_eq!(resolve_repo_path("./", "/srv/repos"), Err(GuardError::OutsideRoot));
    assert_eq!(
        resolve_repo_path("a..b/c.git", "/srv/repos"),
        Ok("/srv/repos/a..b/c.git".to_string())
    );
}

#[test]
fn new_names_are_normalised_and_checked() {
    assert_eq!(validate_new_repo_name("foo"), Ok("foo.git".to_string()));
    assert_eq!(validate_new_repo_name("foo.git"), Ok("foo.git".to_string()));
    assert_eq!(validate_new_repo_name("x/y"), Err(GuardError::InvalidName));
    assert_eq!(validate_new_repo_name("a..b"), Err(GuardError::InvalidName));
}

#[test]
fn matching_key_is_accepted() {
    let (b64, bytes) = generated_key();
    let store = format!("# keys\n\nssh-ed25519 {} alice@host\n", b64);
    assert!(authenticate(Some(&store), &bytes));
    let bare = format!("{}\n", b64);
    assert!(authenticate(Some(&bare), &bytes));
}

#[test]
fn unmatched_key_is_rejected() {
    let (b64, _) = generated_key();
    let (_, other) = generated_key();
    let store = format!("ssh-ed25519 {} alice@host\nssh-ed25519 not-base64!!\n", b64);
    assert!(!authenticate(Some(&store), &other));
}

#[test]
fn commented_key_is_rejected() {
    let (b64, bytes) = generated_key();
    let store = format!("#ssh-ed25519 {}\n", b64);
    assert!(!authenticate(Some(&store), &bytes));
}

#[test]
fn empty_or_missing_store_rejects() {
    let (_, bytes) = generated_key();
    assert!(!authenticate(Some(""), &bytes));
    assert!(!authenticate(Some("\n  \n# nothing\n"), &bytes));
    assert!(!authenticate(None, &bytes));
}

#[test]
fn relay_forwards_chunks_in_order() {
    let mut relay = Relay::new();
    let mut out: Vec<u8> = Vec::new();
    for chunk in [vec![1u8, 2], vec![3u8], vec![4u8, 5, 6]] {
        match relay.on_read(ReadEvent::Data(chunk)) {
            RelayAction::Forward(d) => out.extend_from_slice(&d),
            RelayAction::Stop => panic!("stopped early"),
        }
    }
    assert_eq!(relay.on_read(ReadEvent::Data(Vec::new())), RelayAction::Stop);
    assert_eq!(relay.on_read(ReadEvent::Data(vec![7u8])), RelayAction::Stop);
    assert_eq!(out, vec![1u8, 2, 3, 4, 5, 6]);
    assert!(!relay.is_running());
}

#[test]
fn relay_stops_on_failure() {
    let mut relay = Relay::new();
    assert_eq!(relay.on_read(ReadEvent::Failed), RelayAction::Stop);
    let mut other = Relay::new();
    other.on_write_failed();
    assert_eq!(other.on_read(ReadEvent::Data(vec![1u8])), RelayAction::Stop);
    let mut ended = Relay::new();
    assert_eq!(ended.on_read(ReadEvent::End), RelayAction::Stop);
}

#[test]
fn channel_lifecycle() {
    let mut channels: Channels<u64> = Channels::new();
    assert!(channels.open(3));
    assert!(!channels.open(3));
    assert_eq!(channels.bind(3, 9), Some(9));
    assert!(channels.begin_exec(3));
    assert!(!channels.begin_exec(3));
    assert_eq!(channels.bind(3, 9), None);
    assert_eq!(channels.input_sink(3), Some(&9));
    assert_eq!(channels.end_input(3), Some(9));
    assert_eq!(channels.input_sink(3), None);
    assert_eq!(channels.end_input(3), None);
    assert_eq!(channels.close(3), None);
    assert_eq!(channels.bind(3, 10), Some(10));
}

#[test]
fn closing_unbound_channel_is_a_no_op() {
    let mut channels: Channels<u64> = Channels::new();
    assert_eq!(channels.close(5), None);
    assert_eq!(channels.close(5), None);
    assert!(channels.open(5));
    assert_eq!(channels.close(5), None);
    assert_eq!(channels.close(5), None);
    assert_eq!(channels.input_sink(5), None);
}

#[test]
fn table_send_to_unregistered_is_dropped() {
    let mut table: ChannelTable<&str> = ChannelTable::new();
    assert_eq!(table.sink(1), None);
    table.register(1, "a");
    assert!(table.contains(1));
    assert_eq!(table.sink(1), Some(&"a"));
    assert_eq!(table.remove(1), Some("a"));
    assert_eq!(table.remove(1), None);
    let _ = ChannelPhase::Open;
}

#[test]
fn html_is_escaped() {
    assert_eq!(html_escape("<a href=\"x\">Tom & Jerry's</a>"),
        "&lt;a href=&quot;x&quot;&gt;Tom &amp; Jerry&#39;s&lt;/a&gt;");
    assert_eq!(html_escape(""), "");
}

#[test]
fn configuration_is_kept() {
    let s = Server::new("2222".to_string(), "/k".to_string(), "/a".to_string(), "/r".to_string());
    assert_eq!(s.port, "2222");
    assert_eq!(s.repos_dir, "/r");
    let w = WebServer::new("/r".to_string());
    assert_eq!(w.repos_dir, "/r");
}
