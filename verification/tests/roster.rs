use std::sync::{Arc, Mutex};

use engram_dashboard_daemon::error::{ErrorCode, RetryMode};
use engram_dashboard_daemon::roster::{logged_names, owner_of, CommandRoster, DETACHED_REFUSAL, MAX_LOGGED_NAMES};

/// A reach that records what was sent through it.
#[derive(Clone, Default)]
struct Inbox(Arc<Mutex<Vec<String>>>);

impl Inbox {
    fn ping(&self, mark: &str) {
        self.0.lock().unwrap().push(mark.to_string());
    }
    fn delivered(&self) -> Vec<String> {
        self.0.lock().unwrap().clone()
    }
}

#[test]
fn an_attached_owner_resolves_to_that_connections_sink() {
    let mut roster = CommandRoster::new();
    let inbox = Inbox::default();
    roster.attach(1, inbox.clone());
    let owner = roster.attached_owner(1).expect("attached");
    roster.sink_of(&owner).expect("reachable").ping("envelope");
    assert_eq!(inbox.delivered(), vec!["envelope".to_string()]);
}

#[test]
fn a_detached_owner_releases_its_sink() {
    let mut roster = CommandRoster::new();
    let inbox = Inbox::default();
    let weak = Arc::downgrade(&inbox.0);
    roster.attach(1, inbox);
    let removed = roster.detach(1);
    assert!(removed.is_some());
    drop(removed);
    assert!(roster.sink_of(&owner_of(1)).is_none());
    assert!(weak.upgrade().is_none(), "the table let go of the reach");
    assert!(!roster.is_attached(1));
}

#[test]
fn the_roster_files_and_removes_under_the_stored_token() {
    let mut roster = CommandRoster::new();
    roster.attach(1, Inbox::default());
    roster.overwrite_stored_owner(1, "shell-a1".to_string());
    assert!(roster.sink_of("shell-a1").is_some());
    assert!(roster.sink_of(&owner_of(1)).is_none());
    assert_eq!(roster.attached_owner(1), Some("shell-a1".to_string()));
    assert_eq!(roster.refuse_if_detached(1).ok(), Some("shell-a1".to_string()));
    let removed = roster.detach(1).expect("attached");
    assert_eq!(removed.owner, "shell-a1");
}

#[test]
fn an_owner_that_never_attached_has_no_sink() {
    let mut roster = CommandRoster::new();
    roster.attach(1, Inbox::default());
    assert!(roster.sink_of(&owner_of(2)).is_none());
    assert!(roster.sink_of("shell").is_none());
}

#[test]
fn each_owner_gets_its_own_sink() {
    let mut roster = CommandRoster::new();
    let first = Inbox::default();
    let second = Inbox::default();
    roster.attach(1, first.clone());
    roster.attach(2, second.clone());
    roster.sink_of(&owner_of(1)).expect("owner 1").ping("to-1");
    roster.sink_of(&owner_of(2)).expect("owner 2").ping("to-2");
    assert_eq!(first.delivered(), vec!["to-1".to_string()]);
    assert_eq!(second.delivered(), vec!["to-2".to_string()]);
}

#[test]
fn a_lookup_compares_the_stored_token_and_never_parses_it() {
    let mut roster = CommandRoster::new();
    roster.attach(1, Inbox::default());
    for impostor in ["conn-01", "conn-+1"] {
        assert!(roster.sink_of(impostor).is_none(), "{impostor}");
    }
    assert!(roster.sink_of(&owner_of(1)).is_some());
}

#[test]
fn a_registration_that_lands_after_its_disconnect_is_refused() {
    let mut roster = CommandRoster::new();
    roster.attach(7, Inbox::default());
    roster.detach(7);
    let err = roster.refuse_if_detached(7).expect_err("detached");
    assert_eq!(err.code, ErrorCode::Conflict);
    assert_eq!(err.message, DETACHED_REFUSAL);
    assert_eq!(err.retry, RetryMode::Never);
}

#[test]
fn a_detach_for_a_connection_that_never_attached_is_quiet() {
    let mut roster: CommandRoster<Inbox> = CommandRoster::new();
    assert!(roster.detach(9).is_none());
}

#[test]
fn a_second_attach_of_the_same_number_reports_what_it_replaced() {
    let mut roster = CommandRoster::new();
    assert!(roster.attach(3, Inbox::default()).is_none());
    let replaced = roster.attach(3, Inbox::default()).expect("replaced");
    assert_eq!(replaced.owner, "conn-3");
    assert!(roster.sink_for_conn(3).is_some());
}

#[test]
fn owner_tokens_are_derived_from_the_connection_number() {
    assert_eq!(owner_of(0), "conn-0");
    assert_eq!(owner_of(7), "conn-7");
    assert_eq!(owner_of(u64::MAX), format!("conn-{}", u64::MAX));
}

#[test]
fn the_removed_names_line_says_how_many_it_elided() {
    let total = MAX_LOGGED_NAMES + 3;
    let names: Vec<String> = (0..total).map(|i| format!("tab.n{i:02}")).collect();
    let line = logged_names(&names);
    assert!(line.starts_with("'tab.n00', 'tab.n01'"), "{line}");
    assert!(line.ends_with(&format!(" (+{} more)", total - MAX_LOGGED_NAMES)), "{line}");
    assert!(!line.contains(&format!("tab.n{:02}", total - 1)), "{line}");
    assert!(line.len() < 1024);
}

#[test]
fn a_control_character_in_a_removed_name_never_reaches_the_log_field_verbatim() {
    let forged = "tab.forged\n2026-08-19T00:00:00Z  WARN forged entry".to_string();
    let line = logged_names(&[forged]);
    assert!(line.contains("tab.forged"), "{line}");
    assert!(!line.contains('\n'), "{line}");
    assert_eq!(logged_names(&[]), "");
    assert_eq!(logged_names(&["a".to_string(), "b".to_string()]), "'a', 'b'");
}

#[test]
fn a_token_names_the_connection_that_holds_it() {
    let mut roster = CommandRoster::new();
    let one = Inbox::default();
    roster.attach(1, one.clone());
    roster.attach(2, Inbox::default());
    let (conn, sink) = roster.holder_of(&owner_of(1)).expect("held");
    assert_eq!(conn, 1);
    sink.ping("envelope");
    assert_eq!(one.delivered(), vec!["envelope".to_string()]);
    roster.detach(1);
    assert!(roster.holder_of(&owner_of(1)).is_none(), "a departed token reaches nobody");
}
