use engram_dashboard_daemon::seats::{CommandDeliveries, Seat};

fn open(d: &mut CommandDeliveries<u32>, id: u128, origin: u64, name: &str, args: &str, now: u64) -> Seat {
    d.open(id, origin, name, args, now, 0).seat
}

fn new_id() -> u128 {
    uuid::Uuid::new_v4().as_u128()
}

#[test]
fn draining_twice_answers_each_seat_once() {
    let mut d: CommandDeliveries<u32> = CommandDeliveries::with_deadline(10_000);
    let id = new_id();
    assert!(matches!(open(&mut d, id, 1, "tab.create", "{}", 0), Seat::Opened { .. }));
    assert_eq!(d.drain().len(), 1);
    assert_eq!(d.drain().len(), 0);
    assert_eq!(d.in_flight(), 0);
}

#[test]
fn a_drained_table_refuses_new_round_trips() {
    let mut d: CommandDeliveries<u32> = CommandDeliveries::with_deadline(10_000);
    assert_eq!(d.drain().len(), 0);
    assert_eq!(open(&mut d, new_id(), 1, "tab.create", "{}", 0), Seat::Closed);
    assert_eq!(d.in_flight(), 0);
}

#[test]
fn a_second_open_of_the_same_request_id_splits_on_payload_then_on_who_asked() {
    let mut d: CommandDeliveries<u32> = CommandDeliveries::with_deadline(10_000);
    let id = new_id();
    let args = r#"{"window":"main"}"#;
    assert!(matches!(open(&mut d, id, 1, "tab.create", args, 0), Seat::Opened { .. }));
    assert_eq!(open(&mut d, id, 1, "tab.create", args, 0), Seat::Coalesced);
    assert_eq!(open(&mut d, id, 1, "theme.set", args, 0), Seat::Conflict);
    assert_eq!(open(&mut d, id, 1, "tab.create", r#"{"window":"other"}"#, 0), Seat::Conflict);
    assert_eq!(open(&mut d, id, 2, "tab.create", args, 0), Seat::Taken { holder: 1 });
    assert_eq!(d.in_flight(), 1);
}

#[test]
fn a_seat_stays_claimed_until_its_reply_has_been_sent() {
    let mut d: CommandDeliveries<u32> = CommandDeliveries::with_deadline(10_000);
    let id = new_id();
    let token = match open(&mut d, id, 1, "tab.create", "{}", 0) {
        Seat::Opened { token } => token,
        other => panic!("{other:?}"),
    };
    assert!(d.complete(id).is_some());
    assert_eq!(open(&mut d, id, 1, "tab.create", "{}", 0), Seat::Coalesced);
    d.release(id, token);
    assert!(matches!(open(&mut d, id, 1, "tab.create", "{}", 0), Seat::Opened { .. }));
}

#[test]
fn a_late_release_cannot_evict_the_next_round_trip_under_the_same_id() {
    let mut d: CommandDeliveries<u32> = CommandDeliveries::with_deadline(10_000);
    let id = new_id();
    let stale = match open(&mut d, id, 1, "tab.create", "{}", 0) {
        Seat::Opened { token } => token,
        other => panic!("{other:?}"),
    };
    assert_eq!(d.expire(11_000).len(), 1);
    assert!(matches!(open(&mut d, id, 1, "tab.create", "{}", 11_000), Seat::Opened { .. }));
    d.release(id, stale);
    assert_eq!(d.in_flight(), 1);
}

#[test]
fn an_outcome_for_an_unknown_request_id_finds_no_seat() {
    let mut d: CommandDeliveries<u32> = CommandDeliveries::with_deadline(10_000);
    assert!(d.complete(new_id()).is_none());
}

#[test]
fn a_deadline_answers_once_and_a_late_outcome_cannot_answer_again() {
    let mut d: CommandDeliveries<u32> = CommandDeliveries::with_deadline(10_000);
    let id = new_id();
    let opening = d.open(id, 1, "tab.create", "{}", 0, 42);
    assert!(matches!(opening.seat, Seat::Opened { .. }));
    assert!(d.expire(9_999).is_empty(), "not due yet");
    let answered = d.expire(10_000);
    assert_eq!(answered, vec![(id, 42)]);
    assert!(d.expire(20_000).is_empty(), "a deadline answers once");
    assert!(d.complete(id).is_none(), "a late outcome finds no waiter");
}

#[test]
fn a_retry_after_the_deadline_gets_a_fresh_attempt() {
    let mut d: CommandDeliveries<u32> = CommandDeliveries::with_deadline(10_000);
    let id = new_id();
    let first = d.open(id, 1, "tab.create", "{}", 0, 1);
    assert!(matches!(first.seat, Seat::Opened { .. }));
    let second = d.open(id, 1, "tab.create", "{}", 10_000, 2);
    assert_eq!(second.expired, vec![(id, 1)], "the dead round trip is answered first");
    assert!(matches!(second.seat, Seat::Opened { .. }));
}

#[test]
fn a_departed_caller_takes_its_round_trips_and_only_its_own() {
    let mut d: CommandDeliveries<u32> = CommandDeliveries::with_deadline(10_000);
    let mine = new_id();
    let theirs = new_id();
    open(&mut d, mine, 1, "a", "{}", 0);
    open(&mut d, theirs, 2, "b", "{}", 0);
    let removed = d.drop_origin(1).removed;
    assert_eq!(removed.len(), 1);
    assert_eq!(removed[0].0, mine);
    assert_eq!(d.in_flight(), 1);
    assert!(d.complete(theirs).is_some());
}

#[test]
fn a_lost_owner_answers_the_round_trips_handed_to_it() {
    let mut d: CommandDeliveries<u32> = CommandDeliveries::with_deadline(10_000);
    let rid = new_id();
    let other = new_id();
    let token = match d.open(rid, 2, "tab.create", "{}", 0, 7).seat {
        Seat::Opened { token } => token,
        s => panic!("expected a fresh seat, got {s:?}"),
    };
    assert!(!d.hand_over(rid, token + 1, 1), "a stale token marks nothing");
    assert!(d.hand_over(rid, token, 1));
    open(&mut d, other, 3, "tab.list", "{}", 0);
    let departure = d.drop_origin(1);
    assert_eq!(departure.orphaned, vec![(rid, 7)], "the caller's waiter is handed out");
    assert!(departure.removed.is_empty(), "the owner asked nothing itself");
    assert!(d.complete(rid).is_none(), "a late outcome cannot answer again");
    assert_eq!(d.in_flight(), 2, "the seat stays until its reply is released");
    assert!(d.complete(other).is_some(), "a round trip not handed to it is untouched");
}
