use engram_dashboard_daemon::commands::{admit_input, lease_refusal, lease_target, InputLease, NoInputLeases, CONNECTIONLESS_LEASE_TAIL};
use engram_dashboard_daemon::error::ErrorCode;
use engram_dashboard_daemon::multiview::{LeaseChange, MultiViewState, INPUT_LOCKED_REFUSAL};

#[test]
fn the_lease_belongs_to_one_connection_at_a_time() {
    let mut mv = MultiViewState::new();
    assert!(mv.check_input(1, 10));
    assert_eq!(mv.acquire(1, 10), LeaseChange::Changed);
    assert_eq!(mv.acquire(1, 10), LeaseChange::Unchanged);
    assert_eq!(mv.acquire(1, 11), LeaseChange::HeldByOther);
    assert!(mv.check_input(1, 10));
    assert!(!mv.check_input(1, 11));
    assert_eq!(mv.release(1, 11), LeaseChange::HeldByOther);
    assert_eq!(mv.release(1, 10), LeaseChange::Changed);
    assert_eq!(mv.release(1, 10), LeaseChange::Unchanged);
    assert!(mv.check_input(1, 11));
}

#[test]
fn a_departing_connection_frees_every_lease_it_held() {
    let mut mv = MultiViewState::new();
    mv.acquire(1, 10);
    mv.acquire(2, 10);
    mv.acquire(3, 11);
    let mut freed = mv.release_all_for_conn(10);
    freed.sort();
    assert_eq!(freed, vec![1, 2]);
    assert!(mv.check_input(1, 11));
    assert!(!mv.check_input(3, 10));
    assert!(mv.release_all_for_conn(10).is_empty());
}

#[test]
fn the_terminal_takes_the_smallest_width_and_height() {
    let mut mv = MultiViewState::new();
    assert_eq!(mv.smallest(1), None);
    assert_eq!(mv.set_viewport(1, "a".to_string(), 100, 20), Some((100, 20)));
    assert_eq!(mv.set_viewport(1, "b".to_string(), 80, 50), Some((80, 20)));
    assert_eq!(mv.set_viewport(2, "a".to_string(), 10, 10), Some((10, 10)));
    assert_eq!(mv.smallest(1), Some((80, 20)));
    assert_eq!(mv.set_viewport(1, "a".to_string(), 200, 60), Some((80, 50)), "an update replaces the old size");
}

#[test]
fn removing_a_connections_viewports_reports_each_agent_once() {
    let mut mv = MultiViewState::new();
    mv.set_viewport(1, "a".to_string(), 100, 20);
    mv.set_viewport(1, "b".to_string(), 80, 50);
    mv.set_viewport(2, "c".to_string(), 10, 10);
    let owned = vec![(1u128, "a".to_string()), (2u128, "c".to_string()), (1u128, "zz".to_string()), (3u128, "x".to_string())];
    let after = mv.remove_conn_viewports(&owned);
    assert_eq!(after, vec![(1, Some((80, 50))), (2, None)]);
    assert_eq!(mv.smallest(2), None);
}

#[test]
fn every_entrance_gives_a_non_holder_the_same_refusal() {
    let mut mv = MultiViewState::new();
    mv.acquire(5, 1);
    assert!(mv.permits(5, Some(1)));
    assert!(!mv.permits(5, Some(2)));
    assert!(!mv.permits(5, None), "a connectionless caller never holds the lease");
    assert!(mv.permits(6, None));
    assert!(NoInputLeases.permits(5, None));
    let ws = admit_input(&mv, 5, Some(2)).expect_err("held by another");
    assert_eq!(ws.code, ErrorCode::Conflict);
    assert_eq!(ws.message, INPUT_LOCKED_REFUSAL);
    let cli = admit_input(&mv, 5, None).expect_err("held by a viewer");
    assert!(cli.message.starts_with(INPUT_LOCKED_REFUSAL));
    assert!(cli.message.ends_with(CONNECTIONLESS_LEASE_TAIL));
    assert!(admit_input(&NoInputLeases, 5, None).is_ok());
    assert_eq!(lease_refusal(Some(3)).message, INPUT_LOCKED_REFUSAL);
}

#[test]
fn a_blank_or_non_string_target_is_left_for_the_verb_to_refuse() {
    assert_eq!(lease_target(None), None);
    assert_eq!(lease_target(Some("   ")), None);
    assert_eq!(lease_target(Some(" worker ")), Some(" worker ".to_string()));
}
