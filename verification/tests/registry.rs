use tikv_snap::snap::error::SnapError;
use tikv_snap::snap::key::SnapKey;
use tikv_snap::snap::registry::{Entry, Registry, SnapStats};
use tikv_snap::snap::state::{Role, SnapshotState};

fn key(region: u64, idx: u64) -> SnapKey {
    SnapKey::new(region, 6, idx)
}

#[test]
fn register_records_one_holder() {
    let mut r = Registry::new(2, 300);
    assert_eq!(r.register(key(1, 10), SnapshotState::Generating, 5), Ok(()));
    assert_eq!(
        r.get(key(1, 10)),
        Some(Entry {
            key: key(1, 10),
            state: SnapshotState::Generating,
            ref_count: 1,
            created: 5,
            touched: 5,
        })
    );
    assert_eq!(r.len(), 1);
    assert_eq!(r.recv_limit(), 2);
    assert_eq!(r.grace(), 300);
}

#[test]
fn register_refuses_live_duplicate() {
    let mut r = Registry::new(2, 300);
    r.register(key(1, 10), SnapshotState::Generating, 5).unwrap();
    assert_eq!(
        r.register(key(1, 10), SnapshotState::Generating, 6),
        Err(SnapError::AlreadyExists)
    );
    assert_eq!(r.get(key(1, 10)).unwrap().created, 5);
    // another log position of the same region is another snapshot
    assert_eq!(r.register(key(1, 11), SnapshotState::Generating, 7), Ok(()));
    assert_eq!(r.list_all(), vec![key(1, 10), key(1, 11)]);
}

#[test]
fn register_replaces_terminal_entry() {
    let mut r = Registry::new(2, 300);
    let k = key(1, 10);
    r.register(k, SnapshotState::Sending, 1).unwrap();
    r.transition(k, SnapshotState::Sending, SnapshotState::SendFailed, 2).unwrap();
    assert_eq!(r.register(k, SnapshotState::Generating, 9), Ok(()));
    let e = r.get(k).unwrap();
    assert_eq!(e.state, SnapshotState::Generating);
    assert_eq!(e.ref_count, 1);
    assert_eq!(e.created, 9);
    assert_eq!(r.len(), 1);
}

#[test]
fn register_receiving_needs_a_permit() {
    let mut r = Registry::new(1, 300);
    let k = key(1, 10);
    assert_eq!(r.register(k, SnapshotState::Receiving, 1), Err(SnapError::AdmissionRejected));
    assert!(r.try_admit_receive(k));
    assert_eq!(r.register(k, SnapshotState::Receiving, 1), Ok(()));
}

#[test]
fn transition_checks_state_and_edge() {
    let mut r = Registry::new(2, 300);
    let k = key(1, 10);
    r.register(k, SnapshotState::Generating, 1).unwrap();
    assert_eq!(
        r.transition(k, SnapshotState::Generated, SnapshotState::Sending, 2),
        Err(SnapError::InvalidTransition)
    );
    assert_eq!(
        r.transition(k, SnapshotState::Generating, SnapshotState::Sent, 2),
        Err(SnapError::InvalidTransition)
    );
    assert_eq!(
        r.transition(key(9, 9), SnapshotState::Generating, SnapshotState::Generated, 2),
        Err(SnapError::InvalidTransition)
    );
    assert_eq!(r.get(k).unwrap().touched, 1);
    assert_eq!(r.transition(k, SnapshotState::Generating, SnapshotState::Generated, 3), Ok(()));
    assert_eq!(r.get(k).unwrap().state, SnapshotState::Generated);
    assert_eq!(r.get(k).unwrap().touched, 3);
}

#[test]
fn reference_count_never_goes_below_zero() {
    let mut r = Registry::new(2, 300);
    let k = key(1, 10);
    r.register(k, SnapshotState::Generated, 1).unwrap();
    assert_eq!(r.acquire(k, 2), Ok(()));
    assert_eq!(r.get(k).unwrap().ref_count, 2);
    assert_eq!(r.release(k, 3), Ok(()));
    assert_eq!(r.release(k, 4), Ok(()));
    assert_eq!(r.get(k).unwrap().ref_count, 0);
    assert_eq!(r.get(k).unwrap().touched, 4);
    assert_eq!(r.release(k, 5), Err(SnapError::NotHeld));
    assert_eq!(r.get(k).unwrap().ref_count, 0);
    assert_eq!(r.get(k).unwrap().touched, 4);
    assert_eq!(r.acquire(key(2, 2), 5), Err(SnapError::NotFound));
    assert_eq!(r.release(key(2, 2), 5), Err(SnapError::NotFound));
}

#[test]
fn sweep_spares_held_live_and_fresh_entries() {
    let mut r = Registry::new(2, 300);
    let held = key(1, 1);
    let live = key(2, 1);
    let fresh = key(3, 1);
    let old = key(4, 1);
    for k in [held, live, fresh, old] {
        r.register(k, SnapshotState::Sending, 0).unwrap();
    }
    r.transition(held, SnapshotState::Sending, SnapshotState::Sent, 0).unwrap();
    r.release(live, 0).unwrap();
    r.transition(fresh, SnapshotState::Sending, SnapshotState::Sent, 0).unwrap();
    r.release(fresh, 200).unwrap();
    r.transition(old, SnapshotState::Sending, SnapshotState::SendFailed, 0).unwrap();
    r.release(old, 100).unwrap();
    // at 399 nothing has been idle for 300 yet
    assert_eq!(r.sweep(399), vec![]);
    assert!(!r.reclaim(old, 399));
    assert_eq!(r.sweep(400), vec![(old, Role::Sender)]);
    // a sweep removes nothing: the entry stays until its files are gone
    assert_eq!(r.list_all(), vec![held, live, fresh, old]);
    assert_eq!(r.sweep(400), vec![(old, Role::Sender)]);
    assert!(r.reclaim(old, 400));
    assert_eq!(r.list_all(), vec![held, live, fresh]);
    // sweeping again at the same time finds nothing
    assert_eq!(r.sweep(400), vec![]);
    assert!(!r.reclaim(old, 400));
    assert_eq!(r.sweep(500), vec![(fresh, Role::Sender)]);
    // what is held, live or fresh is not removed on request either
    assert!(!r.reclaim(held, 500));
    assert!(!r.reclaim(live, 500));
    assert!(!r.reclaim(fresh, 499));
    assert!(r.reclaim(fresh, 500));
    // a clock that runs backwards reclaims nothing
    assert_eq!(r.sweep(0), vec![]);
    assert_eq!(r.list_all(), vec![held, live]);
    assert_eq!(r.get(held).unwrap().ref_count, 1);
}

#[test]
fn list_idle_gives_unheld_entries_with_their_side() {
    let mut r = Registry::new(2, 300);
    let a = key(1, 1);
    let b = key(2, 1);
    let c = key(3, 1);
    r.register(a, SnapshotState::Generated, 0).unwrap();
    r.register(b, SnapshotState::Received, 0).unwrap();
    r.register(c, SnapshotState::Generated, 0).unwrap();
    r.release(a, 1).unwrap();
    r.release(b, 1).unwrap();
    assert_eq!(r.list_idle(), vec![(a, Role::Sender), (b, Role::Receiver)]);
}

#[test]
fn stats_count_the_busy_states() {
    let mut r = Registry::new(3, 300);
    r.register(key(1, 1), SnapshotState::Generating, 0).unwrap();
    r.register(key(2, 1), SnapshotState::Generating, 0).unwrap();
    r.register(key(3, 1), SnapshotState::Sending, 0).unwrap();
    r.register(key(4, 1), SnapshotState::Applying, 0).unwrap();
    r.register(key(5, 1), SnapshotState::Applied, 0).unwrap();
    assert!(r.try_admit_receive(key(6, 1)));
    r.register(key(6, 1), SnapshotState::Receiving, 0).unwrap();
    assert_eq!(
        r.stats(),
        SnapStats { generating_count: 2, sending_count: 1, receiving_count: 1, applying_count: 1 }
    );
}

#[test]
fn admission_is_bounded_by_the_limit() {
    let mut r = Registry::new(2, 300);
    let keys: Vec<SnapKey> = (1..=5).map(|i| key(i, 1)).collect();
    let admitted: Vec<bool> = keys.iter().map(|k| r.try_admit_receive(*k)).collect();
    assert_eq!(admitted, vec![true, true, false, false, false]);
    for k in &keys {
        let _ = r.register(*k, SnapshotState::Receiving, 0);
    }
    assert_eq!(r.stats().receiving_count, 2);
    // no permit is left, whatever the key
    assert!(!r.try_admit_receive(keys[0]));
    assert!(r.holds_permit(keys[0]));
    assert!(!r.holds_permit(keys[2]));
    // a permit given back goes to the stream that waits
    assert!(r.release_receive(keys[0]));
    assert!(r.try_admit_receive(keys[2]));
    assert!(!r.try_admit_receive(keys[3]));
}

#[test]
fn admission_goes_by_the_count_alone() {
    let mut r = Registry::new(2, 300);
    let k = key(1, 1);
    // two streams of one key take two permits
    assert!(r.try_admit_receive(k));
    assert!(r.try_admit_receive(k));
    assert!(!r.try_admit_receive(k));
    assert!(!r.try_admit_receive(key(2, 1)));
    r.register(k, SnapshotState::Receiving, 0).unwrap();
    // the second stream finds the key taken and closes: the first goes on
    assert_eq!(r.register(k, SnapshotState::Receiving, 0), Err(SnapError::AlreadyExists));
    assert!(!r.release_receive(k));
    assert!(r.holds_permit(k));
    assert_eq!(r.stats().receiving_count, 1);
    assert!(r.try_admit_receive(key(2, 1)));
    // the last stream of the key closes with the receipt unfinished
    assert!(r.release_receive(k));
    assert!(!r.holds_permit(k));
    assert_eq!(r.get(k), None);
}

#[test]
fn adopted_snapshots_are_held_by_nobody() {
    let mut r = Registry::new(1, 300);
    let found = key(1, 1);
    let known = key(2, 1);
    r.register(known, SnapshotState::Sending, 0).unwrap();
    assert!(r.adopt(found, SnapshotState::Sent, 10));
    let e = r.get(found).unwrap();
    assert_eq!((e.state, e.ref_count, e.created, e.touched), (SnapshotState::Sent, 0, 10, 10));
    // a key that has an entry is left as it is
    assert!(!r.adopt(known, SnapshotState::Sent, 10));
    assert_eq!(r.get(known).unwrap().ref_count, 1);
    assert!(!r.adopt(found, SnapshotState::Applied, 20));
    assert_eq!(r.get(found).unwrap().state, SnapshotState::Sent);
    // a partial receipt without a stream is not taken in
    assert!(!r.adopt(key(3, 1), SnapshotState::Receiving, 10));
    assert_eq!(r.len(), 2);
    // the grace period runs from the adoption
    assert_eq!(r.sweep(309), vec![]);
    assert_eq!(r.sweep(310), vec![(found, Role::Sender)]);
    assert!(r.reclaim(found, 310));
    assert_eq!(r.list_all(), vec![known]);
}

#[test]
fn release_receive_discards_only_unfinished_receipts() {
    let mut r = Registry::new(2, 300);
    let done = key(1, 1);
    let cut = key(2, 1);
    assert!(r.try_admit_receive(done));
    assert!(r.try_admit_receive(cut));
    r.register(done, SnapshotState::Receiving, 0).unwrap();
    r.register(cut, SnapshotState::Receiving, 0).unwrap();
    r.transition(done, SnapshotState::Receiving, SnapshotState::Received, 1).unwrap();
    assert!(!r.release_receive(done));
    assert!(r.release_receive(cut));
    assert_eq!(r.list_all(), vec![done]);
    assert_eq!(r.stats().receiving_count, 0);
    // a key without a permit: nothing happens
    assert!(!r.release_receive(key(7, 7)));
}

#[test]
fn cancel_removes_at_once() {
    let mut r = Registry::new(2, 300);
    let k = key(1, 1);
    r.register(k, SnapshotState::Generating, 3).unwrap();
    r.acquire(k, 4).unwrap();
    let e = r.cancel(k).unwrap();
    assert_eq!(e.ref_count, 2);
    assert_eq!(r.get(k), None);
    assert_eq!(r.cancel(k), None);
}

#[test]
fn superseded_by_a_later_applied_snapshot() {
    let mut r = Registry::new(2, 300);
    r.register(key(1, 20), SnapshotState::Applied, 0).unwrap();
    r.register(key(2, 50), SnapshotState::Received, 0).unwrap();
    assert!(r.is_superseded(key(1, 20)));
    assert!(r.is_superseded(key(1, 19)));
    assert!(!r.is_superseded(key(1, 21)));
    assert!(!r.is_superseded(key(2, 10)));
}

#[test]
fn states_and_errors() {
    assert!(SnapshotState::Sent.is_terminal());
    assert!(SnapshotState::ApplyFailed.is_terminal());
    assert!(!SnapshotState::Received.is_terminal());
    assert_eq!(SnapshotState::Sending.role(), Role::Sender);
    assert_eq!(SnapshotState::Applying.role(), Role::Receiver);
    assert!(SnapshotState::Applying.can_step_to(SnapshotState::ApplyFailed));
    assert!(!SnapshotState::Applied.can_step_to(SnapshotState::Receiving));
    assert!(!SnapshotState::Generated.can_step_to(SnapshotState::Received));
    for e in [SnapError::Canceled, SnapError::AdmissionRejected, SnapError::SendTimeout,
        SnapError::SendFailed, SnapError::Corrupted] {
        assert!(e.is_recoverable());
    }
    for e in [SnapError::ApplyFailed, SnapError::StaleDuplicate, SnapError::AlreadyExists,
        SnapError::InvalidTransition, SnapError::NotFound, SnapError::NotHeld,
        SnapError::TooManyHolders] {
        assert!(!e.is_recoverable());
    }
}
