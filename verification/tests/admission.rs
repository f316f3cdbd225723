//! Admission of writes that replication has not yet taken in.

use ursula_runtime::admission::{give_back, RaftUncommittedBytesTracker, UncommittedBytesGuard};
use ursula_runtime::ids::RaftGroupId;
use ursula_runtime::RaftUncommittedAdmission;

#[test]
fn disabled_admission_reports_disabled() {
    let admission = RaftUncommittedAdmission::default();
    assert!(!admission.is_enabled());
}

#[test]
fn enabled_admission_reports_enabled() {
    let admission = RaftUncommittedAdmission {
        max_uncommitted_bytes_per_group: Some(1024),
    };
    assert!(admission.is_enabled());
}

#[test]
fn tracker_add_load_sub_round_trips() {
    let mut tracker = RaftUncommittedBytesTracker::new(2);
    tracker.add(RaftGroupId(0), 32);
    tracker.add(RaftGroupId(0), 8);
    tracker.add(RaftGroupId(1), 4);
    assert_eq!(tracker.load(RaftGroupId(0)), 40);
    assert_eq!(tracker.load(RaftGroupId(1)), 4);
    tracker.sub(RaftGroupId(0), 16);
    assert_eq!(tracker.load(RaftGroupId(0)), 24);
}

#[test]
fn tracker_sub_saturates_at_zero() {
    let mut tracker = RaftUncommittedBytesTracker::new(1);
    tracker.add(RaftGroupId(0), 4);
    tracker.sub(RaftGroupId(0), 10);
    assert_eq!(tracker.load(RaftGroupId(0)), 0);
}

#[test]
fn guard_releases_on_drop() {
    let mut tracker = RaftUncommittedBytesTracker::new(1);
    {
        let guard = UncommittedBytesGuard::new(&mut tracker, RaftGroupId(0), 32);
        assert_eq!(tracker.load(RaftGroupId(0)), 32);
        guard.release(&mut tracker);
    }
    assert_eq!(tracker.load(RaftGroupId(0)), 0);
}

#[test]
fn a_disarmed_guard_releases_nothing() {
    let mut tracker = RaftUncommittedBytesTracker::new(2);
    tracker.add(RaftGroupId(1), 7);
    let guard = UncommittedBytesGuard::new(&mut tracker, RaftGroupId(1), 32).disarm();
    guard.release(&mut tracker);
    assert_eq!(tracker.load(RaftGroupId(1)), 39);
    assert_eq!(tracker.load(RaftGroupId(0)), 0);
}

#[test]
fn no_bytes_stay_counted_when_every_guard_has_given_back() {
    let mut tracker = RaftUncommittedBytesTracker::new(2);
    let first = UncommittedBytesGuard::new(&mut tracker, RaftGroupId(0), 5);
    let second = UncommittedBytesGuard::new(&mut tracker, RaftGroupId(0), 7);
    let third = UncommittedBytesGuard::new(&mut tracker, RaftGroupId(1), 9);
    give_back(&mut tracker, Some(first));
    assert_eq!(tracker.load(RaftGroupId(0)), 7);
    give_back(&mut tracker, None);
    give_back(&mut tracker, Some(third));
    give_back(&mut tracker, Some(second));
    assert_eq!(tracker.load(RaftGroupId(0)), 0);
    assert_eq!(tracker.load(RaftGroupId(1)), 0);
}
