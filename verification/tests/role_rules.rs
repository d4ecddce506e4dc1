use ibp_registry::member::MemberStore;
use ibp_registry::roles::Error;
use ibp_registry::roles::Event;
use ibp_registry::roles::Origin;
use ibp_registry::roles::RoleStore;

const CURATOR: u64 = 1;
const ALICE: u64 = 10;
const BOB: u64 = 11;

#[test]
fn new_store_has_one_curator_and_no_monitors() {
    let roles = RoleStore::new(CURATOR);
    assert!(roles.is_curator(CURATOR));
    assert!(!roles.is_curator(ALICE));
    assert!(!roles.is_monitor(CURATOR));
    assert_eq!(roles.curator_count(), 1);
}

#[test]
fn assign_curator_has_no_caller_gate() {
    let mut roles = RoleStore::new(CURATOR);
    let ev = roles.assign_curator(ALICE).unwrap();
    assert_eq!(ev, Event::CuratorAssigned(ALICE));
    assert!(roles.is_curator(ALICE));
    assert_eq!(roles.curator_count(), 2);
}

#[test]
fn assign_curator_twice_fails() {
    let mut roles = RoleStore::new(CURATOR);
    assert_eq!(roles.assign_curator(CURATOR), Err(Error::CuratorAlreadyExists));
    assert_eq!(roles.curator_count(), 1);
}

#[test]
fn assign_curator_stops_at_the_limit() {
    let mut roles = RoleStore::new(1);
    roles.assign_curator(2).unwrap();
    roles.assign_curator(3).unwrap();
    roles.assign_curator(4).unwrap();
    roles.assign_curator(5).unwrap();
    assert_eq!(roles.curator_count(), 5);
    assert_eq!(roles.assign_curator(6), Err(Error::CuratorLimitReached));
    assert_eq!(roles.curator_count(), 5);
}

#[test]
fn remove_curator_requires_root() {
    let mut roles = RoleStore::new(CURATOR);
    roles.assign_curator(ALICE).unwrap();
    let r = roles.remove_curator(Origin::Signed(ALICE), CURATOR);
    assert_eq!(r, Err(Error::Unauthenticated));
    assert_eq!(roles.curator_count(), 2);
}

#[test]
fn remove_curator_rejects_non_curators() {
    let mut roles = RoleStore::new(CURATOR);
    roles.assign_curator(ALICE).unwrap();
    assert_eq!(roles.remove_curator(Origin::Root, BOB), Err(Error::NotACurator));
}

#[test]
fn remove_curator_never_empties_the_set() {
    let mut roles = RoleStore::new(CURATOR);
    assert_eq!(roles.remove_curator(Origin::Root, CURATOR), Err(Error::CannotRemoveLastCurator));
    assert!(roles.is_curator(CURATOR));
    assert_eq!(roles.curator_count(), 1);
}

#[test]
fn remove_curator_succeeds_above_the_floor() {
    let mut roles = RoleStore::new(CURATOR);
    roles.assign_curator(ALICE).unwrap();
    let ev = roles.remove_curator(Origin::Root, ALICE).unwrap();
    assert_eq!(ev, Event::CuratorRemoved(ALICE));
    assert!(!roles.is_curator(ALICE));
    assert_eq!(roles.curator_count(), 1);
}

#[test]
fn assign_monitor_requires_member_then_curator() {
    let mut roles = RoleStore::new(CURATOR);
    let mut members = MemberStore::new();
    assert_eq!(roles.assign_monitor(&members, CURATOR, ALICE), Err(Error::MemberNotFound));
    members.register_member(ALICE).unwrap();
    assert_eq!(roles.assign_monitor(&members, BOB, ALICE), Err(Error::NotACurator));
    let ev = roles.assign_monitor(&members, CURATOR, ALICE).unwrap();
    assert_eq!(ev, Event::MonitorAssigned(ALICE));
    assert!(roles.is_monitor(ALICE));
}

#[test]
fn assign_monitor_twice_succeeds_and_changes_nothing() {
    let mut roles = RoleStore::new(CURATOR);
    let mut members = MemberStore::new();
    members.register_member(ALICE).unwrap();
    roles.assign_monitor(&members, CURATOR, ALICE).unwrap();
    let ev = roles.assign_monitor(&members, CURATOR, ALICE).unwrap();
    assert_eq!(ev, Event::MonitorAssigned(ALICE));
    assert!(roles.is_monitor(ALICE));
}

#[test]
fn remove_monitor_requires_curator_and_membership_of_the_set() {
    let mut roles = RoleStore::new(CURATOR);
    let mut members = MemberStore::new();
    members.register_member(ALICE).unwrap();
    roles.assign_monitor(&members, CURATOR, ALICE).unwrap();
    assert_eq!(roles.remove_monitor(BOB, ALICE), Err(Error::NotACurator));
    assert_eq!(roles.remove_monitor(CURATOR, BOB), Err(Error::NotAMonitor));
    let ev = roles.remove_monitor(CURATOR, ALICE).unwrap();
    assert_eq!(ev, Event::MonitorRemoved(ALICE));
    assert!(!roles.is_monitor(ALICE));
}
