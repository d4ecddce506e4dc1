use ibp_registry::member::Error;
use ibp_registry::member::Event;
use ibp_registry::member::MemberData;
use ibp_registry::member::MemberStatus;
use ibp_registry::member::MemberStore;
use ibp_registry::member::MembershipLevel;
use ibp_registry::roles::RoleStore;

const CURATOR: u64 = 1;
const ALICE: u64 = 10;
const BOB: u64 = 11;

#[test]
fn register_creates_locked_record() {
    let mut members = MemberStore::new();
    let ev = members.register_member(ALICE).unwrap();
    assert_eq!(ev, Event::MemberRegistered(ALICE));
    let data = members.get_member(ALICE).unwrap();
    assert_eq!(data, MemberData { status: MemberStatus::Locked, level: MembershipLevel::Unset });
}

#[test]
fn register_twice_fails() {
    let mut members = MemberStore::new();
    members.register_member(ALICE).unwrap();
    assert_eq!(members.register_member(ALICE), Err(Error::MemberAlreadyExists));
}

#[test]
fn chill_fails_from_locked_and_leaves_store_unchanged() {
    let mut members = MemberStore::new();
    members.register_member(ALICE).unwrap();
    assert_eq!(members.chill_member(ALICE), Err(Error::InvalidStatusTransition));
    assert_eq!(members.get_member(ALICE).unwrap().status, MemberStatus::Locked);
}

#[test]
fn chill_fails_without_record() {
    let mut members = MemberStore::new();
    assert_eq!(members.chill_member(ALICE), Err(Error::MemberNotFound));
}

#[test]
fn chill_succeeds_from_active_and_from_chilled() {
    let roles = RoleStore::new(CURATOR);
    let mut members = MemberStore::new();
    members.register_member(ALICE).unwrap();
    members.unlock_member(&roles, CURATOR, ALICE).unwrap();
    let ev = members.chill_member(ALICE).unwrap();
    assert_eq!(ev, Event::MemberStatusUpdated(ALICE, MemberStatus::Active, MemberStatus::Chilled));
    let again = members.chill_member(ALICE).unwrap();
    assert_eq!(again, Event::MemberStatusUpdated(ALICE, MemberStatus::Chilled, MemberStatus::Chilled));
    assert_eq!(members.get_member(ALICE).unwrap().status, MemberStatus::Chilled);
}

#[test]
fn chill_fails_once_deleted() {
    let roles = RoleStore::new(CURATOR);
    let mut members = MemberStore::new();
    members.register_member(ALICE).unwrap();
    members.delete_member(&roles, CURATOR, ALICE).unwrap();
    assert_eq!(members.chill_member(ALICE), Err(Error::InvalidStatusTransition));
}

#[test]
fn unchill_only_from_chilled() {
    let roles = RoleStore::new(CURATOR);
    let mut members = MemberStore::new();
    members.register_member(ALICE).unwrap();
    members.unlock_member(&roles, CURATOR, ALICE).unwrap();
    assert_eq!(members.unchill_member(ALICE), Err(Error::InvalidStatusTransition));
    members.chill_member(ALICE).unwrap();
    let ev = members.unchill_member(ALICE).unwrap();
    assert_eq!(ev, Event::MemberStatusUpdated(ALICE, MemberStatus::Chilled, MemberStatus::Active));
    assert_eq!(members.get_member(ALICE).unwrap().status, MemberStatus::Active);
}

#[test]
fn unlock_only_from_locked() {
    let roles = RoleStore::new(CURATOR);
    let mut members = MemberStore::new();
    members.register_member(ALICE).unwrap();
    let ev = members.unlock_member(&roles, CURATOR, ALICE).unwrap();
    assert_eq!(ev, Event::MemberStatusUpdated(ALICE, MemberStatus::Locked, MemberStatus::Active));
    assert_eq!(members.unlock_member(&roles, CURATOR, ALICE), Err(Error::InvalidStatusTransition));
    assert_eq!(members.get_member(ALICE).unwrap().status, MemberStatus::Active);
}

#[test]
fn lock_fails_once_deleted() {
    let roles = RoleStore::new(CURATOR);
    let mut members = MemberStore::new();
    members.register_member(ALICE).unwrap();
    members.delete_member(&roles, CURATOR, ALICE).unwrap();
    assert_eq!(members.lock_member(&roles, CURATOR, ALICE), Err(Error::InvalidStatusTransition));
    assert_eq!(members.get_member(ALICE).unwrap().status, MemberStatus::Deleted);
}

#[test]
fn lock_forces_locked_from_active() {
    let roles = RoleStore::new(CURATOR);
    let mut members = MemberStore::new();
    members.register_member(ALICE).unwrap();
    members.unlock_member(&roles, CURATOR, ALICE).unwrap();
    let ev = members.lock_member(&roles, CURATOR, ALICE).unwrap();
    assert_eq!(ev, Event::MemberStatusUpdated(ALICE, MemberStatus::Active, MemberStatus::Locked));
}

#[test]
fn curator_gate_on_member_mutations() {
    let roles = RoleStore::new(CURATOR);
    let mut members = MemberStore::new();
    members.register_member(ALICE).unwrap();
    assert_eq!(members.lock_member(&roles, BOB, ALICE), Err(Error::NotACurator));
    assert_eq!(members.unlock_member(&roles, BOB, ALICE), Err(Error::NotACurator));
    assert_eq!(members.delete_member(&roles, BOB, ALICE), Err(Error::NotACurator));
    assert_eq!(members.undelete_member(&roles, BOB, ALICE), Err(Error::NotACurator));
    assert_eq!(
        members.update_member_level(&roles, BOB, ALICE, MembershipLevel::Two),
        Err(Error::NotACurator),
    );
    assert_eq!(members.get_member(ALICE).unwrap().status, MemberStatus::Locked);
}

#[test]
fn curator_ops_fail_without_record() {
    let roles = RoleStore::new(CURATOR);
    let mut members = MemberStore::new();
    assert_eq!(members.lock_member(&roles, CURATOR, ALICE), Err(Error::MemberNotFound));
    assert_eq!(members.delete_member(&roles, CURATOR, ALICE), Err(Error::MemberNotFound));
    assert_eq!(
        members.update_member_level(&roles, CURATOR, ALICE, MembershipLevel::One),
        Err(Error::MemberNotFound),
    );
}

#[test]
fn delete_succeeds_from_any_status() {
    let roles = RoleStore::new(CURATOR);
    let mut members = MemberStore::new();
    members.register_member(ALICE).unwrap();
    let ev = members.delete_member(&roles, CURATOR, ALICE).unwrap();
    assert_eq!(ev, Event::MemberStatusUpdated(ALICE, MemberStatus::Locked, MemberStatus::Deleted));
    let again = members.delete_member(&roles, CURATOR, ALICE).unwrap();
    assert_eq!(again, Event::MemberStatusUpdated(ALICE, MemberStatus::Deleted, MemberStatus::Deleted));
}

#[test]
fn undelete_requires_deleted_and_leaves_status_deleted() {
    let roles = RoleStore::new(CURATOR);
    let mut members = MemberStore::new();
    members.register_member(ALICE).unwrap();
    assert_eq!(members.undelete_member(&roles, CURATOR, ALICE), Err(Error::InvalidStatusTransition));
    members.delete_member(&roles, CURATOR, ALICE).unwrap();
    let ev = members.undelete_member(&roles, CURATOR, ALICE).unwrap();
    assert_eq!(ev, Event::MemberStatusUpdated(ALICE, MemberStatus::Deleted, MemberStatus::Deleted));
    assert_eq!(members.get_member(ALICE).unwrap().status, MemberStatus::Deleted);
}

#[test]
fn update_level_overwrites_and_reports_both_levels() {
    let roles = RoleStore::new(CURATOR);
    let mut members = MemberStore::new();
    members.register_member(ALICE).unwrap();
    let ev = members.update_member_level(&roles, CURATOR, ALICE, MembershipLevel::Three).unwrap();
    assert_eq!(ev, Event::MembershipLevelUpdated(ALICE, MembershipLevel::Unset, MembershipLevel::Three));
    let ev2 = members.update_member_level(&roles, CURATOR, ALICE, MembershipLevel::Six).unwrap();
    assert_eq!(ev2, Event::MembershipLevelUpdated(ALICE, MembershipLevel::Three, MembershipLevel::Six));
    assert_eq!(members.get_member(ALICE).unwrap().level, MembershipLevel::Six);
}

#[test]
fn member_defaults_follow_the_storage_conventions() {
    assert_eq!(MemberStatus::default(), MemberStatus::Active);
    assert_eq!(MembershipLevel::default(), MembershipLevel::Unset);
    assert_eq!(
        MemberData::default(),
        MemberData { status: MemberStatus::Active, level: MembershipLevel::Unset },
    );
}

#[test]
fn contains_member_reports_registration() {
    let mut members = MemberStore::new();
    assert!(!members.contains_member(ALICE));
    members.register_member(ALICE).unwrap();
    assert!(members.contains_member(ALICE));
    assert!(!members.contains_member(BOB));
}
