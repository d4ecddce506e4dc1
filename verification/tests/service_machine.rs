use ibp_registry::ids::BoundedBytes;
use ibp_registry::member::MembershipLevel;
use ibp_registry::roles::RoleStore;
use ibp_registry::service::Error;
use ibp_registry::service::Event;
use ibp_registry::service::ServiceData;
use ibp_registry::service::ServiceStatus;
use ibp_registry::service::ServiceStore;
use ibp_registry::service::ServiceType;

fn sid(s: &[u8]) -> BoundedBytes {
    BoundedBytes::new(s.to_vec()).unwrap()
}

const CURATOR: u64 = 1;
const OUTSIDER: u64 = 9;

fn store_with_service(status: ServiceStatus) -> (RoleStore, ServiceStore) {
    let roles = RoleStore::new(CURATOR);
    let mut services = ServiceStore::new();
    services
        .register_service(
            &roles,
            CURATOR,
            sid(b"polkadot_rpc"),
            sid(b"polkadot"),
            ServiceType::RPC,
            MembershipLevel::Three,
            status,
        )
        .unwrap();
    (roles, services)
}

#[test]
fn register_service_stores_given_attributes() {
    let (_, services) = store_with_service(ServiceStatus::Active);
    let data = services.get_service(&sid(b"polkadot_rpc")).unwrap();
    assert_eq!(data.chain_id.as_bytes().as_slice(), b"polkadot");
    assert_eq!(data.service_type, ServiceType::RPC);
    assert_eq!(data.level, MembershipLevel::Three);
    assert_eq!(data.status, ServiceStatus::Active);
}

#[test]
fn register_service_event_carries_id_and_level() {
    let roles = RoleStore::new(CURATOR);
    let mut services = ServiceStore::new();
    let ev = services
        .register_service(
            &roles,
            CURATOR,
            sid(b"boot"),
            sid(b"kusama"),
            ServiceType::BOOT,
            MembershipLevel::One,
            ServiceStatus::Locked,
        )
        .unwrap();
    assert_eq!(ev, Event::ServiceRegistered(sid(b"boot"), MembershipLevel::One));
}

#[test]
fn register_taken_id_fails_before_the_curator_gate() {
    let (roles, mut services) = store_with_service(ServiceStatus::Active);
    let r = services.register_service(
        &roles,
        OUTSIDER,
        sid(b"polkadot_rpc"),
        sid(b"other"),
        ServiceType::BOOT,
        MembershipLevel::One,
        ServiceStatus::Active,
    );
    assert_eq!(r, Err(Error::ServiceAlreadyExists));
}

#[test]
fn register_service_requires_curator() {
    let roles = RoleStore::new(CURATOR);
    let mut services = ServiceStore::new();
    let r = services.register_service(
        &roles,
        OUTSIDER,
        sid(b"svc"),
        sid(b"chain"),
        ServiceType::RPC,
        MembershipLevel::One,
        ServiceStatus::Active,
    );
    assert_eq!(r, Err(Error::NotACurator));
    assert!(!services.contains_service(&sid(b"svc")));
}

#[test]
fn lock_service_fails_once_deleted() {
    let (roles, mut services) = store_with_service(ServiceStatus::Active);
    services.delete_service(&roles, CURATOR, sid(b"polkadot_rpc")).unwrap();
    let r = services.lock_service(&roles, CURATOR, sid(b"polkadot_rpc"));
    assert_eq!(r, Err(Error::InvalidStatusTransition));
    assert_eq!(services.get_service(&sid(b"polkadot_rpc")).unwrap().status, ServiceStatus::Deleted);
}

#[test]
fn lock_then_unlock_service() {
    let (roles, mut services) = store_with_service(ServiceStatus::Active);
    let ev = services.lock_service(&roles, CURATOR, sid(b"polkadot_rpc")).unwrap();
    assert_eq!(ev, Event::ServiceStatusUpdated(sid(b"polkadot_rpc"), ServiceStatus::Locked));
    let ev2 = services.unlock_service(&roles, CURATOR, sid(b"polkadot_rpc")).unwrap();
    assert_eq!(ev2, Event::ServiceStatusUpdated(sid(b"polkadot_rpc"), ServiceStatus::Active));
}

#[test]
fn unlock_service_only_from_locked() {
    let (roles, mut services) = store_with_service(ServiceStatus::Active);
    let r = services.unlock_service(&roles, CURATOR, sid(b"polkadot_rpc"));
    assert_eq!(r, Err(Error::InvalidStatusTransition));
}

#[test]
fn delete_service_emits_deleted_and_is_unconditional() {
    let (roles, mut services) = store_with_service(ServiceStatus::Locked);
    let ev = services.delete_service(&roles, CURATOR, sid(b"polkadot_rpc")).unwrap();
    assert_eq!(ev, Event::ServiceDeleted(sid(b"polkadot_rpc")));
    let again = services.delete_service(&roles, CURATOR, sid(b"polkadot_rpc")).unwrap();
    assert_eq!(again, Event::ServiceDeleted(sid(b"polkadot_rpc")));
}

#[test]
fn undelete_service_requires_deleted_and_leaves_status_deleted() {
    let (roles, mut services) = store_with_service(ServiceStatus::Active);
    let r = services.undelete_service(&roles, CURATOR, sid(b"polkadot_rpc"));
    assert_eq!(r, Err(Error::InvalidStatusTransition));
    services.delete_service(&roles, CURATOR, sid(b"polkadot_rpc")).unwrap();
    let ev = services.undelete_service(&roles, CURATOR, sid(b"polkadot_rpc")).unwrap();
    assert_eq!(ev, Event::ServiceStatusUpdated(sid(b"polkadot_rpc"), ServiceStatus::Deleted));
    assert_eq!(services.get_service(&sid(b"polkadot_rpc")).unwrap().status, ServiceStatus::Deleted);
}

#[test]
fn update_service_level_overwrites() {
    let (roles, mut services) = store_with_service(ServiceStatus::Active);
    let ev = services
        .update_service_level(&roles, CURATOR, sid(b"polkadot_rpc"), MembershipLevel::Five)
        .unwrap();
    assert_eq!(ev, Event::ServiceMembershipLevelUpdated(sid(b"polkadot_rpc"), MembershipLevel::Five));
    assert_eq!(services.get_service(&sid(b"polkadot_rpc")).unwrap().level, MembershipLevel::Five);
}

#[test]
fn service_mutations_require_curator() {
    let (roles, mut services) = store_with_service(ServiceStatus::Active);
    let id = sid(b"polkadot_rpc");
    assert_eq!(services.lock_service(&roles, OUTSIDER, id.dup()), Err(Error::NotACurator));
    assert_eq!(services.unlock_service(&roles, OUTSIDER, id.dup()), Err(Error::NotACurator));
    assert_eq!(services.delete_service(&roles, OUTSIDER, id.dup()), Err(Error::NotACurator));
    assert_eq!(services.undelete_service(&roles, OUTSIDER, id.dup()), Err(Error::NotACurator));
    assert_eq!(
        services.update_service_level(&roles, OUTSIDER, id.dup(), MembershipLevel::One),
        Err(Error::NotACurator),
    );
    assert_eq!(services.get_service(&id).unwrap().status, ServiceStatus::Active);
}

#[test]
fn service_mutations_fail_without_record() {
    let roles = RoleStore::new(CURATOR);
    let mut services = ServiceStore::new();
    assert_eq!(services.lock_service(&roles, CURATOR, sid(b"none")), Err(Error::ServiceNotFound));
    assert_eq!(services.delete_service(&roles, CURATOR, sid(b"none")), Err(Error::ServiceNotFound));
    assert_eq!(
        services.update_service_level(&roles, CURATOR, sid(b"none"), MembershipLevel::One),
        Err(Error::ServiceNotFound),
    );
}

#[test]
fn bounded_bytes_accepts_up_to_the_limit() {
    let exact = vec![7u8; 32];
    let over = vec![7u8; 33];
    assert!(BoundedBytes::new(exact).is_some());
    assert!(BoundedBytes::new(over).is_none());
    let empty = BoundedBytes::new(Vec::new()).unwrap();
    assert_eq!(empty.byte_len(), 0);
}

#[test]
fn bounded_bytes_compare_by_content() {
    let a = sid(b"polkadot");
    let b = a.dup();
    assert!(a.eq_bytes(&b));
    assert_eq!(a, b);
    assert!(!a.eq_bytes(&sid(b"kusama")));
    assert_eq!(a.byte_len(), 8);
}

#[test]
fn service_defaults_follow_the_storage_conventions() {
    assert_eq!(ServiceType::default(), ServiceType::RPC);
    assert_eq!(ServiceStatus::default(), ServiceStatus::Active);
    let d = ServiceData::default();
    assert_eq!(d.service_type, ServiceType::Unset);
    assert_eq!(d.status, ServiceStatus::Unset);
    assert_eq!(d.level, MembershipLevel::Unset);
    assert_eq!(d.chain_id.byte_len(), 0);
}
