use ibp_registry::alert::AlertRegistry;
use ibp_registry::alert::Error as AlertError;
use ibp_registry::ids::BoundedBytes;
use ibp_registry::member::MemberStore;
use ibp_registry::member::MembershipLevel;
use ibp_registry::roles::RoleStore;
use ibp_registry::service::ServiceStatus;
use ibp_registry::service::ServiceStore;
use ibp_registry::service::ServiceType;

fn bytes(s: &[u8]) -> BoundedBytes {
    BoundedBytes::new(s.to_vec()).unwrap()
}

const CURATOR: u64 = 1;
const MEMBER_A: u64 = 2;
const MONITOR_M: u64 = 3;

#[test]
fn alert_lifecycle_scenario() {
    let mut roles = RoleStore::new(CURATOR);
    let mut members = MemberStore::new();
    let mut services = ServiceStore::new();
    let mut alerts = AlertRegistry::new();

    members.register_member(MEMBER_A).unwrap();
    members.register_member(MONITOR_M).unwrap();
    roles.assign_monitor(&members, CURATOR, MONITOR_M).unwrap();
    services
        .register_service(
            &roles,
            CURATOR,
            bytes(b"svc"),
            bytes(b"chain"),
            ServiceType::RPC,
            MembershipLevel::One,
            ServiceStatus::Active,
        )
        .unwrap();
    members.unlock_member(&roles, CURATOR, MEMBER_A).unwrap();

    let registered = alerts.register_alert(
        &roles,
        &members,
        &services,
        MONITOR_M,
        1,
        MEMBER_A,
        bytes(b"svc"),
        bytes(b"dom"),
        bytes(b"Down"),
    );
    assert!(registered.is_ok());
    assert!(alerts.contains_alert(MONITOR_M, 1));
    assert!(alerts.is_indexed(MEMBER_A, &bytes(b"svc"), &bytes(b"Down")));
    assert_eq!(alerts.index_len(), 1);

    let duplicate = alerts.register_alert(
        &roles,
        &members,
        &services,
        MONITOR_M,
        2,
        MEMBER_A,
        bytes(b"svc"),
        bytes(b"dom"),
        bytes(b"Down"),
    );
    assert_eq!(duplicate, Err(AlertError::MemberServiceAlertExists));

    alerts.clear_alert(&roles, MONITOR_M, 1).unwrap();
    assert!(!alerts.contains_alert(MONITOR_M, 1));
    assert!(!alerts.is_indexed(MEMBER_A, &bytes(b"svc"), &bytes(b"Down")));

    alerts.rebuild_index();
    assert_eq!(alerts.index_len(), 0);
}
