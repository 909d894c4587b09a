use carbon_ledger::address::Address;
use carbon_ledger::error::CarbonError;
use carbon_ledger::registry::{CarbonRegistry, ProjectStatus};

fn addr(strkey: &str) -> Address {
    Address::from_strkey(strkey.to_string())
}

fn setup() -> (CarbonRegistry, Address, Address) {
    let mut client = CarbonRegistry::new();
    let admin = addr("GADMIN");
    client.initialize(admin.clone()).unwrap();
    (client, admin, addr("GDEVELOPER"))
}

fn register(client: &mut CarbonRegistry, developer: &Address, methodology: &str, lat: i64, lng: i64) -> u64 {
    client.register_project(developer.clone(), methodology.to_string(), lat, lng, 0).unwrap()
}

#[test]
fn test_cannot_initialize_twice() {
    let (mut client, _admin, _developer) = setup();

    let another_admin = addr("GANOTHER");
    let result = client.initialize(another_admin);
    assert!(result.is_err());
}

#[test]
fn register_and_verify_project() {
    let (mut client, admin, developer) = setup();
    let verifier = addr("GVERIFIER");
    client.add_verifier(&admin, verifier.clone()).unwrap();
    assert!(client.is_verifier(&verifier));

    let id = register(&mut client, &developer, "VM0007", -3_465_000i64, -62_216_000i64);

    let project = client.get_project(id).unwrap();
    assert_eq!(project.status, ProjectStatus::Pending);

    client.verify_project(&verifier, id, 85).unwrap();
    let project = client.get_project(id).unwrap();
    assert_eq!(project.status, ProjectStatus::Verified);
    assert_eq!(project.methodology_score, 85);
}

#[test]
fn verify_fails_below_minimum_score() {
    let (mut client, admin, developer) = setup();
    let verifier = addr("GVERIFIER");
    client.add_verifier(&admin, verifier.clone()).unwrap();

    let id = register(&mut client, &developer, "VM0015", 0i64, 0i64);

    let result = client.verify_project(&verifier, id, 50);
    assert!(result.is_err());
}

#[test]
fn unauthorized_verifier_rejected() {
    let (mut client, _admin, developer) = setup();
    let not_a_verifier = addr("GNOTVERIFIER");

    let id = register(&mut client, &developer, "VM0007", 0i64, 0i64);

    let result = client.verify_project(&not_a_verifier, id, 90);
    assert!(result.is_err());
}

#[test]
fn rejected_project_cannot_be_verified() {
    let (mut client, admin, developer) = setup();
    let verifier = addr("GVERIFIER");
    client.add_verifier(&admin, verifier.clone()).unwrap();

    let id = register(&mut client, &developer, "VM0007", 0i64, 0i64);
    client.reject_project(&verifier, id).unwrap();

    let result = client.verify_project(&verifier, id, 90);
    assert!(result.is_err());

    let result = client.reject_project(&verifier, id);
    assert!(result.is_err());
}

#[test]
fn suspended_project_can_be_reverified() {
    let (mut client, admin, developer) = setup();
    let verifier = addr("GVERIFIER");
    client.add_verifier(&admin, verifier.clone()).unwrap();

    let id = register(&mut client, &developer, "VM0007", 0i64, 0i64);
    client.verify_project(&verifier, id, 80).unwrap();
    client.suspend_project(&verifier, id).unwrap();
    assert_eq!(client.get_project(id).unwrap().status, ProjectStatus::Suspended);

    client.verify_project(&verifier, id, 82).unwrap();
    assert_eq!(client.get_project(id).unwrap().status, ProjectStatus::Verified);
}

#[test]
fn removed_verifier_loses_access() {
    let (mut client, admin, developer) = setup();
    let verifier = addr("GVERIFIER");
    client.add_verifier(&admin, verifier.clone()).unwrap();
    client.remove_verifier(&admin, verifier.clone()).unwrap();
    assert!(!client.is_verifier(&verifier));

    let id = register(&mut client, &developer, "VM0007", 0i64, 0i64);
    let result = client.verify_project(&verifier, id, 90);
    assert!(result.is_err());
}

#[test]
fn only_admin_can_manage_verifiers() {
    let (mut client, _admin, _developer) = setup();
    let stranger = addr("GSTRANGER");
    let target = addr("GTARGET");

    let result = client.add_verifier(&stranger, target);
    assert!(result.is_err());
}

#[test]
fn admin_transfer_works() {
    let (mut client, admin, _developer) = setup();
    let new_admin = addr("GNEWADMIN");

    client.transfer_admin(&admin, new_admin.clone()).unwrap();
    assert_eq!(client.get_admin().unwrap(), new_admin);

    let target = addr("GTARGET");
    let result = client.add_verifier(&admin, target);
    assert!(result.is_err());
}

#[test]
fn tracks_projects_by_developer() {
    let (mut client, _admin, developer) = setup();

    let id1 = register(&mut client, &developer, "VM0007", 0i64, 0i64);
    let id2 = register(&mut client, &developer, "VM0015", 0i64, 0i64);

    let ids = client.get_projects_by_developer(&developer);
    assert_eq!(ids.len(), 2);
    assert_eq!(ids[0], id1);
    assert_eq!(ids[1], id2);
}

// ---------------------------------------------------------------------------
// Further cases
// ---------------------------------------------------------------------------

#[test]
fn registered_project_fields() {
    let (mut client, _admin, developer) = setup();
    let id = client.register_project(developer.clone(), "VM0007".to_string(), 12, -34, 777).unwrap();
    assert_eq!(id, 1);
    let p = client.get_project(id).unwrap();
    assert_eq!(p.id, 1);
    assert_eq!(p.developer, developer);
    assert_eq!(p.methodology, "VM0007");
    assert_eq!((p.lat_micro, p.lng_micro), (12, -34));
    assert_eq!(p.methodology_score, 0);
    assert_eq!(p.last_monitoring_ledger, 777);
    assert_eq!(client.register_project(developer, "X".to_string(), 0, 0, 0), Ok(2));
}

#[test]
fn minimum_score_is_inclusive() {
    let (mut client, admin, developer) = setup();
    let verifier = addr("GVERIFIER");
    client.add_verifier(&admin, verifier.clone()).unwrap();
    let id = register(&mut client, &developer, "VM0007", 0, 0);
    assert_eq!(client.verify_project(&verifier, id, 69), Err(CarbonError::ProjectNotVerified));
    assert_eq!(client.verify_project(&verifier, id, 70), Ok(()));
    // Already verified: cannot be verified again.
    assert_eq!(client.verify_project(&verifier, id, 90), Err(CarbonError::ProjectSuspended));
    assert_eq!(client.get_project(id).unwrap().methodology_score, 70);
}

#[test]
fn rejection_is_terminal() {
    let (mut client, admin, developer) = setup();
    let verifier = addr("GVERIFIER");
    client.add_verifier(&admin, verifier.clone()).unwrap();
    let id = register(&mut client, &developer, "VM0007", 0, 0);
    client.reject_project(&verifier, id).unwrap();
    assert_eq!(client.suspend_project(&verifier, id), Err(CarbonError::ProjectSuspended));
    assert_eq!(client.verify_project(&verifier, id, 99), Err(CarbonError::ProjectSuspended));
    client.update_monitoring(&verifier, id, 5).unwrap();
    assert_eq!(client.get_project(id).unwrap().status, ProjectStatus::Rejected);
}

#[test]
fn missing_project_errors() {
    let (mut client, admin, _developer) = setup();
    let verifier = addr("GVERIFIER");
    client.add_verifier(&admin, verifier.clone()).unwrap();
    assert_eq!(client.get_project(9).unwrap_err(), CarbonError::ProjectNotFound);
    assert_eq!(client.verify_project(&verifier, 9, 80), Err(CarbonError::ProjectNotFound));
    assert_eq!(client.reject_project(&verifier, 9), Err(CarbonError::ProjectNotFound));
    assert_eq!(client.suspend_project(&verifier, 9), Err(CarbonError::ProjectNotFound));
    assert_eq!(client.update_monitoring(&verifier, 9, 1), Err(CarbonError::ProjectNotFound));
}

#[test]
fn update_monitoring_records_the_ledger() {
    let (mut client, _admin, developer) = setup();
    let oracle = addr("GORACLE");
    let id = register(&mut client, &developer, "VM0007", 0, 0);
    client.update_monitoring(&oracle, id, 123_456).unwrap();
    assert_eq!(client.get_project(id).unwrap().last_monitoring_ledger, 123_456);
}

#[test]
fn uninitialized_registry_has_no_admin() {
    let mut client = CarbonRegistry::new();
    let someone = addr("GSOMEONE");
    assert_eq!(client.get_admin().unwrap_err(), CarbonError::UnauthorizedVerifier);
    assert_eq!(client.add_verifier(&someone, someone.clone()), Err(CarbonError::UnauthorizedVerifier));
    assert_eq!(client.transfer_admin(&someone, someone.clone()), Err(CarbonError::UnauthorizedVerifier));
    assert!(!client.is_verifier(&someone));
}

#[test]
fn other_developers_have_no_projects() {
    let (mut client, _admin, developer) = setup();
    register(&mut client, &developer, "VM0007", 0, 0);
    assert!(client.get_projects_by_developer(&addr("GNOBODY")).is_empty());
}

#[test]
fn score_above_hundred_is_refused() {
    let (mut client, admin, developer) = setup();
    let verifier = addr("GVERIFIER");
    client.add_verifier(&admin, verifier.clone()).unwrap();
    let id = register(&mut client, &developer, "VM0007", 0, 0);
    assert_eq!(client.verify_project(&verifier, id, 150), Err(CarbonError::ProjectNotVerified));
    assert_eq!(client.verify_project(&verifier, id, 101), Err(CarbonError::ProjectNotVerified));
    assert_eq!(client.get_project(id).unwrap().status, ProjectStatus::Pending);
    assert_eq!(client.verify_project(&verifier, id, 100), Ok(()));
    assert_eq!(client.get_project(id).unwrap().methodology_score, 100);
}

#[test]
fn initialize_restarts_project_ids() {
    let mut client = CarbonRegistry::new();
    let developer = addr("GDEVELOPER");
    let admin = addr("GADMIN");
    let early = register(&mut client, &developer, "VM0007", 0, 0);
    assert_eq!(early, 1);
    client.initialize(admin.clone()).unwrap();
    assert_eq!(client.next_project_id(), 1);
    let verifier = addr("GVERIFIER");
    client.add_verifier(&admin, verifier.clone()).unwrap();
    client.reject_project(&verifier, early).unwrap();
    // The next registration takes id 1 again and replaces the rejected record.
    let later = register(&mut client, &addr("GOTHERDEV"), "VM0015", 0, 0);
    assert_eq!(later, 1);
    let p = client.get_project(1).unwrap();
    assert_eq!(p.status, ProjectStatus::Pending);
    assert_eq!(p.methodology, "VM0015");
    assert_eq!(client.verify_project(&verifier, 1, 90), Ok(()));
    assert_eq!(client.get_projects_by_developer(&developer), vec![1]);
}

#[test]
fn ids_stay_unique_when_initialized_first() {
    let (mut client, admin, developer) = setup();
    let verifier = addr("GVERIFIER");
    client.add_verifier(&admin, verifier.clone()).unwrap();
    let a = register(&mut client, &developer, "VM0007", 0, 0);
    client.reject_project(&verifier, a).unwrap();
    let b = register(&mut client, &developer, "VM0015", 0, 0);
    assert_eq!((a, b), (1, 2));
    assert_eq!(client.get_project(a).unwrap().status, ProjectStatus::Rejected);
    assert_eq!(client.verify_project(&verifier, a, 90), Err(CarbonError::ProjectSuspended));
}
