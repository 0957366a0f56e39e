use vector_db::api;
use vector_db::errors::Error;
use vector_db::ident::Principal;
use vector_db::management::AccessControl;

fn p(name: &str) -> Principal {
    Principal::new(name.to_string())
}

fn initialized() -> AccessControl {
    let mut acl = AccessControl::new();
    api::initialize(&mut acl, p("owner"));
    acl
}

#[test]
fn initialize_seeds_owner_as_manager() {
    let acl = initialized();
    assert!(api::is_manager(&acl, &p("owner")));
    assert!(api::only_owner(&acl, &p("owner")).is_ok());
}

#[test]
fn add_manager_denied_for_non_owner() {
    let mut acl = initialized();
    let r = api::add_manager(&mut acl, &p("mallory"), p("mallory"));
    assert!(matches!(r, Err(Error::PermissionDenied)));
    assert!(!api::is_manager(&acl, &p("mallory")));
}

#[test]
fn add_manager_denied_even_for_manager() {
    let mut acl = initialized();
    assert!(matches!(api::add_manager(&mut acl, &p("owner"), p("mandy")), Ok(true)));
    // A manager who is not the owner still may not appoint managers.
    let r = api::add_manager(&mut acl, &p("mandy"), p("eve"));
    assert!(matches!(r, Err(Error::PermissionDenied)));
}

#[test]
fn add_manager_by_owner_and_remove() {
    let mut acl = initialized();
    assert!(matches!(api::add_manager(&mut acl, &p("owner"), p("mandy")), Ok(true)));
    assert!(api::is_manager(&acl, &p("mandy")));
    // A second insertion reports that the identity was already there.
    assert!(matches!(api::add_manager(&mut acl, &p("owner"), p("mandy")), Ok(false)));
    assert!(matches!(api::remove_manager(&mut acl, &p("owner"), &p("mandy")), Ok(true)));
    assert!(!api::is_manager(&acl, &p("mandy")));
    assert!(matches!(api::remove_manager(&mut acl, &p("owner"), &p("mandy")), Ok(false)));
}

#[test]
fn add_accesser_denied_for_non_manager() {
    let mut acl = initialized();
    let r = api::add_accesser(&mut acl, &p("mallory"), p("mallory"));
    assert!(matches!(r, Err(Error::PermissionDenied)));
}

#[test]
fn accesser_lifecycle_by_manager() {
    let mut acl = initialized();
    assert!(matches!(api::add_accesser(&mut acl, &p("owner"), p("alice")), Ok(true)));
    assert!(matches!(api::add_accesser(&mut acl, &p("owner"), p("alice")), Ok(false)));
    assert!(api::only_allowed_accesser(&acl, &p("alice")).is_ok());
    assert!(matches!(
        api::only_allowed_accesser(&acl, &p("stranger")),
        Err(Error::PermissionDenied)
    ));
    assert!(matches!(api::remove_accesser(&mut acl, &p("owner"), &p("alice")), Ok(true)));
    assert!(matches!(
        api::only_allowed_accesser(&acl, &p("alice")),
        Err(Error::PermissionDenied)
    ));
}

#[test]
fn disabled_allow_list_admits_everyone() {
    let mut acl = initialized();
    assert!(matches!(api::set_acl_enabled(&mut acl, &p("owner"), false), Ok(())));
    assert!(api::only_allowed_accesser(&acl, &p("anyone")).is_ok());
    assert!(api::only_allowed_accesser(&acl, &p("someone-else")).is_ok());
    assert!(api::only_allowed_accesser(&acl, &p("")).is_ok());
}

#[test]
fn set_acl_enabled_denied_for_non_manager() {
    let mut acl = initialized();
    let r = api::set_acl_enabled(&mut acl, &p("mallory"), false);
    assert!(matches!(r, Err(Error::PermissionDenied)));
    // Enforcement still on: a stranger is still refused.
    assert!(matches!(
        api::only_allowed_accesser(&acl, &p("anyone")),
        Err(Error::PermissionDenied)
    ));
}

#[test]
fn states_gated_behind_manager() {
    let mut acl = initialized();
    assert!(matches!(api::states(&acl, &p("mallory")), Err(Error::PermissionDenied)));
    api::add_accesser(&mut acl, &p("owner"), p("alice")).unwrap();
    let snapshot = api::states(&acl, &p("owner")).expect("owner is a manager");
    assert_eq!(snapshot.owner.text().as_str(), "owner");
    assert!(snapshot.access_list_enabled);
    assert_eq!(snapshot.managers.len(), 1);
    assert_eq!(snapshot.accessers.len(), 1);
    assert_eq!(snapshot.accessers[0].text().as_str(), "alice");
}
