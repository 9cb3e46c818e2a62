use waybar_config::errors::SettingsError;
use waybar_config::service::{slugify, WaybarConfigService};

#[test]
fn fresh_repository_has_one_active_default() {
    let s = WaybarConfigService::fresh();
    let list = s.list_profiles();
    assert_eq!(list.profiles.len(), 1);
    assert_eq!(list.profiles[0].id, "default");
    assert_eq!(list.profiles[0].name, "default");
    assert!(list.profiles[0].is_active);
    assert_eq!(list.active_profile_id, "default");
}

#[test]
fn slug_derivation_lowers_and_joins() {
    assert_eq!(slugify("gruvbox"), "gruvbox");
    assert_eq!(slugify("Gruvbox Dark"), "gruvbox-dark");
    assert_eq!(slugify("My_Theme-2"), "my-theme-2");
    assert_eq!(slugify("Nord!"), "nord");
    assert_eq!(slugify("!!!"), "");
}

#[test]
fn slug_lowers_every_letter() {
    assert_eq!(
        slugify("ABCDEFGHIJKLMNOPQRSTUVWXYZ"),
        "abcdefghijklmnopqrstuvwxyz"
    );
}

#[test]
fn profile_lifecycle_scenario() {
    // Fresh repository with one default profile named "default".
    let mut s = WaybarConfigService::fresh();

    // Creating "gruvbox" adds a second profile and does not change the
    // active pointer.
    let resp = s.create_profile("gruvbox").unwrap();
    assert_eq!(resp.profiles.len(), 2);
    assert_eq!(resp.active_profile_id, "default");
    assert_eq!(resp.profiles[0].id, "default");
    assert!(resp.profiles[0].is_active);
    assert_eq!(resp.profiles[1].id, "gruvbox");
    assert_eq!(resp.profiles[1].name, "gruvbox");
    assert!(!resp.profiles[1].is_active);

    // Selecting "gruvbox" activates it and mirrors it into the live files.
    let resp = s.select_profile("gruvbox").unwrap();
    assert_eq!(resp.active_profile_id, "gruvbox");
    let snap = s.load_snapshot().unwrap();
    assert_eq!(snap.profile_id, "gruvbox");
    assert_eq!(s.live.style_text, snap.style_css);

    // Deleting "default" succeeds and the active pointer stays on
    // "gruvbox".
    let resp = s.delete_profile("default").unwrap();
    assert_eq!(resp.profiles.len(), 1);
    assert_eq!(resp.active_profile_id, "gruvbox");

    // Deleting the last remaining profile fails with a conflict and leaves
    // the repository unchanged.
    match s.delete_profile("gruvbox") {
        Err(SettingsError::Conflict(_)) => {}
        other => panic!("expected Conflict, got {other:?}"),
    }
    let list = s.list_profiles();
    assert_eq!(list.profiles.len(), 1);
    assert_eq!(list.active_profile_id, "gruvbox");
    assert!(list.profiles[0].is_active);
}

#[test]
fn create_duplicate_name_is_a_conflict() {
    let mut s = WaybarConfigService::fresh();
    s.create_profile("gruvbox").unwrap();
    match s.create_profile("gruvbox") {
        Err(SettingsError::Conflict(_)) => {}
        other => panic!("expected Conflict, got {other:?}"),
    }
    // The id is derived from the name, so differently written names can
    // still collide.
    match s.create_profile("GRUVBOX") {
        Err(SettingsError::Conflict(_)) => {}
        other => panic!("expected Conflict, got {other:?}"),
    }
    assert_eq!(s.list_profiles().profiles.len(), 2);
}

#[test]
fn create_with_unusable_name_is_rejected() {
    let mut s = WaybarConfigService::fresh();
    match s.create_profile("???") {
        Err(SettingsError::Validation(field)) => assert_eq!(field, "name"),
        other => panic!("expected Validation, got {other:?}"),
    }
    assert_eq!(s.list_profiles().profiles.len(), 1);
}

#[test]
fn select_missing_profile_is_not_found() {
    let mut s = WaybarConfigService::fresh();
    match s.select_profile("nord") {
        Err(SettingsError::NotFound(id)) => assert_eq!(id, "nord"),
        other => panic!("expected NotFound, got {other:?}"),
    }
    assert_eq!(s.list_profiles().active_profile_id, "default");
}

#[test]
fn delete_missing_profile_is_not_found() {
    let mut s = WaybarConfigService::fresh();
    match s.delete_profile("nord") {
        Err(SettingsError::NotFound(id)) => assert_eq!(id, "nord"),
        other => panic!("expected NotFound, got {other:?}"),
    }
    assert_eq!(s.list_profiles().profiles.len(), 1);
}

#[test]
fn delete_of_inactive_profile_keeps_active_and_live() {
    let mut s = WaybarConfigService::fresh();
    s.create_profile("gruvbox").unwrap();
    let live_before = s.live.config_text.clone();
    let resp = s.delete_profile("gruvbox").unwrap();
    assert_eq!(resp.active_profile_id, "default");
    assert_eq!(resp.profiles.len(), 1);
    assert_eq!(s.live.config_text, live_before);
}

#[test]
fn delete_of_active_profile_falls_back_to_first_remaining() {
    let mut s = WaybarConfigService::fresh();
    s.create_profile("gruvbox").unwrap();
    s.create_profile("nord").unwrap();
    s.select_profile("nord").unwrap();
    let resp = s.delete_profile("nord").unwrap();
    // Fallback is deterministic: the first remaining profile in stored
    // order.
    assert_eq!(resp.active_profile_id, "default");
    assert_eq!(resp.profiles.len(), 2);
    assert!(resp.profiles.iter().all(|p| p.id != "nord"));
    // The live mirror follows the fallback.
    let snap = s.load_snapshot().unwrap();
    assert_eq!(snap.profile_id, "default");
    assert_eq!(s.live.style_text, snap.style_css);
}

#[test]
fn repository_invariant_holds_under_call_sequences() {
    let mut s = WaybarConfigService::fresh();
    s.create_profile("one").unwrap();
    s.create_profile("two").unwrap();
    s.select_profile("two").unwrap();
    s.delete_profile("one").unwrap();
    s.delete_profile("two").unwrap();
    let _ = s.create_profile("three").unwrap();
    let _ = s.delete_profile("three");
    let list = s.list_profiles();
    // At least one profile remains and exactly one listed row is active,
    // and it is the one the active pointer names.
    assert!(!list.profiles.is_empty());
    let active: Vec<_> = list.profiles.iter().filter(|p| p.is_active).collect();
    assert_eq!(active.len(), 1);
    assert_eq!(active[0].id, list.active_profile_id);
}
