use waybar_config::errors::SettingsError;
use waybar_config::live::LiveMirror;
use waybar_config::profile::{SaveWaybarConfigPayload, WaybarLayout};
use waybar_config::service::WaybarConfigService;

fn payload_from_snapshot(s: &WaybarConfigService) -> SaveWaybarConfigPayload {
    let snap = s.load_snapshot().unwrap();
    SaveWaybarConfigPayload {
        layout: snap.layout,
        modules: snap.modules,
        globals: snap.globals,
        passthrough: snap.passthrough,
        style_css: snap.style_css,
        module_styles: snap.module_styles,
    }
}

#[test]
fn fresh_snapshot_matches_the_template() {
    let s = WaybarConfigService::fresh();
    let snap = s.load_snapshot().unwrap();
    assert_eq!(snap.profile_id, "default");
    assert_eq!(snap.profile_name, "default");
    assert_eq!(snap.layout.left, vec!["clock".to_string()]);
    assert!(snap.layout.center.is_empty());
    assert_eq!(
        snap.layout.right,
        vec!["battery".to_string(), "network".to_string()]
    );
    assert_eq!(snap.modules.len(), 3);
    assert_eq!(snap.modules[0], ("clock".to_string(), "format=%H:%M".to_string()));
    assert_eq!(snap.globals, "position=top");
    assert!(snap.passthrough.is_empty());
    assert_eq!(snap.style_css, "* { font-family: monospace; }");
    assert!(snap.module_styles.is_empty());
}

#[test]
fn live_mirror_of_fresh_repository_is_exact() {
    let s = WaybarConfigService::fresh();
    assert_eq!(
        s.live.config_text,
        "[globals]\nposition=top\n[left]\nclock\n[center]\n[right]\nbattery\nnetwork\n\
         [modules]\nclock=format=%H:%M\nbattery=format=capacity\nnetwork=format=essid\n\
         [passthrough]\n"
    );
    assert_eq!(s.live.style_text, "* { font-family: monospace; }");
}

#[test]
fn save_snapshot_replaces_wholesale_and_returns_current_state() {
    let mut s = WaybarConfigService::fresh();
    let mut payload = payload_from_snapshot(&s);
    payload.layout = WaybarLayout {
        left: vec!["cpu".to_string()],
        center: vec!["clock".to_string()],
        right: vec![],
    };
    payload.modules = vec![
        ("cpu".to_string(), "format=load".to_string()),
        ("clock".to_string(), "format=%H".to_string()),
    ];
    payload.globals = "position=bottom".to_string();
    payload.passthrough = vec![("margin".to_string(), "4".to_string())];
    payload.style_css = ".cpu { color: red; }".to_string();
    payload.module_styles = vec![("cpu".to_string(), Some(".cpu {}".to_string()))];
    let snap = s.save_snapshot(&payload).unwrap();
    assert_eq!(snap.profile_id, "default");
    assert_eq!(snap.layout.left, vec!["cpu".to_string()]);
    assert_eq!(snap.layout.center, vec!["clock".to_string()]);
    assert!(snap.layout.right.is_empty());
    assert_eq!(snap.globals, "position=bottom");
    assert_eq!(snap.passthrough, vec![("margin".to_string(), "4".to_string())]);
    assert_eq!(snap.style_css, ".cpu { color: red; }");
    assert_eq!(
        snap.module_styles,
        vec![("cpu".to_string(), Some(".cpu {}".to_string()))]
    );
    // Live files follow the saved content.
    assert_eq!(s.live.style_text, ".cpu { color: red; }");
    assert!(s.live.config_text.contains("position=bottom"));
}

#[test]
fn save_snapshot_with_empty_module_styles_clears_them() {
    let mut s = WaybarConfigService::fresh();
    let mut payload = payload_from_snapshot(&s);
    payload.module_styles = vec![("clock".to_string(), Some(".clock {}".to_string()))];
    let snap = s.save_snapshot(&payload).unwrap();
    assert_eq!(snap.module_styles.len(), 1);

    // A payload with empty module_styles clears the stored overrides: the
    // defined whole-replace semantics, not a merge.
    let mut payload = payload_from_snapshot(&s);
    payload.module_styles = vec![];
    let snap = s.save_snapshot(&payload).unwrap();
    assert!(snap.module_styles.is_empty());
}

#[test]
fn save_snapshot_preserves_module_styles_only_when_copied_forward() {
    let mut s = WaybarConfigService::fresh();
    let mut payload = payload_from_snapshot(&s);
    payload.module_styles = vec![("clock".to_string(), Some(".clock {}".to_string()))];
    s.save_snapshot(&payload).unwrap();

    // The caller copies the current overrides forward, so they survive.
    let mut payload = payload_from_snapshot(&s);
    payload.style_css = ".new {}".to_string();
    let snap = s.save_snapshot(&payload).unwrap();
    assert_eq!(
        snap.module_styles,
        vec![("clock".to_string(), Some(".clock {}".to_string()))]
    );
    assert_eq!(snap.style_css, ".new {}");
}

#[test]
fn save_snapshot_rejects_duplicate_module_keys() {
    let mut s = WaybarConfigService::fresh();
    let mut payload = payload_from_snapshot(&s);
    payload.modules = vec![
        ("clock".to_string(), "a".to_string()),
        ("clock".to_string(), "b".to_string()),
    ];
    match s.save_snapshot(&payload) {
        Err(SettingsError::Validation(field)) => assert_eq!(field, "modules"),
        other => panic!("expected Validation, got {other:?}"),
    }
    let mut payload = payload_from_snapshot(&s);
    payload.module_styles = vec![
        ("clock".to_string(), None),
        ("clock".to_string(), Some(".x {}".to_string())),
    ];
    match s.save_snapshot(&payload) {
        Err(SettingsError::Validation(field)) => assert_eq!(field, "module_styles"),
        other => panic!("expected Validation, got {other:?}"),
    }
}

#[test]
fn style_round_trip_clears_module_styles() {
    let mut s = WaybarConfigService::fresh();
    let mut payload = payload_from_snapshot(&s);
    payload.module_styles = vec![("clock".to_string(), Some(".clock {}".to_string()))];
    s.save_snapshot(&payload).unwrap();

    let out = s.save_style_css(".bar { color: blue; }").unwrap();
    assert_eq!(out, ".bar { color: blue; }");
    assert_eq!(s.get_style_css().unwrap(), ".bar { color: blue; }");
    assert_eq!(s.live.style_text, ".bar { color: blue; }");
    // The whole-replace save submitted empty overrides, so they are gone.
    let snap = s.load_snapshot().unwrap();
    assert!(snap.module_styles.is_empty());
    // Unrelated fragments were copied forward by the operation itself.
    assert_eq!(snap.modules.len(), 3);
    assert_eq!(snap.globals, "position=top");
}

#[test]
fn reset_active_profile_restores_the_template() {
    let mut s = WaybarConfigService::fresh();
    s.create_profile("gruvbox").unwrap();
    s.select_profile("gruvbox").unwrap();
    let mut payload = payload_from_snapshot(&s);
    payload.globals = "position=bottom".to_string();
    payload.style_css = ".x {}".to_string();
    s.save_snapshot(&payload).unwrap();

    let snap = s.reset_active_profile_to_defaults().unwrap();
    // Identity is kept, content is the bundled template again.
    assert_eq!(snap.profile_id, "gruvbox");
    assert_eq!(snap.profile_name, "gruvbox");
    assert_eq!(snap.globals, "position=top");
    assert_eq!(snap.style_css, "* { font-family: monospace; }");
    assert_eq!(s.live.style_text, "* { font-family: monospace; }");
}

#[test]
fn from_parts_accepts_a_stored_repository() {
    let base = WaybarConfigService::fresh();
    let rebuilt = WaybarConfigService::from_parts(
        base.profiles,
        "default".to_string(),
        LiveMirror {
            config_text: String::new(),
            style_text: String::new(),
        },
    )
    .unwrap();
    let snap = rebuilt.load_snapshot().unwrap();
    assert_eq!(snap.profile_id, "default");
}

#[test]
fn from_parts_refuses_empty_and_duplicate_sets() {
    let empty_live = || LiveMirror {
        config_text: String::new(),
        style_text: String::new(),
    };
    match WaybarConfigService::from_parts(vec![], "default".to_string(), empty_live()) {
        Err(SettingsError::Corrupted) => {}
        other => panic!("expected Corrupted, got {other:?}"),
    }
    let a = WaybarConfigService::fresh();
    let b = WaybarConfigService::fresh();
    let mut profiles = a.profiles;
    profiles.extend(b.profiles);
    match WaybarConfigService::from_parts(profiles, "default".to_string(), empty_live()) {
        Err(SettingsError::Corrupted) => {}
        other => panic!("expected Corrupted, got {other:?}"),
    }
}

#[test]
fn dangling_active_pointer_surfaces_and_select_repairs_it() {
    let base = WaybarConfigService::fresh();
    let mut s = WaybarConfigService::from_parts(
        base.profiles,
        "missing".to_string(),
        LiveMirror {
            config_text: String::new(),
            style_text: String::new(),
        },
    )
    .unwrap();
    match s.load_snapshot() {
        Err(SettingsError::NotFound(id)) => assert_eq!(id, "missing"),
        other => panic!("expected NotFound, got {other:?}"),
    }
    match s.get_style_css() {
        Err(SettingsError::NotFound(_)) => {}
        other => panic!("expected NotFound, got {other:?}"),
    }
    // Selecting an existing profile repairs the pointer and the mirror.
    s.select_profile("default").unwrap();
    let snap = s.load_snapshot().unwrap();
    assert_eq!(snap.profile_id, "default");
    assert_eq!(s.live.style_text, snap.style_css);
}
