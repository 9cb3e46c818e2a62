use waybar_config::errors::SettingsError;
use waybar_config::settings::{
    default_settings, validate_and_sanitize_settings, AppSettings, SettingsStore, Theme,
    POLL_INTERVAL_MAX, POLL_INTERVAL_MIN,
};

fn sample(theme: Theme, autostart: bool, poll: u32, accent: &str) -> AppSettings {
    AppSettings {
        theme,
        autostart,
        poll_interval_secs: poll,
        accent_color: accent.to_string(),
    }
}

#[test]
fn defaults_are_valid_and_fixed() {
    let d = default_settings();
    assert_eq!(d.theme, Theme::Dark);
    assert!(!d.autostart);
    assert_eq!(d.poll_interval_secs, 5);
    assert_eq!(d.accent_color, "#7aa2f7");
    let v = validate_and_sanitize_settings(d).unwrap();
    assert_eq!(v.poll_interval_secs, 5);
    assert_eq!(v.accent_color, "#7aa2f7");
}

#[test]
fn validate_clamps_poll_interval_low() {
    let v = validate_and_sanitize_settings(sample(Theme::Light, true, 0, "#001122")).unwrap();
    assert_eq!(v.poll_interval_secs, POLL_INTERVAL_MIN);
}

#[test]
fn validate_clamps_poll_interval_high() {
    let v = validate_and_sanitize_settings(sample(Theme::Light, true, 999_999, "#001122")).unwrap();
    assert_eq!(v.poll_interval_secs, POLL_INTERVAL_MAX);
}

#[test]
fn validate_keeps_in_range_poll_interval() {
    let v = validate_and_sanitize_settings(sample(Theme::System, false, 120, "#AbCdEf")).unwrap();
    assert_eq!(v.poll_interval_secs, 120);
    assert_eq!(v.theme, Theme::System);
    assert_eq!(v.accent_color, "#AbCdEf");
}

#[test]
fn validate_rejects_bad_accent_color() {
    for bad in ["", "red", "#12345", "#1234567", "7aa2f7!", "#7aa2fg"] {
        match validate_and_sanitize_settings(sample(Theme::Dark, false, 5, bad)) {
            Err(SettingsError::Validation(field)) => assert_eq!(field, "accent_color"),
            other => panic!("expected a validation failure for {bad:?}, got {other:?}"),
        }
    }
}

#[test]
fn render_of_defaults_is_exact() {
    let d = default_settings();
    let text = waybar_config::codec::render_settings(&d);
    assert_eq!(
        text,
        "{\"theme\":\"dark\",\"autostart\":false,\"poll_interval_secs\":5,\"accent_color\":\"#7aa2f7\"}"
    );
}

#[test]
fn render_of_multi_digit_interval_is_exact() {
    let s = sample(Theme::System, true, 1234, "#001122");
    let text = waybar_config::codec::render_settings(&s);
    assert_eq!(
        text,
        "{\"theme\":\"system\",\"autostart\":true,\"poll_interval_secs\":1234,\"accent_color\":\"#001122\"}"
    );
    let back = waybar_config::codec::parse_settings(&text).unwrap();
    assert_eq!(back.poll_interval_secs, 1234);
}

#[test]
fn parse_inverts_render() {
    let s = sample(Theme::Light, true, 3600, "#A1B2C3");
    let text = waybar_config::codec::render_settings(&s);
    let back = waybar_config::codec::parse_settings(&text).unwrap();
    assert_eq!(back.theme, Theme::Light);
    assert!(back.autostart);
    assert_eq!(back.poll_interval_secs, 3600);
    assert_eq!(back.accent_color, "#A1B2C3");
}

#[test]
fn save_then_load_round_trips() {
    let mut store = SettingsStore::empty();
    let validated =
        validate_and_sanitize_settings(sample(Theme::System, true, 0, "#FF0000")).unwrap();
    store.save_settings(&validated);
    let loaded = store.load_settings().unwrap();
    assert_eq!(loaded.theme, Theme::System);
    assert!(loaded.autostart);
    assert_eq!(loaded.poll_interval_secs, POLL_INTERVAL_MIN);
    assert_eq!(loaded.accent_color, "#FF0000");
}

#[test]
fn load_with_absent_file_returns_defaults() {
    let store = SettingsStore::empty();
    let loaded = store.load_settings().unwrap();
    assert_eq!(loaded.theme, Theme::Dark);
    assert_eq!(loaded.poll_interval_secs, 5);
    assert_eq!(loaded.accent_color, "#7aa2f7");
    assert!(store.file.is_none());
}

#[test]
fn load_with_truncated_json_fails_and_keeps_file() {
    let text = "{\"theme\":\"da".to_string();
    let store = SettingsStore { file: Some(text.clone()) };
    match store.load_settings() {
        Err(SettingsError::JsonParse) | Err(SettingsError::Corrupted) => {}
        other => panic!("expected a parse failure, got {other:?}"),
    }
    assert_eq!(store.file.as_deref(), Some(text.as_str()));
}

#[test]
fn load_with_unknown_theme_word_fails() {
    let text = "{\"theme\":\"blue\",\"autostart\":false,\"poll_interval_secs\":5,\"accent_color\":\"#7aa2f7\"}";
    match waybar_config::codec::parse_settings(text) {
        Err(SettingsError::JsonParse) => {}
        other => panic!("expected JsonParse, got {other:?}"),
    }
}

#[test]
fn load_with_out_of_range_poll_is_corrupted() {
    let text = "{\"theme\":\"dark\",\"autostart\":false,\"poll_interval_secs\":0,\"accent_color\":\"#7aa2f7\"}";
    match waybar_config::codec::parse_settings(text) {
        Err(SettingsError::Corrupted) => {}
        other => panic!("expected Corrupted, got {other:?}"),
    }
    let text = "{\"theme\":\"dark\",\"autostart\":false,\"poll_interval_secs\":99999,\"accent_color\":\"#7aa2f7\"}";
    match waybar_config::codec::parse_settings(text) {
        Err(SettingsError::Corrupted) => {}
        other => panic!("expected Corrupted, got {other:?}"),
    }
}

#[test]
fn load_with_bad_accent_is_corrupted() {
    let text = "{\"theme\":\"dark\",\"autostart\":false,\"poll_interval_secs\":5,\"accent_color\":\"#7aa2fg\"}";
    match waybar_config::codec::parse_settings(text) {
        Err(SettingsError::Corrupted) => {}
        other => panic!("expected Corrupted, got {other:?}"),
    }
}

#[test]
fn load_with_trailing_text_fails() {
    let text = "{\"theme\":\"dark\",\"autostart\":false,\"poll_interval_secs\":5,\"accent_color\":\"#7aa2f7\"} ";
    match waybar_config::codec::parse_settings(text) {
        Err(SettingsError::JsonParse) => {}
        other => panic!("expected JsonParse, got {other:?}"),
    }
}

#[test]
fn load_with_zero_padded_number_fails() {
    let text = "{\"theme\":\"dark\",\"autostart\":false,\"poll_interval_secs\":05,\"accent_color\":\"#7aa2f7\"}";
    match waybar_config::codec::parse_settings(text) {
        Err(SettingsError::JsonParse) => {}
        other => panic!("expected JsonParse, got {other:?}"),
    }
}

#[test]
fn reset_to_defaults_is_idempotent() {
    let mut store = SettingsStore {
        file: Some("garbage".to_string()),
    };
    let first = store.reset_to_defaults();
    let file_after_first = store.file.clone();
    let second = store.reset_to_defaults();
    let d = default_settings();
    for r in [&first, &second] {
        assert_eq!(r.theme, d.theme);
        assert_eq!(r.autostart, d.autostart);
        assert_eq!(r.poll_interval_secs, d.poll_interval_secs);
        assert_eq!(r.accent_color, d.accent_color);
    }
    assert_eq!(store.file, file_after_first);
    let loaded = store.load_settings().unwrap();
    assert_eq!(loaded.accent_color, d.accent_color);
}

#[test]
fn error_kind_labels_are_stable() {
    assert_eq!(SettingsError::Corrupted.kind_label(), "corrupted");
    assert_eq!(SettingsError::JsonParse.kind_label(), "json-parse");
    assert_eq!(
        SettingsError::Validation("x".to_string()).kind_label(),
        "validation"
    );
    assert_eq!(
        SettingsError::NotFound("x".to_string()).kind_label(),
        "not-found"
    );
    assert_eq!(
        SettingsError::Conflict("x".to_string()).kind_label(),
        "conflict"
    );
    assert_eq!(
        SettingsError::FileRead("x".to_string()).kind_label(),
        "file-read"
    );
    assert_eq!(
        SettingsError::FileWrite("x".to_string()).kind_label(),
        "file-write"
    );
}
