use resonance::messages::{HotkeyConfig, RoleSet};
use resonance::single::Single;
use resonance::store::{
    EndpointProfile, Position, ProfileStore, SessionEntry, Settings, SettingsDocument,
};
use resonance::table::Table;
use resonance::time::Timestamp;
use serde_json::Value;

fn single(x: f32) -> Single {
    Single { bits: x.to_bits() }
}

fn number(x: Single) -> f32 {
    f32::from_bits(x.bits)
}

fn read_single(value: &Value) -> Single {
    single(value.as_f64().expect("a number") as f32)
}

fn read_position(value: Option<&Value>) -> Option<Position> {
    let pair = value?.as_array()?;
    Some(Position { x: read_single(&pair[0]), y: read_single(&pair[1]) })
}

fn read_flag(value: &Value, key: &str) -> bool {
    value.get(key).and_then(Value::as_bool).expect("a flag")
}

/// The settings of a document, with the keys that it does not hold left out.
fn read_settings(value: &Value) -> SettingsDocument {
    SettingsDocument {
        switch_roles: value.get("switch_roles").map(|roles| RoleSet {
            console: read_flag(roles, "console"),
            multimedia: read_flag(roles, "multimedia"),
            communications: read_flag(roles, "communications"),
        }),
        overlay_position: read_position(value.get("overlay_position")),
        overlay_opacity: value.get("overlay_opacity").map(read_single),
        autostart: value.get("autostart").and_then(Value::as_bool),
        prune_after_days: value.get("prune_after_days").and_then(Value::as_u64).map(|n| n as u32),
        hotkey: value.get("hotkey").map(|hotkey| HotkeyConfig {
            ctrl: read_flag(hotkey, "ctrl"),
            alt: read_flag(hotkey, "alt"),
            shift: read_flag(hotkey, "shift"),
            win: read_flag(hotkey, "win"),
            key: hotkey.get("key").and_then(Value::as_u64).expect("a code") as u32,
        }),
        widget_visible: value.get("widget_visible").and_then(Value::as_bool),
        widget_position: read_position(value.get("widget_position")),
    }
}

fn settings_from(json: &str) -> Settings {
    let value: Value = serde_json::from_str(json).expect("deserialize");
    read_settings(&value).into_settings()
}

fn read_time(value: &Value) -> Timestamp {
    let secs = value.get("secs").and_then(Value::as_u64).expect("seconds");
    let nanos = value.get("nanos").and_then(Value::as_u64).expect("nanoseconds");
    Timestamp::from_unix(secs, nanos as u32).expect("in range")
}

#[test]
fn profile_store_default_has_schema_version_1() {
    let store = ProfileStore::default();
    assert_eq!(store.schema_version, 1);
    assert!(store.endpoints.is_empty());
    assert_eq!(store.settings, Settings::default());
}

#[test]
fn settings_default_matches_spec() {
    let settings = Settings::default();
    assert_eq!(settings.switch_roles, RoleSet::all());
    assert_eq!(settings.overlay_position, None);
    assert_eq!(number(settings.overlay_opacity), 0.9);
    assert!(!settings.autostart);
    assert_eq!(settings.prune_after_days, 90);
    assert_eq!(settings.hotkey, HotkeyConfig::default());
    assert!(settings.widget_visible);
    assert_eq!(settings.widget_position, None);
}

#[test]
fn profile_store_from_document_without_hotkey_key_loads() {
    let json = r#"{
        "schema_version": 1,
        "endpoints": {
            "{endpoint-guid}": {
                "friendly_name": "Speakers",
                "last_seen": { "secs": 1726000000, "nanos": 0 },
                "sessions": {
                    "spotify.exe": {
                        "volume": 0.1,
                        "muted": false,
                        "updated_at": { "secs": 1726000000, "nanos": 0 }
                    }
                }
            }
        },
        "settings": {
            "switch_roles": {
                "console": true,
                "multimedia": false,
                "communications": true
            },
            "overlay_position": [120.0, 240.0],
            "overlay_opacity": 0.75,
            "autostart": true,
            "prune_after_days": 30
        }
    }"#;
    let value: Value = serde_json::from_str(json).expect("deserialize");
    let mut endpoints: Table<EndpointProfile> = Table::new();
    for (id, profile) in value["endpoints"].as_object().expect("endpoints") {
        let mut sessions: Table<SessionEntry> = Table::new();
        for (process, entry) in profile["sessions"].as_object().expect("sessions") {
            sessions.insert(
                process.clone(),
                SessionEntry {
                    volume: read_single(&entry["volume"]),
                    muted: read_flag(entry, "muted"),
                    updated_at: read_time(&entry["updated_at"]),
                },
            );
        }
        endpoints.insert(
            id.clone(),
            EndpointProfile {
                friendly_name: profile["friendly_name"].as_str().expect("a name").to_string(),
                last_seen: read_time(&profile["last_seen"]),
                sessions,
            },
        );
    }
    let store = ProfileStore {
        schema_version: 1,
        endpoints,
        settings: read_settings(&value["settings"]).into_settings(),
    };

    // The one absent field falls back to the product default.
    assert_eq!(store.settings.hotkey, HotkeyConfig::default());

    // Everything present is taken from the document, not from the default.
    assert_eq!(
        store.settings.switch_roles,
        RoleSet { console: true, multimedia: false, communications: true }
    );
    assert_eq!(
        store.settings.overlay_position,
        Some(Position { x: single(120.0), y: single(240.0) })
    );
    assert_eq!(number(store.settings.overlay_opacity), 0.75);
    assert!(store.settings.autostart);
    assert_eq!(store.settings.prune_after_days, 30);

    // And the real payload survives.
    let endpoint = store.endpoints.get("{endpoint-guid}").expect("endpoint preserved");
    assert_eq!(endpoint.friendly_name, "Speakers");
    assert_eq!(
        number(endpoint.sessions.get("spotify.exe").expect("session preserved").volume),
        0.1
    );
}

#[test]
fn settings_missing_keys_fall_back_to_product_defaults() {
    let settings = settings_from("{}");

    assert_eq!(settings.switch_roles, RoleSet::all());
    assert_ne!(settings.switch_roles, RoleSet::default());
    assert_eq!(number(settings.overlay_opacity), 0.9);
    assert_eq!(settings.prune_after_days, 90);
    assert_eq!(settings.overlay_position, None);
    assert!(!settings.autostart);
    assert_eq!(settings.hotkey, HotkeyConfig::default());
    assert_eq!(settings, Settings::default());
}

#[test]
fn settings_single_missing_key_defaults_only_that_field() {
    let without_opacity = settings_from(
        r#"{
            "switch_roles": {
                "console": false,
                "multimedia": true,
                "communications": false
            },
            "overlay_position": null,
            "autostart": true,
            "prune_after_days": 7
        }"#,
    );
    assert_eq!(number(without_opacity.overlay_opacity), 0.9);
    assert_eq!(without_opacity.prune_after_days, 7);
    assert!(without_opacity.autostart);
    assert_eq!(
        without_opacity.switch_roles,
        RoleSet { console: false, multimedia: true, communications: false }
    );

    let without_prune = settings_from(
        r#"{
            "overlay_opacity": 0.25,
            "autostart": false
        }"#,
    );
    assert_eq!(without_prune.prune_after_days, 90);
    assert_eq!(number(without_prune.overlay_opacity), 0.25);
    assert_eq!(without_prune.switch_roles, RoleSet::all());
}

#[test]
fn settings_present_role_set_key_still_uses_the_shim_deserializer() {
    let settings = settings_from(
        r#"{
            "switch_roles": {
                "console": false,
                "multimedia": false,
                "communications": true
            }
        }"#,
    );
    assert_eq!(
        settings.switch_roles,
        RoleSet { console: false, multimedia: false, communications: true }
    );
    assert_eq!(settings.hotkey, HotkeyConfig::default());
}

#[test]
fn a_full_document_gives_back_its_settings() {
    let settings = Settings {
        switch_roles: RoleSet { console: true, multimedia: false, communications: true },
        hotkey: HotkeyConfig { ctrl: false, alt: true, shift: true, win: true, key: 0x20 },
        overlay_position: Some(Position { x: single(1.5), y: single(-2.0) }),
        prune_after_days: 0,
        widget_visible: false,
        ..Settings::default()
    };
    assert_eq!(SettingsDocument::of_settings(&settings).into_settings(), settings);
}

#[test]
fn stores_are_the_same_whatever_the_order_of_their_entries() {
    let profile = |name: &str| EndpointProfile {
        friendly_name: name.to_string(),
        last_seen: Timestamp { secs: 5, nanos: 0 },
        sessions: Table::new(),
    };
    let mut a = ProfileStore::default();
    a.endpoints.insert("x".to_string(), profile("X"));
    a.endpoints.insert("y".to_string(), profile("Y"));
    let mut b = ProfileStore::default();
    b.endpoints.insert("y".to_string(), profile("Y"));
    assert!(!a.same(&b));
    b.endpoints.insert("x".to_string(), profile("X"));
    assert!(a.same(&b));
    b.endpoints.insert("x".to_string(), profile("Z"));
    assert!(!a.same(&b));
}
