use argb_core::document::{migrate_v1, migrated_document, needs_v1_migration};
use serde_json::Value;

const V1: &str = r#"{
    "active_preset": "cpu and gpu",
    "ports": {
        "port_2": {
            "enabled": true, "led_count": 72,
            "target_source": "GPU", "description": "Front Fans (3 Strips)"
        },
        "port_3": {
            "enabled": true, "led_count": 96,
            "target_source": "CPU", "description": "Bottom Underglow (4 Strips)",
            "mode_override": "Solid"
        },
        "ram": {
            "enabled": false, "sticks": 2, "leds_per_stick": 10,
            "total_led_count": 20, "target_source": "CPU",
            "description": "Corsair Vengeance RGB DDR5"
        }
    },
    "custom_presets": [{
        "name": "old",
        "data": {
            "effects_mode": "ThermalWave",
            "ports": {
                "port_2": {"enabled": true, "led_count": 72, "target_source": "GPU", "description": "x"},
                "port_3": {"enabled": true, "led_count": 96, "target_source": "CPU", "description": "y"},
                "ram": {"enabled": false, "sticks": 2, "leds_per_stick": 10, "total_led_count": 20, "target_source": "CPU", "description": "z"}
            }
        }
    }]
}"#;

fn parse(text: &str) -> Value {
    serde_json::from_str(text).unwrap()
}

#[test]
fn v1_settings_files_migrate_to_zones() {
    let doc = migrated_document(V1).expect("v1 file must parse");
    assert!(doc.get("ports").is_none());
    assert_eq!(doc["active_preset"], "cpu and gpu");
    let zones = doc["zones"].as_array().unwrap();
    assert_eq!(zones.len(), 3);
    assert_eq!(zones[0]["zone_name"], "*2");
    assert_eq!(zones[0]["device_name"], "");
    assert_eq!(zones[0]["device_type"], 0);
    assert_eq!(zones[0]["enabled"], true);
    assert_eq!(zones[0]["led_count"], 72);
    assert_eq!(zones[0]["target_source"], "GPU");
    assert_eq!(zones[0]["display_name"], "Front Fans (3 Strips)");
    assert_eq!(zones[0]["effect_override"], Value::Null);
    assert_eq!(zones[0]["colors_override"], Value::Null);
    assert_eq!(zones[1]["zone_name"], "*3");
    assert_eq!(zones[1]["led_count"], 96);
    assert_eq!(zones[1]["effect_override"], "Solid");
    assert_eq!(zones[2]["zone_name"], "");
    assert_eq!(zones[2]["device_type"], 1);
    assert_eq!(zones[2]["enabled"], false);
    assert_eq!(zones[2]["led_count"], 0);
    assert_eq!(zones[2]["display_name"], "Corsair Vengeance RGB DDR5");
    // The preset snapshot migrates too.
    let data = &doc["custom_presets"][0]["data"];
    assert!(data.get("ports").is_none());
    assert_eq!(data["zones"].as_array().unwrap().len(), 3);
    assert_eq!(data["zones"][1]["display_name"], "y");
    assert_eq!(data["effects_mode"], "ThermalWave");
    assert_eq!(doc["custom_presets"][0]["name"], "old");
}

#[test]
fn migrating_twice_changes_nothing() {
    let once = migrated_document(V1).unwrap();
    assert!(!needs_v1_migration(&once));
    let mut twice = once.clone();
    migrate_v1(&mut twice);
    assert_eq!(once, twice);
}

#[test]
fn v2_documents_are_left_alone() {
    let text = r#"{"zones": [], "ports": {"port_2": {"enabled": true}}, "custom_presets": [{"name": "a", "data": {"zones": []}}]}"#;
    let before = parse(text);
    assert!(!needs_v1_migration(&before));
    let mut after = before.clone();
    migrate_v1(&mut after);
    assert_eq!(before, after);
}

#[test]
fn missing_ports_fields_become_null_and_absent_ports_are_skipped() {
    let mut v = parse(r#"{"ports": {"port_3": {}}}"#);
    assert!(needs_v1_migration(&v));
    migrate_v1(&mut v);
    let zones = v["zones"].as_array().unwrap();
    assert_eq!(zones.len(), 1);
    assert_eq!(zones[0]["zone_name"], "*3");
    assert_eq!(zones[0]["enabled"], Value::Null);
    assert_eq!(zones[0]["led_count"], Value::Null);
    assert_eq!(zones[0]["display_name"], Value::Null);
}

#[test]
fn only_presets_in_the_old_shape_are_rewritten() {
    let text = r#"{"zones": [], "custom_presets": [
        {"name": "new", "data": {"zones": [1]}},
        {"name": "old", "data": {"ports": {"ram": {"enabled": true}}}},
        "not an object"
    ]}"#;
    let mut v = parse(text);
    assert!(needs_v1_migration(&v));
    migrate_v1(&mut v);
    let presets = v["custom_presets"].as_array().unwrap();
    assert_eq!(presets[0], parse(r#"{"name": "new", "data": {"zones": [1]}}"#));
    assert_eq!(presets[1]["data"]["zones"][0]["device_type"], 1);
    assert_eq!(presets[1]["data"]["zones"][0]["enabled"], true);
    assert_eq!(presets[2], "not an object");
}

#[test]
fn non_objects_and_bad_text() {
    assert!(migrated_document("not json").is_none());
    assert_eq!(migrated_document("[1, 2]").unwrap(), parse("[1, 2]"));
    assert_eq!(migrated_document("{}").unwrap(), parse("{}"));
}
