use argb_core::openrgb::{ControllerInfo, ZoneInfo};
use argb_core::settings::{TargetSource, ZoneConfig};
use argb_core::zones::{
    device_emoji, device_kind_label, merge, zones_of, DetectedZone, DEVICE_TYPE_DRAM,
    DEVICE_TYPE_MOTHERBOARD,
};

fn det(device: &str, dtype: i32, zone: &str, leds: u32) -> DetectedZone {
    DetectedZone {
        device_idx: 0,
        device_name: device.to_string(),
        device_type: dtype,
        zone_name: zone.to_string(),
        zone_idx: 0,
        leds,
        resizable: dtype == DEVICE_TYPE_MOTHERBOARD,
        max_leds: 120,
    }
}

fn legacy_port(suffix: &str, enabled: bool, leds: u32) -> ZoneConfig {
    ZoneConfig {
        zone_name: format!("*{suffix}"),
        enabled,
        led_count: leds,
        ..ZoneConfig::default()
    }
}

#[test]
fn legacy_wildcards_concretize_and_keep_settings() {
    let mut cfgs = vec![legacy_port("2", true, 72)];
    let detected = vec![
        det("ASUS PRIME X670-P WIFI", 0, "Aura Addressable 1", 0),
        det("ASUS PRIME X670-P WIFI", 0, "Aura Addressable 2", 72),
    ];
    merge(&mut cfgs, &detected);
    let hit = cfgs
        .iter()
        .find(|c| c.zone_name == "Aura Addressable 2")
        .expect("wildcard resolved");
    assert!(hit.enabled);
    assert_eq!(hit.led_count, 72);
    assert_eq!(hit.device_name, "ASUS PRIME X670-P WIFI");
    // The empty header shows up too, disabled and ready to activate.
    let empty = cfgs
        .iter()
        .find(|c| c.zone_name == "Aura Addressable 1")
        .expect("inactive header listed");
    assert!(!empty.enabled);
    assert_eq!(empty.last_seen_leds, 0);
    assert!(empty.resizable);
}

#[test]
fn dram_wildcard_expands_to_every_stick() {
    let mut cfgs = vec![ZoneConfig {
        device_type: DEVICE_TYPE_DRAM,
        enabled: true,
        ..ZoneConfig::default()
    }];
    let detected = vec![
        det("Corsair Vengeance RGB DDR5", 1, "DRAM", 10),
        det("Corsair Vengeance RGB DDR5 #2", 1, "DRAM", 10),
    ];
    merge(&mut cfgs, &detected);
    assert_eq!(cfgs.iter().filter(|c| c.device_type == 1 && c.enabled).count(), 2);
}

#[test]
fn absent_hardware_is_kept_not_deleted() {
    let mut cfgs = vec![ZoneConfig {
        device_name: "Unplugged Keyboard".into(),
        zone_name: "Keys".into(),
        enabled: true,
        ..ZoneConfig::default()
    }];
    merge(&mut cfgs, &[det("GPU", 2, "GPU zone", 12)]);
    assert!(cfgs.iter().any(|c| c.device_name == "Unplugged Keyboard" && c.enabled));
    assert!(cfgs.iter().any(|c| c.device_name == "GPU" && !c.enabled));
}

#[test]
fn repeated_merge_is_stable() {
    let detected = vec![det("Board", 0, "Header 1", 30), det("GPU", 2, "GPU zone", 12)];
    let mut cfgs = Vec::new();
    merge(&mut cfgs, &detected);
    let first = cfgs.clone();
    merge(&mut cfgs, &detected);
    assert_eq!(first, cfgs);
}

#[test]
fn merge_refreshes_detection_metadata_and_keeps_user_choices() {
    let mut cfgs = vec![ZoneConfig {
        device_name: "Board".into(),
        zone_name: "Header 1".into(),
        display_name: "Front fans".into(),
        enabled: true,
        led_count: 24,
        target_source: TargetSource::Gpu,
        last_seen_leds: 5,
        ..ZoneConfig::default()
    }];
    merge(&mut cfgs, &[det("Board", 0, "Header 1", 30)]);
    assert_eq!(cfgs.len(), 1);
    let z = &cfgs[0];
    assert_eq!(z.display_name, "Front fans");
    assert!(z.enabled);
    assert_eq!(z.led_count, 24);
    assert_eq!(z.target_source, TargetSource::Gpu);
    assert_eq!(z.last_seen_leds, 30);
    assert!(z.resizable);
    assert_eq!(z.max_leds, 120);
}

#[test]
fn new_zones_arrive_disabled_with_a_friendly_name() {
    let mut cfgs = Vec::new();
    merge(&mut cfgs, &[det("GPU", 2, "GPU zone", 12)]);
    assert_eq!(cfgs.len(), 1);
    assert!(!cfgs[0].enabled);
    assert_eq!(cfgs[0].device_name, "GPU");
    assert_eq!(cfgs[0].zone_name, "GPU zone");
    assert_eq!(cfgs[0].last_seen_leds, 12);
    assert_eq!(cfgs[0].display_name, det("GPU", 2, "GPU zone", 12).friendly_name());
}

#[test]
fn wildcards_match_by_suffix_and_device_type() {
    let mobo = det("Board", DEVICE_TYPE_MOTHERBOARD, "Aura Addressable 2", 0);
    assert!(argb_core::zones::matches(&legacy_port("2", true, 0), &mobo));
    assert!(!argb_core::zones::matches(&legacy_port("3", true, 0), &mobo));
    let ram_wildcard = ZoneConfig { device_type: DEVICE_TYPE_DRAM, ..ZoneConfig::default() };
    assert!(argb_core::zones::matches(&ram_wildcard, &det("Stick", DEVICE_TYPE_DRAM, "DRAM", 10)));
    assert!(!argb_core::zones::matches(&ram_wildcard, &mobo));
    let exact = ZoneConfig {
        device_name: "Board".into(),
        zone_name: "Aura Addressable 2".into(),
        ..ZoneConfig::default()
    };
    assert!(argb_core::zones::matches(&exact, &mobo));
    let other = ZoneConfig { device_name: "Other".into(), ..exact.clone() };
    assert!(!argb_core::zones::matches(&other, &mobo));
}

#[test]
fn controller_zones_are_listed_or_whole_device() {
    let with_zones = ControllerInfo {
        controller_type: 0,
        name: "Board".into(),
        active_mode: 0,
        modes: Vec::new(),
        zones: vec![
            ZoneInfo { name: "Header 1".into(), zone_type: 1, leds_min: 0, leds_max: 120, leds_count: 30 },
            ZoneInfo { name: "Header 2".into(), zone_type: 1, leds_min: 10, leds_max: 10, leds_count: 10 },
        ],
        num_leds: 40,
    };
    let list = zones_of(4, &with_zones);
    assert_eq!(list.len(), 2);
    assert_eq!(list[0].device_idx, 4);
    assert_eq!(list[0].zone_idx, 0);
    assert_eq!(list[1].zone_idx, 1);
    assert_eq!(list[0].leds, 30);
    assert!(list[0].resizable);
    assert!(!list[1].resizable);
    let whole = ControllerInfo { zones: Vec::new(), num_leds: 8, ..with_zones };
    let list = zones_of(1, &whole);
    assert_eq!(list.len(), 1);
    assert_eq!(list[0].zone_idx, -1);
    assert_eq!(list[0].zone_name, "");
    assert_eq!(list[0].leds, 8);
}

#[test]
fn device_kinds_have_labels() {
    assert_eq!(device_kind_label(DEVICE_TYPE_MOTHERBOARD), "Motherboard ARGB header");
    assert_eq!(device_kind_label(DEVICE_TYPE_DRAM), "RAM stick");
    assert_eq!(device_emoji(2), "🎮");
    assert_eq!(device_emoji(7), "💡");
    assert_eq!(device_kind_label(999), "RGB device");
}
