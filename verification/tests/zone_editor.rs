use argb_core::editor::{
    device_groups, forget_custom_effect, kept_on_save, name_to_save, is_empty_port, led_count_limit, preview_rows,
    set_zone_effect, variant_caption, zone_effect, zone_effect_label, zone_title, ZoneEffect,
};
use argb_core::settings::{EffectsMode, ZoneConfig};

fn zone(device: &str, zone_name: &str) -> ZoneConfig {
    ZoneConfig { device_name: device.into(), zone_name: zone_name.into(), ..ZoneConfig::default() }
}

#[test]
fn zones_group_by_device_in_first_seen_order() {
    let zones = vec![zone("Board", "H1"), zone("GPU", "G"), zone("Board", "H2"), zone("", "*2")];
    let groups = device_groups(&zones);
    assert_eq!(groups.len(), 3);
    assert_eq!(groups[0], ("Board".to_string(), vec![0, 2]));
    assert_eq!(groups[1], ("GPU".to_string(), vec![1]));
    assert_eq!(groups[2], (String::new(), vec![3]));
    assert!(device_groups(&Vec::new()).is_empty());
}

#[test]
fn effect_picker_shows_what_was_picked() {
    let mut z = zone("Board", "H1");
    assert!(matches!(zone_effect(&z), ZoneEffect::FollowGlobal));
    assert_eq!(zone_effect_label(&z), "Follow global effect");
    set_zone_effect(&mut z, ZoneEffect::Builtin(EffectsMode::Plasma));
    assert_eq!(z.effect_override, Some(EffectsMode::Plasma));
    assert_eq!(zone_effect_label(&z), "Plasma");
    set_zone_effect(&mut z, ZoneEffect::Custom("Dragon Fire".into()));
    assert!(z.effect_override.is_none());
    assert_eq!(zone_effect_label(&z), "★ Dragon Fire");
    assert!(matches!(zone_effect(&z), ZoneEffect::Custom(ref n) if n == "Dragon Fire"));
    set_zone_effect(&mut z, ZoneEffect::FollowGlobal);
    assert!(z.effect_override.is_none());
    assert!(z.custom_effect.is_none());
    assert_eq!(z.device_name, "Board");
}

#[test]
fn empty_ports_and_led_limits() {
    let mut z = ZoneConfig { resizable: true, ..ZoneConfig::default() };
    assert!(is_empty_port(&z));
    z.led_count = 10;
    assert!(!is_empty_port(&z));
    assert_eq!(led_count_limit(&z), 300);
    z.max_leds = 120;
    assert_eq!(led_count_limit(&z), 120);
}

#[test]
fn deleting_a_custom_effect_forgets_its_uses() {
    let mut zones = vec![
        ZoneConfig { custom_effect: Some("Lab".into()), enabled: true, ..zone("A", "1") },
        ZoneConfig { custom_effect: Some("Other".into()), ..zone("A", "2") },
        zone("B", "1"),
    ];
    let mut global = Some("Lab".to_string());
    forget_custom_effect(&mut zones, &mut global, "Lab");
    assert!(global.is_none());
    assert!(zones[0].custom_effect.is_none());
    assert!(zones[0].enabled);
    assert_eq!(zones[1].custom_effect.as_deref(), Some("Other"));
    assert!(zones[2].custom_effect.is_none());
    let mut global = Some("Other".to_string());
    forget_custom_effect(&mut zones, &mut global, "Lab");
    assert_eq!(global.as_deref(), Some("Other"));
}

#[test]
fn preview_shows_at_most_eight_live_zones() {
    let mut zones = Vec::new();
    for i in 0..12u32 {
        zones.push(ZoneConfig { enabled: i != 1, last_seen_leds: if i == 2 { 0 } else { 10 }, ..ZoneConfig::default() });
    }
    let (shown, more) = preview_rows(&zones);
    assert_eq!(shown, vec![0, 3, 4, 5, 6, 7, 8, 9]);
    assert_eq!(more, 2);
    let (shown, more) = preview_rows(&Vec::new());
    assert!(shown.is_empty());
    assert_eq!(more, 0);
}

#[test]
fn zone_titles_and_variant_captions() {
    let mut z = zone("Board", "H1");
    assert_eq!(zone_title(&z), "Board");
    z.display_name = "Fans".into();
    assert_eq!(zone_title(&z), "Fans");
    assert_eq!(variant_caption(EffectsMode::ThermalWave, 1), Some("Classic Wave"));
    assert_eq!(variant_caption(EffectsMode::ThermalWave, 9), Some("Lava Sea"));
    assert_eq!(variant_caption(EffectsMode::Solid, 0), None);
}

#[test]
fn every_zone_has_a_card() {
    let zones = vec![zone("A", "1"), zone("B", "1"), zone("A", "2"), zone("C", "x"), zone("B", "2")];
    let groups = device_groups(&zones);
    for (i, z) in zones.iter().enumerate() {
        let cards: Vec<_> = groups.iter().filter(|(d, idx)| *d == z.device_name && idx.contains(&i)).collect();
        assert_eq!(cards.len(), 1);
    }
    let total: usize = groups.iter().map(|(_, idx)| idx.len()).sum();
    assert_eq!(total, zones.len());
}

#[test]
fn saving_by_name_trims_refuses_empty_and_replaces() {
    assert_eq!(name_to_save("  My Rig \t"), Some("My Rig".to_string()));
    assert_eq!(name_to_save("   "), None);
    assert_eq!(name_to_save(""), None);
    let names = vec!["A".to_string(), "My Rig".to_string(), "B".to_string(), "My Rig".to_string()];
    assert_eq!(kept_on_save(&names, "My Rig"), vec![0, 2]);
    assert_eq!(kept_on_save(&names, "C"), vec![0, 1, 2, 3]);
}
