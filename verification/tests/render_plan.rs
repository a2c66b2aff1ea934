use argb_core::look::{choose_effect, choose_idle_effect, effect_label, EffectChoice};
use argb_core::openrgb::{ControllerInfo, ModeInfo};
use argb_core::render_map::{mode_to_reassert, plan_render_map, FrameAction, Resize, ResolvedZone, SensorHealth, MAX_STALE_READS};
use argb_core::settings::{EffectsMode, ZoneConfig};
use argb_core::zones::DetectedZone;

fn det(device_idx: u32, device: &str, zone: &str, zone_idx: i32, leds: u32, resizable: bool, max_leds: u32) -> DetectedZone {
    DetectedZone {
        device_idx,
        device_name: device.to_string(),
        device_type: 0,
        zone_name: zone.to_string(),
        zone_idx,
        leds,
        resizable,
        max_leds,
    }
}

fn cfg(device: &str, zone: &str, enabled: bool, led_count: u32) -> ZoneConfig {
    ZoneConfig {
        device_name: device.into(),
        zone_name: zone.into(),
        enabled,
        led_count,
        ..ZoneConfig::default()
    }
}

#[test]
fn plan_resizes_empty_headers_and_skips_disabled_zones() {
    let detected = vec![
        det(2, "Board", "Header 1", 0, 0, true, 120),
        det(2, "Board", "Header 2", 1, 30, true, 120),
        det(0, "GPU", "", -1, 12, false, 12),
    ];
    let cfgs = vec![
        cfg("Board", "Header 1", true, 60),
        cfg("Board", "Header 2", false, 0),
        cfg("GPU", "", true, 40),
    ];
    let plan = plan_render_map(&cfgs, &detected);
    assert_eq!(plan.resizes, vec![Resize { device: 2, zone: 0, leds: 60 }]);
    assert_eq!(plan.map.zones.len(), 2);
    assert_eq!(plan.map.zones[0].device, 2);
    assert_eq!(plan.map.zones[0].leds, 60);
    assert_eq!(plan.map.zones[0].cfg, 0);
    // A fixed-size device is capped at what it reports.
    assert_eq!(plan.map.zones[1].device, 0);
    assert_eq!(plan.map.zones[1].leds, 12);
    assert_eq!(plan.map.zones[1].zone_idx, -1);
    assert_eq!(plan.devices, vec![0, 2]);
    assert!(!plan.map.is_empty());
}

#[test]
fn oversized_counts_and_empty_zones_are_not_rendered() {
    let detected = vec![det(1, "Board", "Header 1", 0, 0, true, 50)];
    let plan = plan_render_map(&vec![cfg("Board", "Header 1", true, 80)], &detected);
    assert!(plan.resizes.is_empty());
    assert!(plan.map.is_empty());
    assert!(plan.devices.is_empty());
}

#[test]
fn a_detected_zone_is_claimed_once() {
    let detected = vec![det(0, "Board", "Addressable 2", 1, 30, true, 120)];
    let wildcard = ZoneConfig { zone_name: "*2".into(), enabled: true, ..ZoneConfig::default() };
    let exact = cfg("Board", "Addressable 2", true, 0);
    let plan = plan_render_map(&vec![wildcard, exact], &detected);
    assert_eq!(plan.map.zones.len(), 1);
    assert_eq!(plan.map.zones[0].cfg, 0);
    assert_eq!(plan.map.zones[0].leds, 30);
}

fn controller(active: i32, names: &[&str]) -> ControllerInfo {
    ControllerInfo {
        controller_type: 0,
        name: "dev".into(),
        active_mode: active,
        modes: names.iter().map(|n| ModeInfo { name: n.to_string(), ..ModeInfo::default() }).collect(),
        zones: Vec::new(),
        num_leds: 0,
    }
}

#[test]
fn mode_guard_reasserts_direct_only_when_changed() {
    assert_eq!(mode_to_reassert(1, &controller(1, &["Rainbow", "Direct"])), None);
    assert_eq!(mode_to_reassert(1, &controller(0, &["Rainbow", "Direct"])), Some(1));
    assert_eq!(mode_to_reassert(1, &controller(0, &["Rainbow", "Off"])), None);
}

#[test]
fn unchanged_frames_are_not_resent() {
    let mut z = ResolvedZone { device: 0, zone_idx: 0, leds: 2, cfg: 0, last_frame: Vec::new() };
    let frame = vec![[1u8, 2, 3], [4, 5, 6]];
    assert!(z.frame_changed(&frame));
    z.remember_frame(frame.clone());
    assert!(!z.frame_changed(&frame));
    assert!(z.frame_changed(&vec![[1u8, 2, 3], [4, 5, 7]]));
    assert!(z.frame_changed(&vec![[1u8, 2, 3]]));
}

#[test]
fn stale_sensor_reads_drop_the_view_after_the_limit() {
    let mut h = SensorHealth::new();
    for _ in 0..MAX_STALE_READS {
        assert!(!h.on_stale());
    }
    assert!(h.on_stale());
    assert_eq!(h.stale_reads, 0);
    h.on_stale();
    h.on_fresh();
    assert_eq!(h.stale_reads, 0);
}

#[test]
fn zone_effect_resolution() {
    let names = vec!["Mine".to_string()];
    let z = ZoneConfig { custom_effect: Some("Mine".into()), ..ZoneConfig::default() };
    assert_eq!(choose_effect(&z, EffectsMode::Plasma, &None, &names), EffectChoice::Custom(0));
    let ghost = ZoneConfig { custom_effect: Some("Ghost".into()), ..ZoneConfig::default() };
    assert_eq!(choose_effect(&ghost, EffectsMode::Plasma, &None, &names), EffectChoice::Builtin(EffectsMode::Plasma));
    let over = ZoneConfig { effect_override: Some(EffectsMode::Solid), ..ZoneConfig::default() };
    assert_eq!(
        choose_effect(&over, EffectsMode::Plasma, &Some("Mine".into()), &names),
        EffectChoice::Builtin(EffectsMode::Solid)
    );
    let plain = ZoneConfig::default();
    assert_eq!(choose_effect(&plain, EffectsMode::Plasma, &Some("Mine".into()), &names), EffectChoice::Custom(0));
    assert_eq!(choose_idle_effect(&Some("Mine".into()), EffectsMode::Breathing, &names), EffectChoice::Custom(0));
    assert_eq!(choose_idle_effect(&None, EffectsMode::Breathing, &names), EffectChoice::Builtin(EffectsMode::Breathing));
    assert_eq!(effect_label(&z, EffectsMode::Plasma, &None, &names), "★ Mine");
    assert_eq!(effect_label(&plain, EffectsMode::Plasma, &None, &names), "Plasma");
}

#[test]
fn frames_go_to_the_zone_or_the_whole_device() {
    let mut z = ResolvedZone { device: 1, zone_idx: 3, leds: 1, cfg: 0, last_frame: Vec::new() };
    let frame = vec![[9u8, 9, 9]];
    assert_eq!(z.frame_action(&frame), FrameAction::UpdateZone(3));
    z.remember_frame(frame.clone());
    assert_eq!(z.frame_action(&frame), FrameAction::Skip);
    let whole = ResolvedZone { device: 1, zone_idx: -1, leds: 1, cfg: 0, last_frame: Vec::new() };
    assert_eq!(whole.frame_action(&frame), FrameAction::UpdateLeds);
}
