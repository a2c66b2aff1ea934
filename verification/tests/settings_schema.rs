use argb_core::settings::{
    default_idle_effect, ColorConfig, EffectsMode, MotionKind, OverlayKind, TargetSource,
    ThermalBind, ZoneConfig,
};

#[test]
fn effective_leds_prefers_user_count_capped_by_max() {
    let mut z = ZoneConfig { led_count: 30, last_seen_leds: 120, max_leds: 0, ..ZoneConfig::default() };
    assert_eq!(z.effective_leds(), 30);
    z.led_count = 0;
    z.last_seen_leds = 72;
    assert_eq!(z.effective_leds(), 72);
    z.led_count = 500;
    z.max_leds = 120;
    assert_eq!(z.effective_leds(), 120);
}

#[test]
fn zone_defaults_are_blank_and_off() {
    let z = ZoneConfig::default();
    assert!(z.device_name.is_empty());
    assert!(!z.enabled);
    assert_eq!(z.target_source, TargetSource::Cpu);
    assert!(z.effect_override.is_none());
    assert!(z.custom_effect.is_none());
    assert!(z.colors_override.is_none());
    assert_eq!(z.effective_leds(), 0);
}

#[test]
fn stock_palette_is_thermal_alert() {
    let c = ColorConfig::default();
    assert_eq!(c.cold_color, [0, 255, 200]);
    assert_eq!(c.warm_color, [180, 0, 255]);
    assert_eq!(c.hot_color, [255, 10, 10]);
}

#[test]
fn effect_labels_and_variants() {
    assert_eq!(EffectsMode::ALL.len(), 17);
    assert_eq!(EffectsMode::ThermalWave.label(), "Thermal Wave");
    assert_eq!(EffectsMode::WaveCollide.label(), "Wave Collide");
    assert_eq!(EffectsMode::ThermalWave.variant_labels(), &["Lava Sea", "Classic Wave"]);
    assert!(EffectsMode::Solid.variant_labels().is_empty());
    assert!(!EffectsMode::Plasma.describe().is_empty());
    assert_eq!(default_idle_effect(), EffectsMode::Breathing);
}

#[test]
fn variant_index_is_clamped_to_the_effect() {
    assert_eq!(EffectsMode::ThermalWave.clamp_variant(5), 1);
    assert_eq!(EffectsMode::ThermalWave.clamp_variant(0), 0);
    assert_eq!(EffectsMode::Solid.clamp_variant(3), 0);
}

#[test]
fn target_sources_index_in_order() {
    for (i, s) in TargetSource::ALL.iter().enumerate() {
        assert_eq!(s.index(), i);
        assert!(!s.label().is_empty());
        assert!(!s.describe().is_empty());
    }
}

#[test]
fn building_block_labels() {
    assert_eq!(MotionKind::ALL.len(), 6);
    assert_eq!(OverlayKind::ALL.len(), 4);
    assert_eq!(ThermalBind::ALL.len(), 4);
    for m in MotionKind::ALL {
        assert!(!m.label().is_empty());
    }
    for o in OverlayKind::ALL {
        assert!(!o.label().is_empty());
    }
    for t in ThermalBind::ALL {
        assert!(!t.label().is_empty());
    }
}

#[test]
fn tuning_knob_labels() {
    assert_eq!(EffectsMode::LightTrail.intensity_label(), "Trail length");
    assert_eq!(EffectsMode::Plasma.intensity_label(), "Intensity");
    assert_eq!(EffectsMode::LightTrail.detail_label(), Some("Resolution"));
    assert_eq!(EffectsMode::Plasma.detail_label(), None);
    assert_eq!(TargetSource::Cpu.label(), "CPU °C");
    assert_eq!(OverlayKind::NoOverlay.label(), "None");
    assert_eq!(ThermalBind::Ignore.label(), "Ignore temperature");
}
