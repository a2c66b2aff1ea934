use argb_core::presets::{
    builtin_index, builtin_look, builtin_presets, reset_baseline, PresetTuning,
    DEFAULT_BRIGHTNESS_PCT, STEALTH_BRIGHTNESS_PCT,
};
use argb_core::look::{choose_effect, EffectChoice};
use argb_core::settings::{ColorConfig, EffectsMode, ZoneConfig};

#[test]
fn every_builtin_applies() {
    for p in &builtin_presets() {
        assert!(builtin_look(p.name).is_some(), "{} did not apply", p.name);
    }
    assert!(builtin_look("Nope").is_none());
}

#[test]
fn every_card_selects_its_own_preset() {
    for (i, p) in builtin_presets().iter().enumerate() {
        assert_eq!(builtin_index(p.name), Some(i));
    }
    assert_eq!(builtin_index("thermal alert"), None);
    assert_eq!(builtin_index(""), None);
}

#[test]
fn presets_clear_zone_overrides() {
    let mut zones = vec![ZoneConfig {
        device_name: "Board".into(),
        zone_name: "Header 1".into(),
        effect_override: Some(EffectsMode::Solid),
        ..ZoneConfig::default()
    }];
    let mut global_custom = None;
    reset_baseline(&mut zones, &mut global_custom);
    assert!(zones[0].effect_override.is_none());
    let look = builtin_look("Ice & Fire").unwrap();
    assert_eq!(look.colors.unwrap().cold_color, [110, 195, 255]);
}

#[test]
fn preset_baseline_leaves_no_custom_effect_in_charge() {
    let mut zones = vec![ZoneConfig {
        device_name: "Board".into(),
        zone_name: "Header 1".into(),
        effect_override: Some(EffectsMode::Solid),
        colors_override: Some(ColorConfig::default()),
        custom_effect: Some("Mine".into()),
        enabled: true,
        led_count: 12,
        ..ZoneConfig::default()
    }];
    let mut global_custom = Some("Mine".to_string());
    reset_baseline(&mut zones, &mut global_custom);
    assert!(global_custom.is_none());
    assert!(zones[0].effect_override.is_none());
    assert!(zones[0].colors_override.is_none());
    assert!(zones[0].custom_effect.is_none());
    // Everything else about the zone is kept.
    assert!(zones[0].enabled);
    assert_eq!(zones[0].led_count, 12);
    assert_eq!(zones[0].device_name, "Board");
    let names = vec!["Mine".to_string()];
    assert_eq!(
        choose_effect(&zones[0], EffectsMode::Plasma, &global_custom, &names),
        EffectChoice::Builtin(EffectsMode::Plasma)
    );
}

#[test]
fn stealth_dark_dims_to_15_percent() {
    let look = builtin_look("Stealth Dark").unwrap();
    assert_eq!(look.brightness_pct, 15);
    assert_eq!(look.brightness_pct, STEALTH_BRIGHTNESS_PCT);
    assert_eq!(look.effects_mode, EffectsMode::Breathing);
}

#[test]
fn presets_restore_brightness_after_stealth_dark() {
    assert_eq!(builtin_look("Stealth Dark").unwrap().brightness_pct, 15);
    assert_eq!(builtin_look("Thermal Alert").unwrap().brightness_pct, DEFAULT_BRIGHTNESS_PCT);
    for p in &builtin_presets() {
        let look = builtin_look(p.name).unwrap();
        let expected = if p.name == "Stealth Dark" { 15 } else { 70 };
        assert_eq!(look.brightness_pct, expected, "{}", p.name);
    }
}

#[test]
fn preset_looks_in_detail() {
    let thermal = builtin_look("Thermal Alert").unwrap();
    assert_eq!(thermal.effects_mode, EffectsMode::ThermalWave);
    assert_eq!(thermal.tuning, Some(PresetTuning { speed_pct: 120, intensity_pct: 70, variant: 1 }));
    let spectrum = builtin_look("Smooth Spectrum Wave").unwrap();
    assert_eq!(spectrum.effects_mode, EffectsMode::SpectrumWave);
    assert!(spectrum.colors.is_none());
    assert!(spectrum.tuning.is_none());
    let ember = builtin_look("Molten Ember").unwrap();
    assert_eq!(ember.effects_mode, EffectsMode::EmberFlicker);
    assert_eq!(ember.tuning, Some(PresetTuning { speed_pct: 100, intensity_pct: 65, variant: 1 }));
    assert_eq!(ember.colors.unwrap().hot_color, [255, 220, 120]);
    let comet = builtin_look("Comet Storm").unwrap();
    assert_eq!(comet.effects_mode, EffectsMode::CometChase);
    let vapor = builtin_look("Vaporwave Sunset").unwrap();
    assert_eq!(vapor.effects_mode, EffectsMode::GradientPulse);
    assert!(vapor.tuning.is_none());
    let cards = builtin_presets();
    assert_eq!(cards.len(), 9);
    assert_eq!(cards[0].swatch, [[0, 255, 200], [180, 0, 255], [255, 10, 10]]);
}
