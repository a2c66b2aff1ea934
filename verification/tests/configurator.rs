use argb_core::gui::{
    after_install, afterburner_start_script, effect_menu_id, openrgb_start_script,
    repaint_delay_ms, reset_zones_for_fix, tray_command, AfterInstall, SetupBanner, SetupFacts, Tab,
    TrayCommand,
};
use argb_core::settings::{ColorConfig, EffectsMode, ZoneConfig};

fn facts(connected: bool, installed: bool, ab: bool, installing: bool, dismissed: bool) -> SetupFacts {
    SetupFacts {
        openrgb_connected: connected,
        openrgb_installed: installed,
        afterburner_ok: ab,
        installing,
        dismissed,
    }
}

#[test]
fn tabs_have_captions_and_descriptions() {
    assert_eq!(Tab::ALL.len(), 5);
    assert_eq!(Tab::Presets.label(), "🎨 Presets & Themes");
    assert_eq!(Tab::Advanced.label(), "⚙ Advanced");
    assert_eq!(
        Tab::Advanced.describe(),
        "FPS, smoothing, brightness safety — and the fix-it buttons."
    );
    for t in Tab::ALL {
        assert!(!t.describe().is_empty());
    }
}

#[test]
fn setup_banner_priorities() {
    assert_eq!(facts(true, true, true, false, false).banner(), SetupBanner::Hidden);
    assert!(!facts(true, true, true, false, false).needs_attention());
    assert_eq!(facts(false, false, false, true, false).banner(), SetupBanner::Installing);
    assert_eq!(facts(false, false, false, false, false).banner(), SetupBanner::InstallOpenRgb);
    assert_eq!(facts(false, true, false, false, false).banner(), SetupBanner::StartOpenRgb);
    assert_eq!(facts(true, true, false, false, false).banner(), SetupBanner::Afterburner);
    // Dismissed hides everything.
    assert_eq!(facts(false, false, false, true, true).banner(), SetupBanner::Hidden);
    assert!(!facts(false, false, false, false, true).needs_attention());
}

#[test]
fn finished_installs_start_the_right_program() {
    assert_eq!(after_install("OpenRGB"), AfterInstall::StartOpenRgb);
    assert_eq!(after_install("MSI Afterburner"), AfterInstall::StartAfterburner);
}

#[test]
fn fix_my_rgb_switches_on_every_zone_with_leds() {
    let mut zones = vec![
        ZoneConfig {
            led_count: 0,
            last_seen_leds: 30,
            effect_override: Some(EffectsMode::Solid),
            custom_effect: Some("Mine".into()),
            colors_override: Some(ColorConfig::default()),
            ..ZoneConfig::default()
        },
        ZoneConfig { led_count: 0, last_seen_leds: 0, ..ZoneConfig::default() },
        ZoneConfig { enabled: true, led_count: 0, last_seen_leds: 0, ..ZoneConfig::default() },
        ZoneConfig { led_count: 12, ..ZoneConfig::default() },
    ];
    let enabled = reset_zones_for_fix(&mut zones);
    assert_eq!(enabled, 2);
    assert!(zones[0].enabled);
    assert!(zones[0].effect_override.is_none());
    assert!(zones[0].custom_effect.is_none());
    assert!(zones[0].colors_override.is_none());
    assert!(!zones[1].enabled);
    assert!(zones[2].enabled);
    assert!(zones[3].enabled);
}

#[test]
fn tray_ids_decode_to_commands() {
    assert_eq!(tray_command("open"), TrayCommand::Open);
    assert_eq!(tray_command("quit"), TrayCommand::Quit);
    assert_eq!(tray_command("stop_quit"), TrayCommand::StopAndQuit);
    assert_eq!(tray_command("effect:0"), TrayCommand::Effect(EffectsMode::ThermalWave));
    assert_eq!(tray_command("effect:16"), TrayCommand::Effect(EffectsMode::WaveCollide));
    assert_eq!(tray_command("effect:+3"), TrayCommand::Effect(EffectsMode::Breathing));
    assert_eq!(tray_command("effect:007"), TrayCommand::Effect(EffectsMode::AuroraDrift));
    assert_eq!(tray_command("effect:17"), TrayCommand::Ignore);
    assert_eq!(tray_command("effect:99999999999999999999999"), TrayCommand::Ignore);
    assert_eq!(tray_command("effect:"), TrayCommand::Ignore);
    assert_eq!(tray_command("effect:+"), TrayCommand::Ignore);
    assert_eq!(tray_command("effect:-1"), TrayCommand::Ignore);
    assert_eq!(tray_command("effect:1a"), TrayCommand::Ignore);
    assert_eq!(tray_command("Open"), TrayCommand::Ignore);
    assert_eq!(tray_command(""), TrayCommand::Ignore);
}

#[test]
fn every_effect_menu_item_round_trips() {
    for (i, mode) in EffectsMode::ALL.iter().enumerate() {
        let id = effect_menu_id(i);
        assert_eq!(id, format!("effect:{i}"));
        assert_eq!(tray_command(&id), TrayCommand::Effect(*mode));
    }
    assert_eq!(effect_menu_id(1234), "effect:1234");
}

#[test]
fn repaint_pacing() {
    assert_eq!(repaint_delay_ms(true, true), 1000);
    assert_eq!(repaint_delay_ms(false, true), 1000);
    assert_eq!(repaint_delay_ms(true, false), 33);
    assert_eq!(repaint_delay_ms(false, false), 100);
}

#[test]
fn helper_start_scripts() {
    assert_eq!(
        openrgb_start_script(r"C:\Program Files\OpenRGB\OpenRGB.exe"),
        r"Start-Process -FilePath 'C:\Program Files\OpenRGB\OpenRGB.exe' -ArgumentList '--server','--startminimized' -Verb RunAs"
    );
    assert_eq!(afterburner_start_script("ab.exe"), "Start-Process -FilePath 'ab.exe'");
}

#[test]
fn setup_starts_optimistic() {
    let f = SetupFacts::new(false, true);
    assert!(f.openrgb_connected);
    assert!(!f.openrgb_installed);
    assert!(f.afterburner_ok);
    assert!(!f.installing);
    assert!(!f.dismissed);
    assert_eq!(f.banner(), SetupBanner::Hidden);
    assert_eq!(SetupFacts::new(true, false).banner(), SetupBanner::Afterburner);
}
