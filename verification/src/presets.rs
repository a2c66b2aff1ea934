//! Built-in one-click lighting presets. Each preset fully determines the
//! look of the rig: the global effect, the three thermal colors (all but
//! Smooth Spectrum Wave), the brightness and, for some, a tuning entry for
//! their effect. Applying one also strips every zone's own effect, custom
//! effect and color overrides and deselects the global custom effect, so the
//! preset shows everywhere.
//!
//! Brightness and tuning are given in hundredths (70 = 0.70) so that the
//! look can be stated and checked exactly; the renderer scales them.

use vstd::prelude::*;
use crate::look::{effect_choice, EffectChoice};
use crate::settings::{ColorConfig, EffectsMode, ZoneConfig};
use crate::text::text_eq;

verus! {

/// A preset card: its name (the key `builtin_look` takes), an emoji, a
/// tagline and three swatch colors (cold / warm / hot feel).
pub struct BuiltinPreset {
    pub name: &'static str,
    pub emoji: &'static str,
    pub tagline: &'static str,
    pub swatch: [[u8; 3]; 3],
}

/// The stock brightness in hundredths, which every preset restores unless it
/// dims on purpose.
pub const DEFAULT_BRIGHTNESS_PCT: u32 = 70;

/// Stealth Dark's dim ambient brightness in hundredths.
pub const STEALTH_BRIGHTNESS_PCT: u32 = 15;

/// Per-effect tuning a preset writes, in hundredths for speed and intensity.
#[derive(Clone, Copy, Debug, PartialEq, Eq, Structural)]
pub struct PresetTuning {
    pub speed_pct: u32,
    pub intensity_pct: u32,
    pub variant: u32,
}

/// Everything a preset sets.
#[derive(Clone, Copy, Debug)]
pub struct PresetLook {
    /// The global effect.
    pub effects_mode: EffectsMode,
    /// The thermal colors; `None` keeps the current ones.
    pub colors: Option<ColorConfig>,
    /// The global brightness in hundredths.
    pub brightness_pct: u32,
    /// A tuning entry written for `effects_mode`; `None` leaves tuning alone.
    pub tuning: Option<PresetTuning>,
}

/// The nine preset names, in card order.
pub open spec fn preset_name(i: int) -> Seq<char> {
    if i == 0 { "Thermal Alert"@ }
    else if i == 1 { "Cyberpunk 2077"@ }
    else if i == 2 { "Vaporwave Sunset"@ }
    else if i == 3 { "Ice & Fire"@ }
    else if i == 4 { "Stealth Dark"@ }
    else if i == 5 { "Smooth Spectrum Wave"@ }
    else if i == 6 { "Molten Ember"@ }
    else if i == 7 { "Aurora Borealis"@ }
    else { "Comet Storm"@ }
}

/// Number of built-in presets.
pub const PRESET_COUNT: usize = 9;

/// The position of the first preset named `name` at or after `i`.
pub open spec fn preset_index_from(name: Seq<char>, i: int) -> Option<int>
    decreases 9 - i,
{
    if i < 0 || i >= 9 {
        None
    } else if preset_name(i) == name {
        Some(i)
    } else {
        preset_index_from(name, i + 1)
    }
}

/// Which preset a name selects, if any.
pub open spec fn preset_index(name: Seq<char>) -> Option<int> {
    preset_index_from(name, 0)
}

/// `c` holds exactly the three given colors.
pub open spec fn palette_is(c: ColorConfig, cold: Seq<u8>, warm: Seq<u8>, hot: Seq<u8>) -> bool {
    c.cold_color@ == cold && c.warm_color@ == warm && c.hot_color@ == hot
}

/// The colors of preset `i`, when it sets any.
pub open spec fn preset_colors_are(i: int, c: Option<ColorConfig>) -> bool {
    if i == 5 {
        c is None
    } else {
        c matches Some(p) && if i == 0 {
            palette_is(p, seq![0u8, 255u8, 200u8], seq![180u8, 0u8, 255u8], seq![255u8, 10u8, 10u8])
        } else if i == 1 {
            palette_is(p, seq![250u8, 255u8, 0u8], seq![255u8, 0u8, 200u8], seq![255u8, 40u8, 120u8])
        } else if i == 2 {
            palette_is(p, seq![255u8, 150u8, 200u8], seq![170u8, 120u8, 255u8], seq![95u8, 235u8, 225u8])
        } else if i == 3 {
            palette_is(p, seq![110u8, 195u8, 255u8], seq![255u8, 140u8, 0u8], seq![255u8, 10u8, 0u8])
        } else if i == 4 {
            palette_is(p, seq![45u8, 25u8, 80u8], seq![80u8, 45u8, 130u8], seq![120u8, 70u8, 180u8])
        } else if i == 6 {
            palette_is(p, seq![120u8, 25u8, 0u8], seq![255u8, 110u8, 0u8], seq![255u8, 220u8, 120u8])
        } else if i == 7 {
            palette_is(p, seq![0u8, 255u8, 120u8], seq![0u8, 180u8, 200u8], seq![170u8, 60u8, 255u8])
        } else {
            palette_is(p, seq![80u8, 160u8, 255u8], seq![200u8, 120u8, 255u8], seq![255u8, 80u8, 40u8])
        }
    }
}

/// The global effect of preset `i`.
pub open spec fn preset_mode(i: int) -> EffectsMode {
    if i == 0 || i == 1 || i == 3 { EffectsMode::ThermalWave }
    else if i == 2 { EffectsMode::GradientPulse }
    else if i == 4 { EffectsMode::Breathing }
    else if i == 5 { EffectsMode::SpectrumWave }
    else if i == 6 { EffectsMode::EmberFlicker }
    else if i == 7 { EffectsMode::AuroraDrift }
    else { EffectsMode::CometChase }
}

/// The brightness of preset `i`: only Stealth Dark dims.
pub open spec fn preset_brightness(i: int) -> u32 {
    if i == 4 { STEALTH_BRIGHTNESS_PCT } else { DEFAULT_BRIGHTNESS_PCT }
}

/// The tuning entry preset `i` writes for its effect.
pub open spec fn preset_tuning(i: int) -> Option<PresetTuning> {
    if i == 0 { Some(PresetTuning { speed_pct: 120, intensity_pct: 70, variant: 1 }) }
    else if i == 6 { Some(PresetTuning { speed_pct: 100, intensity_pct: 65, variant: 1 }) }
    else if i == 7 { Some(PresetTuning { speed_pct: 100, intensity_pct: 60, variant: 0 }) }
    else if i == 8 { Some(PresetTuning { speed_pct: 120, intensity_pct: 60, variant: 1 }) }
    else { None }
}

/// `look` is the look of preset `i`.
pub open spec fn is_preset_look(i: int, look: PresetLook) -> bool {
    &&& look.effects_mode == preset_mode(i)
    &&& preset_colors_are(i, look.colors)
    &&& look.brightness_pct == preset_brightness(i)
    &&& look.tuning == preset_tuning(i)
}

/// The emoji on preset card `i`.
pub open spec fn preset_emoji(i: int) -> Seq<char> {
    if i == 0 { "🔥"@ }
    else if i == 1 { "🏙"@ }
    else if i == 2 { "🌴"@ }
    else if i == 3 { "❄"@ }
    else if i == 4 { "🌙"@ }
    else if i == 5 { "🌈"@ }
    else if i == 6 { "🌋"@ }
    else if i == 7 { "🌌"@ }
    else { "☄"@ }
}

/// The tagline on preset card `i`.
pub open spec fn preset_tagline(i: int) -> Seq<char> {
    if i == 0 { "Cold = Cyan, Warm = Purple, Hot = Crimson Red."@ }
    else if i == 1 { "Neon Yellow & Magenta dual-tone wave."@ }
    else if i == 2 { "Pastel Pink, Purple and Teal gradient."@ }
    else if i == 3 { "Glacier blue when cool — bursts into fiery orange as heat builds."@ }
    else if i == 4 { "Dim ambient accent lighting at 15% brightness."@ }
    else if i == 5 { "Classic rainbow wave, independent of thermals."@ }
    else if i == 6 { "A bed of glowing coals with white-hot sparks as heat builds."@ }
    else if i == 7 { "Slow northern-lights curtains drifting green to violet."@ }
    else { "Twin comets race the strips, faster as temperatures climb."@ }
}

/// The three swatch colors on preset card `i`.
pub open spec fn preset_swatch(i: int) -> Seq<Seq<u8>> {
    if i == 0 { seq![seq![0u8, 255u8, 200u8], seq![180u8, 0u8, 255u8], seq![255u8, 10u8, 10u8]] }
    else if i == 1 { seq![seq![250u8, 255u8, 0u8], seq![255u8, 0u8, 200u8], seq![255u8, 40u8, 120u8]] }
    else if i == 2 { seq![seq![255u8, 150u8, 200u8], seq![170u8, 120u8, 255u8], seq![95u8, 235u8, 225u8]] }
    else if i == 3 { seq![seq![110u8, 195u8, 255u8], seq![255u8, 140u8, 0u8], seq![255u8, 30u8, 0u8]] }
    else if i == 4 { seq![seq![45u8, 25u8, 80u8], seq![80u8, 45u8, 130u8], seq![120u8, 70u8, 180u8]] }
    else if i == 5 { seq![seq![255u8, 0u8, 0u8], seq![0u8, 255u8, 60u8], seq![0u8, 120u8, 255u8]] }
    else if i == 6 { seq![seq![120u8, 25u8, 0u8], seq![255u8, 110u8, 0u8], seq![255u8, 220u8, 120u8]] }
    else if i == 7 { seq![seq![0u8, 255u8, 120u8], seq![0u8, 180u8, 200u8], seq![170u8, 60u8, 255u8]] }
    else { seq![seq![80u8, 160u8, 255u8], seq![200u8, 120u8, 255u8], seq![255u8, 80u8, 40u8]] }
}

/// The colors of a swatch, as sequences.
pub open spec fn swatch_colors(s: [[u8; 3]; 3]) -> Seq<Seq<u8>> {
    seq![s[0]@, s[1]@, s[2]@]
}

/// The preset cards, in the order the GUI shows them.
pub fn builtin_presets() -> (r: [BuiltinPreset; 9])
    ensures
        forall|i: int| 0 <= i < 9 ==> (#[trigger] r[i]).name@ == preset_name(i)
            && r[i].emoji@ == preset_emoji(i)
            && r[i].tagline@ == preset_tagline(i)
            && swatch_colors(r[i].swatch) == preset_swatch(i),
{
    let r = [
        BuiltinPreset {
            name: "Thermal Alert",
            emoji: "🔥",
            tagline: "Cold = Cyan, Warm = Purple, Hot = Crimson Red.",
            swatch: [[0, 255, 200], [180, 0, 255], [255, 10, 10]],
        },
        BuiltinPreset {
            name: "Cyberpunk 2077",
            emoji: "🏙",
            tagline: "Neon Yellow & Magenta dual-tone wave.",
            swatch: [[250, 255, 0], [255, 0, 200], [255, 40, 120]],
        },
        BuiltinPreset {
            name: "Vaporwave Sunset",
            emoji: "🌴",
            tagline: "Pastel Pink, Purple and Teal gradient.",
            swatch: [[255, 150, 200], [170, 120, 255], [95, 235, 225]],
        },
        BuiltinPreset {
            name: "Ice & Fire",
            emoji: "❄",
            tagline: "Glacier blue when cool — bursts into fiery orange as heat builds.",
            swatch: [[110, 195, 255], [255, 140, 0], [255, 30, 0]],
        },
        BuiltinPreset {
            name: "Stealth Dark",
            emoji: "🌙",
            tagline: "Dim ambient accent lighting at 15% brightness.",
            swatch: [[45, 25, 80], [80, 45, 130], [120, 70, 180]],
        },
        BuiltinPreset {
            name: "Smooth Spectrum Wave",
            emoji: "🌈",
            tagline: "Classic rainbow wave, independent of thermals.",
            swatch: [[255, 0, 0], [0, 255, 60], [0, 120, 255]],
        },
        BuiltinPreset {
            name: "Molten Ember",
            emoji: "🌋",
            tagline: "A bed of glowing coals with white-hot sparks as heat builds.",
            swatch: [[120, 25, 0], [255, 110, 0], [255, 220, 120]],
        },
        BuiltinPreset {
            name: "Aurora Borealis",
            emoji: "🌌",
            tagline: "Slow northern-lights curtains drifting green to violet.",
            swatch: [[0, 255, 120], [0, 180, 200], [170, 60, 255]],
        },
        BuiltinPreset {
            name: "Comet Storm",
            emoji: "☄",
            tagline: "Twin comets race the strips, faster as temperatures climb.",
            swatch: [[80, 160, 255], [200, 120, 255], [255, 80, 40]],
        },
    ];
    proof {
        assert forall|i: int| 0 <= i < 9 implies swatch_colors(#[trigger] r[i].swatch) == preset_swatch(i) by {
            let s = r[i].swatch;
            assert(s[0]@ =~= seq![s[0][0], s[0][1], s[0][2]]);
            assert(s[1]@ =~= seq![s[1][0], s[1][1], s[1][2]]);
            assert(s[2]@ =~= seq![s[2][0], s[2][1], s[2][2]]);
        }
    }
    r
}

fn palette(cold: [u8; 3], warm: [u8; 3], hot: [u8; 3]) -> (c: ColorConfig)
    ensures
        c.cold_color@ == cold@,
        c.warm_color@ == warm@,
        c.hot_color@ == hot@,
{
    ColorConfig { cold_color: cold, warm_color: warm, hot_color: hot }
}

/// The look of preset number `i`.
fn look_at(i: usize) -> (look: PresetLook)
    requires
        i < 9,
    ensures
        is_preset_look(i as int, look),
{
    let colors = if i == 0 {
        Some(palette([0, 255, 200], [180, 0, 255], [255, 10, 10]))
    } else if i == 1 {
        Some(palette([250, 255, 0], [255, 0, 200], [255, 40, 120]))
    } else if i == 2 {
        Some(palette([255, 150, 200], [170, 120, 255], [95, 235, 225]))
    } else if i == 3 {
        Some(palette([110, 195, 255], [255, 140, 0], [255, 10, 0]))
    } else if i == 4 {
        Some(palette([45, 25, 80], [80, 45, 130], [120, 70, 180]))
    } else if i == 5 {
        None
    } else if i == 6 {
        Some(palette([120, 25, 0], [255, 110, 0], [255, 220, 120]))
    } else if i == 7 {
        Some(palette([0, 255, 120], [0, 180, 200], [170, 60, 255]))
    } else {
        Some(palette([80, 160, 255], [200, 120, 255], [255, 80, 40]))
    };
    proof {
        assert(colors matches Some(p) ==> p.cold_color@.len() == 3);
        if let Some(p) = colors {
            assert(p.cold_color@ =~= seq![p.cold_color[0], p.cold_color[1], p.cold_color[2]]);
            assert(p.warm_color@ =~= seq![p.warm_color[0], p.warm_color[1], p.warm_color[2]]);
            assert(p.hot_color@ =~= seq![p.hot_color[0], p.hot_color[1], p.hot_color[2]]);
        }
    }
    let effects_mode = if i == 0 || i == 1 || i == 3 {
        EffectsMode::ThermalWave
    } else if i == 2 {
        EffectsMode::GradientPulse
    } else if i == 4 {
        EffectsMode::Breathing
    } else if i == 5 {
        EffectsMode::SpectrumWave
    } else if i == 6 {
        EffectsMode::EmberFlicker
    } else if i == 7 {
        EffectsMode::AuroraDrift
    } else {
        EffectsMode::CometChase
    };
    let brightness_pct = if i == 4 { STEALTH_BRIGHTNESS_PCT } else { DEFAULT_BRIGHTNESS_PCT };
    let tuning = if i == 0 {
        Some(PresetTuning { speed_pct: 120, intensity_pct: 70, variant: 1 })
    } else if i == 6 {
        Some(PresetTuning { speed_pct: 100, intensity_pct: 65, variant: 1 })
    } else if i == 7 {
        Some(PresetTuning { speed_pct: 100, intensity_pct: 60, variant: 0 })
    } else if i == 8 {
        Some(PresetTuning { speed_pct: 120, intensity_pct: 60, variant: 1 })
    } else {
        None
    };
    PresetLook { effects_mode, colors, brightness_pct, tuning }
}

/// The preset number `name` selects: the first card with that exact name.
pub fn builtin_index(name: &str) -> (r: Option<usize>)
    ensures
        match preset_index(name@) {
            None => r is None,
            Some(i) => r matches Some(k) && k as int == i,
        },
        r matches Some(k) ==> k < 9,
{
    let names: [&str; 9] = [
        "Thermal Alert",
        "Cyberpunk 2077",
        "Vaporwave Sunset",
        "Ice & Fire",
        "Stealth Dark",
        "Smooth Spectrum Wave",
        "Molten Ember",
        "Aurora Borealis",
        "Comet Storm",
    ];
    let mut i: usize = 0;
    while i < 9
        invariant
            i <= 9,
            forall|j: int| 0 <= j < 9 ==> (#[trigger] names[j])@ == preset_name(j),
            preset_index(name@) == preset_index_from(name@, i as int),
        decreases 9 - i,
    {
        if text_eq(names[i], name) {
            return Some(i);
        }
        i = i + 1;
    }
    None
}

/// The look a built-in preset sets, by preset name; `None` for a name no
/// preset has.
pub fn builtin_look(name: &str) -> (r: Option<PresetLook>)
    ensures
        match preset_index(name@) {
            None => r is None,
            Some(i) => r matches Some(look) && is_preset_look(i, look),
        },
{
    match builtin_index(name) {
        Some(i) => Some(look_at(i)),
        None => None,
    }
}

/// `after` is `before` with its effect, custom effect and color overrides
/// removed.
pub open spec fn overrides_cleared(before: ZoneConfig, after: ZoneConfig) -> bool {
    after == ZoneConfig { effect_override: None, custom_effect: None, colors_override: None, ..before }
}

/// The baseline every preset starts from, so that it fully determines the
/// look: every zone loses its own effect, custom (Effect Lab) effect and
/// color override, and the global custom effect is deselected. Everything
/// else about the zones is kept.
pub fn reset_baseline(zones: &mut Vec<ZoneConfig>, global_custom: &mut Option<String>)
    ensures
        final(zones)@.len() == old(zones)@.len(),
        forall|i: int| 0 <= i < old(zones)@.len() ==>
            overrides_cleared(#[trigger] old(zones)@[i], final(zones)@[i]),
        *final(global_custom) is None,
{
    *global_custom = None;
    let ghost before = zones@;
    let mut i: usize = 0;
    while i < zones.len()
        invariant
            zones@.len() == before.len(),
            i <= zones@.len(),
            forall|j: int| 0 <= j < i ==> overrides_cleared(#[trigger] before[j], zones@[j]),
            forall|j: int| i <= j < zones@.len() ==> zones@[j] == before[j],
        decreases zones@.len() - i,
    {
        let mut z = zones[i].clone();
        z.effect_override = None;
        z.custom_effect = None;
        z.colors_override = None;
        zones.set(i, z);
        i = i + 1;
    }
}

/// A preset's look shows on every zone: after the baseline reset, with the
/// preset's effect as the global effect, every zone resolves to that builtin
/// effect, whatever the Effect Lab library holds.
pub proof fn preset_look_shows_everywhere(
    before: Seq<ZoneConfig>,
    after: Seq<ZoneConfig>,
    mode: EffectsMode,
    names: Seq<String>,
)
    requires
        after.len() == before.len(),
        forall|i: int| 0 <= i < before.len() ==> overrides_cleared(#[trigger] before[i], after[i]),
    ensures
        forall|i: int| 0 <= i < after.len() ==>
            effect_choice(#[trigger] after[i], mode, None, names) == EffectChoice::Builtin(mode),
{
    assert forall|i: int| 0 <= i < after.len() implies
        effect_choice(#[trigger] after[i], mode, None, names) == EffectChoice::Builtin(mode) by {
        assert(overrides_cleared(before[i], after[i]));
    }
}

proof fn preset_index_from_finds_name(name: Seq<char>, i: int)
    ensures
        preset_index_from(name, i) matches Some(j) ==> i <= j < 9 && preset_name(j) == name,
    decreases 9 - i,
{
    if 0 <= i < 9 && preset_name(i) != name {
        preset_index_from_finds_name(name, i + 1);
    }
}

/// The nine preset names are pairwise distinct.
proof fn preset_names_distinct(i: int, j: int)
    requires
        0 <= i < 9,
        0 <= j < 9,
        i != j,
    ensures
        preset_name(i) != preset_name(j),
{
    reveal_strlit("Thermal Alert");
    reveal_strlit("Cyberpunk 2077");
    reveal_strlit("Vaporwave Sunset");
    reveal_strlit("Ice & Fire");
    reveal_strlit("Stealth Dark");
    reveal_strlit("Smooth Spectrum Wave");
    reveal_strlit("Molten Ember");
    reveal_strlit("Aurora Borealis");
    reveal_strlit("Comet Storm");
    if preset_name(i) == preset_name(j) {
        assert(preset_name(i).len() == preset_name(j).len());
        assert(preset_name(i)[0] == preset_name(j)[0]);
    }
}

proof fn preset_index_from_skips(name: Seq<char>, i: int, k: int)
    requires
        0 <= i <= k < 9,
        preset_name(k) == name,
    ensures
        preset_index_from(name, i) == Some(k),
    decreases k - i,
{
    if i < k {
        preset_names_distinct(i, k);
        preset_index_from_skips(name, i + 1, k);
    }
}

/// Every preset card applies: the name on card `i` selects preset `i`
/// (the nine names are distinct).
pub proof fn every_card_selects_its_preset(i: int)
    requires
        0 <= i < 9,
    ensures
        preset_index(preset_name(i)) == Some(i),
{
    preset_index_from_skips(preset_name(i), 0, i);
}

/// Every preset fully determines the brightness: Stealth Dark dims to its
/// ambient level and every other preset restores the stock brightness, so
/// no earlier preset's dimming survives the next one.
pub proof fn presets_restore_default_brightness(name: Seq<char>, look: PresetLook)
    requires
        preset_index(name) matches Some(i) && is_preset_look(i, look),
    ensures
        look.brightness_pct == (if name == "Stealth Dark"@ { STEALTH_BRIGHTNESS_PCT } else { DEFAULT_BRIGHTNESS_PCT }),
{
    preset_index_from_finds_name(name, 0);
    let i = preset_index(name)->0;
    if i != 4 {
        preset_names_distinct(i, 4);
    }
}

} // verus!
