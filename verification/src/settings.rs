//! The settings schema shared by the daemon and the configurator: effects,
//! component sources, colors, the Effect Lab building blocks and the saved
//! per-zone configuration.

use vstd::prelude::*;

verus! {

/// How a zone reacts over time. `SpectrumWave` ignores thermals entirely.
#[derive(Clone, Copy, Debug, PartialEq, Eq, PartialOrd, Ord, Hash, Structural)]
pub enum EffectsMode {
    ThermalWave,
    GradientPulse,
    Breathing,
    Solid,
    SpectrumWave,
    EmberFlicker,
    AuroraDrift,
    CometChase,
    ThermalFill,
    MeteorShower,
    LarsonScanner,
    Plasma,
    StarfieldTwinkle,
    RainDrops,
    LightTrail,
    Fireworks,
    WaveCollide,
}

/// The name an effect is shown under.
pub open spec fn effect_label_text(v: EffectsMode) -> Seq<char> {
    match v {
        EffectsMode::ThermalWave => "Thermal Wave"@,
        EffectsMode::GradientPulse => "Gradient Pulse"@,
        EffectsMode::Breathing => "Breathing"@,
        EffectsMode::Solid => "Solid"@,
        EffectsMode::SpectrumWave => "Spectrum Wave"@,
        EffectsMode::EmberFlicker => "Ember Flicker"@,
        EffectsMode::AuroraDrift => "Aurora Drift"@,
        EffectsMode::CometChase => "Comet Chase"@,
        EffectsMode::ThermalFill => "Thermal Fill"@,
        EffectsMode::MeteorShower => "Meteor Shower"@,
        EffectsMode::LarsonScanner => "Larson Scanner"@,
        EffectsMode::Plasma => "Plasma"@,
        EffectsMode::StarfieldTwinkle => "Starfield Twinkle"@,
        EffectsMode::RainDrops => "Rain Drops"@,
        EffectsMode::LightTrail => "Light Trail"@,
        EffectsMode::Fireworks => "Fireworks"@,
        EffectsMode::WaveCollide => "Wave Collide"@,
    }
}

/// The one-line description of an effect.
pub open spec fn effect_description(v: EffectsMode) -> Seq<char> {
    match v {
        EffectsMode::ThermalWave => "A flowing lava-sea wave that speeds up and shifts color as temperatures climb."@,
        EffectsMode::GradientPulse => "A gentle spatial gradient that stretches toward the hot color and pulses softly."@,
        EffectsMode::Breathing => "The whole zone slowly breathes in the current thermal color."@,
        EffectsMode::Solid => "A steady solid color mapped to the current temperature."@,
        EffectsMode::SpectrumWave => "A classic smooth rainbow wave, completely independent of thermals."@,
        EffectsMode::EmberFlicker => "Every LED flickers like a glowing coal — livelier as temperatures rise."@,
        EffectsMode::AuroraDrift => "Slow drifting curtains of blended color, like northern lights."@,
        EffectsMode::CometChase => "A bright comet sweeps the strip with a fading tail, faster when hot."@,
        EffectsMode::ThermalFill => "The strip fills up like a thermometer — 0 to 100% along the LEDs with the full gradient."@,
        EffectsMode::MeteorShower => "Several meteors streak along the strip with fading trails."@,
        EffectsMode::LarsonScanner => "A glowing eye sweeps back and forth — pure sci-fi."@,
        EffectsMode::Plasma => "Slowly swirling interference of your three colors, like liquid light."@,
        EffectsMode::StarfieldTwinkle => "A dark sky where stars twinkle in and out, colored by temperature."@,
        EffectsMode::RainDrops => "Drops splash onto the strip and ripple outward before fading."@,
        EffectsMode::LightTrail => "A glowing trail orbits the dark strip in endless circles — smooth gradient tail on both sides, colored by your scheme."@,
        EffectsMode::Fireworks => "Rockets shoot up the strip and burst into fading sparkles — more the hotter it gets."@,
        EffectsMode::WaveCollide => "Two pulses race in from the ends and splash bright where they collide."@,
    }
}

/// The style variants an effect offers, in order; empty when it has one style.
pub open spec fn variant_texts(v: EffectsMode) -> Seq<Seq<char>> {
    match v {
        EffectsMode::ThermalWave => seq!["Lava Sea"@, "Classic Wave"@],
        EffectsMode::GradientPulse => seq![],
        EffectsMode::Breathing => seq!["Calm"@, "Heartbeat"@],
        EffectsMode::Solid => seq![],
        EffectsMode::SpectrumWave => seq!["Vivid"@, "Pastel"@],
        EffectsMode::EmberFlicker => seq!["Glowing Coals"@, "Wildfire"@],
        EffectsMode::AuroraDrift => seq!["Curtains"@, "Rolling Waves"@],
        EffectsMode::CometChase => seq!["Single Comet"@, "Twin Comets"@],
        EffectsMode::ThermalFill => seq!["Rising Fill"@, "Center Bloom"@],
        EffectsMode::MeteorShower => seq!["Steady"@, "Chaotic"@],
        EffectsMode::LarsonScanner => seq!["Classic"@, "Dual Eye"@],
        EffectsMode::Plasma => seq!["Smooth"@, "Electric"@],
        EffectsMode::StarfieldTwinkle => seq!["Calm Stars"@, "Shooting Stars"@],
        EffectsMode::RainDrops => seq!["Drizzle"@, "Storm"@],
        EffectsMode::LightTrail => seq!["Single Trail"@, "Twin Trails"@],
        EffectsMode::Fireworks => seq!["Classic"@, "Grand Finale"@],
        EffectsMode::WaveCollide => seq!["Center Splash"@, "Ping Pong"@],
    }
}

impl EffectsMode {
    pub const ALL: [EffectsMode; 17] = [
        EffectsMode::ThermalWave,
        EffectsMode::ThermalFill,
        EffectsMode::GradientPulse,
        EffectsMode::Breathing,
        EffectsMode::Solid,
        EffectsMode::SpectrumWave,
        EffectsMode::EmberFlicker,
        EffectsMode::AuroraDrift,
        EffectsMode::CometChase,
        EffectsMode::MeteorShower,
        EffectsMode::LarsonScanner,
        EffectsMode::Plasma,
        EffectsMode::StarfieldTwinkle,
        EffectsMode::RainDrops,
        EffectsMode::LightTrail,
        EffectsMode::Fireworks,
        EffectsMode::WaveCollide,
    ];

    /// The name this effect is shown under.
    pub fn label(&self) -> (r: &'static str)
        ensures
            r@ == effect_label_text(*self),
    {
        match self {
            EffectsMode::ThermalWave => "Thermal Wave",
            EffectsMode::GradientPulse => "Gradient Pulse",
            EffectsMode::Breathing => "Breathing",
            EffectsMode::Solid => "Solid",
            EffectsMode::SpectrumWave => "Spectrum Wave",
            EffectsMode::EmberFlicker => "Ember Flicker",
            EffectsMode::AuroraDrift => "Aurora Drift",
            EffectsMode::CometChase => "Comet Chase",
            EffectsMode::ThermalFill => "Thermal Fill",
            EffectsMode::MeteorShower => "Meteor Shower",
            EffectsMode::LarsonScanner => "Larson Scanner",
            EffectsMode::Plasma => "Plasma",
            EffectsMode::StarfieldTwinkle => "Starfield Twinkle",
            EffectsMode::RainDrops => "Rain Drops",
            EffectsMode::LightTrail => "Light Trail",
            EffectsMode::Fireworks => "Fireworks",
            EffectsMode::WaveCollide => "Wave Collide",
        }
    }

    /// A one-line description of this effect.
    pub fn describe(&self) -> (r: &'static str)
        ensures
            r@ == effect_description(*self),
    {
        match self {
            EffectsMode::ThermalWave => "A flowing lava-sea wave that speeds up and shifts color as temperatures climb.",
            EffectsMode::GradientPulse => "A gentle spatial gradient that stretches toward the hot color and pulses softly.",
            EffectsMode::Breathing => "The whole zone slowly breathes in the current thermal color.",
            EffectsMode::Solid => "A steady solid color mapped to the current temperature.",
            EffectsMode::SpectrumWave => "A classic smooth rainbow wave, completely independent of thermals.",
            EffectsMode::EmberFlicker => "Every LED flickers like a glowing coal — livelier as temperatures rise.",
            EffectsMode::AuroraDrift => "Slow drifting curtains of blended color, like northern lights.",
            EffectsMode::CometChase => "A bright comet sweeps the strip with a fading tail, faster when hot.",
            EffectsMode::ThermalFill => "The strip fills up like a thermometer — 0 to 100% along the LEDs with the full gradient.",
            EffectsMode::MeteorShower => "Several meteors streak along the strip with fading trails.",
            EffectsMode::LarsonScanner => "A glowing eye sweeps back and forth — pure sci-fi.",
            EffectsMode::Plasma => "Slowly swirling interference of your three colors, like liquid light.",
            EffectsMode::StarfieldTwinkle => "A dark sky where stars twinkle in and out, colored by temperature.",
            EffectsMode::RainDrops => "Drops splash onto the strip and ripple outward before fading.",
            EffectsMode::LightTrail => "A glowing trail orbits the dark strip in endless circles — smooth gradient tail on both sides, colored by your scheme.",
            EffectsMode::Fireworks => "Rockets shoot up the strip and burst into fading sparkles — more the hotter it gets.",
            EffectsMode::WaveCollide => "Two pulses race in from the ends and splash bright where they collide.",
        }
    }

    /// Discrete style variants for this effect ("animation variants" in the UI).
    /// Empty slice = the effect has a single style.
    pub fn variant_labels(&self) -> (r: &'static [&'static str])
        ensures
            r@.map_values(|s: &'static str| s@) == variant_texts(*self),
    {
        let r: &'static [&'static str] = match self {
            EffectsMode::ThermalWave => &["Lava Sea", "Classic Wave"],
            EffectsMode::GradientPulse => &[],
            EffectsMode::Breathing => &["Calm", "Heartbeat"],
            EffectsMode::Solid => &[],
            EffectsMode::SpectrumWave => &["Vivid", "Pastel"],
            EffectsMode::EmberFlicker => &["Glowing Coals", "Wildfire"],
            EffectsMode::AuroraDrift => &["Curtains", "Rolling Waves"],
            EffectsMode::CometChase => &["Single Comet", "Twin Comets"],
            EffectsMode::ThermalFill => &["Rising Fill", "Center Bloom"],
            EffectsMode::MeteorShower => &["Steady", "Chaotic"],
            EffectsMode::LarsonScanner => &["Classic", "Dual Eye"],
            EffectsMode::Plasma => &["Smooth", "Electric"],
            EffectsMode::StarfieldTwinkle => &["Calm Stars", "Shooting Stars"],
            EffectsMode::RainDrops => &["Drizzle", "Storm"],
            EffectsMode::LightTrail => &["Single Trail", "Twin Trails"],
            EffectsMode::Fireworks => &["Classic", "Grand Finale"],
            EffectsMode::WaveCollide => &["Center Splash", "Ping Pong"],
        };
        assert(r@.map_values(|s: &'static str| s@) =~= variant_texts(*self));
        r
    }

    /// Label for the Intensity slider when an effect gives it a more
    /// specific meaning.
    pub fn intensity_label(&self) -> (r: &'static str)
        ensures
            r@ == (if *self == EffectsMode::LightTrail { "Trail length"@ } else { "Intensity"@ }),
    {
        match self {
            EffectsMode::LightTrail => "Trail length",
            _ => "Intensity",
        }
    }

    /// Effects that use the extra Detail knob expose it under this label.
    pub fn detail_label(&self) -> (r: Option<&'static str>)
        ensures
            *self == EffectsMode::LightTrail ==> (r matches Some(s) && s@ == "Resolution"@),
            *self != EffectsMode::LightTrail ==> r is None,
    {
        match self {
            EffectsMode::LightTrail => Some("Resolution"),
            _ => None,
        }
    }

    /// A tuning variant index kept within this effect's variants (index 0
    /// for single-style effects), as stored tuning is clamped before use.
    pub fn clamp_variant(&self, variant: u32) -> (r: u32)
        ensures
            variant_texts(*self).len() <= 1 ==> r == 0,
            variant_texts(*self).len() > 1 ==> r == (if variant < variant_texts(*self).len() - 1 {
                variant as int
            } else {
                variant_texts(*self).len() - 1
            }),
    {
        let n = self.variant_labels().len();
        let variants: u32 = if n > 1 { n as u32 } else { 1 };
        if variant < variants - 1 {
            variant
        } else {
            variants - 1
        }
    }
}

/// The idle effect a preset snapshot falls back to when it names none.
pub fn default_idle_effect() -> (r: EffectsMode)
    ensures
        r == EffectsMode::Breathing,
{
    EffectsMode::Breathing
}

/// Which system component / metric drives a zone's animation.
#[derive(Clone, Copy, Debug, PartialEq, Eq, Hash, Structural)]
pub enum TargetSource {
    Cpu,
    Gpu,
    CpuLoad,
    GpuLoad,
    Ram,
    Fps,
}

/// The name a component source is shown under.
pub open spec fn source_label_text(v: TargetSource) -> Seq<char> {
    match v {
        TargetSource::Cpu => "CPU °C"@,
        TargetSource::Gpu => "GPU °C"@,
        TargetSource::CpuLoad => "CPU Load"@,
        TargetSource::GpuLoad => "GPU Load"@,
        TargetSource::Ram => "RAM Use"@,
        TargetSource::Fps => "FPS"@,
    }
}

/// The one-line description of a component source.
pub open spec fn source_description(v: TargetSource) -> Seq<char> {
    match v {
        TargetSource::Cpu => "CPU temperature — the classic thermal display."@,
        TargetSource::Gpu => "GPU temperature — great for game load."@,
        TargetSource::CpuLoad => "CPU usage in % — reacts instantly to work, not heat."@,
        TargetSource::GpuLoad => "GPU usage in % — lights up the moment a game starts rendering."@,
        TargetSource::Ram => "RAM usage in % of installed memory."@,
        TargetSource::Fps => "Framerate — cold when it stutters, hot when it flies."@,
    }
}

/// The stable slot of a source in per-source value arrays.
pub open spec fn source_slot(v: TargetSource) -> usize {
    match v {
        TargetSource::Cpu => 0,
        TargetSource::Gpu => 1,
        TargetSource::CpuLoad => 2,
        TargetSource::GpuLoad => 3,
        TargetSource::Ram => 4,
        TargetSource::Fps => 5,
    }
}

impl TargetSource {
    pub const ALL: [TargetSource; 6] = [
        TargetSource::Cpu,
        TargetSource::Gpu,
        TargetSource::CpuLoad,
        TargetSource::GpuLoad,
        TargetSource::Ram,
        TargetSource::Fps,
    ];

    /// Stable slot in the engine's source-value arrays.
    pub fn index(self) -> (r: usize)
        ensures
            r == source_slot(self),
    {
        match self {
            TargetSource::Cpu => 0,
            TargetSource::Gpu => 1,
            TargetSource::CpuLoad => 2,
            TargetSource::GpuLoad => 3,
            TargetSource::Ram => 4,
            TargetSource::Fps => 5,
        }
    }

    /// The name this source is shown under.
    pub fn label(&self) -> (r: &'static str)
        ensures
            r@ == source_label_text(*self),
    {
        match self {
            TargetSource::Cpu => "CPU °C",
            TargetSource::Gpu => "GPU °C",
            TargetSource::CpuLoad => "CPU Load",
            TargetSource::GpuLoad => "GPU Load",
            TargetSource::Ram => "RAM Use",
            TargetSource::Fps => "FPS",
        }
    }

    /// A one-line description of this source.
    pub fn describe(&self) -> (r: &'static str)
        ensures
            r@ == source_description(*self),
    {
        match self {
            TargetSource::Cpu => "CPU temperature — the classic thermal display.",
            TargetSource::Gpu => "GPU temperature — great for game load.",
            TargetSource::CpuLoad => "CPU usage in % — reacts instantly to work, not heat.",
            TargetSource::GpuLoad => "GPU usage in % — lights up the moment a game starts rendering.",
            TargetSource::Ram => "RAM usage in % of installed memory.",
            TargetSource::Fps => "Framerate — cold when it stutters, hot when it flies.",
        }
    }

}

#[derive(Clone, Copy, Debug, PartialEq, Eq, Hash)]
pub struct ColorConfig {
    pub cold_color: [u8; 3],
    pub warm_color: [u8; 3],
    pub hot_color: [u8; 3],
}

impl Default for ColorConfig {
    /// "Thermal Alert" palette: Cold = Cyan, Warm = Purple, Hot = Crimson.
    fn default() -> (c: ColorConfig)
        ensures
            c.cold_color@ == seq![0u8, 255u8, 200u8],
            c.warm_color@ == seq![180u8, 0u8, 255u8],
            c.hot_color@ == seq![255u8, 10u8, 10u8],
    {
        let c = ColorConfig { cold_color: [0, 255, 200], warm_color: [180, 0, 255], hot_color: [255, 10, 10] };
        assert(c.cold_color@ =~= seq![0u8, 255u8, 200u8]);
        assert(c.warm_color@ =~= seq![180u8, 0u8, 255u8]);
        assert(c.hot_color@ =~= seq![255u8, 10u8, 10u8]);
        c
    }
}

/// How a custom effect moves along the strip.
#[derive(Clone, Copy, Debug, PartialEq, Eq, Hash, Structural)]
pub enum MotionKind {
    /// The palette flows continuously along the strip.
    Flow,
    /// The strip fills like a bar/thermometer.
    Fill,
    /// A bright head with a fading tail sweeps the strip.
    Chase,
    /// Every LED flickers organically.
    Flicker,
    /// The whole strip breathes in and out.
    Breathe,
    /// A static gradient, no motion.
    Still,
}

/// The name a motion block is shown under.
pub open spec fn motion_label_text(v: MotionKind) -> Seq<char> {
    match v {
        MotionKind::Flow => "Flowing wave"@,
        MotionKind::Fill => "Filling bar"@,
        MotionKind::Chase => "Chase with trail"@,
        MotionKind::Flicker => "Organic flicker"@,
        MotionKind::Breathe => "Breathing"@,
        MotionKind::Still => "Still gradient"@,
    }
}

impl MotionKind {
    pub const ALL: [MotionKind; 6] = [
        MotionKind::Flow,
        MotionKind::Fill,
        MotionKind::Chase,
        MotionKind::Flicker,
        MotionKind::Breathe,
        MotionKind::Still,
    ];

    /// The name this motion block is shown under.
    pub fn label(&self) -> (r: &'static str)
        ensures
            r@ == motion_label_text(*self),
    {
        match self {
            MotionKind::Flow => "Flowing wave",
            MotionKind::Fill => "Filling bar",
            MotionKind::Chase => "Chase with trail",
            MotionKind::Flicker => "Organic flicker",
            MotionKind::Breathe => "Breathing",
            MotionKind::Still => "Still gradient",
        }
    }

}

/// An optional animated layer on top of the base motion.
#[derive(Clone, Copy, Debug, PartialEq, Eq, Hash, Structural)]
pub enum OverlayKind {
    /// No overlay (stored as "None").
    NoOverlay,
    Shimmer,
    Pulse,
    Sparks,
}

/// The name an overlay block is shown under.
pub open spec fn overlay_label_text(v: OverlayKind) -> Seq<char> {
    match v {
        OverlayKind::NoOverlay => "None"@,
        OverlayKind::Shimmer => "Shimmer"@,
        OverlayKind::Pulse => "Soft pulse"@,
        OverlayKind::Sparks => "Sparks"@,
    }
}

impl OverlayKind {
    pub const ALL: [OverlayKind; 4] = [
        OverlayKind::NoOverlay,
        OverlayKind::Shimmer,
        OverlayKind::Pulse,
        OverlayKind::Sparks,
    ];

    /// The name this overlay block is shown under.
    pub fn label(&self) -> (r: &'static str)
        ensures
            r@ == overlay_label_text(*self),
    {
        match self {
            OverlayKind::NoOverlay => "None",
            OverlayKind::Shimmer => "Shimmer",
            OverlayKind::Pulse => "Soft pulse",
            OverlayKind::Sparks => "Sparks",
        }
    }

}

/// How the custom effect listens to the zone's temperature.
#[derive(Clone, Copy, Debug, PartialEq, Eq, Hash, Structural)]
pub enum ThermalBind {
    /// Palette position follows temperature (cold end → hot end).
    PalettePosition,
    /// Animation speed rises with temperature.
    Speed,
    /// Fill level = temperature (great with the Filling bar motion).
    FillLevel,
    /// Ignore temperature entirely (stored as "None").
    Ignore,
}

/// The name a thermal binding is shown under.
pub open spec fn thermal_label_text(v: ThermalBind) -> Seq<char> {
    match v {
        ThermalBind::PalettePosition => "Colors follow temperature"@,
        ThermalBind::Speed => "Speed follows temperature"@,
        ThermalBind::FillLevel => "Fill level = temperature"@,
        ThermalBind::Ignore => "Ignore temperature"@,
    }
}

impl ThermalBind {
    pub const ALL: [ThermalBind; 4] = [
        ThermalBind::PalettePosition,
        ThermalBind::Speed,
        ThermalBind::FillLevel,
        ThermalBind::Ignore,
    ];

    /// The name this thermal binding is shown under.
    pub fn label(&self) -> (r: &'static str)
        ensures
            r@ == thermal_label_text(*self),
    {
        match self {
            ThermalBind::PalettePosition => "Colors follow temperature",
            ThermalBind::Speed => "Speed follows temperature",
            ThermalBind::FillLevel => "Fill level = temperature",
            ThermalBind::Ignore => "Ignore temperature",
        }
    }

}

} // verus!

verus! {

/// One controllable zone, matched against live hardware by
/// (`device_name`, `zone_name`). Discovered zones are appended by
/// `zones::merge`; legacy v1 files migrate into wildcard entries that
/// concretize on first detection.
#[derive(Debug, PartialEq)]
pub struct ZoneConfig {
    pub device_name: String,
    pub device_type: i32,
    /// Empty = whole device; `"*2"` style = legacy motherboard suffix match.
    pub zone_name: String,
    /// User-editable friendly label shown in the GUI.
    pub display_name: String,
    pub enabled: bool,
    /// 0 = use whatever LED count the server reports.
    pub led_count: u32,
    pub target_source: TargetSource,
    pub effect_override: Option<EffectsMode>,
    /// A custom (Effect Lab) effect by name; wins over `effect_override`.
    pub custom_effect: Option<String>,
    pub colors_override: Option<ColorConfig>,
    /// Detection bookkeeping, refreshed on every scan so the GUI can render
    /// meaningfully even before the next detection.
    pub last_seen_leds: u32,
    pub resizable: bool,
    pub max_leds: u32,
}

impl Default for ZoneConfig {
    fn default() -> (z: ZoneConfig)
        ensures
            z.device_name@ == Seq::<char>::empty(),
            z.device_type == 0,
            z.zone_name@ == Seq::<char>::empty(),
            z.display_name@ == Seq::<char>::empty(),
            !z.enabled,
            z.led_count == 0,
            z.target_source == TargetSource::Cpu,
            z.effect_override is None,
            z.custom_effect is None,
            z.colors_override is None,
            z.last_seen_leds == 0,
            !z.resizable,
            z.max_leds == 0,
    {
        ZoneConfig {
            device_name: String::new(),
            device_type: 0,
            zone_name: String::new(),
            display_name: String::new(),
            enabled: false,
            led_count: 0,
            target_source: TargetSource::Cpu,
            effect_override: None,
            custom_effect: None,
            colors_override: None,
            last_seen_leds: 0,
            resizable: false,
            max_leds: 0,
        }
    }
}

impl Clone for ZoneConfig {
    fn clone(&self) -> (z: ZoneConfig)
        ensures
            z == *self,
    {
        ZoneConfig {
            device_name: self.device_name.clone(),
            device_type: self.device_type,
            zone_name: self.zone_name.clone(),
            display_name: self.display_name.clone(),
            enabled: self.enabled,
            led_count: self.led_count,
            target_source: self.target_source,
            effect_override: self.effect_override,
            custom_effect: match &self.custom_effect {
                Some(s) => Some(s.clone()),
                None => None,
            },
            colors_override: self.colors_override,
            last_seen_leds: self.last_seen_leds,
            resizable: self.resizable,
            max_leds: self.max_leds,
        }
    }
}

/// The LED count a zone renders: the user's count capped by the hardware
/// maximum (when one is known), else what the server last reported.
pub open spec fn effective_leds_of(z: ZoneConfig) -> u32 {
    if z.led_count > 0 {
        if z.max_leds > 0 && z.max_leds < z.led_count { z.max_leds } else { z.led_count }
    } else {
        z.last_seen_leds
    }
}

/// The LED count a zone renders is the user's count whenever one is set,
/// only ever lowered to a known hardware maximum it exceeds; without a user
/// count it is what the server last reported.
pub proof fn effective_leds_respects_user_count(z: ZoneConfig)
    ensures
        z.led_count > 0 ==> effective_leds_of(z) <= z.led_count,
        z.led_count > 0 && (z.max_leds == 0 || z.led_count <= z.max_leds) ==> effective_leds_of(z) == z.led_count,
        z.led_count > 0 && z.max_leds > 0 ==> effective_leds_of(z) <= z.max_leds,
        z.led_count > 0 && z.max_leds > 0 && z.max_leds < z.led_count ==> effective_leds_of(z) == z.max_leds,
        z.led_count == 0 ==> effective_leds_of(z) == z.last_seen_leds,
{
}

impl ZoneConfig {
    /// The LED count to render: the user's choice, else what the server saw.
    pub fn effective_leds(&self) -> (r: u32)
        ensures
            r == effective_leds_of(*self),
            self.led_count > 0 ==> r <= self.led_count,
            self.led_count > 0 && (self.max_leds == 0 || self.led_count <= self.max_leds) ==> r == self.led_count,
            self.led_count > 0 && self.max_leds > 0 ==> r <= self.max_leds,
            self.led_count == 0 ==> r == self.last_seen_leds,
    {
        proof {
            effective_leds_respects_user_count(*self);
        }
        if self.led_count > 0 {
            if self.max_leds > 0 {
                if self.led_count < self.max_leds { self.led_count } else { self.max_leds }
            } else {
                self.led_count
            }
        } else {
            self.last_seen_leds
        }
    }
}

} // verus!
