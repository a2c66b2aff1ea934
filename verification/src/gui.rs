//! The configurator's decisions, apart from its widgets: the tabs, the setup
//! assistant's banner, the panic button's zone reset, the tray menu's
//! commands, repaint pacing and the scripts that start the helper programs.

use vstd::prelude::*;
use crate::settings::{effective_leds_of, EffectsMode, ZoneConfig};
use crate::text::{chars_of, text_eq};

verus! {

/// The configurator's pages.
#[derive(Clone, Copy, Debug, PartialEq, Eq, Structural)]
pub enum Tab {
    Presets,
    Ports,
    Curves,
    Lab,
    Advanced,
}

/// The caption of a tab button.
pub open spec fn tab_label_text(t: Tab) -> Seq<char> {
    match t {
        Tab::Presets => "🎨 Presets & Themes"@,
        Tab::Ports => "🔌 Zones & Ports"@,
        Tab::Curves => "🌡 Thermal Curves"@,
        Tab::Lab => "🧪 Effect Lab"@,
        Tab::Advanced => "⚙ Advanced"@,
    }
}

/// The hover text of a tab button.
pub open spec fn tab_description(t: Tab) -> Seq<char> {
    match t {
        Tab::Presets => "One-click looks — apply a ready-made style or save your own."@,
        Tab::Ports => "Your hardware: every port and device, what it reacts to, its effect and colors."@,
        Tab::Curves => "Temperature ranges, the color gradient, the global effect, idle mode and effect tuning."@,
        Tab::Lab => "Invent your own effects from building blocks, with a live preview."@,
        Tab::Advanced => "FPS, smoothing, brightness safety — and the fix-it buttons."@,
    }
}

impl Tab {
    /// Every tab, in the order the header shows them.
    pub const ALL: [Tab; 5] = [Tab::Presets, Tab::Ports, Tab::Curves, Tab::Lab, Tab::Advanced];

    /// The caption of this tab's button.
    pub fn label(self) -> (r: &'static str)
        ensures
            r@ == tab_label_text(self),
    {
        match self {
            Tab::Presets => "🎨 Presets & Themes",
            Tab::Ports => "🔌 Zones & Ports",
            Tab::Curves => "🌡 Thermal Curves",
            Tab::Lab => "🧪 Effect Lab",
            Tab::Advanced => "⚙ Advanced",
        }
    }

    /// What the tab is for, shown on hover.
    pub fn describe(self) -> (r: &'static str)
        ensures
            r@ == tab_description(self),
    {
        match self {
            Tab::Presets => "One-click looks — apply a ready-made style or save your own.",
            Tab::Ports => "Your hardware: every port and device, what it reacts to, its effect and colors.",
            Tab::Curves => "Temperature ranges, the color gradient, the global effect, idle mode and effect tuning.",
            Tab::Lab => "Invent your own effects from building blocks, with a live preview.",
            Tab::Advanced => "FPS, smoothing, brightness safety — and the fix-it buttons.",
        }
    }
}

/// What the setup assistant knows about the software around the app.
#[derive(Clone, Copy, Debug, PartialEq, Eq, Structural)]
pub struct SetupFacts {
    /// The last zone scan reached the OpenRGB server.
    pub openrgb_connected: bool,
    /// An OpenRGB executable was found on disk.
    pub openrgb_installed: bool,
    /// MSI Afterburner is publishing its sensor memory.
    pub afterburner_ok: bool,
    /// An install started from the banner is still running.
    pub installing: bool,
    /// The user hid the banner.
    pub dismissed: bool,
}

/// What the setup banner shows.
#[derive(Clone, Copy, Debug, PartialEq, Eq, Structural)]
pub enum SetupBanner {
    /// Nothing needs attention (or the user hid the banner).
    Hidden,
    /// An install is running: show its progress.
    Installing,
    /// OpenRGB is missing: offer to install it.
    InstallOpenRgb,
    /// OpenRGB is installed but unreachable: offer to start it.
    StartOpenRgb,
    /// Afterburner is not running: offer to start it when it is installed,
    /// else to install it.
    Afterburner,
}

/// Whether the banner needs to be shown at all.
pub open spec fn needs_attention_spec(f: SetupFacts) -> bool {
    !f.dismissed && (f.installing || !f.openrgb_connected || !f.afterburner_ok)
}

/// The banner for the given facts: a running install first, then OpenRGB,
/// then Afterburner.
pub open spec fn banner_for(f: SetupFacts) -> SetupBanner {
    if !needs_attention_spec(f) {
        SetupBanner::Hidden
    } else if f.installing {
        SetupBanner::Installing
    } else if !f.openrgb_connected {
        if f.openrgb_installed { SetupBanner::StartOpenRgb } else { SetupBanner::InstallOpenRgb }
    } else {
        SetupBanner::Afterburner
    }
}

impl SetupFacts {
    /// The facts at launch: OpenRGB is assumed reachable until the first
    /// scan says otherwise (no "not reachable" flash on a healthy launch),
    /// nothing is installing and the banner is not hidden.
    pub fn new(openrgb_installed: bool, afterburner_ok: bool) -> (r: SetupFacts)
        ensures
            r == (SetupFacts {
                openrgb_connected: true,
                openrgb_installed,
                afterburner_ok,
                installing: false,
                dismissed: false,
            }),
    {
        SetupFacts { openrgb_connected: true, openrgb_installed, afterburner_ok, installing: false, dismissed: false }
    }

    /// Whether something is missing that the assistant can fix.
    pub fn needs_attention(&self) -> (r: bool)
        ensures
            r == needs_attention_spec(*self),
    {
        !self.dismissed && (self.installing || !self.openrgb_connected || !self.afterburner_ok)
    }

    /// The banner to show.
    pub fn banner(&self) -> (r: SetupBanner)
        ensures
            r == banner_for(*self),
    {
        if !self.needs_attention() {
            SetupBanner::Hidden
        } else if self.installing {
            SetupBanner::Installing
        } else if !self.openrgb_connected {
            if self.openrgb_installed { SetupBanner::StartOpenRgb } else { SetupBanner::InstallOpenRgb }
        } else {
            SetupBanner::Afterburner
        }
    }
}

/// What follows a finished install from the banner.
#[derive(Clone, Copy, Debug, PartialEq, Eq, Structural)]
pub enum AfterInstall {
    /// Start OpenRGB with its SDK server and rescan the zones a little later.
    StartOpenRgb,
    /// Start MSI Afterburner.
    StartAfterburner,
}

/// Seconds to wait before rescanning zones after OpenRGB was installed and started.
pub const REPROBE_AFTER_INSTALL_SECS: u64 = 10;

/// Seconds to wait before rescanning zones after OpenRGB was started by hand.
pub const REPROBE_AFTER_START_SECS: u64 = 8;

/// The step after the package `name` finished installing.
pub fn after_install(name: &str) -> (r: AfterInstall)
    ensures
        r == (if name@ == "OpenRGB"@ { AfterInstall::StartOpenRgb } else { AfterInstall::StartAfterburner }),
{
    if text_eq(name, "OpenRGB") { AfterInstall::StartOpenRgb } else { AfterInstall::StartAfterburner }
}

/// `after` is `before` as the panic button leaves it: no effect, custom
/// effect or color override, and switched on when it has LEDs to show.
pub open spec fn fixed_zone(before: ZoneConfig, after: ZoneConfig) -> bool {
    after == ZoneConfig {
        effect_override: None,
        custom_effect: None,
        colors_override: None,
        enabled: before.enabled || effective_leds_of(before) > 0,
        ..before
    }
}

/// How many of the zones have LEDs to show.
pub open spec fn zones_with_leds(zones: Seq<ZoneConfig>) -> nat
    decreases zones.len(),
{
    if zones.len() == 0 {
        0
    } else {
        zones_with_leds(zones.drop_last()) + if effective_leds_of(zones.last()) > 0 { 1nat } else { 0nat }
    }
}

proof fn zones_with_leds_bounded(zones: Seq<ZoneConfig>)
    ensures
        zones_with_leds(zones) <= zones.len(),
    decreases zones.len(),
{
    if zones.len() > 0 {
        zones_with_leds_bounded(zones.drop_last());
    }
}

/// The panic button's zone reset: every zone loses its effect, custom effect
/// and color overrides, and every zone with LEDs to show is switched on.
/// Returns how many zones that is.
pub fn reset_zones_for_fix(zones: &mut Vec<ZoneConfig>) -> (enabled: usize)
    ensures
        final(zones)@.len() == old(zones)@.len(),
        forall|i: int| 0 <= i < old(zones)@.len() ==> fixed_zone(#[trigger] old(zones)@[i], final(zones)@[i]),
        enabled == zones_with_leds(old(zones)@),
{
    let ghost before = zones@;
    let mut enabled: usize = 0;
    let mut i: usize = 0;
    while i < zones.len()
        invariant
            zones@.len() == before.len(),
            i <= zones@.len(),
            forall|j: int| 0 <= j < i ==> fixed_zone(#[trigger] before[j], zones@[j]),
            forall|j: int| i <= j < zones@.len() ==> zones@[j] == before[j],
            enabled == zones_with_leds(before.take(i as int)),
        decreases zones@.len() - i,
    {
        proof {
            assert(before.take(i as int + 1).drop_last() =~= before.take(i as int));
            zones_with_leds_bounded(before.take(i as int));
        }
        let mut z = zones[i].clone();
        z.effect_override = None;
        z.custom_effect = None;
        z.colors_override = None;
        if z.effective_leds() > 0 {
            z.enabled = true;
            enabled = enabled + 1;
        }
        zones.set(i, z);
        i = i + 1;
    }
    assert(before.take(before.len() as int) =~= before);
    enabled
}

/// A click in the tray menu.
#[derive(Clone, Copy, Debug, PartialEq, Eq, Structural)]
pub enum TrayCommand {
    /// Show the configurator window.
    Open,
    /// Close the configurator; the lights keep running.
    Quit,
    /// Stop the daemon, then close the configurator.
    StopAndQuit,
    /// Switch the global effect.
    Effect(EffectsMode),
    /// Not a menu item of ours.
    Ignore,
}

/// The value of a string of ASCII digits.
pub open spec fn digits_value(s: Seq<char>) -> nat
    decreases s.len(),
{
    if s.len() == 0 {
        0
    } else {
        digits_value(s.drop_last()) * 10 + ((s.last() as int - '0' as int) as nat)
    }
}

/// Every character is an ASCII digit.
pub open spec fn all_digits(s: Seq<char>) -> bool {
    forall|i: int| 0 <= i < s.len() ==> '0' <= #[trigger] s[i] <= '9'
}

/// The index a decimal number denotes, as `usize`'s parser reads it: an
/// optional `+` and at least one digit. `None` for anything else.
pub open spec fn decimal_index(s: Seq<char>) -> Option<nat> {
    let digits = if s.len() > 0 && s[0] == '+' { s.subrange(1, s.len() as int) } else { s };
    if digits.len() > 0 && all_digits(digits) { Some(digits_value(digits)) } else { None }
}

/// The menu id of the effect at position `i` of `EffectsMode::ALL`.
pub open spec fn effect_item_prefix() -> Seq<char> {
    "effect:"@
}

/// The command a tray menu id stands for. Effect items are `effect:<i>`
/// with `i` a position in `EffectsMode::ALL`; an id out of range is ignored.
pub open spec fn tray_command_for(id: Seq<char>) -> TrayCommand {
    let p = effect_item_prefix();
    if id.len() >= p.len() && id.subrange(0, p.len() as int) == p {
        match decimal_index(id.subrange(p.len() as int, id.len() as int)) {
            Some(n) => if n < 17 { TrayCommand::Effect(EffectsMode::ALL[n as int]) } else { TrayCommand::Ignore },
            None => TrayCommand::Ignore,
        }
    } else if id == "open"@ {
        TrayCommand::Open
    } else if id == "quit"@ {
        TrayCommand::Quit
    } else if id == "stop_quit"@ {
        TrayCommand::StopAndQuit
    } else {
        TrayCommand::Ignore
    }
}

proof fn digits_value_grows(s: Seq<char>, k: int)
    requires
        0 <= k <= s.len(),
        all_digits(s),
    ensures
        digits_value(s.take(k)) <= digits_value(s),
    decreases s.len() - k,
{
    if k < s.len() {
        digits_value_grows(s, k + 1);
        assert(s.take(k + 1).drop_last() =~= s.take(k));
    } else {
        assert(s.take(k) =~= s);
    }
}

/// The number a digit string denotes when it is below `limit`, else `None`.
fn small_decimal(d: &Vec<char>, start: usize, limit: usize) -> (r: Option<usize>)
    requires
        start <= d@.len(),
        0 < limit < 1000,
    ensures
        match r {
            Some(n) => all_digits(d@.subrange(start as int, d@.len() as int))
                && d@.len() > start && n == digits_value(d@.subrange(start as int, d@.len() as int)) && n < limit,
            None => !(all_digits(d@.subrange(start as int, d@.len() as int)) && d@.len() > start
                && digits_value(d@.subrange(start as int, d@.len() as int)) < limit),
        },
{
    let ghost s = d@.subrange(start as int, d@.len() as int);
    if start == d.len() {
        return None;
    }
    let mut v: usize = 0;
    let mut i: usize = start;
    while i < d.len()
        invariant
            start <= i <= d@.len(),
            s == d@.subrange(start as int, d@.len() as int),
            0 < limit < 1000,
            all_digits(s.take(i - start)),
            v == digits_value(s.take(i - start)),
            v < limit,
        decreases d@.len() - i,
    {
        let c = d[i];
        if c < '0' || c > '9' {
            proof {
                assert(s[i - start] == c);
            }
            return None;
        }
        let digit: usize = (c as u32 - '0' as u32) as usize;
        proof {
            assert(s.take(i - start + 1).drop_last() =~= s.take(i - start));
            assert(s.take(i - start + 1).last() == c);
        }
        let next: usize = v * 10 + digit;
        if next >= limit {
            proof {
                assert(all_digits(s.take(i - start + 1)));
                if all_digits(s) {
                    digits_value_grows(s, i - start + 1);
                }
            }
            return None;
        }
        v = next;
        i = i + 1;
    }
    proof {
        assert(s.take(i - start) =~= s);
    }
    Some(v)
}

/// The command for a tray menu id.
pub fn tray_command(id: &str) -> (r: TrayCommand)
    ensures
        r == tray_command_for(id@),
{
    let chars = chars_of(id);
    let prefix = chars_of("effect:");
    let ghost p = effect_item_prefix();
    let mut is_effect = chars.len() >= prefix.len();
    let mut k: usize = 0;
    while is_effect && k < prefix.len()
        invariant
            prefix@ == p,
            k <= prefix@.len(),
            is_effect ==> chars@.len() >= prefix@.len(),
            is_effect ==> chars@.subrange(0, k as int) == p.subrange(0, k as int),
            !is_effect ==> !(chars@.len() >= p.len() && chars@.subrange(0, p.len() as int) == p),
        decreases prefix@.len() - k + if is_effect { 1int } else { 0int },
    {
        if chars[k] != prefix[k] {
            proof {
                assert(chars@.subrange(0, p.len() as int)[k as int] == chars@[k as int]);
            }
            is_effect = false;
        } else {
            proof {
                assert(chars@.subrange(0, k as int + 1) =~= chars@.subrange(0, k as int).push(chars@[k as int]));
                assert(p.subrange(0, k as int + 1) =~= p.subrange(0, k as int).push(p[k as int]));
            }
            k = k + 1;
        }
    }
    if is_effect {
        proof {
            assert(p.subrange(0, p.len() as int) =~= p);
        }
        let ghost rest = chars@.subrange(p.len() as int, chars@.len() as int);
        let plus = prefix.len() < chars.len() && chars[prefix.len()] == '+';
        let start: usize = if plus { prefix.len() + 1 } else { prefix.len() };
        proof {
            if plus {
                assert(rest.subrange(1, rest.len() as int) =~= chars@.subrange(start as int, chars@.len() as int));
            } else {
                assert(rest =~= chars@.subrange(start as int, chars@.len() as int));
            }
        }
        match small_decimal(&chars, start, 17) {
            Some(n) => TrayCommand::Effect(EffectsMode::ALL[n]),
            None => TrayCommand::Ignore,
        }
    } else if text_eq(id, "open") {
        TrayCommand::Open
    } else if text_eq(id, "quit") {
        TrayCommand::Quit
    } else if text_eq(id, "stop_quit") {
        TrayCommand::StopAndQuit
    } else {
        TrayCommand::Ignore
    }
}

/// The decimal digits of `n`, most significant first.
pub open spec fn decimal_text(n: nat) -> Seq<char>
    decreases n,
{
    if n < 10 {
        seq![digit_char(n)]
    } else {
        decimal_text(n / 10).push(digit_char(n % 10))
    }
}

/// The ASCII digit for `d` (below ten).
pub open spec fn digit_char(d: nat) -> char {
    ('0' as int + d) as char
}

/// The tray menu id of the quick-effect item at position `i`.
pub open spec fn effect_menu_id_text(i: nat) -> Seq<char> {
    effect_item_prefix() + decimal_text(i)
}

fn digit_str(d: usize) -> (r: &'static str)
    requires
        d < 10,
    ensures
        r@ == seq![digit_char(d as nat)],
{
    proof {
        reveal_strlit("0");
        reveal_strlit("1");
        reveal_strlit("2");
        reveal_strlit("3");
        reveal_strlit("4");
        reveal_strlit("5");
        reveal_strlit("6");
        reveal_strlit("7");
        reveal_strlit("8");
        reveal_strlit("9");
    }
    let r = match d {
        0 => "0",
        1 => "1",
        2 => "2",
        3 => "3",
        4 => "4",
        5 => "5",
        6 => "6",
        7 => "7",
        8 => "8",
        _ => "9",
    };
    assert(r@ =~= seq![digit_char(d as nat)]);
    r
}

fn decimal_string(n: usize) -> (r: String)
    ensures
        r@ == decimal_text(n as nat),
    decreases n,
{
    if n < 10 {
        String::from_str(digit_str(n))
    } else {
        let head = decimal_string(n / 10);
        let r = head.concat(digit_str(n % 10));
        assert(r@ =~= decimal_text(n as nat));
        r
    }
}

/// The tray menu id of the quick-effect item for `EffectsMode::ALL[i]`.
pub fn effect_menu_id(i: usize) -> (r: String)
    ensures
        r@ == effect_menu_id_text(i as nat),
{
    let head = String::from_str("effect:");
    let digits = decimal_string(i);
    head.concat(digits.as_str())
}

proof fn decimal_text_reads_back(n: nat)
    ensures
        decimal_text(n).len() > 0,
        all_digits(decimal_text(n)),
        digits_value(decimal_text(n)) == n,
        decimal_text(n)[0] != '+',
    decreases n,
{
    if n >= 10 {
        decimal_text_reads_back(n / 10);
        let t = decimal_text(n);
        assert(t.drop_last() =~= decimal_text(n / 10));
        assert(t[0] == decimal_text(n / 10)[0]);
        assert(t.last() as int - '0' as int == n % 10);
        assert((n / 10) * 10 + n % 10 == n) by (nonlinear_arith);
    } else {
        assert(decimal_text(n).drop_last() =~= Seq::<char>::empty());
        assert(digits_value(Seq::<char>::empty()) == 0);
    }
}

/// Every quick-effect item of the tray menu selects its effect: the id the
/// menu gives item `i` decodes to `EffectsMode::ALL[i]`.
pub proof fn effect_menu_ids_select_their_effect(i: nat)
    requires
        i < 17,
    ensures
        tray_command_for(effect_menu_id_text(i)) == TrayCommand::Effect(EffectsMode::ALL[i as int]),
{
    let id = effect_menu_id_text(i);
    let p = effect_item_prefix();
    decimal_text_reads_back(i);
    assert(id.subrange(0, p.len() as int) =~= p);
    assert(id.subrange(p.len() as int, id.len() as int) =~= decimal_text(i));
}

/// How long the configurator waits before painting again: a full frame rate
/// only while focused, a tenth of a second unfocused, a second minimized.
pub fn repaint_delay_ms(focused: bool, minimized: bool) -> (ms: u64)
    ensures
        ms == (if minimized { 1000u64 } else if focused { 33u64 } else { 100u64 }),
{
    if minimized {
        1000
    } else if focused {
        33
    } else {
        100
    }
}

/// The PowerShell line that starts OpenRGB elevated with its SDK server on.
pub open spec fn openrgb_script_text(path: Seq<char>) -> Seq<char> {
    "Start-Process -FilePath '"@ + path + "' -ArgumentList '--server','--startminimized' -Verb RunAs"@
}

/// The PowerShell line that starts MSI Afterburner through the shell.
pub open spec fn afterburner_script_text(path: Seq<char>) -> Seq<char> {
    "Start-Process -FilePath '"@ + path + "'"@
}

/// The script that starts OpenRGB at `path` the way the daemon needs it:
/// elevated (one UAC prompt), SDK server on, minimized.
pub fn openrgb_start_script(path: &str) -> (r: String)
    ensures
        r@ == openrgb_script_text(path@),
{
    let head = String::from_str("Start-Process -FilePath '");
    let with_path = head.concat(path);
    with_path.concat("' -ArgumentList '--server','--startminimized' -Verb RunAs")
}

/// The script that starts MSI Afterburner at `path` (the program itself asks
/// for elevation).
pub fn afterburner_start_script(path: &str) -> (r: String)
    ensures
        r@ == afterburner_script_text(path@),
{
    let head = String::from_str("Start-Process -FilePath '");
    let with_path = head.concat(path);
    with_path.concat("'")
}

} // verus!
