//! Zone discovery and matching: turns whatever OpenRGB exposes — motherboard
//! ARGB headers (active or empty), RAM sticks, GPU zones, strips, keyboards —
//! into a flat list the user can assign effects to, and keeps the user's saved
//! [`ZoneConfig`] list in sync with what is actually plugged in.

use vstd::prelude::*;
use crate::openrgb::{ControllerInfo, ZoneView};
use crate::settings::{TargetSource, ZoneConfig};
use crate::text::{chars_of, chars_from, ends_with, has_suffix, trimmed, trim_owned};

verus! {

pub const DEVICE_TYPE_MOTHERBOARD: i32 = 0;
pub const DEVICE_TYPE_DRAM: i32 = 1;

/// One controllable zone as reported by the OpenRGB server right now.
#[derive(Debug, PartialEq)]
pub struct DetectedZone {
    pub device_idx: u32,
    pub device_name: String,
    pub device_type: i32,
    /// Empty = the whole device is driven at once (devices without zones).
    pub zone_name: String,
    /// -1 for whole-device entries.
    pub zone_idx: i32,
    pub leds: u32,
    pub resizable: bool,
    pub max_leds: u32,
}

impl Clone for DetectedZone {
    fn clone(&self) -> (d: DetectedZone)
        ensures
            d == *self,
    {
        DetectedZone {
            device_idx: self.device_idx,
            device_name: self.device_name.clone(),
            device_type: self.device_type,
            zone_name: self.zone_name.clone(),
            zone_idx: self.zone_idx,
            leds: self.leds,
            resizable: self.resizable,
            max_leds: self.max_leds,
        }
    }
}

/// The default label of a detected zone: its zone name, or the device name
/// for whole-device entries.
pub open spec fn friendly(d: DetectedZone) -> String {
    if d.zone_name@.len() == 0 { d.device_name } else { d.zone_name }
}

impl DetectedZone {
    /// Human-friendly default label: "Aura Addressable 2" or the device name.
    pub fn friendly_name(&self) -> (r: String)
        ensures
            r == friendly(*self),
    {
        if self.zone_name.as_str().is_empty() {
            self.device_name.clone()
        } else {
            self.zone_name.clone()
        }
    }
}

/// The zone list entry for a device without zones: the whole device at once.
pub open spec fn whole_device_entry(device_idx: u32, info: ControllerInfo, e: DetectedZone) -> bool {
    &&& e.device_idx == device_idx
    &&& e.device_name == info.name
    &&& e.device_type == info.controller_type
    &&& e.zone_name@ == Seq::<char>::empty()
    &&& e.zone_idx == -1
    &&& e.leds == info.num_leds
    &&& !e.resizable
    &&& e.max_leds == info.num_leds
}

/// The zone list entry for zone `i` of a device.
pub open spec fn zone_entry(device_idx: u32, info: ControllerInfo, i: int, z: ZoneView, e: DetectedZone) -> bool {
    &&& e.device_idx == device_idx
    &&& e.device_name == info.name
    &&& e.device_type == info.controller_type
    &&& e.zone_name@ == trimmed(z.name)
    &&& e.zone_idx == i as i32
    &&& e.leds == z.leds_count
    &&& e.resizable == (z.leds_min != z.leds_max)
    &&& e.max_leds == z.leds_max
}

/// A listed zone carries what the device reports of it: its maximum LED
/// count as the entry's limit, its current count as the entry's LEDs, and it
/// is resizable exactly when its reported minimum and maximum differ.
pub proof fn zone_entry_keeps_reported_limits(device_idx: u32, info: ControllerInfo, i: int, z: ZoneView, e: DetectedZone)
    requires
        zone_entry(device_idx, info, i, z, e),
    ensures
        e.max_leds == z.leds_max,
        e.leds == z.leds_count,
        e.resizable <==> z.leds_min != z.leds_max,
        e.zone_idx == i as i32,
{
}

/// The zones a device contributes to the detected list: one per zone (names
/// trimmed), or a single whole-device entry when it reports no zones.
pub fn zones_of(device_idx: u32, info: &ControllerInfo) -> (r: Vec<DetectedZone>)
    ensures
        info.zones@.len() == 0 ==> r@.len() == 1 && whole_device_entry(device_idx, *info, r@[0]),
        info.zones@.len() > 0 ==> r@.len() == info.zones@.len()
            && forall|i: int| 0 <= i < r@.len() ==> zone_entry(device_idx, *info, i, #[trigger] info.zones@[i]@, r@[i]),
        info.zones@.len() > 0 ==> forall|i: int| 0 <= i < r@.len() ==> {
            &&& (#[trigger] r@[i]).max_leds == info.zones@[i].leds_max
            &&& r@[i].leds == info.zones@[i].leds_count
            &&& r@[i].resizable == (info.zones@[i].leds_min != info.zones@[i].leds_max)
            &&& r@[i].zone_idx == i as i32
            &&& r@[i].device_idx == device_idx
            &&& r@[i].device_type == info.controller_type
            &&& r@[i].device_name == info.name
        },
        info.zones@.len() == 0 ==> r@[0].max_leds == info.num_leds && r@[0].leds == info.num_leds
            && !r@[0].resizable && r@[0].zone_idx == -1,
{
    let mut out: Vec<DetectedZone> = Vec::new();
    if info.zones.len() == 0 {
        out.push(DetectedZone {
            device_idx,
            device_name: info.name.clone(),
            device_type: info.controller_type,
            zone_name: String::new(),
            zone_idx: -1,
            leds: info.num_leds,
            resizable: false,
            max_leds: info.num_leds,
        });
        return out;
    }
    let mut i: usize = 0;
    while i < info.zones.len()
        invariant
            i <= info.zones@.len(),
            out@.len() == i,
            forall|k: int| 0 <= k < i ==> zone_entry(device_idx, *info, k, #[trigger] info.zones@[k]@, out@[k]),
        decreases info.zones.len() - i,
    {
        let z = &info.zones[i];
        out.push(DetectedZone {
            device_idx,
            device_name: info.name.clone(),
            device_type: info.controller_type,
            zone_name: trim_owned(z.name.as_str()),
            zone_idx: i as i32,
            leds: z.leds_count,
            resizable: z.leds_min != z.leds_max,
            max_leds: z.leds_max,
        });
        i = i + 1;
    }
    assert forall|i: int| 0 <= i < out@.len() implies zone_entry(device_idx, *info, i, info.zones@[i]@, #[trigger] out@[i]) by {}
    out
}

/// Does a saved config entry refer to this detected zone? Exact (device
/// name, zone name) identity, or one of the two legacy wildcard forms:
/// `zone_name = "*2"` (any motherboard zone whose name ends in "2") and an
/// empty device and zone name with `device_type = DRAM` (every RAM stick).
pub open spec fn matches_spec(cfg: ZoneConfig, det: DetectedZone) -> bool {
    if cfg.device_name@.len() > 0 {
        cfg.device_name@ == det.device_name@ && cfg.zone_name@ == det.zone_name@
    } else if cfg.zone_name@.len() > 0 && cfg.zone_name@[0] == '*' {
        det.device_type == DEVICE_TYPE_MOTHERBOARD && has_suffix(det.zone_name@, cfg.zone_name@.drop_first())
    } else {
        cfg.device_type == DEVICE_TYPE_DRAM && det.device_type == DEVICE_TYPE_DRAM
    }
}

/// Does a saved config entry refer to this detected zone?
///
/// Besides exact (device name, zone name) identity there are two legacy
/// wildcard forms produced by the v1 settings migration:
/// * `zone_name = "*2"` — any motherboard zone whose name ends in "2"
/// * empty device and zone names with `device_type = DRAM` — every RAM stick
pub fn matches(cfg: &ZoneConfig, det: &DetectedZone) -> (r: bool)
    ensures
        r == matches_spec(*cfg, *det),
{
    if !cfg.device_name.as_str().is_empty() {
        return cfg.device_name == det.device_name && cfg.zone_name == det.zone_name;
    }
    let pattern = chars_of(cfg.zone_name.as_str());
    if pattern.len() > 0 && pattern[0] == '*' {
        let suffix = chars_from(&pattern, 1);
        assert(suffix@ =~= cfg.zone_name@.drop_first());
        let name = chars_of(det.zone_name.as_str());
        return det.device_type == DEVICE_TYPE_MOTHERBOARD && ends_with(&name, &suffix);
    }
    cfg.device_type == DEVICE_TYPE_DRAM && det.device_type == DEVICE_TYPE_DRAM
}

/// A saved entry pinned to a detected zone: identity and detection metadata
/// come from the hardware, everything the user chose stays; an empty label
/// takes the zone's friendly name.
pub open spec fn concrete(cfg: ZoneConfig, det: DetectedZone) -> ZoneConfig {
    ZoneConfig {
        device_name: det.device_name,
        device_type: det.device_type,
        zone_name: det.zone_name,
        display_name: if cfg.display_name@.len() == 0 { friendly(det) } else { cfg.display_name },
        enabled: cfg.enabled,
        led_count: cfg.led_count,
        target_source: cfg.target_source,
        effect_override: cfg.effect_override,
        custom_effect: cfg.custom_effect,
        colors_override: cfg.colors_override,
        last_seen_leds: det.leds,
        resizable: det.resizable,
        max_leds: det.max_leds,
    }
}

/// The entry a never-seen zone gets: disabled, with default settings.
pub open spec fn fresh(det: DetectedZone) -> ZoneConfig {
    ZoneConfig {
        device_name: det.device_name,
        device_type: det.device_type,
        zone_name: det.zone_name,
        display_name: friendly(det),
        enabled: false,
        led_count: 0,
        target_source: TargetSource::Cpu,
        effect_override: None,
        custom_effect: None,
        colors_override: None,
        last_seen_leds: det.leds,
        resizable: det.resizable,
        max_leds: det.max_leds,
    }
}

fn concrete_from(cfg: &ZoneConfig, det: &DetectedZone) -> (r: ZoneConfig)
    ensures
        r == concrete(*cfg, *det),
{
    let base = cfg.clone();
    ZoneConfig {
        device_name: det.device_name.clone(),
        device_type: det.device_type,
        zone_name: det.zone_name.clone(),
        display_name: if cfg.display_name.as_str().is_empty() {
            det.friendly_name()
        } else {
            cfg.display_name.clone()
        },
        last_seen_leds: det.leds,
        resizable: det.resizable,
        max_leds: det.max_leds,
        ..base
    }
}

fn fresh_entry(det: &DetectedZone) -> (r: ZoneConfig)
    ensures
        r == fresh(*det),
{
    ZoneConfig {
        device_name: det.device_name.clone(),
        device_type: det.device_type,
        zone_name: det.zone_name.clone(),
        display_name: det.friendly_name(),
        enabled: false,
        led_count: 0,
        target_source: TargetSource::Cpu,
        effect_override: None,
        custom_effect: None,
        colors_override: None,
        last_seen_leds: det.leds,
        resizable: det.resizable,
        max_leds: det.max_leds,
    }
}

/// Some entry of `list` is keyed (device name, zone name) = (`dn`, `zn`).
pub open spec fn has_key(list: Seq<ZoneConfig>, dn: Seq<char>, zn: Seq<char>) -> bool {
    exists|i: int| 0 <= i < list.len() && #[trigger] list[i].device_name@ == dn && list[i].zone_name@ == zn
}

/// Some detected zone matches `cfg`.
pub open spec fn any_match(cfg: ZoneConfig, dets: Seq<DetectedZone>) -> bool {
    exists|i: int| 0 <= i < dets.len() && matches_spec(cfg, #[trigger] dets[i])
}

/// Append, in detection order, `cfg` pinned to each zone it matches, skipping
/// zones whose identity is already listed.
pub open spec fn add_matching(next: Seq<ZoneConfig>, cfg: ZoneConfig, dets: Seq<DetectedZone>) -> Seq<ZoneConfig>
    decreases dets.len(),
{
    if dets.len() == 0 {
        next
    } else {
        let prev = add_matching(next, cfg, dets.drop_last());
        let d = dets.last();
        if matches_spec(cfg, d) && !has_key(prev, d.device_name@, d.zone_name@) {
            prev.push(concrete(cfg, d))
        } else {
            prev
        }
    }
}

/// One saved entry folded into the new list: kept as saved when its hardware
/// is absent, else pinned to every zone it matches.
pub open spec fn step_cfg(next: Seq<ZoneConfig>, cfg: ZoneConfig, dets: Seq<DetectedZone>) -> Seq<ZoneConfig> {
    if any_match(cfg, dets) {
        add_matching(next, cfg, dets)
    } else {
        next.push(cfg)
    }
}

/// Every saved entry folded in, in order.
pub open spec fn merge_cfgs(cfgs: Seq<ZoneConfig>, dets: Seq<DetectedZone>) -> Seq<ZoneConfig>
    decreases cfgs.len(),
{
    if cfgs.len() == 0 {
        Seq::empty()
    } else {
        step_cfg(merge_cfgs(cfgs.drop_last(), dets), cfgs.last(), dets)
    }
}

/// Append a fresh entry for every detected zone whose identity is not listed yet.
pub open spec fn add_new(next: Seq<ZoneConfig>, dets: Seq<DetectedZone>) -> Seq<ZoneConfig>
    decreases dets.len(),
{
    if dets.len() == 0 {
        next
    } else {
        let prev = add_new(next, dets.drop_last());
        let d = dets.last();
        if has_key(prev, d.device_name@, d.zone_name@) {
            prev
        } else {
            prev.push(fresh(d))
        }
    }
}

/// The zone list after reconciling saved entries with a detection.
pub open spec fn merged(cfgs: Seq<ZoneConfig>, dets: Seq<DetectedZone>) -> Seq<ZoneConfig> {
    add_new(merge_cfgs(cfgs, dets), dets)
}

fn contains_key(list: &Vec<ZoneConfig>, dn: &String, zn: &String) -> (r: bool)
    ensures
        r == has_key(list@, dn@, zn@),
{
    let mut i: usize = 0;
    while i < list.len()
        invariant
            i <= list@.len(),
            forall|k: int| 0 <= k < i ==> !(#[trigger] list@[k].device_name@ == dn@ && list@[k].zone_name@ == zn@),
        decreases list.len() - i,
    {
        if list[i].device_name == *dn && list[i].zone_name == *zn {
            return true;
        }
        i = i + 1;
    }
    false
}

fn matches_any(cfg: &ZoneConfig, detected: &[DetectedZone]) -> (r: bool)
    ensures
        r == any_match(*cfg, detected@),
{
    let mut j: usize = 0;
    while j < detected.len()
        invariant
            j <= detected@.len(),
            forall|k: int| 0 <= k < j ==> !matches_spec(*cfg, #[trigger] detected@[k]),
        decreases detected.len() - j,
    {
        if matches(cfg, &detected[j]) {
            return true;
        }
        j = j + 1;
    }
    false
}

/// Reconcile the saved zone list with a fresh detection:
/// * legacy wildcard entries become concrete per-zone entries (keeping their
///   enabled state, targets and overrides)
/// * zones never seen before are appended, disabled, ready to switch on
/// * detection metadata (LED counts, resizability) is refreshed
/// * entries whose hardware is currently absent are kept, never deleted
pub fn merge(zone_configs: &mut Vec<ZoneConfig>, detected: &[DetectedZone])
    ensures
        final(zone_configs)@ == merged(old(zone_configs)@, detected@),
{
    let ghost cfgs = zone_configs@;
    let ghost dets = detected@;
    let mut next: Vec<ZoneConfig> = Vec::new();
    let mut i: usize = 0;
    while i < zone_configs.len()
        invariant
            cfgs == zone_configs@,
            dets == detected@,
            i <= cfgs.len(),
            next@ == merge_cfgs(cfgs.take(i as int), dets),
        decreases zone_configs.len() - i,
    {
        let cfg = &zone_configs[i];
        assert(cfgs.take(i + 1).drop_last() =~= cfgs.take(i as int));
        assert(cfgs.take(i + 1).last() == cfgs[i as int]);
        if !matches_any(cfg, detected) {
            next.push(cfg.clone());
        } else {
            let ghost start = next@;
            let mut j: usize = 0;
            while j < detected.len()
                invariant
                    dets == detected@,
                    j <= dets.len(),
                    next@ == add_matching(start, *cfg, dets.take(j as int)),
                decreases detected.len() - j,
            {
                let det = &detected[j];
                assert(dets.take(j + 1).drop_last() =~= dets.take(j as int));
                assert(dets.take(j + 1).last() == dets[j as int]);
                if matches(cfg, det) && !contains_key(&next, &det.device_name, &det.zone_name) {
                    next.push(concrete_from(cfg, det));
                }
                j = j + 1;
            }
            assert(dets.take(j as int) =~= dets);
        }
        i = i + 1;
    }
    assert(cfgs.take(i as int) =~= cfgs);
    let ghost base = next@;
    let mut j: usize = 0;
    while j < detected.len()
        invariant
            dets == detected@,
            j <= dets.len(),
            next@ == add_new(base, dets.take(j as int)),
        decreases detected.len() - j,
    {
        let det = &detected[j];
        assert(dets.take(j + 1).drop_last() =~= dets.take(j as int));
        assert(dets.take(j + 1).last() == dets[j as int]);
        if !contains_key(&next, &det.device_name, &det.zone_name) {
            next.push(fresh_entry(det));
        }
        j = j + 1;
    }
    assert(dets.take(j as int) =~= dets);
    *zone_configs = next;
}

/// The emoji shown for a device type.
pub open spec fn device_emoji_text(device_type: i32) -> Seq<char> {
    if device_type == 0 { "🔌"@ }
    else if device_type == 1 { "🧠"@ }
    else if device_type == 2 { "🎮"@ }
    else if device_type == 3 { "❄"@ }
    else if device_type == 4 { "💡"@ }
    else if device_type == 5 { "⌨"@ }
    else if device_type == 6 { "🖱"@ }
    else if device_type == 8 { "🎧"@ }
    else { "💡"@ }
}

/// The plain-language name of a device type.
pub open spec fn device_kind_text(device_type: i32) -> Seq<char> {
    if device_type == 0 { "Motherboard ARGB header"@ }
    else if device_type == 1 { "RAM stick"@ }
    else if device_type == 2 { "Graphics card"@ }
    else if device_type == 3 { "CPU cooler"@ }
    else if device_type == 4 { "LED strip"@ }
    else if device_type == 5 { "Keyboard"@ }
    else if device_type == 6 { "Mouse"@ }
    else if device_type == 8 { "Headset"@ }
    else { "RGB device"@ }
}

/// Emoji for a device type, used by the GUI to make the zone list scannable.
pub fn device_emoji(device_type: i32) -> (r: &'static str)
    ensures
        r@ == device_emoji_text(device_type),
{
    match device_type {
        0 => "🔌", // motherboard ARGB headers
        1 => "🧠", // DRAM
        2 => "🎮", // GPU
        3 => "❄",  // cooler
        4 => "💡", // LED strip
        5 => "⌨",  // keyboard
        6 => "🖱", // mouse
        8 => "🎧", // headset
        _ => "💡",
    }
}

/// Plain-language description of a device type for tooltips.
pub fn device_kind_label(device_type: i32) -> (r: &'static str)
    ensures
        r@ == device_kind_text(device_type),
{
    match device_type {
        0 => "Motherboard ARGB header",
        1 => "RAM stick",
        2 => "Graphics card",
        3 => "CPU cooler",
        4 => "LED strip",
        5 => "Keyboard",
        6 => "Mouse",
        8 => "Headset",
        _ => "RGB device",
    }
}

} // verus!

verus! {

// ---------------------------------------------------------------------------
// Laws of merging
// ---------------------------------------------------------------------------

/// A saved entry and a detected zone name the same (device, zone).
pub open spec fn same_identity(c: ZoneConfig, d: DetectedZone) -> bool {
    c.device_name@ == d.device_name@ && c.zone_name@ == d.zone_name@
}

/// Every detected zone has a device name and no two share a (device, zone)
/// identity.
pub open spec fn identities_distinct(dets: Seq<DetectedZone>) -> bool {
    &&& forall|i: int| 0 <= i < dets.len() ==> (#[trigger] dets[i]).device_name@.len() > 0
    &&& forall|i: int, j: int|
        0 <= i < dets.len() && 0 <= j < dets.len() && i != j
            ==> !(#[trigger] dets[i].device_name@ == #[trigger] dets[j].device_name@ && dets[i].zone_name@ == dets[j].zone_name@)
}

/// An entry pinned to detected zone `j`: same identity, and pinning it again
/// changes nothing.
pub open spec fn pinned_to(e: ZoneConfig, dets: Seq<DetectedZone>, j: int) -> bool {
    0 <= j < dets.len() && same_identity(e, dets[j]) && concrete(e, dets[j]) == e
}

pub open spec fn pinned(e: ZoneConfig, dets: Seq<DetectedZone>) -> bool {
    exists|j: int| #[trigger] pinned_to(e, dets, j)
}

/// The shape of a reconciled list: each entry is either unmatched by the
/// detection or pinned to a detected zone, and pinned entries share their
/// identity with no other entry.
pub open spec fn reconciled(l: Seq<ZoneConfig>, dets: Seq<DetectedZone>) -> bool {
    &&& forall|i: int| 0 <= i < l.len() ==> !any_match(#[trigger] l[i], dets) || pinned(l[i], dets)
    &&& forall|i: int, k: int|
        0 <= i < l.len() && 0 <= k < l.len() && i != k && pinned(#[trigger] l[i], dets)
            ==> !(l[i].device_name@ == (#[trigger] l[k]).device_name@ && l[i].zone_name@ == l[k].zone_name@)
}

proof fn lemma_concrete_fixed(cfg: ZoneConfig, d: DetectedZone)
    requires
        d.device_name@.len() > 0,
    ensures
        same_identity(concrete(cfg, d), d),
        concrete(concrete(cfg, d), d) == concrete(cfg, d),
        same_identity(fresh(d), d),
        concrete(fresh(d), d) == fresh(d),
{
}

proof fn lemma_push_reconciled(l: Seq<ZoneConfig>, e: ZoneConfig, dets: Seq<DetectedZone>)
    requires
        reconciled(l, dets),
        identities_distinct(dets),
        !any_match(e, dets) || pinned(e, dets),
        pinned(e, dets) ==> !has_key(l, e.device_name@, e.zone_name@),
    ensures
        reconciled(l.push(e), dets),
{
    let n = l.push(e);
    assert forall|i: int| 0 <= i < n.len() implies !any_match(#[trigger] n[i], dets) || pinned(n[i], dets) by {
        if i < l.len() {
            assert(n[i] == l[i]);
        }
    }
    assert forall|i: int, k: int|
        0 <= i < n.len() && 0 <= k < n.len() && i != k && pinned(#[trigger] n[i], dets)
            implies !(n[i].device_name@ == (#[trigger] n[k]).device_name@ && n[i].zone_name@ == n[k].zone_name@) by {
        if i < l.len() && k < l.len() {
            assert(n[i] == l[i] && n[k] == l[k]);
        } else if i == l.len() {
            assert(n[k] == l[k]);
            if n[i].device_name@ == n[k].device_name@ && n[i].zone_name@ == n[k].zone_name@ {
                assert(has_key(l, e.device_name@, e.zone_name@));
            }
        } else {
            // k is the new entry, i an old pinned one
            assert(n[i] == l[i]);
            let j = choose|j: int| #[trigger] pinned_to(l[i], dets, j);
            if n[i].device_name@ == n[k].device_name@ && n[i].zone_name@ == n[k].zone_name@ {
                if pinned(e, dets) {
                    assert(has_key(l, e.device_name@, e.zone_name@));
                } else {
                    // e shares the identity of a detected zone, so it would match it
                    assert(dets[j].device_name@.len() > 0);
                    assert(matches_spec(e, dets[j]));
                    assert(any_match(e, dets));
                }
            }
        }
    }
}

proof fn lemma_add_matching_reconciled(next: Seq<ZoneConfig>, cfg: ZoneConfig, dets: Seq<DetectedZone>, n: int)
    requires
        0 <= n <= dets.len(),
        reconciled(next, dets),
        identities_distinct(dets),
    ensures
        reconciled(add_matching(next, cfg, dets.take(n)), dets),
    decreases n,
{
    if n > 0 {
        let ds = dets.take(n);
        assert(ds.drop_last() =~= dets.take(n - 1));
        lemma_add_matching_reconciled(next, cfg, dets, n - 1);
        let prev = add_matching(next, cfg, dets.take(n - 1));
        let d = dets[n - 1];
        assert(ds.last() == d);
        if matches_spec(cfg, d) && !has_key(prev, d.device_name@, d.zone_name@) {
            lemma_concrete_fixed(cfg, d);
            assert(pinned_to(concrete(cfg, d), dets, n - 1));
            lemma_push_reconciled(prev, concrete(cfg, d), dets);
        }
    }
}

proof fn lemma_merge_cfgs_reconciled(cfgs: Seq<ZoneConfig>, dets: Seq<DetectedZone>)
    requires
        identities_distinct(dets),
    ensures
        reconciled(merge_cfgs(cfgs, dets), dets),
    decreases cfgs.len(),
{
    if cfgs.len() > 0 {
        lemma_merge_cfgs_reconciled(cfgs.drop_last(), dets);
        let prev = merge_cfgs(cfgs.drop_last(), dets);
        let cfg = cfgs.last();
        if any_match(cfg, dets) {
            lemma_add_matching_reconciled(prev, cfg, dets, dets.len() as int);
            assert(dets.take(dets.len() as int) =~= dets);
        } else {
            lemma_push_reconciled(prev, cfg, dets);
        }
    }
}

proof fn lemma_add_new_reconciled(next: Seq<ZoneConfig>, dets: Seq<DetectedZone>, n: int)
    requires
        0 <= n <= dets.len(),
        reconciled(next, dets),
        identities_distinct(dets),
    ensures
        reconciled(add_new(next, dets.take(n)), dets),
    decreases n,
{
    if n > 0 {
        let ds = dets.take(n);
        assert(ds.drop_last() =~= dets.take(n - 1));
        lemma_add_new_reconciled(next, dets, n - 1);
        let prev = add_new(next, dets.take(n - 1));
        let d = dets[n - 1];
        assert(ds.last() == d);
        if !has_key(prev, d.device_name@, d.zone_name@) {
            lemma_concrete_fixed(fresh(d), d);
            assert(pinned_to(fresh(d), dets, n - 1));
            lemma_push_reconciled(prev, fresh(d), dets);
        }
    }
}

} // verus!

verus! {

/// `l` starts with `p`.
pub open spec fn extends(l: Seq<ZoneConfig>, p: Seq<ZoneConfig>) -> bool {
    p.len() <= l.len() && forall|i: int| 0 <= i < p.len() ==> #[trigger] l[i] == p[i]
}

proof fn lemma_add_matching_extends(next: Seq<ZoneConfig>, cfg: ZoneConfig, ds: Seq<DetectedZone>)
    ensures
        extends(add_matching(next, cfg, ds), next),
    decreases ds.len(),
{
    if ds.len() > 0 {
        lemma_add_matching_extends(next, cfg, ds.drop_last());
    }
}

proof fn lemma_add_new_extends(next: Seq<ZoneConfig>, ds: Seq<DetectedZone>)
    ensures
        extends(add_new(next, ds), next),
    decreases ds.len(),
{
    if ds.len() > 0 {
        lemma_add_new_extends(next, ds.drop_last());
    }
}

proof fn lemma_has_key_extends(l: Seq<ZoneConfig>, p: Seq<ZoneConfig>, dn: Seq<char>, zn: Seq<char>)
    requires
        extends(l, p),
        has_key(p, dn, zn),
    ensures
        has_key(l, dn, zn),
{
    let i = choose|i: int| 0 <= i < p.len() && #[trigger] p[i].device_name@ == dn && p[i].zone_name@ == zn;
    assert(l[i] == p[i]);
}

proof fn lemma_add_new_covers(next: Seq<ZoneConfig>, dets: Seq<DetectedZone>, n: int)
    requires
        0 <= n <= dets.len(),
    ensures
        forall|j: int| 0 <= j < n ==> has_key(add_new(next, dets.take(n)), (#[trigger] dets[j]).device_name@, dets[j].zone_name@),
    decreases n,
{
    if n > 0 {
        let ds = dets.take(n);
        assert(ds.drop_last() =~= dets.take(n - 1));
        assert(ds.last() == dets[n - 1]);
        lemma_add_new_covers(next, dets, n - 1);
        let prev = add_new(next, dets.take(n - 1));
        let cur = add_new(next, ds);
        assert(extends(cur, prev));
        assert forall|j: int| 0 <= j < n implies has_key(cur, (#[trigger] dets[j]).device_name@, dets[j].zone_name@) by {
            if j < n - 1 {
                assert(has_key(prev, dets[j].device_name@, dets[j].zone_name@));
            }
            if has_key(prev, dets[j].device_name@, dets[j].zone_name@) {
                lemma_has_key_extends(cur, prev, dets[j].device_name@, dets[j].zone_name@);
            } else {
                assert(j == n - 1);
                assert(cur == prev.push(fresh(dets[n - 1])));
                let w = prev.len() as int;
                assert(cur[w] == fresh(dets[j]));
                assert(cur[w].device_name@ == dets[j].device_name@ && cur[w].zone_name@ == dets[j].zone_name@);
            }
        }
    }
}

proof fn lemma_add_matching_pinned(next: Seq<ZoneConfig>, e: ZoneConfig, dets: Seq<DetectedZone>, j: int, n: int)
    requires
        identities_distinct(dets),
        pinned_to(e, dets, j),
        !has_key(next, e.device_name@, e.zone_name@),
        0 <= n <= dets.len(),
    ensures
        add_matching(next, e, dets.take(n)) == (if n > j { next.push(e) } else { next }),
    decreases n,
{
    if n > 0 {
        let ds = dets.take(n);
        assert(ds.drop_last() =~= dets.take(n - 1));
        assert(ds.last() == dets[n - 1]);
        lemma_add_matching_pinned(next, e, dets, j, n - 1);
        let d = dets[n - 1];
        assert(matches_spec(e, d) == same_identity(e, d));
        if n - 1 != j {
            assert(!same_identity(e, d));
        } else {
            assert(!has_key(next, d.device_name@, d.zone_name@));
        }
    }
}

proof fn lemma_merge_cfgs_fixed(l: Seq<ZoneConfig>, dets: Seq<DetectedZone>, k: int)
    requires
        reconciled(l, dets),
        identities_distinct(dets),
        0 <= k <= l.len(),
    ensures
        merge_cfgs(l.take(k), dets) == l.take(k),
    decreases k,
{
    if k > 0 {
        let lk = l.take(k);
        assert(lk.drop_last() =~= l.take(k - 1));
        assert(lk.last() == l[k - 1]);
        lemma_merge_cfgs_fixed(l, dets, k - 1);
        let e = l[k - 1];
        if any_match(e, dets) {
            assert(pinned(e, dets));
            let j = choose|j: int| #[trigger] pinned_to(e, dets, j);
            assert(!has_key(l.take(k - 1), e.device_name@, e.zone_name@)) by {
                if has_key(l.take(k - 1), e.device_name@, e.zone_name@) {
                    let i = choose|i: int| 0 <= i < l.take(k - 1).len()
                        && #[trigger] l.take(k - 1)[i].device_name@ == e.device_name@
                        && l.take(k - 1)[i].zone_name@ == e.zone_name@;
                    assert(l.take(k - 1)[i] == l[i]);
                    assert(pinned(l[k - 1], dets));
                }
            }
            lemma_add_matching_pinned(l.take(k - 1), e, dets, j, dets.len() as int);
            assert(dets.take(dets.len() as int) =~= dets);
        }
        assert(l.take(k - 1).push(e) =~= lk);
    }
}

proof fn lemma_add_new_fixed(l: Seq<ZoneConfig>, dets: Seq<DetectedZone>, n: int)
    requires
        forall|j: int| 0 <= j < dets.len() ==> has_key(l, (#[trigger] dets[j]).device_name@, dets[j].zone_name@),
        0 <= n <= dets.len(),
    ensures
        add_new(l, dets.take(n)) == l,
    decreases n,
{
    if n > 0 {
        let ds = dets.take(n);
        assert(ds.drop_last() =~= dets.take(n - 1));
        assert(ds.last() == dets[n - 1]);
        lemma_add_new_fixed(l, dets, n - 1);
    }
}

proof fn lemma_merged_shape(cfgs: Seq<ZoneConfig>, dets: Seq<DetectedZone>)
    requires
        identities_distinct(dets),
    ensures
        reconciled(merged(cfgs, dets), dets),
        forall|j: int| 0 <= j < dets.len() ==> has_key(merged(cfgs, dets), (#[trigger] dets[j]).device_name@, dets[j].zone_name@),
{
    lemma_merge_cfgs_reconciled(cfgs, dets);
    let m = merge_cfgs(cfgs, dets);
    lemma_add_new_reconciled(m, dets, dets.len() as int);
    lemma_add_new_covers(m, dets, dets.len() as int);
    assert(dets.take(dets.len() as int) =~= dets);
}

/// Law: reconciling a second time against the same detection changes
/// nothing — provided every detected zone has a device name and no two
/// detected zones share a (device, zone) identity.
pub proof fn merge_is_stable(cfgs: Seq<ZoneConfig>, dets: Seq<DetectedZone>)
    requires
        identities_distinct(dets),
    ensures
        merged(merged(cfgs, dets), dets) == merged(cfgs, dets),
{
    let m = merged(cfgs, dets);
    lemma_merged_shape(cfgs, dets);
    lemma_merge_cfgs_fixed(m, dets, m.len() as int);
    assert(m.take(m.len() as int) =~= m);
    lemma_add_new_fixed(m, dets, dets.len() as int);
    assert(dets.take(dets.len() as int) =~= dets);
}

/// Law: after a merge every detected zone is listed under its identity.
pub proof fn merge_lists_every_detected_zone(cfgs: Seq<ZoneConfig>, dets: Seq<DetectedZone>)
    ensures
        forall|j: int| 0 <= j < dets.len() ==> has_key(merged(cfgs, dets), (#[trigger] dets[j]).device_name@, dets[j].zone_name@),
{
    lemma_add_new_covers(merge_cfgs(cfgs, dets), dets, dets.len() as int);
    assert(dets.take(dets.len() as int) =~= dets);
}

proof fn lemma_merge_cfgs_keeps(cfgs: Seq<ZoneConfig>, dets: Seq<DetectedZone>)
    ensures
        forall|k: int| 0 <= k < cfgs.len() && !any_match(#[trigger] cfgs[k], dets)
            ==> merge_cfgs(cfgs, dets).contains(cfgs[k]),
    decreases cfgs.len(),
{
    if cfgs.len() > 0 {
        let init = cfgs.drop_last();
        lemma_merge_cfgs_keeps(init, dets);
        let prev = merge_cfgs(init, dets);
        let cur = merge_cfgs(cfgs, dets);
        let last = cfgs.last();
        if any_match(last, dets) {
            lemma_add_matching_extends(prev, last, dets);
        }
        assert(extends(cur, prev));
        assert forall|k: int| 0 <= k < cfgs.len() && !any_match(#[trigger] cfgs[k], dets) implies cur.contains(cfgs[k]) by {
            if k < cfgs.len() - 1 {
                assert(init[k] == cfgs[k]);
                let i = choose|i: int| 0 <= i < prev.len() && prev[i] == init[k];
                assert(cur[i] == prev[i]);
            } else {
                assert(cur[prev.len() as int] == last);
            }
        }
    }
}

/// Law: entries whose hardware is absent from the detection are kept as
/// saved, never deleted.
pub proof fn merge_keeps_absent_entries(cfgs: Seq<ZoneConfig>, dets: Seq<DetectedZone>)
    ensures
        forall|k: int| 0 <= k < cfgs.len() && !any_match(#[trigger] cfgs[k], dets)
            ==> merged(cfgs, dets).contains(cfgs[k]),
{
    lemma_merge_cfgs_keeps(cfgs, dets);
    let m = merge_cfgs(cfgs, dets);
    lemma_add_new_extends(m, dets);
    assert forall|k: int| 0 <= k < cfgs.len() && !any_match(#[trigger] cfgs[k], dets)
        implies merged(cfgs, dets).contains(cfgs[k]) by {
        let i = choose|i: int| 0 <= i < m.len() && m[i] == cfgs[k];
        assert(merged(cfgs, dets)[i] == m[i]);
    }
}

/// Law: detection metadata is refreshed — every listed entry that names a
/// detected zone carries that zone's device type, LED count, resizability
/// and LED maximum (when every detected zone has a device name and
/// identities are distinct).
pub proof fn merge_refreshes_metadata(cfgs: Seq<ZoneConfig>, dets: Seq<DetectedZone>, i: int, j: int)
    requires
        identities_distinct(dets),
        0 <= i < merged(cfgs, dets).len(),
        0 <= j < dets.len(),
        same_identity(merged(cfgs, dets)[i], dets[j]),
    ensures
        merged(cfgs, dets)[i].device_type == dets[j].device_type,
        merged(cfgs, dets)[i].last_seen_leds == dets[j].leds,
        merged(cfgs, dets)[i].resizable == dets[j].resizable,
        merged(cfgs, dets)[i].max_leds == dets[j].max_leds,
{
    lemma_merged_shape(cfgs, dets);
    let m = merged(cfgs, dets);
    let e = m[i];
    assert(dets[j].device_name@.len() > 0);
    assert(matches_spec(e, dets[j]));
    assert(any_match(e, dets));
    assert(pinned(e, dets));
    let k = choose|k: int| #[trigger] pinned_to(e, dets, k);
    if k != j {
        assert(same_identity(e, dets[k]));
    }
}

} // verus!

verus! {

proof fn lemma_add_matching_avoids(next: Seq<ZoneConfig>, cfg: ZoneConfig, dets: Seq<DetectedZone>, n: int, j0: int)
    requires
        identities_distinct(dets),
        0 <= j0 < dets.len(),
        0 <= n <= dets.len(),
        !matches_spec(cfg, dets[j0]),
        !has_key(next, dets[j0].device_name@, dets[j0].zone_name@),
    ensures
        !has_key(add_matching(next, cfg, dets.take(n)), dets[j0].device_name@, dets[j0].zone_name@),
    decreases n,
{
    if n > 0 {
        let ds = dets.take(n);
        assert(ds.drop_last() =~= dets.take(n - 1));
        assert(ds.last() == dets[n - 1]);
        lemma_add_matching_avoids(next, cfg, dets, n - 1, j0);
        let prev = add_matching(next, cfg, dets.take(n - 1));
        let d = dets[n - 1];
        if matches_spec(cfg, d) && !has_key(prev, d.device_name@, d.zone_name@) {
            let cur = prev.push(concrete(cfg, d));
            assert(n - 1 != j0);
            assert(!(d.device_name@ == dets[j0].device_name@ && d.zone_name@ == dets[j0].zone_name@));
            if has_key(cur, dets[j0].device_name@, dets[j0].zone_name@) {
                let i = choose|i: int| 0 <= i < cur.len() && #[trigger] cur[i].device_name@ == dets[j0].device_name@
                    && cur[i].zone_name@ == dets[j0].zone_name@;
                if i < prev.len() {
                    assert(cur[i] == prev[i]);
                }
            }
        }
    }
}

proof fn lemma_merge_cfgs_avoids(cfgs: Seq<ZoneConfig>, dets: Seq<DetectedZone>, j0: int)
    requires
        identities_distinct(dets),
        0 <= j0 < dets.len(),
        forall|k: int| 0 <= k < cfgs.len() ==> !matches_spec(#[trigger] cfgs[k], dets[j0]) && !same_identity(cfgs[k], dets[j0]),
    ensures
        !has_key(merge_cfgs(cfgs, dets), dets[j0].device_name@, dets[j0].zone_name@),
    decreases cfgs.len(),
{
    if cfgs.len() > 0 {
        let init = cfgs.drop_last();
        assert forall|k: int| 0 <= k < init.len() implies !matches_spec(#[trigger] init[k], dets[j0]) && !same_identity(init[k], dets[j0]) by {
            assert(init[k] == cfgs[k]);
        }
        lemma_merge_cfgs_avoids(init, dets, j0);
        let prev = merge_cfgs(init, dets);
        let last = cfgs.last();
        assert(!matches_spec(last, dets[j0]) && !same_identity(last, dets[j0]));
        if any_match(last, dets) {
            lemma_add_matching_avoids(prev, last, dets, dets.len() as int, j0);
            assert(dets.take(dets.len() as int) =~= dets);
        } else {
            let cur = prev.push(last);
            if has_key(cur, dets[j0].device_name@, dets[j0].zone_name@) {
                let i = choose|i: int| 0 <= i < cur.len() && #[trigger] cur[i].device_name@ == dets[j0].device_name@
                    && cur[i].zone_name@ == dets[j0].zone_name@;
                if i < prev.len() {
                    assert(cur[i] == prev[i]);
                }
            }
        }
    }
}

proof fn lemma_add_matching_no_key_before(next: Seq<ZoneConfig>, cfg: ZoneConfig, dets: Seq<DetectedZone>, n: int, j0: int)
    requires
        identities_distinct(dets),
        0 <= n <= j0 < dets.len(),
        !has_key(next, dets[j0].device_name@, dets[j0].zone_name@),
    ensures
        !has_key(add_matching(next, cfg, dets.take(n)), dets[j0].device_name@, dets[j0].zone_name@),
    decreases n,
{
    if n > 0 {
        let ds = dets.take(n);
        assert(ds.drop_last() =~= dets.take(n - 1));
        assert(ds.last() == dets[n - 1]);
        lemma_add_matching_no_key_before(next, cfg, dets, n - 1, j0);
        let prev = add_matching(next, cfg, dets.take(n - 1));
        let d = dets[n - 1];
        if matches_spec(cfg, d) && !has_key(prev, d.device_name@, d.zone_name@) {
            let cur = prev.push(concrete(cfg, d));
            assert(!(d.device_name@ == dets[j0].device_name@ && d.zone_name@ == dets[j0].zone_name@));
            if has_key(cur, dets[j0].device_name@, dets[j0].zone_name@) {
                let i = choose|i: int| 0 <= i < cur.len() && #[trigger] cur[i].device_name@ == dets[j0].device_name@
                    && cur[i].zone_name@ == dets[j0].zone_name@;
                if i < prev.len() {
                    assert(cur[i] == prev[i]);
                }
            }
        }
    }
}

proof fn lemma_add_matching_pins(next: Seq<ZoneConfig>, cfg: ZoneConfig, dets: Seq<DetectedZone>, n: int, j0: int)
    requires
        identities_distinct(dets),
        0 <= j0 < n <= dets.len(),
        matches_spec(cfg, dets[j0]),
        !has_key(next, dets[j0].device_name@, dets[j0].zone_name@),
    ensures
        add_matching(next, cfg, dets.take(n)).contains(concrete(cfg, dets[j0])),
    decreases n,
{
    let ds = dets.take(n);
    assert(ds.drop_last() =~= dets.take(n - 1));
    assert(ds.last() == dets[n - 1]);
    let prev = add_matching(next, cfg, dets.take(n - 1));
    let cur = add_matching(next, cfg, ds);
    if n - 1 == j0 {
        lemma_add_matching_no_key_before(next, cfg, dets, n - 1, j0);
        assert(cur == prev.push(concrete(cfg, dets[j0])));
        assert(cur[prev.len() as int] == concrete(cfg, dets[j0]));
    } else {
        lemma_add_matching_pins(next, cfg, dets, n - 1, j0);
        let i = choose|i: int| 0 <= i < prev.len() && prev[i] == concrete(cfg, dets[j0]);
        assert(cur[i] == prev[i]);
    }
}

proof fn lemma_merge_cfgs_grows(cfgs: Seq<ZoneConfig>, dets: Seq<DetectedZone>, n: int, e: ZoneConfig)
    requires
        0 <= n <= cfgs.len(),
        merge_cfgs(cfgs.take(n), dets).contains(e),
    ensures
        merge_cfgs(cfgs, dets).contains(e),
    decreases cfgs.len() - n,
{
    if n < cfgs.len() {
        let t = cfgs.take(n + 1);
        assert(t.drop_last() =~= cfgs.take(n));
        assert(t.last() == cfgs[n]);
        let prev = merge_cfgs(cfgs.take(n), dets);
        let cur = merge_cfgs(t, dets);
        lemma_add_matching_extends(prev, cfgs[n], dets);
        let i = choose|i: int| 0 <= i < prev.len() && prev[i] == e;
        assert(cur[i] == prev[i]);
        lemma_merge_cfgs_grows(cfgs, dets, n + 1, e);
    } else {
        assert(cfgs.take(n) =~= cfgs);
    }
}

/// Reconciling keeps the user's choices: the entry a detected zone gets from
/// the first saved entry that matches it carries that entry's enabled
/// state, LED count, source, effect, custom effect and colors unchanged;
/// only the identity and the detection metadata come from the hardware, and
/// an empty label takes the zone's name (or, for a whole device, the device
/// name). Needs distinct, named detected zones, as detection reports them.
pub proof fn merge_keeps_user_choices(cfgs: Seq<ZoneConfig>, dets: Seq<DetectedZone>, k: int, j: int)
    requires
        identities_distinct(dets),
        0 <= k < cfgs.len(),
        0 <= j < dets.len(),
        matches_spec(cfgs[k], dets[j]),
        forall|q: int| 0 <= q < k ==> !matches_spec(#[trigger] cfgs[q], dets[j]),
    ensures
        exists|i: int| 0 <= i < merged(cfgs, dets).len() && {
            let e = #[trigger] merged(cfgs, dets)[i];
            let c = cfgs[k];
            let d = dets[j];
            &&& e.device_name@ == d.device_name@
            &&& e.zone_name@ == d.zone_name@
            &&& e.device_type == d.device_type
            &&& e.enabled == c.enabled
            &&& e.led_count == c.led_count
            &&& e.target_source == c.target_source
            &&& e.effect_override == c.effect_override
            &&& e.custom_effect == c.custom_effect
            &&& e.colors_override == c.colors_override
            &&& e.last_seen_leds == d.leds
            &&& e.resizable == d.resizable
            &&& e.max_leds == d.max_leds
            &&& e.display_name@ == (if c.display_name@.len() > 0 { c.display_name@ }
                else if d.zone_name@.len() > 0 { d.zone_name@ } else { d.device_name@ })
        },
{
    let before = cfgs.take(k);
    assert forall|q: int| 0 <= q < before.len() implies
        !matches_spec(#[trigger] before[q], dets[j]) && !same_identity(before[q], dets[j]) by {
        assert(before[q] == cfgs[q]);
        assert(dets[j].device_name@.len() > 0);
    }
    lemma_merge_cfgs_avoids(before, dets, j);
    let prev = merge_cfgs(before, dets);
    let t = cfgs.take(k + 1);
    assert(t.drop_last() =~= before);
    assert(t.last() == cfgs[k]);
    assert(any_match(cfgs[k], dets));
    lemma_add_matching_pins(prev, cfgs[k], dets, dets.len() as int, j);
    assert(dets.take(dets.len() as int) =~= dets);
    assert(merge_cfgs(t, dets) == add_matching(prev, cfgs[k], dets));
    let e = concrete(cfgs[k], dets[j]);
    lemma_merge_cfgs_grows(cfgs, dets, k + 1, e);
    let m = merge_cfgs(cfgs, dets);
    lemma_add_new_extends(m, dets);
    let i = choose|i: int| 0 <= i < m.len() && m[i] == e;
    assert(merged(cfgs, dets)[i] == m[i]);
}

proof fn lemma_add_new_before(m: Seq<ZoneConfig>, dets: Seq<DetectedZone>, j0: int, n: int)
    requires
        identities_distinct(dets),
        0 <= n <= j0 < dets.len(),
        !has_key(m, dets[j0].device_name@, dets[j0].zone_name@),
    ensures
        !has_key(add_new(m, dets.take(n)), dets[j0].device_name@, dets[j0].zone_name@),
    decreases n,
{
    if n > 0 {
        let ds = dets.take(n);
        assert(ds.drop_last() =~= dets.take(n - 1));
        assert(ds.last() == dets[n - 1]);
        lemma_add_new_before(m, dets, j0, n - 1);
        let prev = add_new(m, dets.take(n - 1));
        let d = dets[n - 1];
        assert(add_new(m, ds) == (if has_key(prev, d.device_name@, d.zone_name@) { prev } else { prev.push(fresh(d)) }));
        if !has_key(prev, d.device_name@, d.zone_name@) {
            let cur = prev.push(fresh(d));
            assert(n - 1 != j0);
            assert(!(d.device_name@ == dets[j0].device_name@ && d.zone_name@ == dets[j0].zone_name@));
            assert(cur[prev.len() as int] == fresh(d));
            if has_key(cur, dets[j0].device_name@, dets[j0].zone_name@) {
                let i = choose|i: int| 0 <= i < cur.len() && #[trigger] cur[i].device_name@ == dets[j0].device_name@
                    && cur[i].zone_name@ == dets[j0].zone_name@;
                if i < prev.len() {
                    assert(cur[i] == prev[i]);
                    assert(prev[i].device_name@ == dets[j0].device_name@ && prev[i].zone_name@ == dets[j0].zone_name@);
                    assert(has_key(prev, dets[j0].device_name@, dets[j0].zone_name@));
                } else {
                    assert(i == prev.len());
                    assert(cur[i].device_name@ == d.device_name@);
                    assert(cur[i].zone_name@ == d.zone_name@);
                }
            }
            assert(!has_key(cur, dets[j0].device_name@, dets[j0].zone_name@));
        } else {
            assert(!has_key(prev, dets[j0].device_name@, dets[j0].zone_name@));
        }
    } else {
        assert(dets.take(n) =~= Seq::<DetectedZone>::empty());
    }
}

/// Law: a detected zone that no saved entry refers to (none matches it,
/// none carries its identity) is appended as a fresh, disabled entry
/// (when every detected zone has a device name and identities are
/// distinct).
pub proof fn merge_appends_unknown_zones_disabled(cfgs: Seq<ZoneConfig>, dets: Seq<DetectedZone>, j: int)
    requires
        identities_distinct(dets),
        0 <= j < dets.len(),
        forall|k: int| 0 <= k < cfgs.len() ==> !matches_spec(#[trigger] cfgs[k], dets[j]) && !same_identity(cfgs[k], dets[j]),
    ensures
        merged(cfgs, dets).contains(fresh(dets[j])),
        !fresh(dets[j]).enabled,
{
    let m = merge_cfgs(cfgs, dets);
    lemma_merge_cfgs_avoids(cfgs, dets, j);
    lemma_add_new_before(m, dets, j, j);
    let prev = add_new(m, dets.take(j));
    let ds = dets.take(j + 1);
    assert(ds.drop_last() =~= dets.take(j));
    assert(ds.last() == dets[j]);
    let cur = add_new(m, ds);
    assert(cur == prev.push(fresh(dets[j])));
    let rest = dets.subrange(j + 1, dets.len() as int);
    lemma_add_new_split(m, ds, rest);
    assert(ds + rest =~= dets);
    lemma_add_new_extends(cur, rest);
    assert(merged(cfgs, dets)[prev.len() as int] == cur[prev.len() as int]);
}

proof fn lemma_add_new_split(m: Seq<ZoneConfig>, a: Seq<DetectedZone>, b: Seq<DetectedZone>)
    ensures
        add_new(m, a + b) == add_new(add_new(m, a), b),
    decreases b.len(),
{
    if b.len() > 0 {
        assert((a + b).drop_last() =~= a + b.drop_last());
        assert((a + b).last() == b.last());
        lemma_add_new_split(m, a, b.drop_last());
    } else {
        assert(a + b =~= a);
    }
}

} // verus!
