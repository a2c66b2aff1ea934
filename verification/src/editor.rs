//! What the configurator's editors decide about zones, apart from their
//! widgets: which zones a device card lists, what a zone's effect picker
//! shows and does, the LED-count field's range, the Effect Lab's deletions
//! and the live preview's rows.

use vstd::prelude::*;
use crate::settings::{effective_leds_of, effect_label_text, variant_texts, EffectsMode, ZoneConfig};
use crate::text::{trim_owned, trimmed};

verus! {

/// The device names of `zones`, each once, in the order they first occur.
pub open spec fn device_order(zones: Seq<ZoneConfig>) -> Seq<Seq<char>>
    decreases zones.len(),
{
    if zones.len() == 0 {
        Seq::empty()
    } else {
        let before = device_order(zones.drop_last());
        let d = zones.last().device_name@;
        if before.contains(d) { before } else { before.push(d) }
    }
}

/// The positions, in increasing order, of the zones on device `d`.
pub open spec fn zones_on(zones: Seq<ZoneConfig>, d: Seq<char>) -> Seq<usize>
    decreases zones.len(),
{
    if zones.len() == 0 {
        Seq::empty()
    } else {
        let before = zones_on(zones.drop_last(), d);
        if zones.last().device_name@ == d { before.push((zones.len() - 1) as usize) } else { before }
    }
}

/// The text of each string.
pub open spec fn texts(names: Seq<String>) -> Seq<Seq<char>> {
    names.map_values(|s: String| s@)
}

fn names_contain(names: &Vec<String>, name: &String) -> (r: bool)
    ensures
        r == texts(names@).contains(name@),
{
    let mut i: usize = 0;
    while i < names.len()
        invariant
            i <= names@.len(),
            forall|j: int| 0 <= j < i ==> names@[j]@ != name@,
        decreases names@.len() - i,
    {
        if names[i] == *name {
            assert(texts(names@)[i as int] == name@);
            return true;
        }
        i = i + 1;
    }
    assert forall|j: int| 0 <= j < names@.len() implies #[trigger] texts(names@)[j] != name@ by {}
    false
}

/// The zone cards of the Zones tab: one per device, in first-seen order,
/// each with the positions of that device's zones.
pub fn device_groups(zones: &Vec<ZoneConfig>) -> (r: Vec<(String, Vec<usize>)>)
    ensures
        r@.len() == device_order(zones@).len(),
        forall|k: int| 0 <= k < r@.len() ==> (#[trigger] r@[k]).0@ == device_order(zones@)[k]
            && r@[k].1@ == zones_on(zones@, device_order(zones@)[k]),
{
    let mut order: Vec<String> = Vec::new();
    let mut i: usize = 0;
    while i < zones.len()
        invariant
            i <= zones@.len(),
            texts(order@) == device_order(zones@.take(i as int)),
        decreases zones@.len() - i,
    {
        proof {
            assert(zones@.take(i as int + 1).drop_last() =~= zones@.take(i as int));
        }
        let name = &zones[i].device_name;
        if !names_contain(&order, name) {
            order.push(name.clone());
            assert(texts(order@) =~= device_order(zones@.take(i as int + 1)));
        }
        i = i + 1;
    }
    assert(zones@.take(zones@.len() as int) =~= zones@);
    let mut groups: Vec<(String, Vec<usize>)> = Vec::new();
    let mut k: usize = 0;
    while k < order.len()
        invariant
            k <= order@.len(),
            texts(order@) == device_order(zones@),
            groups@.len() == k,
            forall|q: int| 0 <= q < k ==> (#[trigger] groups@[q]).0@ == device_order(zones@)[q]
                && groups@[q].1@ == zones_on(zones@, device_order(zones@)[q]),
        decreases order@.len() - k,
    {
        let device = order[k].clone();
        assert(device@ == device_order(zones@)[k as int]);
        let mut idx: Vec<usize> = Vec::new();
        let mut j: usize = 0;
        while j < zones.len()
            invariant
                j <= zones@.len(),
                idx@ == zones_on(zones@.take(j as int), device@),
            decreases zones@.len() - j,
        {
            proof {
                assert(zones@.take(j as int + 1).drop_last() =~= zones@.take(j as int));
            }
            if zones[j].device_name == device {
                idx.push(j);
            }
            j = j + 1;
        }
        assert(zones@.take(zones@.len() as int) =~= zones@);
        groups.push((device, idx));
        k = k + 1;
    }
    groups
}

/// The effect a zone's picker selects.
#[derive(Clone, Debug)]
pub enum ZoneEffect {
    /// No override: the zone shows the global effect.
    FollowGlobal,
    /// A builtin effect of its own.
    Builtin(EffectsMode),
    /// An Effect Lab effect, by name.
    Custom(String),
}

/// What a zone's picker shows as selected: its custom effect, else its
/// builtin override, else "follow global".
pub open spec fn zone_effect_of(z: ZoneConfig) -> ZoneEffect {
    match z.custom_effect {
        Some(n) => ZoneEffect::Custom(n),
        None => match z.effect_override {
            Some(m) => ZoneEffect::Builtin(m),
            None => ZoneEffect::FollowGlobal,
        },
    }
}

/// The picker's caption for the zone's effect.
pub open spec fn zone_effect_caption(z: ZoneConfig) -> Seq<char> {
    match z.custom_effect {
        Some(n) => "★ "@ + n@,
        None => match z.effect_override {
            Some(m) => effect_label_text(m),
            None => "Follow global effect"@,
        },
    }
}

/// The zone's effect as its picker shows it.
pub fn zone_effect(z: &ZoneConfig) -> (r: ZoneEffect)
    ensures
        r == zone_effect_of(*z),
{
    match &z.custom_effect {
        Some(n) => ZoneEffect::Custom(n.clone()),
        None => match z.effect_override {
            Some(m) => ZoneEffect::Builtin(m),
            None => ZoneEffect::FollowGlobal,
        },
    }
}

/// The caption of the zone's effect picker.
pub fn zone_effect_label(z: &ZoneConfig) -> (r: String)
    ensures
        r@ == zone_effect_caption(*z),
{
    match &z.custom_effect {
        Some(n) => String::from_str("★ ").concat(n.as_str()),
        None => match z.effect_override {
            Some(m) => String::from_str(m.label()),
            None => String::from_str("Follow global effect"),
        },
    }
}

/// Pick an effect for a zone: a builtin or custom pick replaces the other
/// kind, "follow global" clears both. Nothing else about the zone changes.
pub fn set_zone_effect(z: &mut ZoneConfig, pick: ZoneEffect)
    ensures
        *final(z) == (match pick {
            ZoneEffect::FollowGlobal => ZoneConfig { effect_override: None, custom_effect: None, ..*old(z) },
            ZoneEffect::Builtin(m) => ZoneConfig { effect_override: Some(m), custom_effect: None, ..*old(z) },
            ZoneEffect::Custom(n) => ZoneConfig { effect_override: None, custom_effect: Some(n), ..*old(z) },
        }),
{
    match pick {
        ZoneEffect::FollowGlobal => {
            z.effect_override = None;
            z.custom_effect = None;
        },
        ZoneEffect::Builtin(m) => {
            z.effect_override = Some(m);
            z.custom_effect = None;
        },
        ZoneEffect::Custom(n) => {
            z.custom_effect = Some(n);
            z.effect_override = None;
        },
    }
}

/// Whatever is picked is what the picker shows afterwards.
pub proof fn picked_effect_shows(before: ZoneConfig, pick: ZoneEffect, after: ZoneConfig)
    requires
        after == (match pick {
            ZoneEffect::FollowGlobal => ZoneConfig { effect_override: None, custom_effect: None, ..before },
            ZoneEffect::Builtin(m) => ZoneConfig { effect_override: Some(m), custom_effect: None, ..before },
            ZoneEffect::Custom(n) => ZoneConfig { effect_override: None, custom_effect: Some(n), ..before },
        }),
    ensures
        zone_effect_of(after) == pick,
{
}

/// A resizable header that has never reported LEDs and has no count set:
/// an empty port the user can bring to life by entering a count.
pub fn is_empty_port(z: &ZoneConfig) -> (r: bool)
    ensures
        r == (z.last_seen_leds == 0 && z.resizable && z.led_count == 0),
{
    z.last_seen_leds == 0 && z.resizable && z.led_count == 0
}

/// The LED count a default field accepts when the hardware reports no limit.
pub const DEFAULT_LED_LIMIT: u32 = 300;

/// The largest LED count the zone's field accepts: the hardware maximum when
/// known, else a generous default.
pub fn led_count_limit(z: &ZoneConfig) -> (r: u32)
    ensures
        r == (if z.max_leds > 0 { z.max_leds } else { DEFAULT_LED_LIMIT }),
{
    if z.max_leds > 0 { z.max_leds } else { DEFAULT_LED_LIMIT }
}

/// `after` no longer refers to the custom effect `name`.
pub open spec fn forgets(before: Option<String>, after: Option<String>, name: Seq<char>) -> bool {
    after == (if before matches Some(n) && n@ == name { None } else { before })
}

/// `after` is the zone `before`, no longer referring to the custom effect `name`.
pub open spec fn zone_forgets(before: ZoneConfig, after: ZoneConfig, name: Seq<char>) -> bool {
    &&& after == ZoneConfig { custom_effect: after.custom_effect, ..before }
    &&& forgets(before.custom_effect, after.custom_effect, name)
}

/// Delete an Effect Lab effect's uses: the global selection and every zone
/// that pointed at `name` fall back to their builtin effect.
pub fn forget_custom_effect(zones: &mut Vec<ZoneConfig>, global_custom: &mut Option<String>, name: &str)
    ensures
        forgets(*old(global_custom), *final(global_custom), name@),
        final(zones)@.len() == old(zones)@.len(),
        forall|i: int| 0 <= i < old(zones)@.len() ==> zone_forgets(#[trigger] old(zones)@[i], final(zones)@[i], name@),
{
    let target = String::from_str(name);
    let clear_global = match &*global_custom {
        Some(n) => *n == target,
        None => false,
    };
    if clear_global {
        *global_custom = None;
    }
    let ghost before = zones@;
    let mut i: usize = 0;
    while i < zones.len()
        invariant
            zones@.len() == before.len(),
            i <= zones@.len(),
            target@ == name@,
            forall|j: int| 0 <= j < i ==> zone_forgets(#[trigger] before[j], zones@[j], name@),
            forall|j: int| i <= j < zones@.len() ==> zones@[j] == before[j],
        decreases zones@.len() - i,
    {
        let uses = match &zones[i].custom_effect {
            Some(n) => *n == target,
            None => false,
        };
        if uses {
            let mut z = zones[i].clone();
            z.custom_effect = None;
            zones.set(i, z);
        }
        i = i + 1;
    }
}

/// Most zones the live preview shows at once.
pub const MAX_PREVIEW_ROWS: usize = 8;

/// A zone the live preview animates: switched on, with LEDs to show.
pub open spec fn previewable(z: ZoneConfig) -> bool {
    z.enabled && effective_leds_of(z) > 0
}

/// The positions of the previewable zones, in order.
pub open spec fn previewable_zones(zones: Seq<ZoneConfig>) -> Seq<usize>
    decreases zones.len(),
{
    if zones.len() == 0 {
        Seq::empty()
    } else {
        let before = previewable_zones(zones.drop_last());
        if previewable(zones.last()) { before.push((zones.len() - 1) as usize) } else { before }
    }
}

/// The live preview's rows: the first `MAX_PREVIEW_ROWS` previewable zones,
/// and how many more there are.
pub fn preview_rows(zones: &Vec<ZoneConfig>) -> (r: (Vec<usize>, usize))
    ensures
        r.0@ == previewable_zones(zones@).take(
            if previewable_zones(zones@).len() < MAX_PREVIEW_ROWS { previewable_zones(zones@).len() as int } else { MAX_PREVIEW_ROWS as int }),
        r.1 + r.0@.len() == previewable_zones(zones@).len(),
{
    let mut all: Vec<usize> = Vec::new();
    let mut i: usize = 0;
    while i < zones.len()
        invariant
            i <= zones@.len(),
            all@ == previewable_zones(zones@.take(i as int)),
            all@.len() <= i,
        decreases zones@.len() - i,
    {
        proof {
            assert(zones@.take(i as int + 1).drop_last() =~= zones@.take(i as int));
        }
        if zones[i].enabled && zones[i].effective_leds() > 0 {
            all.push(i);
        }
        i = i + 1;
    }
    assert(zones@.take(zones@.len() as int) =~= zones@);
    let mut shown: Vec<usize> = Vec::new();
    let mut k: usize = 0;
    while k < all.len() && k < MAX_PREVIEW_ROWS
        invariant
            k <= all@.len(),
            k <= MAX_PREVIEW_ROWS,
            shown@ == all@.take(k as int),
        decreases all@.len() - k,
    {
        shown.push(all[k]);
        assert(shown@ =~= all@.take(k as int + 1));
        k = k + 1;
    }
    (shown, all.len() - k)
}

/// The title of a zone's card: its friendly name, else its device's name.
pub fn zone_title(z: &ZoneConfig) -> (r: &str)
    ensures
        r@ == (if z.display_name@.len() == 0 { z.device_name@ } else { z.display_name@ }),
{
    if z.display_name.as_str().is_empty() { z.device_name.as_str() } else { z.display_name.as_str() }
}

/// The caption of the tuning card's style picker: the variant's name, the
/// first variant's for an index out of range, none for an effect without
/// variants.
pub fn variant_caption(mode: EffectsMode, variant: u32) -> (r: Option<&'static str>)
    ensures
        match r {
            None => variant_texts(mode).len() == 0,
            Some(s) => variant_texts(mode).len() > 0 && s@ == (if variant < variant_texts(mode).len() {
                variant_texts(mode)[variant as int]
            } else {
                variant_texts(mode)[0]
            }),
        },
{
    let labels = mode.variant_labels();
    proof {
        assert(labels@.map_values(|s: &'static str| s@).len() == labels@.len());
    }
    if labels.len() == 0 {
        None
    } else if (variant as usize) < labels.len() {
        proof {
            assert(labels@.map_values(|s: &'static str| s@)[variant as int] == labels@[variant as int]@);
        }
        Some(labels[variant as usize])
    } else {
        proof {
            assert(labels@.map_values(|s: &'static str| s@)[0] == labels@[0]@);
        }
        Some(labels[0])
    }
}

proof fn zones_on_lists(zones: Seq<ZoneConfig>, d: Seq<char>, i: int)
    requires
        0 <= i < zones.len(),
        zones.len() <= usize::MAX,
    ensures
        zones_on(zones, d).contains(i as usize) <==> zones[i].device_name@ == d,
    decreases zones.len(),
{
    let before = zones.drop_last();
    let s = zones_on(before, d);
    let last = (zones.len() - 1) as usize;
    vstd::seq_lib::lemma_seq_contains_after_push(s, last, i as usize);
    zones_on_below(before, d);
    if i < zones.len() - 1 {
        zones_on_lists(before, d, i);
        assert(before[i] == zones[i]);
    } else {
        if s.contains(i as usize) {
            let k = choose|k: int| 0 <= k < s.len() && s[k] == i as usize;
            assert((s[k] as int) < before.len());
        }
    }
}

proof fn zones_on_below(zones: Seq<ZoneConfig>, d: Seq<char>)
    requires
        zones.len() <= usize::MAX,
    ensures
        forall|k: int| 0 <= k < zones_on(zones, d).len() ==> (zones_on(zones, d)[k] as int) < zones.len(),
    decreases zones.len(),
{
    if zones.len() > 0 {
        let before = zones.drop_last();
        zones_on_below(before, d);
        let s = zones_on(before, d);
        if zones.last().device_name@ == d {
            let t = s.push((zones.len() - 1) as usize);
            assert(zones_on(zones, d) == t);
            assert forall|k: int| 0 <= k < t.len() implies (t[k] as int) < zones.len() by {
                if k < s.len() {
                    assert(t[k] == s[k]);
                }
            }
        }
    }
}

proof fn device_order_covers(zones: Seq<ZoneConfig>, i: int)
    requires
        0 <= i < zones.len(),
    ensures
        device_order(zones).contains(zones[i].device_name@),
    decreases zones.len(),
{
    let before = zones.drop_last();
    let o = device_order(before);
    vstd::seq_lib::lemma_seq_contains_after_push(o, zones.last().device_name@, zones[i].device_name@);
    if i < zones.len() - 1 {
        device_order_covers(before, i);
        assert(before[i] == zones[i]);
    }
}

/// Every zone shows up on the Zones tab: its device has a card, and that
/// card lists the zone; a card lists exactly the zones of its device.
pub proof fn every_zone_is_listed_under_its_device(zones: Seq<ZoneConfig>, i: int, d: Seq<char>)
    requires
        0 <= i < zones.len(),
        zones.len() <= usize::MAX,
    ensures
        device_order(zones).contains(zones[i].device_name@),
        zones_on(zones, d).contains(i as usize) <==> zones[i].device_name@ == d,
{
    device_order_covers(zones, i);
    zones_on_lists(zones, d, i);
}

/// After an Effect Lab effect is deleted nothing refers to it any more.
pub proof fn deleted_effect_is_unused(before: Seq<ZoneConfig>, after: Seq<ZoneConfig>, global_before: Option<String>, global_after: Option<String>, name: Seq<char>)
    requires
        after.len() == before.len(),
        forall|i: int| 0 <= i < before.len() ==> zone_forgets(#[trigger] before[i], after[i], name),
        forgets(global_before, global_after, name),
    ensures
        !(global_after matches Some(n) && n@ == name),
        forall|i: int| 0 <= i < after.len() ==> !(#[trigger] after[i].custom_effect matches Some(n) && n@ == name),
{
    assert forall|i: int| 0 <= i < after.len() implies !(#[trigger] after[i].custom_effect matches Some(n) && n@ == name) by {
        assert(zone_forgets(before[i], after[i], name));
    }
}

/// The name a custom preset or Effect Lab effect is saved under: the typed
/// name without surrounding whitespace; `None` when nothing is left, and the
/// save is refused.
pub fn name_to_save(raw: &str) -> (r: Option<String>)
    ensures
        trimmed(raw@).len() == 0 ==> r is None,
        trimmed(raw@).len() > 0 ==> (r matches Some(n) && n@ == trimmed(raw@)),
{
    let n = trim_owned(raw);
    if n.as_str().is_empty() { None } else { Some(n) }
}

/// The positions, in order, of the names other than `name`.
pub open spec fn others_than(names: Seq<String>, name: Seq<char>) -> Seq<usize>
    decreases names.len(),
{
    if names.len() == 0 {
        Seq::empty()
    } else {
        let before = others_than(names.drop_last(), name);
        if names.last()@ != name { before.push((names.len() - 1) as usize) } else { before }
    }
}

/// Saving under a name replaces what had that name: the entries to keep,
/// in order, are those named otherwise; the saved one goes after them.
pub fn kept_on_save(names: &Vec<String>, name: &str) -> (r: Vec<usize>)
    ensures
        r@ == others_than(names@, name@),
{
    let target = String::from_str(name);
    let mut out: Vec<usize> = Vec::new();
    let mut i: usize = 0;
    while i < names.len()
        invariant
            i <= names@.len(),
            target@ == name@,
            out@ == others_than(names@.take(i as int), name@),
        decreases names@.len() - i,
    {
        proof {
            assert(names@.take(i as int + 1).drop_last() =~= names@.take(i as int));
        }
        if !(names[i] == target) {
            out.push(i);
        }
        i = i + 1;
    }
    assert(names@.take(names@.len() as int) =~= names@);
    out
}

proof fn others_than_differ(names: Seq<String>, name: Seq<char>)
    requires
        names.len() <= usize::MAX,
    ensures
        forall|k: int| 0 <= k < others_than(names, name).len() ==>
            (others_than(names, name)[k] as int) < names.len()
            && names[others_than(names, name)[k] as int]@ != name,
    decreases names.len(),
{
    if names.len() > 0 {
        let before = names.drop_last();
        others_than_differ(before, name);
        let s = others_than(before, name);
        if names.last()@ != name {
            let t = s.push((names.len() - 1) as usize);
            assert forall|k: int| 0 <= k < t.len() implies (t[k] as int) < names.len() && names[t[k] as int]@ != name by {
                if k < s.len() {
                    assert(t[k] == s[k]);
                    assert(names[s[k] as int] == before[s[k] as int]);
                }
            }
        } else {
            assert forall|k: int| 0 <= k < s.len() implies (s[k] as int) < names.len() && names[s[k] as int]@ != name by {
                assert(names[s[k] as int] == before[s[k] as int]);
            }
        }
    }
}

/// Saving under a name leaves that name exactly once: none of the entries
/// kept carries it.
pub proof fn saved_name_is_unique(names: Seq<String>, name: Seq<char>)
    requires
        names.len() <= usize::MAX,
    ensures
        forall|k: int| 0 <= k < others_than(names, name).len() ==>
            names[#[trigger] others_than(names, name)[k] as int]@ != name,
{
    others_than_differ(names, name);
}

} // verus!
