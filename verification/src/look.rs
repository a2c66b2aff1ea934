//! Which look a zone shows: a custom (Effect Lab) effect by name, or a
//! builtin effect — the resolution shared by the renderer and the preview's
//! labels. The custom effects themselves are passed by name, in library order.

use vstd::prelude::*;
use crate::settings::{EffectsMode, ZoneConfig, effect_label_text};

verus! {

/// The effect a zone renders.
#[derive(Debug, Clone, Copy, PartialEq, Eq, Structural)]
pub enum EffectChoice {
    /// The custom effect at this index of the library.
    Custom(usize),
    /// A builtin effect.
    Builtin(EffectsMode),
}

/// Index of the first custom effect named `name`.
pub open spec fn first_named(names: Seq<String>, name: Seq<char>, i: int) -> Option<int>
    decreases names.len() - i,
{
    if i < 0 || i >= names.len() {
        None
    } else if names[i]@ == name {
        Some(i)
    } else {
        first_named(names, name, i + 1)
    }
}

/// The custom effect a zone asks for: its own, else the global one — but
/// only when the zone has no builtin override of its own.
pub open spec fn requested_custom(zone: ZoneConfig, global_custom: Option<String>) -> Option<String> {
    match zone.custom_effect {
        Some(n) => Some(n),
        None => if zone.effect_override is None { global_custom } else { None },
    }
}

/// The builtin effect a zone falls back to: its override, else the global effect.
pub open spec fn builtin_for(zone: ZoneConfig, global_mode: EffectsMode) -> EffectsMode {
    match zone.effect_override {
        Some(m) => m,
        None => global_mode,
    }
}

/// The effect a zone shows outside idle: the requested custom effect when
/// the library holds one by that name, else its builtin effect.
pub open spec fn effect_choice(zone: ZoneConfig, global_mode: EffectsMode, global_custom: Option<String>, names: Seq<String>) -> EffectChoice {
    match requested_custom(zone, global_custom) {
        Some(n) => match first_named(names, n@, 0) {
            Some(i) => EffectChoice::Custom(i as usize),
            None => EffectChoice::Builtin(builtin_for(zone, global_mode)),
        },
        None => EffectChoice::Builtin(builtin_for(zone, global_mode)),
    }
}

fn find_custom(names: &Vec<String>, name: &String) -> (r: Option<usize>)
    ensures
        match first_named(names@, name@, 0) {
            None => r is None,
            Some(i) => r matches Some(k) && k as int == i,
        },
{
    let mut i: usize = 0;
    while i < names.len()
        invariant
            i <= names@.len(),
            first_named(names@, name@, 0) == first_named(names@, name@, i as int),
        decreases names.len() - i,
    {
        if names[i] == *name {
            return Some(i);
        }
        i = i + 1;
    }
    None
}

/// Resolve the effect a zone shows outside idle: the zone's custom effect,
/// else (without a builtin override) the global custom effect, when the
/// library holds one by that name; else the zone's override, else the
/// global effect.
pub fn choose_effect(zone: &ZoneConfig, global_mode: EffectsMode, global_custom: &Option<String>, names: &Vec<String>) -> (r: EffectChoice)
    ensures
        r == effect_choice(*zone, global_mode, *global_custom, names@),
{
    let builtin = match zone.effect_override {
        Some(m) => m,
        None => global_mode,
    };
    let requested: Option<&String> = match &zone.custom_effect {
        Some(n) => Some(n),
        None => if zone.effect_override.is_none() {
            match global_custom {
                Some(g) => Some(g),
                None => None,
            }
        } else {
            None
        },
    };
    match requested {
        Some(n) => match find_custom(names, n) {
            Some(i) => EffectChoice::Custom(i),
            None => EffectChoice::Builtin(builtin),
        },
        None => EffectChoice::Builtin(builtin),
    }
}

/// Resolve the idle look: the idle custom effect when the library holds one
/// by that name, else the idle builtin effect.
pub fn choose_idle_effect(idle_custom: &Option<String>, idle_mode: EffectsMode, names: &Vec<String>) -> (r: EffectChoice)
    ensures
        match idle_custom {
            Some(n) => match first_named(names@, n@, 0) {
                Some(i) => r == EffectChoice::Custom(i as usize),
                None => r == EffectChoice::Builtin(idle_mode),
            },
            None => r == EffectChoice::Builtin(idle_mode),
        },
{
    match idle_custom {
        Some(n) => match find_custom(names, n) {
            Some(i) => EffectChoice::Custom(i),
            None => EffectChoice::Builtin(idle_mode),
        },
        None => EffectChoice::Builtin(idle_mode),
    }
}

/// The label the preview shows for a zone's effect: "★ " and the custom
/// effect's name, or the builtin effect's name.
pub open spec fn effect_label_of(zone: ZoneConfig, global_mode: EffectsMode, global_custom: Option<String>, names: Seq<String>) -> Seq<char> {
    match effect_choice(zone, global_mode, global_custom, names) {
        EffectChoice::Custom(i) => "★ "@ + names[i as int]@,
        EffectChoice::Builtin(m) => effect_label_text(m),
    }
}

/// The label the preview shows for a zone's effect.
pub fn effect_label(zone: &ZoneConfig, global_mode: EffectsMode, global_custom: &Option<String>, names: &Vec<String>) -> (r: String)
    ensures
        r@ == effect_label_of(*zone, global_mode, *global_custom, names@),
{
    match choose_effect(zone, global_mode, global_custom, names) {
        EffectChoice::Custom(i) => {
            proof {
                lemma_first_named_in_range(names@, requested_custom(*zone, *global_custom).unwrap()@, 0);
            }
            let star = String::from_str("★ ");
            star.concat(names[i].as_str())
        },
        EffectChoice::Builtin(m) => String::from_str(m.label()),
    }
}

proof fn lemma_first_named_in_range(names: Seq<String>, name: Seq<char>, i: int)
    requires
        0 <= i,
    ensures
        first_named(names, name, i) matches Some(k) ==> i <= k < names.len() && names[k]@ == name,
    decreases names.len() - i,
{
    if i < names.len() {
        lemma_first_named_in_range(names, name, i + 1);
    }
}

} // verus!
