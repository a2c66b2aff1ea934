//! The settings file as a JSON document, and its migration from the first
//! file format. Version 1 files had a fixed `ports` object (motherboard
//! headers 2 and 3 and the RAM); version 2 files have a dynamic `zones`
//! array. Port 2/3 become motherboard suffix wildcards (`"*2"`, `"*3"`) that
//! zone detection concretizes on first sight; the RAM becomes an every-DRAM
//! wildcard. The rewrite applies to the top level and to the snapshot of
//! every custom preset, and a document already in the new shape is left as
//! it is.
//!
//! The JSON values themselves are `serde_json`'s; this module sees an
//! object through its entries and an array through its items.

use vstd::prelude::*;

verus! {

#[verifier::external_type_specification]
#[verifier::external_body]
pub struct ExJsonValue(serde_json::Value);

#[verifier::external_type_specification]
#[verifier::external_body]
#[verifier::reject_recursive_types(K)]
#[verifier::reject_recursive_types(V)]
pub struct ExJsonMap<K, V>(serde_json::Map<K, V>);

/// The entries of a JSON value that is an object; `None` for any other value.
pub uninterp spec fn object_entries(v: serde_json::Value) -> Option<Map<Seq<char>, serde_json::Value>>;

/// The items of a JSON value that is an array; `None` for any other value.
pub uninterp spec fn array_items(v: serde_json::Value) -> Option<Seq<serde_json::Value>>;

/// The entries of a JSON object map.
pub uninterp spec fn map_entries(m: serde_json::Map<String, serde_json::Value>) -> Map<Seq<char>, serde_json::Value>;

/// The JSON string holding `s`.
pub uninterp spec fn text_value(s: Seq<char>) -> serde_json::Value;

/// The JSON number holding `n`.
pub uninterp spec fn int_value(n: i32) -> serde_json::Value;

/// `null` for `None`, the value itself for `Some`.
pub uninterp spec fn option_value(o: Option<serde_json::Value>) -> serde_json::Value;

/// The JSON value a text parses to, or `None` when it is not valid JSON.
pub uninterp spec fn parsed_json(text: Seq<char>) -> Option<serde_json::Value>;

/// `serde_json::Map::new`: an empty object map.
#[verifier::external_body]
fn json_map_new() -> (r: serde_json::Map<String, serde_json::Value>)
    ensures
        map_entries(r) =~= Map::empty(),
{
    serde_json::Map::new()
}

/// `serde_json::Map::contains_key`.
#[verifier::external_body]
fn json_map_contains(m: &serde_json::Map<String, serde_json::Value>, key: &str) -> (r: bool)
    ensures
        r == map_entries(*m).dom().contains(key@),
{
    m.contains_key(key)
}

/// `serde_json::Map::get`, the found value cloned.
#[verifier::external_body]
fn json_map_get(m: &serde_json::Map<String, serde_json::Value>, key: &str) -> (r: Option<serde_json::Value>)
    ensures
        r == (if map_entries(*m).dom().contains(key@) { Some(map_entries(*m)[key@]) } else { None }),
{
    m.get(key).cloned()
}

/// `serde_json::Map::remove`: the entry leaves the map and its value is returned.
#[verifier::external_body]
fn json_map_remove(m: &mut serde_json::Map<String, serde_json::Value>, key: &str) -> (r: Option<serde_json::Value>)
    ensures
        map_entries(*final(m)) == map_entries(*old(m)).remove(key@),
        r == (if map_entries(*old(m)).dom().contains(key@) { Some(map_entries(*old(m))[key@]) } else { None }),
{
    m.remove(key)
}

/// `serde_json::Map::insert`: the key now maps to the value; the value it
/// replaced, if any, is returned.
#[verifier::external_body]
fn json_map_insert(m: &mut serde_json::Map<String, serde_json::Value>, key: String, value: serde_json::Value) -> (r: Option<serde_json::Value>)
    ensures
        map_entries(*final(m)) == map_entries(*old(m)).insert(key@, value),
        r == (if map_entries(*old(m)).dom().contains(key@) { Some(map_entries(*old(m))[key@]) } else { None }),
{
    m.insert(key, value)
}

/// `serde_json::Value::get` with a key, the found value cloned: the entry of
/// an object, `None` for a missing key or a value that is no object.
#[verifier::external_body]
fn json_get(v: &serde_json::Value, key: &str) -> (r: Option<serde_json::Value>)
    ensures
        r == value_field(*v, key@),
{
    v.get(key).cloned()
}

/// The map of a `Value::Object`; any other value is handed back.
#[verifier::external_body]
fn json_into_object(v: serde_json::Value) -> (r: Result<serde_json::Map<String, serde_json::Value>, serde_json::Value>)
    ensures
        match r {
            Ok(m) => object_entries(v) == Some(map_entries(m)),
            Err(w) => w == v && object_entries(v) is None,
        },
{
    match v {
        serde_json::Value::Object(m) => Ok(m),
        other => Err(other),
    }
}

/// The items of a `Value::Array`; any other value is handed back.
#[verifier::external_body]
fn json_into_array(v: serde_json::Value) -> (r: Result<Vec<serde_json::Value>, serde_json::Value>)
    ensures
        match r {
            Ok(items) => array_items(v) == Some(items@),
            Err(w) => w == v && array_items(v) is None,
        },
{
    match v {
        serde_json::Value::Array(items) => Ok(items),
        other => Err(other),
    }
}

/// `Value::from` a map: the object with those entries.
#[verifier::external_body]
fn json_from_object(m: serde_json::Map<String, serde_json::Value>) -> (r: serde_json::Value)
    ensures
        object_entries(r) == Some(map_entries(m)),
        array_items(r) is None,
{
    serde_json::Value::from(m)
}

/// `Value::from` a vector of values: the array of those items.
#[verifier::external_body]
fn json_from_array(items: Vec<serde_json::Value>) -> (r: serde_json::Value)
    ensures
        array_items(r) == Some(items@),
        object_entries(r) is None,
{
    serde_json::Value::from(items)
}

/// `Value::from` a string slice: a JSON string.
#[verifier::external_body]
fn json_from_str(s: &str) -> (r: serde_json::Value)
    ensures
        r == text_value(s@),
        object_entries(r) is None,
        array_items(r) is None,
{
    serde_json::Value::from(s)
}

/// `Value::from` an `i32`: a JSON number.
#[verifier::external_body]
fn json_from_i32(n: i32) -> (r: serde_json::Value)
    ensures
        r == int_value(n),
        object_entries(r) is None,
        array_items(r) is None,
{
    serde_json::Value::from(n)
}

/// `Value::from` an option: the value itself, or `null` for `None`.
#[verifier::external_body]
fn json_from_option(o: Option<serde_json::Value>) -> (r: serde_json::Value)
    ensures
        r == option_value(o),
        o matches Some(x) ==> r == x,
        o is None ==> object_entries(r) is None && array_items(r) is None,
{
    serde_json::Value::from(o)
}

/// `serde_json::from_str` into a `Value`; `None` when the text is not JSON.
#[verifier::external_body]
fn parse_json(text: &str) -> (r: Option<serde_json::Value>)
    ensures
        r == parsed_json(text@),
{
    serde_json::from_str::<serde_json::Value>(text).ok()
}

/// The value under `key` when `v` is an object holding it.
pub open spec fn value_field(v: serde_json::Value, key: Seq<char>) -> Option<serde_json::Value> {
    match object_entries(v) {
        Some(e) => if e.dom().contains(key) { Some(e[key]) } else { None },
        None => None,
    }
}

/// The value under `key`, or `null`.
pub open spec fn field_or_null(v: serde_json::Value, key: Seq<char>) -> serde_json::Value {
    option_value(value_field(v, key))
}

/// The zone a version 1 port or RAM entry `p` becomes.
pub open spec fn zone_entries(p: serde_json::Value, zone_name: Seq<char>, device_type: i32, led_count: serde_json::Value) -> Map<Seq<char>, serde_json::Value> {
    Map::<Seq<char>, serde_json::Value>::empty()
        .insert("device_name"@, text_value(""@))
        .insert("device_type"@, int_value(device_type))
        .insert("zone_name"@, text_value(zone_name))
        .insert("display_name"@, field_or_null(p, "description"@))
        .insert("enabled"@, field_or_null(p, "enabled"@))
        .insert("led_count"@, led_count)
        .insert("target_source"@, field_or_null(p, "target_source"@))
        .insert("effect_override"@, field_or_null(p, "mode_override"@))
        .insert("colors_override"@, field_or_null(p, "colors_override"@))
}

/// The zone for motherboard header `key` of a version 1 `ports` object,
/// matched by the name suffix `wildcard` — none when the header is absent.
pub open spec fn header_zone(ports: serde_json::Value, key: Seq<char>, wildcard: Seq<char>) -> Seq<Map<Seq<char>, serde_json::Value>> {
    match value_field(ports, key) {
        Some(p) => seq![zone_entries(p, wildcard, 0, field_or_null(p, "led_count"@))],
        None => Seq::empty(),
    }
}

/// The every-DRAM zone for the RAM entry of a version 1 `ports` object:
/// device type 1, whole device, LED count left to detection.
pub open spec fn ram_zone(ports: serde_json::Value) -> Seq<Map<Seq<char>, serde_json::Value>> {
    match value_field(ports, "ram"@) {
        Some(r) => seq![zone_entries(r, ""@, 1, int_value(0))],
        None => Seq::empty(),
    }
}

/// The zones a version 1 `ports` object becomes, in order.
pub open spec fn v1_zones(ports: serde_json::Value) -> Seq<Map<Seq<char>, serde_json::Value>> {
    header_zone(ports, "port_2"@, "*2"@) + header_zone(ports, "port_3"@, "*3"@) + ram_zone(ports)
}

/// An object in the version 1 shape: `ports` and no `zones`.
pub open spec fn needs_migration(e: Map<Seq<char>, serde_json::Value>) -> bool {
    !e.dom().contains("zones"@) && e.dom().contains("ports"@)
}

/// `v` is an array of objects with exactly these entries.
pub open spec fn holds_objects(v: serde_json::Value, objs: Seq<Map<Seq<char>, serde_json::Value>>) -> bool {
    &&& array_items(v) matches Some(items)
    &&& items.len() == objs.len()
    &&& forall|i: int| 0 <= i < items.len() ==> object_entries(#[trigger] items[i]) == Some(objs[i])
}

/// `after` is the object `before` with its `ports` rewritten into `zones`,
/// or `before` itself when it is not in the version 1 shape.
pub open spec fn ports_migrated(before: Map<Seq<char>, serde_json::Value>, after: Map<Seq<char>, serde_json::Value>) -> bool {
    if needs_migration(before) {
        &&& after == before.remove("ports"@).insert("zones"@, after["zones"@])
        &&& holds_objects(after["zones"@], v1_zones(before["ports"@]))
    } else {
        after == before
    }
}

fn key(s: &str) -> (r: String)
    ensures
        r@ == s@,
{
    String::from_str(s)
}

/// The version 2 zone object for a version 1 entry.
fn zone_object(p: &serde_json::Value, zone_name: &str, device_type: i32, led_count: serde_json::Value) -> (r: serde_json::Value)
    ensures
        object_entries(r) == Some(zone_entries(*p, zone_name@, device_type, led_count)),
{
    let mut m = json_map_new();
    json_map_insert(&mut m, key("device_name"), json_from_str(""));
    json_map_insert(&mut m, key("device_type"), json_from_i32(device_type));
    json_map_insert(&mut m, key("zone_name"), json_from_str(zone_name));
    json_map_insert(&mut m, key("display_name"), json_from_option(json_get(p, "description")));
    json_map_insert(&mut m, key("enabled"), json_from_option(json_get(p, "enabled")));
    json_map_insert(&mut m, key("led_count"), led_count);
    json_map_insert(&mut m, key("target_source"), json_from_option(json_get(p, "target_source")));
    json_map_insert(&mut m, key("effect_override"), json_from_option(json_get(p, "mode_override")));
    json_map_insert(&mut m, key("colors_override"), json_from_option(json_get(p, "colors_override")));
    json_from_object(m)
}

/// Rewrite a version 1 object's `ports` into `zones`; an object that
/// already has `zones`, or has no `ports`, is left as it is.
fn ports_to_zones(obj: &mut serde_json::Map<String, serde_json::Value>)
    ensures
        ports_migrated(map_entries(*old(obj)), map_entries(*final(obj))),
{
    if json_map_contains(obj, "zones") || !json_map_contains(obj, "ports") {
        return;
    }
    let ghost before = map_entries(*obj);
    let ports = match json_map_remove(obj, "ports") {
        Some(p) => p,
        None => json_from_option(None),
    };
    let mut zones: Vec<serde_json::Value> = Vec::new();
    let ghost mut expected: Seq<Map<Seq<char>, serde_json::Value>> = Seq::empty();
    if let Some(p) = json_get(&ports, "port_2") {
        let leds = json_from_option(json_get(&p, "led_count"));
        zones.push(zone_object(&p, "*2", 0, leds));
        proof {
            expected = expected.push(zone_entries(p, "*2"@, 0, field_or_null(p, "led_count"@)));
        }
    }
    assert(expected =~= header_zone(ports, "port_2"@, "*2"@));
    let ghost first = expected;
    if let Some(p) = json_get(&ports, "port_3") {
        let leds = json_from_option(json_get(&p, "led_count"));
        zones.push(zone_object(&p, "*3", 0, leds));
        proof {
            expected = expected.push(zone_entries(p, "*3"@, 0, field_or_null(p, "led_count"@)));
        }
    }
    assert(expected =~= first + header_zone(ports, "port_3"@, "*3"@));
    let ghost second = expected;
    if let Some(r) = json_get(&ports, "ram") {
        zones.push(zone_object(&r, "", 1, json_from_i32(0)));
        proof {
            expected = expected.push(zone_entries(r, ""@, 1, int_value(0)));
        }
    }
    assert(expected =~= second + ram_zone(ports));
    assert(expected =~= v1_zones(ports));
    let zone_list = json_from_array(zones);
    json_map_insert(obj, key("zones"), zone_list);
    proof {
        let after = map_entries(*obj);
        assert(after["zones"@] == zone_list);
        assert(after =~= before.remove("ports"@).insert("zones"@, after["zones"@]));
    }
}

/// A custom preset whose snapshot (`data`) is an object in the version 1 shape.
pub open spec fn data_needs(preset: serde_json::Value) -> bool {
    match value_field(preset, "data"@) {
        Some(d) => match object_entries(d) {
            Some(de) => needs_migration(de),
            None => false,
        },
        None => false,
    }
}

/// `after` is the custom preset `before` with its snapshot migrated, or
/// `before` itself when its snapshot needs nothing.
pub open spec fn preset_migrated(before: serde_json::Value, after: serde_json::Value) -> bool {
    if data_needs(before) {
        let pe = object_entries(before)->0;
        let de = object_entries(pe["data"@])->0;
        &&& object_entries(after) matches Some(ae)
        &&& ae == pe.insert("data"@, ae["data"@])
        &&& object_entries(ae["data"@]) matches Some(de2)
        &&& ports_migrated(de, de2)
    } else {
        after == before
    }
}

/// Some item of the array is a custom preset whose snapshot needs migrating.
pub open spec fn some_preset_needs(items: Seq<serde_json::Value>) -> bool {
    exists|i: int| 0 <= i < items.len() && data_needs(#[trigger] items[i])
}

/// The object's `custom_presets` is an array with a preset to migrate.
pub open spec fn presets_need(e: Map<Seq<char>, serde_json::Value>) -> bool {
    &&& e.dom().contains("custom_presets"@)
    &&& array_items(e["custom_presets"@]) matches Some(items)
    &&& some_preset_needs(items)
}

/// The document is an object with something in the version 1 shape: its own
/// `ports`, or a custom preset's snapshot.
pub open spec fn document_needs(v: serde_json::Value) -> bool {
    &&& object_entries(v) matches Some(e)
    &&& (needs_migration(e) || presets_need(e))
}

/// The top-level object after its own ports step, as `f` shows it.
pub open spec fn after_ports(e: Map<Seq<char>, serde_json::Value>, f: Map<Seq<char>, serde_json::Value>) -> Map<Seq<char>, serde_json::Value> {
    if needs_migration(e) { e.remove("ports"@).insert("zones"@, f["zones"@]) } else { e }
}

/// `f` is `mid` with every custom preset migrated.
pub open spec fn presets_migrated(mid: Map<Seq<char>, serde_json::Value>, f: Map<Seq<char>, serde_json::Value>) -> bool {
    if presets_need(mid) {
        let items = array_items(mid["custom_presets"@])->0;
        &&& f == mid.insert("custom_presets"@, f["custom_presets"@])
        &&& array_items(f["custom_presets"@]) matches Some(items2)
        &&& items2.len() == items.len()
        &&& forall|i: int| 0 <= i < items.len() ==> preset_migrated(#[trigger] items[i], items2[i])
    } else {
        f == mid
    }
}

/// `after` is the document `before` migrated: its own ports rewritten into
/// zones, then every custom preset's snapshot likewise. A document with
/// nothing in the version 1 shape stays as it is.
pub open spec fn document_migrated(before: serde_json::Value, after: serde_json::Value) -> bool {
    if !document_needs(before) {
        after == before
    } else {
        let e = object_entries(before)->0;
        &&& object_entries(after) matches Some(f)
        &&& ports_migrated(e, after_ports(e, f))
        &&& presets_migrated(after_ports(e, f), f)
    }
}

fn preset_needs(p: &serde_json::Value) -> (r: bool)
    ensures
        r == data_needs(*p),
{
    match json_get(p, "data") {
        None => false,
        Some(d) => match json_into_object(d) {
            Err(_) => false,
            Ok(dm) => !json_map_contains(&dm, "zones") && json_map_contains(&dm, "ports"),
        },
    }
}

fn any_preset_needs(items: &Vec<serde_json::Value>) -> (r: bool)
    ensures
        r == some_preset_needs(items@),
{
    let mut i: usize = 0;
    while i < items.len()
        invariant
            i <= items@.len(),
            forall|j: int| 0 <= j < i ==> !data_needs(#[trigger] items@[j]),
        decreases items@.len() - i,
    {
        if preset_needs(&items[i]) {
            return true;
        }
        i = i + 1;
    }
    false
}

fn migrate_preset(p: serde_json::Value) -> (r: serde_json::Value)
    ensures
        preset_migrated(p, r),
{
    if !preset_needs(&p) {
        return p;
    }
    let ghost before = p;
    match json_into_object(p) {
        Err(w) => w,
        Ok(mut pm) => {
            let ghost pe = map_entries(pm);
            match json_map_remove(&mut pm, "data") {
                None => json_from_object(pm),
                Some(d) => match json_into_object(d) {
                    Err(w) => {
                        json_map_insert(&mut pm, key("data"), w);
                        json_from_object(pm)
                    },
                    Ok(mut dm) => {
                        ports_to_zones(&mut dm);
                        let data = json_from_object(dm);
                        json_map_insert(&mut pm, key("data"), data);
                        let r = json_from_object(pm);
                        proof {
                            let ae = object_entries(r)->0;
                            assert(ae["data"@] == data);
                            assert(ae =~= pe.insert("data"@, ae["data"@]));
                        }
                        r
                    },
                },
            }
        },
    }
}

fn migrate_presets(items: Vec<serde_json::Value>) -> (r: Vec<serde_json::Value>)
    ensures
        r@.len() == items@.len(),
        forall|i: int| 0 <= i < items@.len() ==> preset_migrated(#[trigger] items@[i], r@[i]),
{
    let ghost before = items@;
    let mut items = items;
    let mut out: Vec<serde_json::Value> = Vec::new();
    let mut i: usize = 0;
    while i < items.len()
        invariant
            items@.len() == before.len(),
            i <= items@.len(),
            out@.len() == i,
            forall|j: int| i <= j < items@.len() ==> items@[j] == before[j],
            forall|j: int| 0 <= j < i ==> preset_migrated(#[trigger] before[j], out@[j]),
        decreases items@.len() - i,
    {
        let mut slot = json_from_option(None);
        items.set_and_swap(i, &mut slot);
        out.push(migrate_preset(slot));
        i = i + 1;
    }
    out
}

/// Whether the document has anything in the version 1 shape.
pub fn needs_v1_migration(v: &serde_json::Value) -> (r: bool)
    ensures
        r == document_needs(*v),
{
    let top = json_get(v, "zones").is_none() && json_get(v, "ports").is_some();
    if top {
        return true;
    }
    match json_get(v, "custom_presets") {
        None => false,
        Some(cp) => match json_into_array(cp) {
            Err(_) => false,
            Ok(items) => any_preset_needs(&items),
        },
    }
}

fn presets_need_in(obj: &serde_json::Map<String, serde_json::Value>) -> (r: bool)
    ensures
        r == presets_need(map_entries(*obj)),
{
    match json_map_get(obj, "custom_presets") {
        None => false,
        Some(cp) => match json_into_array(cp) {
            Err(_) => false,
            Ok(items) => any_preset_needs(&items),
        },
    }
}

/// Rewrite a version 1 settings document into the version 2 shape, at the
/// top level and in every custom preset's snapshot.
pub fn migrate_v1(value: &mut serde_json::Value)
    ensures
        document_migrated(*old(value), *final(value)),
{
    if !needs_v1_migration(value) {
        return;
    }
    let ghost before = *value;
    let mut owned = json_from_option(None);
    std::mem::swap(&mut owned, value);
    match json_into_object(owned) {
        Err(w) => {
            *value = w;
        },
        Ok(mut obj) => {
            let ghost e = map_entries(obj);
            ports_to_zones(&mut obj);
            let ghost mid = map_entries(obj);
            if presets_need_in(&obj) {
                match json_map_remove(&mut obj, "custom_presets") {
                    Some(cp) => match json_into_array(cp) {
                        Ok(items) => {
                            let migrated = migrate_presets(items);
                            json_map_insert(&mut obj, key("custom_presets"), json_from_array(migrated));
                        },
                        Err(w) => {
                            json_map_insert(&mut obj, key("custom_presets"), w);
                        },
                    },
                    None => {},
                }
                proof {
                    let f = map_entries(obj);
                    assert(f =~= mid.insert("custom_presets"@, f["custom_presets"@]));
                }
            }
            proof {
                reveal_strlit("zones");
                reveal_strlit("custom_presets");
                let f = map_entries(obj);
                assert("zones"@.len() != "custom_presets"@.len());
                if needs_migration(e) {
                    assert(f["zones"@] == mid["zones"@]);
                    assert(after_ports(e, f) =~= mid);
                }
            }
            *value = json_from_object(obj);
        },
    }
}

/// The settings document a text holds, migrated to the version 2 shape;
/// `None` when the text is not JSON.
pub fn migrated_document(text: &str) -> (r: Option<serde_json::Value>)
    ensures
        match parsed_json(text@) {
            None => r is None,
            Some(v) => r matches Some(w) && document_migrated(v, w),
        },
{
    match parse_json(text) {
        None => None,
        Some(v) => {
            let mut v = v;
            migrate_v1(&mut v);
            Some(v)
        },
    }
}

proof fn preset_migration_settles(before: serde_json::Value, after: serde_json::Value)
    requires
        preset_migrated(before, after),
    ensures
        !data_needs(after),
{
    if data_needs(before) {
        let pe = object_entries(before)->0;
        let ae = object_entries(after)->0;
        assert(ae.dom().contains("data"@));
        assert(value_field(after, "data"@) == Some(ae["data"@]));
    }
}

/// Migration is idempotent: a migrated document has nothing left in the
/// version 1 shape, so migrating it again leaves it exactly as it is.
pub proof fn migration_is_idempotent(before: serde_json::Value, after: serde_json::Value, again: serde_json::Value)
    requires
        document_migrated(before, after),
        document_migrated(after, again),
    ensures
        !document_needs(after),
        again == after,
{
    reveal_strlit("zones");
    reveal_strlit("ports");
    reveal_strlit("custom_presets");
    assert("zones"@.len() != "custom_presets"@.len());
    assert("ports"@.len() != "custom_presets"@.len());
    if document_needs(before) {
        let e = object_entries(before)->0;
        let f = object_entries(after)->0;
        let mid = after_ports(e, f);
        assert(mid.dom().contains("zones"@) || !mid.dom().contains("ports"@));
        if presets_need(mid) {
            let items = array_items(mid["custom_presets"@])->0;
            let items2 = array_items(f["custom_presets"@])->0;
            assert(f.dom() =~= mid.dom());
            assert forall|i: int| 0 <= i < items2.len() implies !data_needs(#[trigger] items2[i]) by {
                preset_migration_settles(items[i], items2[i]);
            }
            assert(!some_preset_needs(items2));
        }
        assert(!needs_migration(f));
        assert(!presets_need(f));
    }
}

} // verus!
