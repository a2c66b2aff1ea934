//! MSI Afterburner's `MAHMSharedMemory` layout, read from a copy of its
//! bytes, and the choice of which system metric each entry feeds.
//!
//! Layout (from MAHMSharedMemory.h):
//! ```text
//! header: dwSignature 'MAHM', dwVersion, dwHeaderSize, dwNumEntries, dwEntrySize, ...
//! entry:  szSrcName[260], szSrcUnits[260], szLocalizedSrcName[260],
//!         szLocalizedSrcUnits[260], szRecommendedFormat[260],
//!         data: f32, minLimit: f32, maxLimit: f32, dwFlags, dwGpu, dwSrcId
//! ```
//! Entry `i` lives at `dwHeaderSize + i * dwEntrySize`; its `data` float sits
//! at byte 1300 of the entry (5 * 260 name bytes) and `maxLimit` at 1308.
//! The floats are handed out as their raw bits.

use vstd::prelude::*;
use crate::openrgb::first_nul;
use crate::text::{
    ascii_ci_eq, ascii_fold, chars_of, decoded_text, ends_with, eq_ignore_ascii_case, has_prefix, has_suffix,
    lossy_string, starts_with, trim_owned, trimmed,
};
use crate::wire::u32_of;

verus! {

/// Bytes of each name field of an entry.
pub const ENTRY_NAME_LEN: usize = 260;

/// Offset of the `data` float inside an entry.
pub const ENTRY_DATA_OFFSET: usize = 1300;

/// Offset of the `maxLimit` float inside an entry.
pub const ENTRY_MAX_OFFSET: usize = 1308;

/// Bytes of an entry that are read: up to the end of `maxLimit`.
pub const ENTRY_READ_LEN: usize = 1312;

/// 'MAHM' packed as a C multi-character constant.
pub const SIG_MULTICHAR: u32 = 0x4D41484D;

/// 'MAHM' as little-endian bytes.
pub const SIG_BYTES_LE: u32 = 0x4D48414D;

/// The signature Afterburner writes while tearing the memory down.
pub const SIG_DEAD: u32 = 0xDEAD;

/// Bytes of the header fields that are read.
pub const HEADER_READ_LEN: usize = 20;

/// Most entries a sane header announces.
pub const MAX_ENTRIES: u32 = 4096;

/// Where the entries are, as a valid header announces them.
#[derive(Clone, Copy, Debug, PartialEq, Eq, Structural)]
pub struct MahmLayout {
    pub header_size: u32,
    pub num_entries: u32,
    pub entry_size: u32,
}

/// The layout a header announces, when it is live and sane: a 'MAHM'
/// signature either way round, a header of at least the fields read, entries
/// large enough to hold their `data`, and between 1 and 4096 of them.
pub open spec fn layout_of(h: Seq<u8>) -> Option<MahmLayout> {
    if h.len() < 20 {
        None
    } else {
        let sig = u32_of(h.subrange(0, 4));
        let header_size = u32_of(h.subrange(8, 12));
        let num_entries = u32_of(h.subrange(12, 16));
        let entry_size = u32_of(h.subrange(16, 20));
        if sig == SIG_DEAD || (sig != SIG_MULTICHAR && sig != SIG_BYTES_LE) {
            None
        } else if header_size < 20 || entry_size < 1304 || num_entries == 0 || num_entries > MAX_ENTRIES {
            None
        } else {
            Some(MahmLayout { header_size, num_entries, entry_size })
        }
    }
}

fn read_u32_at(b: &[u8], p: usize) -> (r: u32)
    requires
        p + 4 <= b@.len(),
    ensures
        r == u32_of(b@.subrange(p as int, p + 4)),
{
    (b[p] as u32 + b[p + 1] as u32 * 256 + b[p + 2] as u32 * 65536 + b[p + 3] as u32 * 16777216) as u32
}

/// The layout the header at the start of `view` announces; `None` when the
/// memory is being torn down, is not Afterburner's, or is malformed.
pub fn mahm_layout(view: &[u8]) -> (r: Option<MahmLayout>)
    ensures
        r == layout_of(view@),
{
    if view.len() < HEADER_READ_LEN {
        return None;
    }
    let sig = read_u32_at(view, 0);
    let header_size = read_u32_at(view, 8);
    let num_entries = read_u32_at(view, 12);
    let entry_size = read_u32_at(view, 16);
    if sig == SIG_DEAD || (sig != SIG_MULTICHAR && sig != SIG_BYTES_LE) {
        None
    } else if header_size < 20 || entry_size < 1304 || num_entries == 0 || num_entries > MAX_ENTRIES {
        None
    } else {
        Some(MahmLayout { header_size, num_entries, entry_size })
    }
}

/// Bytes of the memory that reading every entry of `l` touches.
pub open spec fn span_of(l: MahmLayout) -> int {
    l.header_size + (l.num_entries - 1) * l.entry_size + ENTRY_READ_LEN
}

/// Bytes of the memory that reading every entry touches.
pub fn mahm_span(l: &MahmLayout) -> (r: u64)
    requires
        l.num_entries >= 1,
        l.num_entries <= MAX_ENTRIES,
    ensures
        r == span_of(*l),
{
    proof {
        assert((l.num_entries - 1) * l.entry_size <= 4095 * 0xFFFF_FFFFu64) by (nonlinear_arith)
            requires
                1 <= l.num_entries <= 4096,
                l.entry_size <= 0xFFFF_FFFFu64,
        ;
    }
    l.header_size as u64 + (l.num_entries as u64 - 1) * l.entry_size as u64 + ENTRY_READ_LEN as u64
}

/// One metric entry: its source name and the raw bits of its `data` and
/// `maxLimit` floats.
#[derive(Clone, Debug)]
pub struct MahmEntry {
    pub name: String,
    pub data_bits: u32,
    pub max_bits: u32,
}

/// The source name stored at `start`: the bytes up to the first NUL of its
/// 260-byte field, decoded (invalid UTF-8 replaced) and trimmed.
pub open spec fn name_at(view: Seq<u8>, start: int) -> Seq<char> {
    let field = view.subrange(start, start + ENTRY_NAME_LEN);
    trimmed(decoded_text(field.take(first_nul(field, 0))))
}

/// Entry `i` of the layout, as read from `view`.
pub open spec fn entry_is(view: Seq<u8>, l: MahmLayout, i: int, e: MahmEntry) -> bool {
    let start = l.header_size + i * l.entry_size;
    &&& e.name@ == name_at(view, start)
    &&& e.data_bits == u32_of(view.subrange(start + ENTRY_DATA_OFFSET, start + ENTRY_DATA_OFFSET + 4))
    &&& e.max_bits == u32_of(view.subrange(start + ENTRY_MAX_OFFSET, start + ENTRY_MAX_OFFSET + 4))
}

fn entry_at(view: &[u8], start: usize) -> (e: MahmEntry)
    requires
        start + ENTRY_READ_LEN <= view@.len(),
    ensures
        e.name@ == name_at(view@, start as int),
        e.data_bits == u32_of(view@.subrange(start + ENTRY_DATA_OFFSET, start + ENTRY_DATA_OFFSET + 4)),
        e.max_bits == u32_of(view@.subrange(start + ENTRY_MAX_OFFSET, start + ENTRY_MAX_OFFSET + 4)),
{
    assert(view@.len() == view.len());
    let field = vstd::slice::slice_subrange(view, start, start + ENTRY_NAME_LEN);
    let mut end: usize = 0;
    while end < field.len() && field[end] != 0
        invariant
            end <= field@.len(),
            first_nul(field@, 0) == first_nul(field@, end as int),
        decreases field.len() - end,
    {
        end = end + 1;
    }
    let text = vstd::slice::slice_subrange(field, 0, end);
    assert(text@ =~= field@.take(first_nul(field@, 0)));
    let decoded = lossy_string(text);
    let name = trim_owned(decoded.as_str());
    MahmEntry {
        name,
        data_bits: read_u32_at(view, start + ENTRY_DATA_OFFSET),
        max_bits: read_u32_at(view, start + ENTRY_MAX_OFFSET),
    }
}

/// Every entry the layout announces, in order, read from a copy of the
/// shared memory that covers them.
pub fn mahm_entries(view: &[u8], l: &MahmLayout) -> (r: Vec<MahmEntry>)
    requires
        1 <= l.num_entries <= MAX_ENTRIES,
        span_of(*l) <= view@.len(),
    ensures
        r@.len() == l.num_entries,
        forall|i: int| 0 <= i < r@.len() ==> entry_is(view@, *l, i, #[trigger] r@[i]),
{
    let mut out: Vec<MahmEntry> = Vec::new();
    let mut i: u32 = 0;
    while i < l.num_entries
        invariant
            1 <= l.num_entries <= MAX_ENTRIES,
            span_of(*l) <= view@.len(),
            i <= l.num_entries,
            out@.len() == i,
            forall|k: int| 0 <= k < out@.len() ==> entry_is(view@, *l, k, #[trigger] out@[k]),
        decreases l.num_entries - i,
    {
        proof {
            assert(i * l.entry_size <= (l.num_entries - 1) * l.entry_size) by (nonlinear_arith)
                requires
                    i < l.num_entries,
            ;
            assert((l.num_entries - 1) * l.entry_size <= 4095 * 0xFFFF_FFFFu64) by (nonlinear_arith)
                requires
                    1 <= l.num_entries <= 4096,
                    l.entry_size <= 0xFFFF_FFFFu64,
            ;
            assert(view@.len() == view.len());
        }
        let off: u64 = i as u64 * l.entry_size as u64;
        let start64: u64 = l.header_size as u64 + off;
        let start: usize = start64 as usize;
        let e = entry_at(view, start);
        out.push(e);
        i = i + 1;
    }
    out
}

/// Which reading an entry feeds.
#[derive(Clone, Copy, Debug, PartialEq, Eq, Structural)]
pub enum MetricSlot {
    CpuTemp,
    GpuTemp,
    CpuLoad,
    GpuLoad,
    RamUsage,
    Framerate,
    /// Not a metric of ours, or an implausible value.
    Skip,
}

/// Which readings earlier entries already filled.
#[derive(Clone, Copy, Debug, PartialEq, Eq, Structural)]
pub struct Filled {
    pub cpu_temp: bool,
    pub gpu_temp: bool,
    pub cpu_load: bool,
    pub gpu_load: bool,
}

/// The reading an entry named `name` feeds. The aggregate sources ("CPU
/// temperature", "GPU usage"…, any ASCII case) always win; per-core and
/// per-GPU sources ("CPU1 temperature", "GPU2 usage") only fill a reading no
/// earlier entry filled. Temperatures must be plausible (`temp_ok`); an
/// entry whose value is not finite or out of range (`!value_ok`) feeds nothing.
pub open spec fn slot_for(name: Seq<char>, value_ok: bool, temp_ok: bool, filled: Filled) -> MetricSlot {
    if !value_ok {
        MetricSlot::Skip
    } else if ascii_ci_eq(name, "CPU temperature"@) && temp_ok {
        MetricSlot::CpuTemp
    } else if ascii_ci_eq(name, "GPU temperature"@) && temp_ok {
        MetricSlot::GpuTemp
    } else if !filled.cpu_temp && temp_ok && has_prefix(name, "CPU"@) && has_suffix(name, "temperature"@) {
        MetricSlot::CpuTemp
    } else if !filled.gpu_temp && temp_ok && has_prefix(name, "GPU"@) && has_suffix(name, "temperature"@) {
        MetricSlot::GpuTemp
    } else if ascii_ci_eq(name, "CPU usage"@) {
        MetricSlot::CpuLoad
    } else if ascii_ci_eq(name, "GPU usage"@) {
        MetricSlot::GpuLoad
    } else if !filled.cpu_load && has_prefix(name, "CPU"@) && has_suffix(name, "usage"@) {
        MetricSlot::CpuLoad
    } else if !filled.gpu_load && has_prefix(name, "GPU"@) && has_suffix(name, "usage"@) {
        MetricSlot::GpuLoad
    } else if ascii_ci_eq(name, "RAM usage"@) {
        MetricSlot::RamUsage
    } else if ascii_ci_eq(name, "Framerate"@) {
        MetricSlot::Framerate
    } else {
        MetricSlot::Skip
    }
}

/// The reading an entry feeds.
pub fn metric_slot(name: &str, value_ok: bool, temp_ok: bool, filled: Filled) -> (r: MetricSlot)
    ensures
        r == slot_for(name@, value_ok, temp_ok, filled),
        value_ok && !filled.gpu_load && has_prefix(name@, "GPU"@) && has_suffix(name@, "usage"@)
            ==> r == MetricSlot::GpuLoad,
        value_ok && !filled.cpu_load && has_prefix(name@, "CPU"@) && has_suffix(name@, "usage"@)
            ==> r == MetricSlot::CpuLoad,
{
    proof {
        per_device_usage_fills_gaps(name@, temp_ok, filled);
    }
    if !value_ok {
        return MetricSlot::Skip;
    }
    let chars = chars_of(name);
    let cpu = chars_of("CPU");
    let gpu = chars_of("GPU");
    let temperature = chars_of("temperature");
    let usage = chars_of("usage");
    if eq_ignore_ascii_case(name, "CPU temperature") && temp_ok {
        MetricSlot::CpuTemp
    } else if eq_ignore_ascii_case(name, "GPU temperature") && temp_ok {
        MetricSlot::GpuTemp
    } else if !filled.cpu_temp && temp_ok && starts_with(&chars, &cpu) && ends_with(&chars, &temperature) {
        MetricSlot::CpuTemp
    } else if !filled.gpu_temp && temp_ok && starts_with(&chars, &gpu) && ends_with(&chars, &temperature) {
        MetricSlot::GpuTemp
    } else if eq_ignore_ascii_case(name, "CPU usage") {
        MetricSlot::CpuLoad
    } else if eq_ignore_ascii_case(name, "GPU usage") {
        MetricSlot::GpuLoad
    } else if !filled.cpu_load && starts_with(&chars, &cpu) && ends_with(&chars, &usage) {
        MetricSlot::CpuLoad
    } else if !filled.gpu_load && starts_with(&chars, &gpu) && ends_with(&chars, &usage) {
        MetricSlot::GpuLoad
    } else if eq_ignore_ascii_case(name, "RAM usage") {
        MetricSlot::RamUsage
    } else if eq_ignore_ascii_case(name, "Framerate") {
        MetricSlot::Framerate
    } else {
        MetricSlot::Skip
    }
}

proof fn reveal_metric_names() -> (r: bool)
    ensures
        r,
        "CPU"@ == seq!['C', 'P', 'U'],
        "GPU"@ == seq!['G', 'P', 'U'],
        "usage"@ == seq!['u', 's', 'a', 'g', 'e'],
        "temperature"@ == seq!['t', 'e', 'm', 'p', 'e', 'r', 'a', 't', 'u', 'r', 'e'],
        "CPU temperature"@ == seq!['C', 'P', 'U', ' ', 't', 'e', 'm', 'p', 'e', 'r', 'a', 't', 'u', 'r', 'e'],
        "GPU temperature"@ == seq!['G', 'P', 'U', ' ', 't', 'e', 'm', 'p', 'e', 'r', 'a', 't', 'u', 'r', 'e'],
        "CPU usage"@ == seq!['C', 'P', 'U', ' ', 'u', 's', 'a', 'g', 'e'],
        "GPU usage"@ == seq!['G', 'P', 'U', ' ', 'u', 's', 'a', 'g', 'e'],
{
    reveal_strlit("CPU");
    reveal_strlit("GPU");
    reveal_strlit("usage");
    reveal_strlit("temperature");
    reveal_strlit("CPU temperature");
    reveal_strlit("GPU temperature");
    reveal_strlit("CPU usage");
    reveal_strlit("GPU usage");
    assert("CPU"@ =~= seq!['C', 'P', 'U']);
    assert("GPU"@ =~= seq!['G', 'P', 'U']);
    assert("usage"@ =~= seq!['u', 's', 'a', 'g', 'e']);
    assert("temperature"@ =~= seq!['t', 'e', 'm', 'p', 'e', 'r', 'a', 't', 'u', 'r', 'e']);
    assert("CPU temperature"@ =~= seq!['C', 'P', 'U', ' ', 't', 'e', 'm', 'p', 'e', 'r', 'a', 't', 'u', 'r', 'e']);
    assert("GPU temperature"@ =~= seq!['G', 'P', 'U', ' ', 't', 'e', 'm', 'p', 'e', 'r', 'a', 't', 'u', 'r', 'e']);
    assert("CPU usage"@ =~= seq!['C', 'P', 'U', ' ', 'u', 's', 'a', 'g', 'e']);
    assert("GPU usage"@ =~= seq!['G', 'P', 'U', ' ', 'u', 's', 'a', 'g', 'e']);
    true
}

/// Facts about a name's first character and its second-to-last one, from
/// its prefix and suffix.
proof fn name_shape(name: Seq<char>, prefix: Seq<char>, suffix: Seq<char>)
    requires
        prefix.len() >= 1,
        suffix.len() >= 2,
        has_prefix(name, prefix),
        has_suffix(name, suffix),
    ensures
        name[0] == prefix[0],
        name[name.len() - 2] == suffix[suffix.len() - 2],
        name.len() >= suffix.len(),
{
    assert(name.subrange(0, prefix.len() as int)[0] == name[0]);
    let k = name.len() - suffix.len();
    assert(name.subrange(k, name.len() as int)[suffix.len() - 2] == name[name.len() - 2]);
}

/// Names with the given first character and second-to-last character are
/// not ASCII-case-equal to a name with others.
proof fn not_ci_eq_at(name: Seq<char>, lit: Seq<char>, i: int)
    requires
        0 <= i < lit.len(),
        i < name.len(),
        ascii_fold(name[i]) != ascii_fold(lit[i]),
    ensures
        !ascii_ci_eq(name, lit),
{
}

/// Per-device entries fill gaps: a plausible entry named "GPU…usage" (say
/// "GPU1 usage") feeds the GPU load when no earlier entry filled it, and
/// "CPU…usage" likewise the CPU load, whatever else is filled.
pub proof fn per_device_usage_fills_gaps(name: Seq<char>, temp_ok: bool, filled: Filled)
    ensures
        !filled.gpu_load && has_prefix(name, "GPU"@) && has_suffix(name, "usage"@)
            ==> slot_for(name, true, temp_ok, filled) == MetricSlot::GpuLoad,
        !filled.cpu_load && has_prefix(name, "CPU"@) && has_suffix(name, "usage"@)
            ==> slot_for(name, true, temp_ok, filled) == MetricSlot::CpuLoad,
{
    reveal_metric_names();
    let ct = "CPU temperature"@;
    let gt = "GPU temperature"@;
    let cu = "CPU usage"@;
    let gu = "GPU usage"@;
    if has_prefix(name, "GPU"@) && has_suffix(name, "usage"@) {
        name_shape(name, "GPU"@, "usage"@);
        let n = name.len() as int;
        not_ci_eq_at(name, ct, 0);
        not_ci_eq_at(name, cu, 0);
        if n == 15 {
            not_ci_eq_at(name, gt, 13);
        } else {
            assert(!ascii_ci_eq(name, gt));
        }
        assert(!has_prefix(name, "CPU"@)) by {
            if has_prefix(name, "CPU"@) { name_shape(name, "CPU"@, "usage"@); }
        }
        assert(!has_suffix(name, "temperature"@)) by {
            if has_suffix(name, "temperature"@) { name_shape(name, "GPU"@, "temperature"@); }
        }
    }
    if has_prefix(name, "CPU"@) && has_suffix(name, "usage"@) {
        name_shape(name, "CPU"@, "usage"@);
        let n = name.len() as int;
        not_ci_eq_at(name, gt, 0);
        not_ci_eq_at(name, gu, 0);
        if n == 15 {
            not_ci_eq_at(name, ct, 13);
        } else {
            assert(!ascii_ci_eq(name, ct));
        }
        assert(!has_prefix(name, "GPU"@)) by {
            if has_prefix(name, "GPU"@) { name_shape(name, "GPU"@, "usage"@); }
        }
        assert(!has_suffix(name, "temperature"@)) by {
            if has_suffix(name, "temperature"@) { name_shape(name, "CPU"@, "temperature"@); }
        }
    }
}

/// Per-device temperature entries fill gaps: a plausible temperature named
/// "CPU…temperature" (say "CPU1 temperature") feeds the CPU temperature when
/// no earlier entry filled it, "GPU…temperature" likewise the GPU one.
pub proof fn per_device_temperature_fills_gaps(name: Seq<char>, filled: Filled)
    ensures
        !filled.cpu_temp && has_prefix(name, "CPU"@) && has_suffix(name, "temperature"@)
            ==> slot_for(name, true, true, filled) == MetricSlot::CpuTemp,
        !filled.gpu_temp && has_prefix(name, "GPU"@) && has_suffix(name, "temperature"@)
            ==> slot_for(name, true, true, filled) == MetricSlot::GpuTemp,
{
    reveal_metric_names();
    if has_prefix(name, "CPU"@) && has_suffix(name, "temperature"@) {
        name_shape(name, "CPU"@, "temperature"@);
        not_ci_eq_at(name, "GPU temperature"@, 0);
    }
    if has_prefix(name, "GPU"@) && has_suffix(name, "temperature"@) {
        name_shape(name, "GPU"@, "temperature"@);
        not_ci_eq_at(name, "CPU temperature"@, 0);
        assert(!has_prefix(name, "CPU"@)) by {
            if has_prefix(name, "CPU"@) { name_shape(name, "CPU"@, "temperature"@); }
        }
    }
}

/// Aggregate sources always win: "CPU usage" and "GPU usage" (any ASCII
/// case) feed their load whatever is filled, an implausible value feeds
/// nothing.
pub proof fn aggregate_usage_always_feeds(name: Seq<char>, temp_ok: bool, filled: Filled)
    ensures
        ascii_ci_eq(name, "CPU usage"@) ==> slot_for(name, true, temp_ok, filled) == MetricSlot::CpuLoad,
        ascii_ci_eq(name, "GPU usage"@) ==> slot_for(name, true, temp_ok, filled) == MetricSlot::GpuLoad,
        slot_for(name, false, temp_ok, filled) == MetricSlot::Skip,
{
    reveal_metric_names();
    if ascii_ci_eq(name, "CPU usage"@) || ascii_ci_eq(name, "GPU usage"@) {
        assert(name.len() == 9);
        assert(!ascii_ci_eq(name, "CPU temperature"@));
        assert(!ascii_ci_eq(name, "GPU temperature"@));
        assert(!has_suffix(name, "temperature"@));
        if ascii_ci_eq(name, "GPU usage"@) {
            assert(ascii_fold(name[0]) == ascii_fold('G'));
            not_ci_eq_at(name, "CPU usage"@, 0);
        }
    }
}

} // verus!
