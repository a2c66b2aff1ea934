//! The OpenRGB SDK wire format (default port 6742).
//!
//! Every packet is a 16-byte header
//! `"ORGB" | device_index: u32 LE | packet_id: u32 LE | data_len: u32 LE`
//! followed by `data_len` payload bytes. This module builds the payloads the
//! client sends and parses the controller descriptions the server returns;
//! the socket itself lives with the program that owns it.

use vstd::prelude::*;
use crate::text::{lossy_string, trimmed, trim_owned, eq_ignore_ascii_case, ascii_ci_eq, decoded_text};
use crate::wire::{le16, le32, u16_of, u32_of, wrap16, wrap32, bits_of_i32, i32_of_bits, push_u16, push_u32, i32_bits, i32_from_bits};

verus! {

// Packet ids (NetworkProtocol.h)
pub const REQUEST_CONTROLLER_COUNT: u32 = 0;
pub const REQUEST_CONTROLLER_DATA: u32 = 1;
pub const REQUEST_PROTOCOL_VERSION: u32 = 40;
pub const SET_CLIENT_NAME: u32 = 50;
pub const DEVICE_LIST_UPDATED: u32 = 100;
pub const RGBCONTROLLER_RESIZEZONE: u32 = 1000;
pub const RGBCONTROLLER_UPDATELEDS: u32 = 1050;
pub const RGBCONTROLLER_UPDATEZONELEDS: u32 = 1051;
pub const RGBCONTROLLER_SETCUSTOMMODE: u32 = 1100;
pub const RGBCONTROLLER_UPDATEMODE: u32 = 1101;

/// Highest protocol revision this client speaks. Capped at 3 to keep the
/// controller-data parser free of the segment blocks added in protocol 4.
pub const CLIENT_PROTOCOL: u32 = 3;

/// Largest payload the client accepts in one packet (16 MiB).
pub const MAX_PAYLOAD: u32 = 16777216;

pub const DEVICE_TYPE_MOTHERBOARD: i32 = 0;
pub const DEVICE_TYPE_DRAM: i32 = 1;
pub const ZONE_TYPE_LINEAR: i32 = 1;

/// The packet magic `"ORGB"`.
pub open spec fn magic() -> Seq<u8> {
    seq![79u8, 82u8, 71u8, 66u8]
}

#[derive(Debug)]
pub struct ZoneInfo {
    pub name: String,
    pub zone_type: i32,
    pub leds_min: u32,
    pub leds_max: u32,
    pub leds_count: u32,
}

/// One device mode, kept verbatim so it can be echoed back in UPDATEMODE.
/// Merely SETCUSTOMMODE-ing only flips the server's in-memory active mode —
/// the hardware keeps playing its onboard effect until UPDATEMODE pushes the
/// switch down to the device.
#[derive(Debug)]
pub struct ModeInfo {
    pub name: String,
    pub value: i32,
    pub flags: u32,
    pub speed_min: u32,
    pub speed_max: u32,
    pub brightness_min: u32,
    pub brightness_max: u32,
    pub colors_min: u32,
    pub colors_max: u32,
    pub speed: u32,
    pub brightness: u32,
    pub direction: u32,
    pub color_mode: u32,
    pub colors: Vec<u32>,
}

#[derive(Debug)]
pub struct ControllerInfo {
    pub controller_type: i32,
    pub name: String,
    /// Index of the mode the device is currently in. Anything (the OpenRGB
    /// GUI, another SDK client) can change this behind our back.
    pub active_mode: i32,
    pub modes: Vec<ModeInfo>,
    pub zones: Vec<ZoneInfo>,
    pub num_leds: u32,
}

/// The mathematical content of a [`ZoneInfo`].
pub struct ZoneView {
    pub name: Seq<char>,
    pub zone_type: i32,
    pub leds_min: u32,
    pub leds_max: u32,
    pub leds_count: u32,
}

/// The mathematical content of a [`ModeInfo`].
pub struct ModeView {
    pub name: Seq<char>,
    pub value: i32,
    pub flags: u32,
    pub speed_min: u32,
    pub speed_max: u32,
    pub brightness_min: u32,
    pub brightness_max: u32,
    pub colors_min: u32,
    pub colors_max: u32,
    pub speed: u32,
    pub brightness: u32,
    pub direction: u32,
    pub color_mode: u32,
    pub colors: Seq<u32>,
}

/// The mathematical content of a [`ControllerInfo`].
pub struct ControllerView {
    pub controller_type: i32,
    pub name: Seq<char>,
    pub active_mode: i32,
    pub modes: Seq<ModeView>,
    pub zones: Seq<ZoneView>,
    pub num_leds: u32,
}

impl View for ZoneInfo {
    type V = ZoneView;

    open spec fn view(&self) -> ZoneView {
        ZoneView {
            name: self.name@,
            zone_type: self.zone_type,
            leds_min: self.leds_min,
            leds_max: self.leds_max,
            leds_count: self.leds_count,
        }
    }
}

impl View for ModeInfo {
    type V = ModeView;

    open spec fn view(&self) -> ModeView {
        ModeView {
            name: self.name@,
            value: self.value,
            flags: self.flags,
            speed_min: self.speed_min,
            speed_max: self.speed_max,
            brightness_min: self.brightness_min,
            brightness_max: self.brightness_max,
            colors_min: self.colors_min,
            colors_max: self.colors_max,
            speed: self.speed,
            brightness: self.brightness,
            direction: self.direction,
            color_mode: self.color_mode,
            colors: self.colors@,
        }
    }
}

impl View for ControllerInfo {
    type V = ControllerView;

    open spec fn view(&self) -> ControllerView {
        ControllerView {
            controller_type: self.controller_type,
            name: self.name@,
            active_mode: self.active_mode,
            modes: self.modes@.map_values(|m: ModeInfo| m@),
            zones: self.zones@.map_values(|z: ZoneInfo| z@),
            num_leds: self.num_leds,
        }
    }
}

impl Default for ModeInfo {
    fn default() -> (m: ModeInfo)
        ensures
            m.name@ == Seq::<char>::empty(),
            m.value == 0,
            m.flags == 0,
            m.speed_min == 0,
            m.speed_max == 0,
            m.brightness_min == 0,
            m.brightness_max == 0,
            m.colors_min == 0,
            m.colors_max == 0,
            m.speed == 0,
            m.brightness == 0,
            m.direction == 0,
            m.color_mode == 0,
            m.colors@ == Seq::<u32>::empty(),
    {
        ModeInfo {
            name: String::new(),
            value: 0,
            flags: 0,
            speed_min: 0,
            speed_max: 0,
            brightness_min: 0,
            brightness_max: 0,
            colors_min: 0,
            colors_max: 0,
            speed: 0,
            brightness: 0,
            direction: 0,
            color_mode: 0,
            colors: Vec::new(),
        }
    }
}

// ---------------------------------------------------------------------------
// Packet encoding
// ---------------------------------------------------------------------------

/// The 16 header bytes announcing `len` payload bytes of `packet_id` for `device`.
pub open spec fn header_bytes(device: u32, packet_id: u32, len: u32) -> Seq<u8> {
    magic() + le32(device) + le32(packet_id) + le32(len)
}

/// Colors as the server stores them: R, G, B and a zero padding byte each.
pub open spec fn rgb0_bytes(colors: Seq<[u8; 3]>) -> Seq<u8>
    decreases colors.len(),
{
    if colors.len() == 0 {
        Seq::empty()
    } else {
        let c = colors.last();
        rgb0_bytes(colors.drop_last()) + seq![c@[0], c@[1], c@[2], 0u8]
    }
}

/// UPDATEZONELEDS payload: total_size | zone | count | RGB0 colors.
pub open spec fn zone_update_bytes(zone: u32, colors: Seq<[u8; 3]>) -> Seq<u8> {
    le32(wrap32(10 + 4 * colors.len())) + le32(zone) + le16(wrap16(colors.len()))
        + rgb0_bytes(colors)
}

/// UPDATELEDS payload: total_size | count | RGB0 colors.
pub open spec fn led_update_bytes(colors: Seq<[u8; 3]>) -> Seq<u8> {
    le32(wrap32(6 + 4 * colors.len())) + le16(wrap16(colors.len())) + rgb0_bytes(colors)
}

/// A length-prefixed, NUL-terminated string field: u16 length (counting the
/// NUL), the UTF-8 bytes, the NUL.
pub open spec fn string_field(s: Seq<char>) -> Seq<u8> {
    let b = vstd::utf8::encode_utf8(s);
    le16(wrap16(b.len() + 1)) + b + seq![0u8]
}

/// Little-endian `u32` words, one after another.
pub open spec fn words_bytes(ws: Seq<u32>) -> Seq<u8>
    decreases ws.len(),
{
    if ws.len() == 0 {
        Seq::empty()
    } else {
        words_bytes(ws.drop_last()) + le32(ws.last())
    }
}

/// The fixed-width words of a mode description in wire order; the
/// brightness fields exist from protocol 3 on.
pub open spec fn mode_words(protocol: u32, m: ModeView) -> Seq<u32> {
    if protocol >= 3 {
        seq![
            bits_of_i32(m.value), m.flags, m.speed_min, m.speed_max,
            m.brightness_min, m.brightness_max, m.colors_min, m.colors_max,
            m.speed, m.brightness, m.direction, m.color_mode,
        ]
    } else {
        seq![
            bits_of_i32(m.value), m.flags, m.speed_min, m.speed_max,
            m.colors_min, m.colors_max, m.speed, m.direction, m.color_mode,
        ]
    }
}

/// A full mode description as it appears on the wire.
pub open spec fn mode_bytes(protocol: u32, m: ModeView) -> Seq<u8> {
    string_field(m.name) + words_bytes(mode_words(protocol, m)) + le16(wrap16(m.colors.len()))
        + words_bytes(m.colors)
}

/// UPDATEMODE payload: total_size | mode_index | full mode description.
pub open spec fn update_mode_bytes(protocol: u32, mode_index: u32, m: ModeView) -> Seq<u8> {
    let body = le32(mode_index) + mode_bytes(protocol, m);
    le32(wrap32(4 + body.len())) + body
}

pub fn encode_header(device: u32, packet_id: u32, len: u32) -> (h: [u8; 16])
    ensures
        h@ == header_bytes(device, packet_id, len),
{
    let h: [u8; 16] = [
        79u8, 82u8, 71u8, 66u8,
        (device % 256) as u8, ((device / 256) % 256) as u8, ((device / 65536) % 256) as u8, (device / 16777216) as u8,
        (packet_id % 256) as u8, ((packet_id / 256) % 256) as u8, ((packet_id / 65536) % 256) as u8, (packet_id / 16777216) as u8,
        (len % 256) as u8, ((len / 256) % 256) as u8, ((len / 65536) % 256) as u8, (len / 16777216) as u8,
    ];
    assert(h@ =~= header_bytes(device, packet_id, len));
    h
}

fn push_rgb0(buf: &mut Vec<u8>, colors: &[[u8; 3]])
    ensures
        final(buf)@ == old(buf)@ + rgb0_bytes(colors@),
{
    let mut i: usize = 0;
    while i < colors.len()
        invariant
            i <= colors@.len(),
            buf@ == old(buf)@ + rgb0_bytes(colors@.take(i as int)),
        decreases colors.len() - i,
    {
        let c = colors[i];
        buf.push(c[0]);
        buf.push(c[1]);
        buf.push(c[2]);
        buf.push(0u8);
        assert(colors@.take(i + 1).drop_last() =~= colors@.take(i as int));
        assert(buf@ =~= old(buf)@ + rgb0_bytes(colors@.take(i + 1)));
        i = i + 1;
    }
    assert(colors@.take(i as int) =~= colors@);
}

fn wrap_usize32(n: usize) -> (r: u32)
    ensures
        r == wrap32(n as nat),
{
    (n as u64 % 0x1_0000_0000u64) as u32
}

fn wrap_usize16(n: usize) -> (r: u16)
    ensures
        r == wrap16(n as nat),
{
    (n % 65536) as u16
}

/// Payload for UPDATEZONELEDS: total_size | zone | count | RGB0 colors.
pub fn encode_zone_update(zone: u32, colors: &[[u8; 3]]) -> (buf: Vec<u8>)
    requires
        10 + 4 * colors@.len() <= usize::MAX,
    ensures
        buf@ == zone_update_bytes(zone, colors@),
{
    let total = 4 + 4 + 2 + colors.len() * 4;
    let mut buf: Vec<u8> = Vec::new();
    push_u32(&mut buf, wrap_usize32(total));
    push_u32(&mut buf, zone);
    push_u16(&mut buf, wrap_usize16(colors.len()));
    push_rgb0(&mut buf, colors);
    assert(buf@ =~= zone_update_bytes(zone, colors@));
    buf
}

/// Payload for UPDATELEDS: total_size | count | RGB0 colors.
pub fn encode_led_update(colors: &[[u8; 3]]) -> (buf: Vec<u8>)
    requires
        6 + 4 * colors@.len() <= usize::MAX,
    ensures
        buf@ == led_update_bytes(colors@),
{
    let total = 4 + 2 + colors.len() * 4;
    let mut buf: Vec<u8> = Vec::new();
    push_u32(&mut buf, wrap_usize32(total));
    push_u16(&mut buf, wrap_usize16(colors.len()));
    push_rgb0(&mut buf, colors);
    assert(buf@ =~= led_update_bytes(colors@));
    buf
}

fn push_words(buf: &mut Vec<u8>, ws: &Vec<u32>)
    ensures
        final(buf)@ == old(buf)@ + words_bytes(ws@),
{
    let mut i: usize = 0;
    while i < ws.len()
        invariant
            i <= ws@.len(),
            buf@ == old(buf)@ + words_bytes(ws@.take(i as int)),
        decreases ws.len() - i,
    {
        push_u32(buf, ws[i]);
        assert(ws@.take(i + 1).drop_last() =~= ws@.take(i as int));
        assert(buf@ =~= old(buf)@ + words_bytes(ws@.take(i + 1)));
        i = i + 1;
    }
    assert(ws@.take(i as int) =~= ws@);
}

#[verifier::spinoff_prover]
#[verifier::rlimit(30)]
fn push_string_field(buf: &mut Vec<u8>, s: &String)
    ensures
        final(buf)@ == old(buf)@ + string_field(s@),
{
    let bytes = s.as_str().as_bytes();
    let n = bytes.len();
    push_u16(buf, ((n % 65536 + 1) % 65536) as u16);
    let mut i: usize = 0;
    while i < n
        invariant
            n == bytes@.len(),
            i <= n,
            buf@ == old(buf)@ + le16(wrap16((n + 1) as nat)) + bytes@.take(i as int),
        decreases n - i,
    {
        buf.push(bytes[i]);
        assert(buf@ =~= old(buf)@ + le16(wrap16((n + 1) as nat)) + bytes@.take(i + 1));
        i = i + 1;
    }
    buf.push(0u8);
    assert(bytes@.take(n as int) =~= bytes@);
    assert(buf@ =~= old(buf)@ + string_field(s@));
}

/// Payload for UPDATEMODE: total_size | mode_index | full mode description.
/// The description mirrors the wire layout parsed from controller data, so a
/// parsed [`ModeInfo`] can be echoed back verbatim to activate that mode on
/// the physical device.
pub fn encode_update_mode(protocol: u32, mode_index: u32, m: &ModeInfo) -> (buf: Vec<u8>)
    ensures
        buf@ == update_mode_bytes(protocol, mode_index, m@),
{
    let mut body: Vec<u8> = Vec::new();
    push_u32(&mut body, mode_index);
    push_string_field(&mut body, &m.name);
    let mut words: Vec<u32> = Vec::new();
    words.push(i32_bits(m.value));
    words.push(m.flags);
    words.push(m.speed_min);
    words.push(m.speed_max);
    if protocol >= 3 {
        words.push(m.brightness_min);
        words.push(m.brightness_max);
    }
    words.push(m.colors_min);
    words.push(m.colors_max);
    words.push(m.speed);
    if protocol >= 3 {
        words.push(m.brightness);
    }
    words.push(m.direction);
    words.push(m.color_mode);
    assert(words@ =~= mode_words(protocol, m@));
    push_words(&mut body, &words);
    push_u16(&mut body, wrap_usize16(m.colors.len()));
    push_words(&mut body, &m.colors);
    assert(body@ =~= le32(mode_index) + mode_bytes(protocol, m@));
    let total = (((body.len() as u64) % 0x1_0000_0000u64 + 4) % 0x1_0000_0000u64) as u32;
    assert(total == wrap32(4 + body@.len())) by {
        let n = body@.len() as int;
        assert((n % 0x1_0000_0000 + 4) % 0x1_0000_0000 == (4 + n) % 0x1_0000_0000) by (nonlinear_arith);
    }
    let mut buf: Vec<u8> = Vec::new();
    push_u32(&mut buf, total);
    buf.append(&mut body);
    buf
}

} // verus!

verus! {

// ---------------------------------------------------------------------------
// Controller data parsing
// ---------------------------------------------------------------------------

/// Why a controller description could not be read.
#[derive(Debug, Clone, Copy, PartialEq, Eq)]
pub enum ParseError {
    /// The payload ended before a field it announces.
    Truncated,
}

/// A little-endian `u16` at `p`, and the position after it.
pub open spec fn rd_u16(d: Seq<u8>, p: int) -> Option<(u16, int)> {
    if 0 <= p && p + 2 <= d.len() {
        Some((u16_of(d.subrange(p, p + 2)), p + 2))
    } else {
        None
    }
}

/// A little-endian `u32` at `p`, and the position after it.
pub open spec fn rd_u32(d: Seq<u8>, p: int) -> Option<(u32, int)> {
    if 0 <= p && p + 4 <= d.len() {
        Some((u32_of(d.subrange(p, p + 4)), p + 4))
    } else {
        None
    }
}

/// `n` raw bytes at `p`, and the position after them.
pub open spec fn rd_bytes(d: Seq<u8>, p: int, n: int) -> Option<(Seq<u8>, int)> {
    if 0 <= p && 0 <= n && p + n <= d.len() {
        Some((d.subrange(p, p + n), p + n))
    } else {
        None
    }
}

/// Index of the first NUL byte of `b` at or after `i`, or `b.len()`.
pub open spec fn first_nul(b: Seq<u8>, i: int) -> int
    decreases b.len() - i,
{
    if i < 0 || i >= b.len() {
        b.len() as int
    } else if b[i] == 0 {
        i
    } else {
        first_nul(b, i + 1)
    }
}

/// A length-prefixed string at `p` (the u16 length counts the trailing NUL;
/// the text stops at the first NUL), and the position after it.
pub open spec fn rd_string(d: Seq<u8>, p: int) -> Option<(Seq<char>, int)> {
    match rd_u16(d, p) {
        None => None,
        Some((n, q)) => match rd_bytes(d, q, n as int) {
            None => None,
            Some((b, r)) => Some((decoded_text(b.take(first_nul(b, 0))), r)),
        },
    }
}

/// `n` strings at `p`, skipped; the position after them.
pub open spec fn skip_strings(d: Seq<u8>, p: int, n: nat) -> Option<int>
    decreases n,
{
    if n == 0 {
        Some(p)
    } else {
        match skip_strings(d, p, (n - 1) as nat) {
            None => None,
            Some(q) => match rd_string(d, q) {
                None => None,
                Some((_, r)) => Some(r),
            },
        }
    }
}

/// `n` little-endian `u32` words at `p`, and the position after them.
pub open spec fn rd_words(d: Seq<u8>, p: int, n: nat) -> Option<(Seq<u32>, int)>
    decreases n,
{
    if n == 0 {
        Some((Seq::empty(), p))
    } else {
        match rd_words(d, p, (n - 1) as nat) {
            None => None,
            Some((ws, q)) => match rd_u32(d, q) {
                None => None,
                Some((w, r)) => Some((ws.push(w), r)),
            },
        }
    }
}

/// How many fixed-width words a mode description holds.
pub open spec fn mode_word_count(protocol: u32) -> nat {
    if protocol >= 3 { 12 } else { 9 }
}

/// The mode a name, its fixed-width words and its colors describe.
pub open spec fn mode_of(protocol: u32, name: Seq<char>, ws: Seq<u32>, colors: Seq<u32>) -> ModeView {
    if protocol >= 3 {
        ModeView {
            name,
            value: i32_of_bits(ws[0]),
            flags: ws[1],
            speed_min: ws[2],
            speed_max: ws[3],
            brightness_min: ws[4],
            brightness_max: ws[5],
            colors_min: ws[6],
            colors_max: ws[7],
            speed: ws[8],
            brightness: ws[9],
            direction: ws[10],
            color_mode: ws[11],
            colors,
        }
    } else {
        ModeView {
            name,
            value: i32_of_bits(ws[0]),
            flags: ws[1],
            speed_min: ws[2],
            speed_max: ws[3],
            brightness_min: 0,
            brightness_max: 0,
            colors_min: ws[4],
            colors_max: ws[5],
            speed: ws[6],
            brightness: 0,
            direction: ws[7],
            color_mode: ws[8],
            colors,
        }
    }
}

/// One mode description at `p`, and the position after it.
pub open spec fn rd_mode(d: Seq<u8>, p: int, protocol: u32) -> Option<(ModeView, int)> {
    match rd_string(d, p) {
        None => None,
        Some((name, q)) => match rd_words(d, q, mode_word_count(protocol)) {
            None => None,
            Some((ws, r)) => match rd_u16(d, r) {
                None => None,
                Some((nc, s)) => match rd_words(d, s, nc as nat) {
                    None => None,
                    Some((cs, t)) => Some((mode_of(protocol, name, ws, cs), t)),
                },
            },
        },
    }
}

/// `n` mode descriptions at `p`, and the position after them.
pub open spec fn rd_modes(d: Seq<u8>, p: int, protocol: u32, n: nat) -> Option<(Seq<ModeView>, int)>
    decreases n,
{
    if n == 0 {
        Some((Seq::empty(), p))
    } else {
        match rd_modes(d, p, protocol, (n - 1) as nat) {
            None => None,
            Some((ms, q)) => match rd_mode(d, q, protocol) {
                None => None,
                Some((m, r)) => Some((ms.push(m), r)),
            },
        }
    }
}

/// One zone description at `p` (its matrix map is skipped), and the
/// position after it.
pub open spec fn rd_zone(d: Seq<u8>, p: int) -> Option<(ZoneView, int)> {
    match rd_string(d, p) {
        None => None,
        Some((name, q)) => match rd_words(d, q, 4) {
            None => None,
            Some((ws, r)) => match rd_u16(d, r) {
                None => None,
                Some((ml, s)) => match rd_bytes(d, s, ml as int) {
                    None => None,
                    Some((_, t)) => Some((
                        ZoneView {
                            name,
                            zone_type: i32_of_bits(ws[0]),
                            leds_min: ws[1],
                            leds_max: ws[2],
                            leds_count: ws[3],
                        },
                        t,
                    )),
                },
            },
        },
    }
}

/// `n` zone descriptions at `p`, and the position after them.
pub open spec fn rd_zones(d: Seq<u8>, p: int, n: nat) -> Option<(Seq<ZoneView>, int)>
    decreases n,
{
    if n == 0 {
        Some((Seq::empty(), p))
    } else {
        match rd_zones(d, p, (n - 1) as nat) {
            None => None,
            Some((zs, q)) => match rd_zone(d, q) {
                None => None,
                Some((z, r)) => Some((zs.push(z), r)),
            },
        }
    }
}

/// `n` LED descriptions (name and value) at `p`, skipped; the position after them.
pub open spec fn skip_leds(d: Seq<u8>, p: int, n: nat) -> Option<int>
    decreases n,
{
    if n == 0 {
        Some(p)
    } else {
        match skip_leds(d, p, (n - 1) as nat) {
            None => None,
            Some(q) => match rd_string(d, q) {
                None => None,
                Some((_, r)) => match rd_u32(d, r) {
                    None => None,
                    Some((_, s)) => Some(s),
                },
            },
        }
    }
}

/// How many descriptive strings (description, version, serial, location and,
/// from protocol 1 on, vendor) follow the device name.
pub open spec fn info_string_count(protocol: u32) -> nat {
    if protocol >= 1 { 5 } else { 4 }
}

/// The controller a REQUEST_CONTROLLER_DATA reply describes, when the reply
/// holds every field it announces. The per-LED colors that trail the LED
/// list are not read.
pub open spec fn controller_from_bytes(d: Seq<u8>, protocol: u32) -> Option<ControllerView> {
    match rd_u32(d, 0) {
        None => None,
        Some((_, p1)) => match rd_u32(d, p1) {
            None => None,
            Some((ty, p2)) => match rd_string(d, p2) {
                None => None,
                Some((name, p3)) => match skip_strings(d, p3, info_string_count(protocol)) {
                    None => None,
                    Some(p4) => match rd_u16(d, p4) {
                        None => None,
                        Some((nm, p5)) => match rd_u32(d, p5) {
                            None => None,
                            Some((active, p6)) => match rd_modes(d, p6, protocol, nm as nat) {
                                None => None,
                                Some((modes, p7)) => match rd_u16(d, p7) {
                                    None => None,
                                    Some((nz, p8)) => match rd_zones(d, p8, nz as nat) {
                                        None => None,
                                        Some((zones, p9)) => match rd_u16(d, p9) {
                                            None => None,
                                            Some((nl, p10)) => match skip_leds(d, p10, nl as nat) {
                                                None => None,
                                                Some(_) => Some(ControllerView {
                                                    controller_type: i32_of_bits(ty),
                                                    name,
                                                    active_mode: i32_of_bits(active),
                                                    modes,
                                                    zones,
                                                    num_leds: nl as u32,
                                                }),
                                            },
                                        },
                                    },
                                },
                            },
                        },
                    },
                },
            },
        },
    }
}

/// A cursor over a payload.
pub struct ByteReader<'a> {
    pub data: &'a [u8],
    pub pos: usize,
}

impl<'a> ByteReader<'a> {
    /// The cursor lies inside the payload.
    pub open spec fn wf(&self) -> bool {
        self.pos <= self.data@.len()
    }

    pub fn new(data: &'a [u8]) -> (r: Self)
        ensures
            r.data@ == data@,
            r.pos == 0,
            r.wf(),
    {
        ByteReader { data, pos: 0 }
    }

    pub fn take(&mut self, n: usize) -> (res: Result<&'a [u8], ParseError>)
        requires
            old(self).wf(),
        ensures
            final(self).wf(),
            final(self).data@ == old(self).data@,
            match rd_bytes(old(self).data@, old(self).pos as int, n as int) {
                None => res is Err && final(self).pos == old(self).pos,
                Some((b, q)) => (res matches Ok(s) && s@ == b) && final(self).pos == q,
            },
    {
        if n > self.data.len() - self.pos {
            return Err(ParseError::Truncated);
        }
        let s = vstd::slice::slice_subrange(self.data, self.pos, self.pos + n);
        self.pos = self.pos + n;
        Ok(s)
    }

    pub fn u16(&mut self) -> (res: Result<u16, ParseError>)
        requires
            old(self).wf(),
        ensures
            final(self).wf(),
            final(self).data@ == old(self).data@,
            match rd_u16(old(self).data@, old(self).pos as int) {
                None => res is Err && final(self).pos == old(self).pos,
                Some((v, q)) => res == Ok::<u16, ParseError>(v) && final(self).pos == q,
            },
    {
        let b = self.take(2)?;
        Ok((b[0] as u16 + b[1] as u16 * 256) as u16)
    }

    pub fn u32(&mut self) -> (res: Result<u32, ParseError>)
        requires
            old(self).wf(),
        ensures
            final(self).wf(),
            final(self).data@ == old(self).data@,
            match rd_u32(old(self).data@, old(self).pos as int) {
                None => res is Err && final(self).pos == old(self).pos,
                Some((v, q)) => res == Ok::<u32, ParseError>(v) && final(self).pos == q,
            },
    {
        let b = self.take(4)?;
        Ok((b[0] as u32 + b[1] as u32 * 256 + b[2] as u32 * 65536 + b[3] as u32 * 16777216) as u32)
    }

    pub fn i32(&mut self) -> (res: Result<i32, ParseError>)
        requires
            old(self).wf(),
        ensures
            final(self).wf(),
            final(self).data@ == old(self).data@,
            match rd_u32(old(self).data@, old(self).pos as int) {
                None => res is Err && final(self).pos == old(self).pos,
                Some((v, q)) => res == Ok::<i32, ParseError>(i32_of_bits(v)) && final(self).pos == q,
            },
    {
        let w = self.u32()?;
        Ok(i32_from_bits(w))
    }

    /// Length-prefixed string (u16 length includes the trailing NUL).
    pub fn string(&mut self) -> (res: Result<String, ParseError>)
        requires
            old(self).wf(),
        ensures
            final(self).wf(),
            final(self).data@ == old(self).data@,
            match rd_string(old(self).data@, old(self).pos as int) {
                None => res is Err && final(self).pos == (match rd_u16(old(self).data@, old(self).pos as int) {
                    Some((_, q)) => q as usize,
                    None => old(self).pos,
                }),
                Some((s, q)) => (res matches Ok(t) && t@ == s) && final(self).pos == q,
            },
    {
        let len = self.u16()?;
        let bytes = self.take(len as usize)?;
        let mut end: usize = 0;
        while end < bytes.len() && bytes[end] != 0
            invariant
                end <= bytes@.len(),
                first_nul(bytes@, 0) == first_nul(bytes@, end as int),
            decreases bytes.len() - end,
        {
            end = end + 1;
        }
        let text = vstd::slice::slice_subrange(bytes, 0, end);
        assert(text@ =~= bytes@.take(first_nul(bytes@, 0)));
        Ok(lossy_string(text))
    }
}

} // verus!

verus! {

fn read_words(r: &mut ByteReader, n: usize) -> (res: Result<Vec<u32>, ParseError>)
    requires
        old(r).wf(),
    ensures
        final(r).wf(),
        final(r).data@ == old(r).data@,
        match rd_words(old(r).data@, old(r).pos as int, n as nat) {
            None => res is Err,
            Some((ws, q)) => (res matches Ok(v) && v@ == ws) && final(r).pos == q,
        },
        res matches Ok(v) ==> v@.len() == n,
{
    let ghost d = r.data@;
    let ghost p0 = r.pos as int;
    let mut out: Vec<u32> = Vec::new();
    let mut i: usize = 0;
    while i < n
        invariant
            r.wf(),
            r.data@ == d,
            d == old(r).data@,
            p0 == old(r).pos as int,
            i <= n,
            out@.len() == i,
            rd_words(d, p0, i as nat) == Some((out@, r.pos as int)),
        decreases n - i,
    {
        let w = match r.u32() {
            Ok(w) => w,
            Err(e) => {
                proof { lemma_rd_words_stuck(d, p0, i as nat, n as nat); }
                return Err(e);
            },
        };
        out.push(w);
        i = i + 1;
    }
    Ok(out)
}

/// Once a read of `i` items fails, reading more fails too.
proof fn lemma_rd_words_stuck(d: Seq<u8>, p: int, i: nat, n: nat)
    requires
        i < n,
        rd_words(d, p, i) matches Some((_, q)) && rd_u32(d, q) is None,
    ensures
        rd_words(d, p, n) is None,
    decreases n - i,
{
    if i + 1 < n {
        lemma_rd_words_none_grows(d, p, (i + 1) as nat, n);
    }
}

proof fn lemma_rd_words_none_grows(d: Seq<u8>, p: int, i: nat, n: nat)
    requires
        i <= n,
        rd_words(d, p, i) is None,
    ensures
        rd_words(d, p, n) is None,
    decreases n - i,
{
    if i < n {
        lemma_rd_words_none_grows(d, p, (i + 1) as nat, n);
    }
}

} // verus!

verus! {

proof fn lemma_rd_modes_none_grows(d: Seq<u8>, p: int, protocol: u32, i: nat, n: nat)
    requires
        i <= n,
        rd_modes(d, p, protocol, i) is None,
    ensures
        rd_modes(d, p, protocol, n) is None,
    decreases n - i,
{
    if i < n {
        lemma_rd_modes_none_grows(d, p, protocol, (i + 1) as nat, n);
    }
}

proof fn lemma_rd_zones_none_grows(d: Seq<u8>, p: int, i: nat, n: nat)
    requires
        i <= n,
        rd_zones(d, p, i) is None,
    ensures
        rd_zones(d, p, n) is None,
    decreases n - i,
{
    if i < n {
        lemma_rd_zones_none_grows(d, p, (i + 1) as nat, n);
    }
}

proof fn lemma_skip_strings_none_grows(d: Seq<u8>, p: int, i: nat, n: nat)
    requires
        i <= n,
        skip_strings(d, p, i) is None,
    ensures
        skip_strings(d, p, n) is None,
    decreases n - i,
{
    if i < n {
        lemma_skip_strings_none_grows(d, p, (i + 1) as nat, n);
    }
}

proof fn lemma_skip_leds_none_grows(d: Seq<u8>, p: int, i: nat, n: nat)
    requires
        i <= n,
        skip_leds(d, p, i) is None,
    ensures
        skip_leds(d, p, n) is None,
    decreases n - i,
{
    if i < n {
        lemma_skip_leds_none_grows(d, p, (i + 1) as nat, n);
    }
}

fn read_mode(r: &mut ByteReader, protocol: u32) -> (res: Result<ModeInfo, ParseError>)
    requires
        old(r).wf(),
    ensures
        final(r).wf(),
        final(r).data@ == old(r).data@,
        match rd_mode(old(r).data@, old(r).pos as int, protocol) {
            None => res is Err,
            Some((m, q)) => (res matches Ok(v) && v@ == m) && final(r).pos == q,
        },
{
    let name = r.string()?;
    let ws = read_words(r, if protocol >= 3 { 12 } else { 9 })?;
    let nc = r.u16()?;
    let colors = read_words(r, nc as usize)?;
    let m = if protocol >= 3 {
        ModeInfo {
            name,
            value: i32_from_bits(ws[0]),
            flags: ws[1],
            speed_min: ws[2],
            speed_max: ws[3],
            brightness_min: ws[4],
            brightness_max: ws[5],
            colors_min: ws[6],
            colors_max: ws[7],
            speed: ws[8],
            brightness: ws[9],
            direction: ws[10],
            color_mode: ws[11],
            colors,
        }
    } else {
        ModeInfo {
            name,
            value: i32_from_bits(ws[0]),
            flags: ws[1],
            speed_min: ws[2],
            speed_max: ws[3],
            brightness_min: 0,
            brightness_max: 0,
            colors_min: ws[4],
            colors_max: ws[5],
            speed: ws[6],
            brightness: 0,
            direction: ws[7],
            color_mode: ws[8],
            colors,
        }
    };
    Ok(m)
}

fn skip_string_fields(r: &mut ByteReader, n: usize) -> (res: Result<(), ParseError>)
    requires
        old(r).wf(),
    ensures
        final(r).wf(),
        final(r).data@ == old(r).data@,
        match skip_strings(old(r).data@, old(r).pos as int, n as nat) {
            None => res is Err,
            Some(q) => res is Ok && final(r).pos == q,
        },
{
    let ghost d = r.data@;
    let ghost p0 = r.pos as int;
    let mut i: usize = 0;
    while i < n
        invariant
            r.wf(),
            r.data@ == d,
            d == old(r).data@,
            p0 == old(r).pos as int,
            i <= n,
            skip_strings(d, p0, i as nat) == Some(r.pos as int),
        decreases n - i,
    {
        match r.string() {
            Ok(_) => {},
            Err(e) => {
                proof { lemma_skip_strings_none_grows(d, p0, (i + 1) as nat, n as nat); }
                return Err(e);
            },
        }
        i = i + 1;
    }
    Ok(())
}

fn read_modes(r: &mut ByteReader, protocol: u32, n: u16) -> (res: Result<Vec<ModeInfo>, ParseError>)
    requires
        old(r).wf(),
    ensures
        final(r).wf(),
        final(r).data@ == old(r).data@,
        match rd_modes(old(r).data@, old(r).pos as int, protocol, n as nat) {
            None => res is Err,
            Some((ms, q)) => (res matches Ok(v) && v@.map_values(|m: ModeInfo| m@) == ms)
                && final(r).pos == q,
        },
{
    let ghost d = r.data@;
    let ghost p0 = r.pos as int;
    let mut out: Vec<ModeInfo> = Vec::new();
    let mut i: u16 = 0;
    while i < n
        invariant
            r.wf(),
            r.data@ == d,
            d == old(r).data@,
            p0 == old(r).pos as int,
            i <= n,
            rd_modes(d, p0, protocol, i as nat) == Some((out@.map_values(|m: ModeInfo| m@), r.pos as int)),
        decreases n - i,
    {
        match read_mode(r, protocol) {
            Ok(m) => {
                out.push(m);
            },
            Err(e) => {
                proof { lemma_rd_modes_none_grows(d, p0, protocol, (i + 1) as nat, n as nat); }
                return Err(e);
            },
        }
        i = i + 1;
        assert(out@.map_values(|m: ModeInfo| m@) =~= rd_modes(d, p0, protocol, i as nat).unwrap().0);
    }
    Ok(out)
}

fn read_zone(r: &mut ByteReader) -> (res: Result<ZoneInfo, ParseError>)
    requires
        old(r).wf(),
    ensures
        final(r).wf(),
        final(r).data@ == old(r).data@,
        match rd_zone(old(r).data@, old(r).pos as int) {
            None => res is Err,
            Some((z, q)) => (res matches Ok(v) && v@ == z) && final(r).pos == q,
        },
{
    let name = r.string()?;
    let ws = read_words(r, 4)?;
    let matrix_len = r.u16()?;
    r.take(matrix_len as usize)?;
    Ok(ZoneInfo {
        name,
        zone_type: i32_from_bits(ws[0]),
        leds_min: ws[1],
        leds_max: ws[2],
        leds_count: ws[3],
    })
}

fn read_zones(r: &mut ByteReader, n: u16) -> (res: Result<Vec<ZoneInfo>, ParseError>)
    requires
        old(r).wf(),
    ensures
        final(r).wf(),
        final(r).data@ == old(r).data@,
        match rd_zones(old(r).data@, old(r).pos as int, n as nat) {
            None => res is Err,
            Some((zs, q)) => (res matches Ok(v) && v@.map_values(|z: ZoneInfo| z@) == zs)
                && final(r).pos == q,
        },
{
    let ghost d = r.data@;
    let ghost p0 = r.pos as int;
    let mut out: Vec<ZoneInfo> = Vec::new();
    let mut i: u16 = 0;
    while i < n
        invariant
            r.wf(),
            r.data@ == d,
            d == old(r).data@,
            p0 == old(r).pos as int,
            i <= n,
            rd_zones(d, p0, i as nat) == Some((out@.map_values(|z: ZoneInfo| z@), r.pos as int)),
        decreases n - i,
    {
        match read_zone(r) {
            Ok(z) => {
                out.push(z);
            },
            Err(e) => {
                proof { lemma_rd_zones_none_grows(d, p0, (i + 1) as nat, n as nat); }
                return Err(e);
            },
        }
        i = i + 1;
        assert(out@.map_values(|z: ZoneInfo| z@) =~= rd_zones(d, p0, i as nat).unwrap().0);
    }
    Ok(out)
}

fn skip_led_entries(r: &mut ByteReader, n: u16) -> (res: Result<(), ParseError>)
    requires
        old(r).wf(),
    ensures
        final(r).wf(),
        final(r).data@ == old(r).data@,
        match skip_leds(old(r).data@, old(r).pos as int, n as nat) {
            None => res is Err,
            Some(q) => res is Ok && final(r).pos == q,
        },
{
    let ghost d = r.data@;
    let ghost p0 = r.pos as int;
    let mut i: u16 = 0;
    while i < n
        invariant
            r.wf(),
            r.data@ == d,
            d == old(r).data@,
            p0 == old(r).pos as int,
            i <= n,
            skip_leds(d, p0, i as nat) == Some(r.pos as int),
        decreases n - i,
    {
        let step = match r.string() {
            Ok(_) => r.u32(),
            Err(e) => Err(e),
        };
        match step {
            Ok(_) => {},
            Err(e) => {
                proof { lemma_skip_leds_none_grows(d, p0, (i + 1) as nat, n as nat); }
                return Err(e);
            },
        }
        i = i + 1;
    }
    Ok(())
}

/// Parse a REQUEST_CONTROLLER_DATA reply. Fails exactly when the payload
/// ends before a field it announces.
pub fn parse_controller_data(payload: &[u8], protocol: u32) -> (res: Result<ControllerInfo, ParseError>)
    ensures
        match controller_from_bytes(payload@, protocol) {
            None => res is Err,
            Some(c) => res matches Ok(info) && info@ == c,
        },
{
    let mut r = ByteReader::new(payload);
    let _data_size = r.u32()?;
    let controller_type = r.i32()?;
    let name = r.string()?;
    skip_string_fields(&mut r, if protocol >= 1 { 5 } else { 4 })?;
    let num_modes = r.u16()?;
    let active_mode = r.i32()?;
    let modes = read_modes(&mut r, protocol, num_modes)?;
    let num_zones = r.u16()?;
    let zones = read_zones(&mut r, num_zones)?;
    let num_leds = r.u16()?;
    skip_led_entries(&mut r, num_leds)?;
    // Trailing per-LED color values are not needed; stop parsing here.
    let info = ControllerInfo {
        controller_type,
        name,
        active_mode,
        modes,
        zones,
        num_leds: num_leds as u32,
    };
    assert(info@ =~= controller_from_bytes(payload@, protocol).unwrap());
    Ok(info)
}

} // verus!

verus! {

/// Mode `i` is named `want`, ignoring surrounding whitespace and ASCII case.
pub open spec fn mode_named(modes: Seq<ModeView>, want: Seq<char>, i: int) -> bool {
    ascii_ci_eq(trimmed(modes[i].name), want)
}

/// The first mode at or after `i` named `want`.
pub open spec fn first_named(modes: Seq<ModeView>, want: Seq<char>, i: int) -> Option<int>
    decreases modes.len() - i,
{
    if i < 0 || i >= modes.len() {
        None
    } else if mode_named(modes, want, i) {
        Some(i)
    } else {
        first_named(modes, want, i + 1)
    }
}

/// The device's direct-control mode: the first "Direct", else the first
/// "Custom", else the first "Static" — the server's own fallback order.
pub open spec fn direct_mode_index(modes: Seq<ModeView>) -> Option<int> {
    match first_named(modes, "Direct"@, 0) {
        Some(i) => Some(i),
        None => match first_named(modes, "Custom"@, 0) {
            Some(i) => Some(i),
            None => first_named(modes, "Static"@, 0),
        },
    }
}

proof fn lemma_first_named_props(modes: Seq<ModeView>, want: Seq<char>, i: int)
    requires
        0 <= i,
    ensures
        first_named(modes, want, i) matches Some(k) ==> i <= k < modes.len() && mode_named(modes, want, k)
            && forall|j: int| i <= j < k ==> !mode_named(modes, want, j),
        first_named(modes, want, i) is None ==> forall|j: int| i <= j < modes.len() ==> !mode_named(modes, want, j),
    decreases modes.len() - i,
{
    if i < modes.len() {
        lemma_first_named_props(modes, want, i + 1);
    }
}

impl ControllerInfo {
    fn find_mode(&self, want: &str) -> (r: Option<usize>)
        ensures
            match first_named(self@.modes, want@, 0) {
                None => r is None,
                Some(i) => r matches Some(k) && k as int == i,
            },
    {
        let mut i: usize = 0;
        while i < self.modes.len()
            invariant
                i <= self.modes@.len(),
                first_named(self@.modes, want@, 0) == first_named(self@.modes, want@, i as int),
            decreases self.modes.len() - i,
        {
            let t = trim_owned(self.modes[i].name.as_str());
            assert(self@.modes[i as int] == self.modes@[i as int]@);
            if eq_ignore_ascii_case(t.as_str(), want) {
                return Some(i);
            }
            i = i + 1;
        }
        None
    }

    /// Index and description of the device's direct-control mode. Mirrors the
    /// server's own fallback order — "Direct", then "Custom", then "Static" —
    /// with trimmed, case-insensitive matching.
    pub fn direct_mode(&self) -> (r: Option<(u32, &ModeInfo)>)
        ensures
            match direct_mode_index(self@.modes) {
                None => r is None,
                Some(i) => r matches Some((k, m)) && k == wrap32(i as nat) && *m == self.modes@[i],
            },
    {
        proof {
            lemma_first_named_props(self@.modes, "Direct"@, 0);
            lemma_first_named_props(self@.modes, "Custom"@, 0);
            lemma_first_named_props(self@.modes, "Static"@, 0);
        }
        let found = match self.find_mode("Direct") {
            Some(i) => Some(i),
            None => match self.find_mode("Custom") {
                Some(i) => Some(i),
                None => self.find_mode("Static"),
            },
        };
        assert(found matches Some(i) ==> direct_mode_index(self@.modes) == Some(i as int));
        assert(found is None ==> direct_mode_index(self@.modes) is None);
        match found {
            Some(i) => Some(((i as u64 % 0x1_0000_0000u64) as u32, &self.modes[i])),
            None => None,
        }
    }
}

} // verus!

verus! {

// ---------------------------------------------------------------------------
// Client-side request payloads and reply checks
// ---------------------------------------------------------------------------

/// Why a received packet header was refused.
#[derive(Debug, Clone, Copy, PartialEq, Eq)]
pub enum HeaderError {
    /// The packet does not start with "ORGB".
    BadMagic,
    /// The announced payload is larger than [`MAX_PAYLOAD`].
    TooLarge,
}

/// Read a received 16-byte header: (device, packet id, payload length).
pub fn decode_header(h: &[u8; 16]) -> (r: Result<(u32, u32, u32), HeaderError>)
    ensures
        h@.subrange(0, 4) != magic() ==> r == Err::<(u32, u32, u32), HeaderError>(HeaderError::BadMagic),
        h@.subrange(0, 4) == magic() && u32_of(h@.subrange(12, 16)) > MAX_PAYLOAD
            ==> r == Err::<(u32, u32, u32), HeaderError>(HeaderError::TooLarge),
        h@.subrange(0, 4) == magic() && u32_of(h@.subrange(12, 16)) <= MAX_PAYLOAD
            ==> r == Ok::<(u32, u32, u32), HeaderError>((
                u32_of(h@.subrange(4, 8)),
                u32_of(h@.subrange(8, 12)),
                u32_of(h@.subrange(12, 16)),
            )),
{
    if !(h[0] == 79 && h[1] == 82 && h[2] == 71 && h[3] == 66) {
        assert(h@.subrange(0, 4) != magic()) by {
            if h@.subrange(0, 4) == magic() {
                assert(h@.subrange(0, 4)[0] == h@[0]);
                assert(h@.subrange(0, 4)[1] == h@[1]);
                assert(h@.subrange(0, 4)[2] == h@[2]);
                assert(h@.subrange(0, 4)[3] == h@[3]);
            }
        }
        return Err(HeaderError::BadMagic);
    }
    assert(h@.subrange(0, 4) =~= magic());
    let device = (h[4] as u32 + h[5] as u32 * 256 + h[6] as u32 * 65536 + h[7] as u32 * 16777216) as u32;
    let packet_id = (h[8] as u32 + h[9] as u32 * 256 + h[10] as u32 * 65536 + h[11] as u32 * 16777216) as u32;
    let len = (h[12] as u32 + h[13] as u32 * 256 + h[14] as u32 * 65536 + h[15] as u32 * 16777216) as u32;
    if len > MAX_PAYLOAD {
        return Err(HeaderError::TooLarge);
    }
    Ok((device, packet_id, len))
}

/// SET_CLIENT_NAME payload: the name's UTF-8 bytes and a NUL.
pub fn client_name_payload(name: &str) -> (buf: Vec<u8>)
    ensures
        buf@ == vstd::utf8::encode_utf8(name@) + seq![0u8],
{
    let bytes = name.as_bytes();
    let mut buf: Vec<u8> = Vec::new();
    let mut i: usize = 0;
    while i < bytes.len()
        invariant
            i <= bytes@.len(),
            buf@ == bytes@.take(i as int),
        decreases bytes.len() - i,
    {
        buf.push(bytes[i]);
        i = i + 1;
        assert(buf@ =~= bytes@.take(i as int));
    }
    buf.push(0u8);
    assert(bytes@.take(i as int) =~= bytes@);
    buf
}

/// The protocol both sides speak after a REQUEST_PROTOCOL_VERSION reply:
/// the server's revision capped at [`CLIENT_PROTOCOL`]; none when the reply
/// is too short to hold one.
pub fn negotiated_protocol(payload: &[u8]) -> (r: Option<u32>)
    ensures
        payload@.len() < 4 ==> r is None,
        payload@.len() >= 4 ==> r == Some(
            if u32_of(payload@) < CLIENT_PROTOCOL { u32_of(payload@) } else { CLIENT_PROTOCOL },
        ),
{
    if payload.len() < 4 {
        return None;
    }
    let server = (payload[0] as u32 + payload[1] as u32 * 256 + payload[2] as u32 * 65536
        + payload[3] as u32 * 16777216) as u32;
    Some(if server < CLIENT_PROTOCOL { server } else { CLIENT_PROTOCOL })
}

/// The device count a REQUEST_CONTROLLER_COUNT reply announces.
pub fn controller_count_from_reply(payload: &[u8]) -> (r: Result<u32, ParseError>)
    ensures
        payload@.len() < 4 ==> r == Err::<u32, ParseError>(ParseError::Truncated),
        payload@.len() >= 4 ==> r == Ok::<u32, ParseError>(u32_of(payload@)),
{
    if payload.len() < 4 {
        return Err(ParseError::Truncated);
    }
    Ok((payload[0] as u32 + payload[1] as u32 * 256 + payload[2] as u32 * 65536
        + payload[3] as u32 * 16777216) as u32)
}

/// REQUEST_CONTROLLER_DATA payload: the negotiated protocol, from protocol 1
/// on; nothing before.
pub fn controller_data_request(protocol: u32) -> (buf: Vec<u8>)
    ensures
        protocol >= 1 ==> buf@ == le32(protocol),
        protocol < 1 ==> buf@ == Seq::<u8>::empty(),
{
    let mut buf: Vec<u8> = Vec::new();
    if protocol >= 1 {
        push_u32(&mut buf, protocol);
    }
    assert(protocol < 1 ==> buf@ =~= Seq::<u8>::empty());
    buf
}

/// RESIZEZONE payload: zone index and new size, each as a little-endian
/// 32-bit word.
pub fn encode_resize_zone(zone: u32, new_size: u32) -> (buf: Vec<u8>)
    ensures
        buf@ == le32(zone) + le32(new_size),
{
    let mut buf: Vec<u8> = Vec::new();
    push_u32(&mut buf, zone);
    push_u32(&mut buf, new_size);
    buf
}

/// What a client waiting for one reply does with a packet that arrived.
#[derive(Debug, Clone, Copy, PartialEq, Eq)]
pub enum Incoming {
    /// The awaited reply: hand it over.
    Wanted,
    /// An asynchronous DEVICE_LIST_UPDATED: note that the devices changed.
    DeviceListChanged,
    /// Anything else: drop it and keep waiting.
    Other,
}

/// Classify a packet that arrived while the client waits for `wanted`.
pub fn classify_packet(packet_id: u32, wanted: u32) -> (r: Incoming)
    ensures
        packet_id == wanted ==> r == Incoming::Wanted,
        packet_id != wanted && packet_id == DEVICE_LIST_UPDATED ==> r == Incoming::DeviceListChanged,
        packet_id != wanted && packet_id != DEVICE_LIST_UPDATED ==> r == Incoming::Other,
{
    if packet_id == wanted {
        Incoming::Wanted
    } else if packet_id == DEVICE_LIST_UPDATED {
        Incoming::DeviceListChanged
    } else {
        Incoming::Other
    }
}

} // verus!

verus! {

// ---------------------------------------------------------------------------
// Laws of the wire format
// ---------------------------------------------------------------------------

/// `s` holds no NUL character.
pub open spec fn nul_free(s: Seq<char>) -> bool {
    forall|i: int| 0 <= i < s.len() ==> s[i] != '\0'
}

/// A mode as the server reads it back from an UPDATEMODE description sent
/// under `protocol`: before protocol 3 the brightness fields are not on the
/// wire and read as zero.
pub open spec fn echoed_mode(protocol: u32, m: ModeView) -> ModeView {
    if protocol >= 3 {
        m
    } else {
        ModeView {
            name: m.name,
            value: m.value,
            flags: m.flags,
            speed_min: m.speed_min,
            speed_max: m.speed_max,
            brightness_min: 0,
            brightness_max: 0,
            colors_min: m.colors_min,
            colors_max: m.colors_max,
            speed: m.speed,
            brightness: 0,
            direction: m.direction,
            color_mode: m.color_mode,
            colors: m.colors,
        }
    }
}

proof fn lemma_encode_scalar_no_nul(s: u32)
    requires
        vstd::utf8::is_scalar(s),
        s != 0,
    ensures
        forall|i: int| 0 <= i < vstd::utf8::encode_scalar(s).len() ==> vstd::utf8::encode_scalar(s)[i] != 0,
{
    assert(0 < s <= 0x7F ==> (s & 0x7F) as u8 != 0) by (bit_vector);
    assert((0xC0u8 | ((s >> 6) & 0x1F) as u8) != 0) by (bit_vector);
    assert((0xE0u8 | ((s >> 12) & 0x0F) as u8) != 0) by (bit_vector);
    assert((0xF0u8 | ((s >> 18) & 0x7) as u8) != 0) by (bit_vector);
    assert((0x80u8 | (s & 0x3F) as u8) != 0) by (bit_vector);
    assert((0x80u8 | ((s >> 6) & 0x3F) as u8) != 0) by (bit_vector);
    assert((0x80u8 | ((s >> 12) & 0x3F) as u8) != 0) by (bit_vector);
}

proof fn lemma_encode_utf8_no_nul(s: Seq<char>)
    requires
        nul_free(s),
    ensures
        forall|i: int| 0 <= i < vstd::utf8::encode_utf8(s).len() ==> vstd::utf8::encode_utf8(s)[i] != 0,
    decreases s.len(),
{
    if s.len() > 0 {
        let c = s[0];
        vstd::utf8::char_is_scalar(c);
        assert(c as u32 != 0) by {
            assert(c != '\0');
            vstd::utf8::char_u32_cast(c, c as u32);
        }
        lemma_encode_scalar_no_nul(c as u32);
        assert(nul_free(s.drop_first()));
        lemma_encode_utf8_no_nul(s.drop_first());
        let head = vstd::utf8::encode_scalar(c as u32);
        let tail = vstd::utf8::encode_utf8(s.drop_first());
        assert(vstd::utf8::encode_utf8(s) == head + tail);
        assert forall|i: int| 0 <= i < (head + tail).len() implies (head + tail)[i] != 0 by {
            if i < head.len() {
                assert((head + tail)[i] == head[i]);
            } else {
                assert((head + tail)[i] == tail[i - head.len()]);
            }
        }
    }
}

proof fn lemma_first_nul_terminated(b: Seq<u8>, i: int)
    requires
        0 <= i <= b.len(),
        forall|j: int| 0 <= j < b.len() ==> b[j] != 0,
    ensures
        first_nul(b + seq![0u8], i) == b.len(),
    decreases b.len() - i,
{
    if i < b.len() {
        lemma_first_nul_terminated(b, i + 1);
    }
}

/// A region of `d` holding `a` followed by `b` holds `a` and then `b`.
proof fn lemma_split(d: Seq<u8>, q: int, a: Seq<u8>, b: Seq<u8>)
    requires
        0 <= q,
        q + a.len() + b.len() <= d.len(),
        d.subrange(q, q + a.len() + b.len()) == a + b,
    ensures
        d.subrange(q, q + a.len()) == a,
        d.subrange(q + a.len(), q + a.len() + b.len()) == b,
{
    assert(d.subrange(q, q + a.len()) =~= (a + b).subrange(0, a.len() as int));
    assert(d.subrange(q + a.len(), q + a.len() + b.len()) =~= (a + b).subrange(a.len() as int, (a.len() + b.len()) as int));
}

proof fn lemma_rd_string_field(d: Seq<u8>, q: int, s: Seq<char>)
    requires
        0 <= q,
        nul_free(s),
        vstd::utf8::encode_utf8(s).len() + 1 < 65536,
        q + string_field(s).len() <= d.len(),
        d.subrange(q, q + string_field(s).len()) == string_field(s),
    ensures
        rd_string(d, q) == Some((s, q + string_field(s).len())),
{
    let b = vstd::utf8::encode_utf8(s);
    let n = (b.len() + 1) as u16;
    crate::wire::lemma_le16_roundtrip(n);
    assert(wrap16((b.len() + 1) as nat) == n);
    assert(string_field(s) =~= le16(n) + (b + seq![0u8]));
    lemma_split(d, q, le16(n), b + seq![0u8]);
    assert(rd_u16(d, q) == Some((n, q + 2)));
    let bz = b + seq![0u8];
    assert(rd_bytes(d, q + 2, n as int) == Some((bz, q + 2 + bz.len())));
    lemma_encode_utf8_no_nul(s);
    lemma_first_nul_terminated(b, 0);
    assert(bz.take(b.len() as int) =~= b);
    vstd::utf8::encode_utf8_valid_utf8(s);
    vstd::utf8::encode_utf8_decode_utf8(s);
}

proof fn lemma_words_bytes_len(ws: Seq<u32>)
    ensures
        words_bytes(ws).len() == 4 * ws.len(),
    decreases ws.len(),
{
    if ws.len() > 0 {
        lemma_words_bytes_len(ws.drop_last());
    }
}

proof fn lemma_rd_words_bytes(d: Seq<u8>, q: int, ws: Seq<u32>)
    requires
        0 <= q,
        q + 4 * ws.len() <= d.len(),
        d.subrange(q, q + 4 * ws.len()) == words_bytes(ws),
    ensures
        rd_words(d, q, ws.len()) == Some((ws, q + 4 * ws.len())),
    decreases ws.len(),
{
    if ws.len() > 0 {
        let init = ws.drop_last();
        lemma_words_bytes_len(init);
        lemma_split(d, q, words_bytes(init), le32(ws.last()));
        lemma_rd_words_bytes(d, q, init);
        crate::wire::lemma_le32_roundtrip(ws.last());
        assert(init.push(ws.last()) =~= ws);
    }
}

/// Law: a mode description that UPDATEMODE sends reads back, wherever it
/// stands in a payload, as the same mode (with the brightness fields that
/// protocols before 3 leave out read as zero) — so a parsed mode can be
/// echoed back verbatim. The name must hold no NUL (the parser stops at the
/// first one) and fit the u16 length field, and the color count must fit its
/// u16 field.
pub proof fn mode_description_reads_back(protocol: u32, m: ModeView, d: Seq<u8>, q: int)
    requires
        nul_free(m.name),
        vstd::utf8::encode_utf8(m.name).len() + 1 < 65536,
        m.colors.len() < 65536,
        0 <= q,
        q + mode_bytes(protocol, m).len() <= d.len(),
        d.subrange(q, q + mode_bytes(protocol, m).len()) == mode_bytes(protocol, m),
    ensures
        rd_mode(d, q, protocol) == Some((echoed_mode(protocol, m), q + mode_bytes(protocol, m).len())),
{
    let sf = string_field(m.name);
    let ws = mode_words(protocol, m);
    let nc = m.colors.len() as u16;
    lemma_words_bytes_len(ws);
    lemma_words_bytes_len(m.colors);
    assert(wrap16(m.colors.len()) == nc);
    let wb = words_bytes(ws);
    let cb = words_bytes(m.colors);
    assert(mode_bytes(protocol, m) =~= sf + (wb + (le16(nc) + cb)));
    lemma_split(d, q, sf, wb + (le16(nc) + cb));
    lemma_rd_string_field(d, q, m.name);
    let q1 = q + sf.len();
    lemma_split(d, q1, wb, le16(nc) + cb);
    assert(ws.len() == mode_word_count(protocol));
    lemma_rd_words_bytes(d, q1, ws);
    let q2 = q1 + wb.len();
    lemma_split(d, q2, le16(nc), cb);
    crate::wire::lemma_le16_roundtrip(nc);
    assert(rd_u16(d, q2) == Some((nc, q2 + 2)));
    lemma_rd_words_bytes(d, q2 + 2, m.colors);
    crate::wire::lemma_i32_bits_roundtrip(m.value);
    assert(mode_of(protocol, m.name, ws, m.colors) == echoed_mode(protocol, m));
}

/// The bytes of a zone description as the server lays it out: name, type,
/// minimum, maximum and current LED count, and an empty matrix map.
pub open spec fn zone_bytes(z: ZoneView) -> Seq<u8> {
    string_field(z.name) + (le32(bits_of_i32(z.zone_type)) + le32(z.leds_min) + le32(z.leds_max)
        + le32(z.leds_count)) + le16(0u16)
}

proof fn lemma_four_words(a: u32, b: u32, c: u32, e: u32)
    ensures
        words_bytes(seq![a, b, c, e]) == le32(a) + le32(b) + le32(c) + le32(e),
{
    let s1 = seq![a];
    let s2 = seq![a, b];
    let s3 = seq![a, b, c];
    let s4 = seq![a, b, c, e];
    assert(s1.drop_last() =~= Seq::<u32>::empty());
    assert(s2.drop_last() =~= s1);
    assert(s3.drop_last() =~= s2);
    assert(s4.drop_last() =~= s3);
    assert(words_bytes(Seq::<u32>::empty()) == Seq::<u8>::empty());
    assert(words_bytes(s1) =~= le32(a));
    assert(words_bytes(s2) =~= le32(a) + le32(b));
    assert(words_bytes(s3) =~= le32(a) + le32(b) + le32(c));
    assert(words_bytes(s4) =~= le32(a) + le32(b) + le32(c) + le32(e));
}

/// Law: a zone description (name, type, LED minimum, maximum and count,
/// no matrix map) reads back, wherever it stands in a payload, as a zone
/// with exactly those values, and reading continues right after it. The
/// name must hold no NUL (the reader stops at the first one) and fit the
/// u16 length field.
#[verifier::spinoff_prover]
pub proof fn zone_description_reads_back(z: ZoneView, d: Seq<u8>, q: int)
    requires
        nul_free(z.name),
        vstd::utf8::encode_utf8(z.name).len() + 1 < 65536,
        0 <= q,
        q + zone_bytes(z).len() <= d.len(),
        d.subrange(q, q + zone_bytes(z).len()) == zone_bytes(z),
    ensures
        rd_zone(d, q) matches Some((r, p)) && p == q + zone_bytes(z).len()
            && r.name == z.name
            && r.zone_type == z.zone_type
            && r.leds_min == z.leds_min
            && r.leds_max == z.leds_max
            && r.leds_count == z.leds_count,
{
    let sf = string_field(z.name);
    let ws = seq![bits_of_i32(z.zone_type), z.leds_min, z.leds_max, z.leds_count];
    let wb = le32(bits_of_i32(z.zone_type)) + le32(z.leds_min) + le32(z.leds_max) + le32(z.leds_count);
    lemma_four_words(bits_of_i32(z.zone_type), z.leds_min, z.leds_max, z.leds_count);
    lemma_words_bytes_len(ws);
    assert(zone_bytes(z) =~= sf + (wb + le16(0u16)));
    lemma_split(d, q, sf, wb + le16(0u16));
    lemma_rd_string_field(d, q, z.name);
    let q1 = q + sf.len();
    lemma_split(d, q1, wb, le16(0u16));
    lemma_rd_words_bytes(d, q1, ws);
    let q2 = q1 + wb.len();
    crate::wire::lemma_le16_roundtrip(0u16);
    assert(d.subrange(q2, q2 + 2) == le16(0u16));
    assert(rd_u16(d, q2) == Some((0u16, q2 + 2)));
    crate::wire::lemma_i32_bits_roundtrip(z.zone_type);
    assert(rd_bytes(d, q2 + 2, 0) == Some((Seq::<u8>::empty(), q2 + 2))) by {
        assert(d.subrange(q2 + 2, q2 + 2) =~= Seq::<u8>::empty());
    }
}

/// Law: a header that `encode_header` builds is accepted by
/// `decode_header` and yields the same device, packet id and length,
/// whenever the length is within [`MAX_PAYLOAD`].
pub proof fn header_reads_back(device: u32, packet_id: u32, len: u32)
    requires
        len <= MAX_PAYLOAD,
    ensures
        header_bytes(device, packet_id, len).subrange(0, 4) == magic(),
        u32_of(header_bytes(device, packet_id, len).subrange(4, 8)) == device,
        u32_of(header_bytes(device, packet_id, len).subrange(8, 12)) == packet_id,
        u32_of(header_bytes(device, packet_id, len).subrange(12, 16)) == len,
{
    let h = header_bytes(device, packet_id, len);
    crate::wire::lemma_le32_roundtrip(device);
    crate::wire::lemma_le32_roundtrip(packet_id);
    crate::wire::lemma_le32_roundtrip(len);
    assert(h.subrange(0, 4) =~= magic());
    assert(h.subrange(4, 8) =~= le32(device));
    assert(h.subrange(8, 12) =~= le32(packet_id));
    assert(h.subrange(12, 16) =~= le32(len));
}

} // verus!
