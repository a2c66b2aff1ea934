//! Where the configured zones live on the OpenRGB server, and the decisions
//! the background renderer takes around it: which detected zone each enabled
//! entry drives, which headers to resize, which devices to switch to Direct
//! mode, when a device needs Direct mode re-asserted, and when a frame is
//! worth sending.

use vstd::prelude::*;
use crate::openrgb::{ControllerInfo, direct_mode_index};
use crate::settings::{ZoneConfig, effective_leds_of};
use crate::wire::{bits_of_i32, i32_of_bits, wrap32};
use crate::zones::{DetectedZone, matches_spec};

verus! {

/// One enabled zone resolved to its live location on the OpenRGB server.
#[derive(Debug)]
pub struct ResolvedZone {
    pub device: u32,
    /// -1 = drive the whole device with UPDATELEDS.
    pub zone_idx: i32,
    pub leds: u32,
    /// Index into the settings' zone list.
    pub cfg: usize,
    /// Last frame actually sent — identical frames are skipped entirely, so a
    /// static look costs zero traffic.
    pub last_frame: Vec<[u8; 3]>,
}

/// A header resize to send before streaming: (device, zone, new LED count).
#[derive(Debug, Clone, Copy, PartialEq, Eq)]
pub struct Resize {
    pub device: u32,
    pub zone: u32,
    pub leds: u32,
}

/// Where the configured zones actually live on the OpenRGB server.
#[derive(Debug)]
pub struct RenderMap {
    pub zones: Vec<ResolvedZone>,
    /// (device, direct mode index) for every device driven, so the frame
    /// loop can detect when something steals the mode back.
    pub direct_modes: Vec<(u32, u32)>,
}

impl RenderMap {
    pub fn is_empty(&self) -> (r: bool)
        ensures
            r == (self.zones@.len() == 0),
    {
        self.zones.len() == 0
    }
}

/// The LED count an entry asks for.
pub open spec fn wanted(cfg: ZoneConfig) -> u32 {
    effective_leds_of(cfg)
}

/// A resizable header gets resized to the user's LED count when it differs
/// from what it reports and fits the header's maximum (when one is known).
pub open spec fn resize_wanted(cfg: ZoneConfig, det: DetectedZone) -> bool {
    &&& wanted(cfg) > 0
    &&& det.resizable
    &&& wanted(cfg) != det.leds
    &&& det.zone_idx >= 0
    &&& (det.max_leds == 0 || wanted(cfg) <= det.max_leds)
}

/// How many LEDs get rendered for an entry on a detected zone: the resized
/// count; for fixed-size hardware the user's count, capped by what it has
/// (at least one); otherwise what it reports.
pub open spec fn planned_leds(cfg: ZoneConfig, det: DetectedZone) -> u32 {
    if resize_wanted(cfg, det) {
        wanted(cfg)
    } else if wanted(cfg) > 0 && !det.resizable {
        let cap: u32 = if det.leds > 1 { det.leds } else { 1 };
        if wanted(cfg) < cap { wanted(cfg) } else { cap }
    } else {
        det.leds
    }
}

/// The mathematical content of a resolved zone (the last frame aside).
pub struct Placement {
    pub device: u32,
    pub zone_idx: i32,
    pub leds: u32,
    pub cfg: int,
}

/// The plan being built: which detected zones are taken, the placements
/// and the resizes so far.
pub struct PlanState {
    pub claimed: Seq<bool>,
    pub zones: Seq<Placement>,
    pub resizes: Seq<Resize>,
}

/// Offer detected zone `d` to entry `c`: an unclaimed zone the entry
/// matches is claimed; a wanted resize is recorded; a zone with LEDs to
/// render is placed.
pub open spec fn offer(st: PlanState, c: int, cfg: ZoneConfig, d: int, det: DetectedZone) -> PlanState {
    if st.claimed[d] || !matches_spec(cfg, det) {
        st
    } else {
        let leds = planned_leds(cfg, det);
        PlanState {
            claimed: st.claimed.update(d, true),
            zones: if leds == 0 {
                st.zones
            } else {
                st.zones.push(Placement { device: det.device_idx, zone_idx: det.zone_idx, leds, cfg: c })
            },
            resizes: if resize_wanted(cfg, det) {
                st.resizes.push(Resize { device: det.device_idx, zone: det.zone_idx as u32, leds: wanted(cfg) })
            } else {
                st.resizes
            },
        }
    }
}

/// Offer the first `n` detected zones, in order, to entry `c`.
pub open spec fn offer_all(st: PlanState, c: int, cfg: ZoneConfig, dets: Seq<DetectedZone>, n: nat) -> PlanState
    decreases n,
{
    if n == 0 {
        st
    } else {
        let prev = offer_all(st, c, cfg, dets, (n - 1) as nat);
        offer(prev, c, cfg, n - 1, dets[n - 1])
    }
}

/// The plan after the first `n` entries (disabled ones take nothing).
pub open spec fn plan_upto(cfgs: Seq<ZoneConfig>, dets: Seq<DetectedZone>, n: nat) -> PlanState
    decreases n,
{
    if n == 0 {
        PlanState { claimed: Seq::new(dets.len(), |i: int| false), zones: Seq::empty(), resizes: Seq::empty() }
    } else {
        let prev = plan_upto(cfgs, dets, (n - 1) as nat);
        if cfgs[n - 1].enabled {
            offer_all(prev, n - 1, cfgs[n - 1], dets, dets.len())
        } else {
            prev
        }
    }
}

/// The complete plan for a zone list against a detection.
pub open spec fn plan(cfgs: Seq<ZoneConfig>, dets: Seq<DetectedZone>) -> PlanState {
    plan_upto(cfgs, dets, cfgs.len())
}

pub open spec fn placement_of(z: ResolvedZone) -> Placement {
    Placement { device: z.device, zone_idx: z.zone_idx, leds: z.leds, cfg: z.cfg as int }
}

/// The devices that placements live on, each once, in ascending order.
pub open spec fn device_set_of(devs: Seq<u32>, zones: Seq<Placement>) -> bool {
    &&& forall|i: int, j: int| 0 <= i < j < devs.len() ==> devs[i] < devs[j]
    &&& forall|d: u32| devs.contains(d) <==> exists|k: int| 0 <= k < zones.len() && (#[trigger] zones[k]).device == d
}

/// The resolved map, the resizes to send first and the devices to switch
/// to Direct mode.
pub struct Plan {
    pub map: RenderMap,
    pub resizes: Vec<Resize>,
    pub devices: Vec<u32>,
}

fn insert_sorted(devs: &mut Vec<u32>, d: u32)
    requires
        forall|i: int, j: int| 0 <= i < j < old(devs)@.len() ==> old(devs)@[i] < old(devs)@[j],
    ensures
        forall|i: int, j: int| 0 <= i < j < final(devs)@.len() ==> final(devs)@[i] < final(devs)@[j],
        forall|x: u32| final(devs)@.contains(x) <==> (old(devs)@.contains(x) || x == d),
{
    let mut k: usize = 0;
    while k < devs.len() && devs[k] < d
        invariant
            devs@ == old(devs)@,
            k <= devs@.len(),
            forall|i: int| 0 <= i < k ==> devs@[i] < d,
        decreases devs.len() - k,
    {
        k = k + 1;
    }
    if k < devs.len() && devs[k] == d {
        assert(devs@[k as int] == d);
        return;
    }
    let ghost before = devs@;
    assert(before == old(devs)@);
    devs.insert(k, d);
    assert forall|x: u32| devs@.contains(x) <==> (before.contains(x) || x == d) by {
        if devs@.contains(x) {
            let i = choose|i: int| 0 <= i < devs@.len() && devs@[i] == x;
            if i < k {
                assert(before[i] == x);
            } else if i > k {
                assert(before[i - 1] == x);
            }
        }
        if before.contains(x) {
            let i = choose|i: int| 0 <= i < before.len() && before[i] == x;
            if i < k {
                assert(devs@[i] == x);
            } else {
                assert(devs@[i + 1] == x);
            }
        }
        if x == d {
            assert(devs@[k as int] == x);
        }
    }
    assert(forall|x: u32| devs@.contains(x) <==> (old(devs)@.contains(x) || x == d));
}

/// Decide where the configured zones live: every enabled entry, in order,
/// claims each still-unclaimed detected zone it matches; resizable headers
/// are resized to the user's LED count when it differs and fits; zones with
/// nothing to render are left out. Also lists the devices involved.
pub fn plan_render_map(cfgs: &Vec<ZoneConfig>, detected: &Vec<DetectedZone>) -> (p: Plan)
    ensures
        p.map.zones@.map_values(|z: ResolvedZone| placement_of(z)) == plan(cfgs@, detected@).zones,
        forall|i: int| 0 <= i < p.map.zones@.len() ==> (#[trigger] p.map.zones@[i]).last_frame@.len() == 0,
        p.map.direct_modes@.len() == 0,
        p.resizes@ == plan(cfgs@, detected@).resizes,
        device_set_of(p.devices@, plan(cfgs@, detected@).zones),
{
    let ghost dets = detected@;
    let mut claimed: Vec<bool> = Vec::new();
    let mut k: usize = 0;
    while k < detected.len()
        invariant
            k <= detected@.len(),
            claimed@ == Seq::new(k as nat, |i: int| false),
        decreases detected.len() - k,
    {
        claimed.push(false);
        k = k + 1;
        assert(claimed@ =~= Seq::new(k as nat, |i: int| false));
    }
    let mut zones: Vec<ResolvedZone> = Vec::new();
    let mut resizes: Vec<Resize> = Vec::new();
    let mut c: usize = 0;
    while c < cfgs.len()
        invariant
            c <= cfgs@.len(),
            claimed@ == plan_upto(cfgs@, detected@, c as nat).claimed,
            zones@.map_values(|z: ResolvedZone| placement_of(z)) == plan_upto(cfgs@, detected@, c as nat).zones,
            forall|i: int| 0 <= i < zones@.len() ==> (#[trigger] zones@[i]).last_frame@.len() == 0,
            resizes@ == plan_upto(cfgs@, detected@, c as nat).resizes,
            claimed@.len() == detected@.len(),
        decreases cfgs.len() - c,
    {
        let cfg = &cfgs[c];
        if cfg.enabled {
            let ghost st0 = plan_upto(cfgs@, detected@, c as nat);
            let mut d: usize = 0;
            while d < detected.len()
                invariant
                    d <= detected@.len(),
                    c < cfgs@.len(),
                    *cfg == cfgs@[c as int],
                    claimed@.len() == detected@.len(),
                    claimed@ == offer_all(st0, c as int, *cfg, detected@, d as nat).claimed,
                    zones@.map_values(|z: ResolvedZone| placement_of(z)) == offer_all(st0, c as int, *cfg, detected@, d as nat).zones,
                    forall|i: int| 0 <= i < zones@.len() ==> (#[trigger] zones@[i]).last_frame@.len() == 0,
                    resizes@ == offer_all(st0, c as int, *cfg, detected@, d as nat).resizes,
                decreases detected.len() - d,
            {
                let det = &detected[d];
                if !claimed[d] && crate::zones::matches(cfg, det) {
                    claimed.set(d, true);
                    let want = cfg.effective_leds();
                    let mut leds = det.leds;
                    if want > 0 && det.resizable && want != det.leds && det.zone_idx >= 0 {
                        let fits = det.max_leds == 0 || want <= det.max_leds;
                        if fits {
                            resizes.push(Resize { device: det.device_idx, zone: det.zone_idx as u32, leds: want });
                            leds = want;
                        }
                    } else if want > 0 && !det.resizable {
                        let cap = if det.leds > 1 { det.leds } else { 1 };
                        leds = if want < cap { want } else { cap };
                    }
                    if leds != 0 {
                        zones.push(ResolvedZone {
                            device: det.device_idx,
                            zone_idx: det.zone_idx,
                            leds,
                            cfg: c,
                            last_frame: Vec::new(),
                        });
                    }
                }
                d = d + 1;
                assert(zones@.map_values(|z: ResolvedZone| placement_of(z))
                    =~= offer_all(st0, c as int, *cfg, detected@, d as nat).zones);
            }
        }
        c = c + 1;
    }
    let mut devices: Vec<u32> = Vec::new();
    let mut i: usize = 0;
    while i < zones.len()
        invariant
            i <= zones@.len(),
            forall|a: int, b: int| 0 <= a < b < devices@.len() ==> devices@[a] < devices@[b],
            forall|x: u32| devices@.contains(x) <==> exists|k: int| 0 <= k < i && (#[trigger] zones@[k]).device == x,
        decreases zones.len() - i,
    {
        let ghost before = devices@;
        insert_sorted(&mut devices, zones[i].device);
        assert forall|x: u32| devices@.contains(x) <==> exists|k: int| 0 <= k < i + 1 && (#[trigger] zones@[k]).device == x by {
            if x == zones@[i as int].device {
                assert(zones@[i as int].device == x);
            }
            if exists|k: int| 0 <= k < i + 1 && (#[trigger] zones@[k]).device == x {
                let k = choose|k: int| 0 <= k < i + 1 && (#[trigger] zones@[k]).device == x;
                if k < i {
                    assert(before.contains(x));
                }
            }
        }
        i = i + 1;
    }
    let ghost pz = zones@.map_values(|z: ResolvedZone| placement_of(z));
    assert forall|x: u32| devices@.contains(x) <==> exists|k: int| 0 <= k < pz.len() && (#[trigger] pz[k]).device == x by {
        if exists|k: int| 0 <= k < pz.len() && (#[trigger] pz[k]).device == x {
            let k = choose|k: int| 0 <= k < pz.len() && (#[trigger] pz[k]).device == x;
            assert(zones@[k].device == x);
        }
        if devices@.contains(x) {
            let k = choose|k: int| 0 <= k < zones@.len() && (#[trigger] zones@[k]).device == x;
            assert(pz[k].device == x);
        }
    }
    Plan { map: RenderMap { zones, direct_modes: Vec::new() }, resizes, devices }
}


/// A placement renders an enabled entry on a detected zone that entry
/// matches, with at least one LED.
pub open spec fn placement_sound(cfgs: Seq<ZoneConfig>, dets: Seq<DetectedZone>, p: Placement) -> bool {
    &&& 0 <= p.cfg < cfgs.len()
    &&& cfgs[p.cfg].enabled
    &&& p.leds > 0
    &&& exists|j: int| 0 <= j < dets.len() && #[trigger] matches_spec(cfgs[p.cfg], dets[j])
        && dets[j].device_idx == p.device && dets[j].zone_idx == p.zone_idx
}

proof fn offer_all_sound(st: PlanState, c: int, cfgs: Seq<ZoneConfig>, dets: Seq<DetectedZone>, n: nat)
    requires
        0 <= c < cfgs.len(),
        cfgs[c].enabled,
        n <= dets.len(),
        forall|k: int| 0 <= k < st.zones.len() ==> placement_sound(cfgs, dets, #[trigger] st.zones[k]),
    ensures
        forall|k: int| 0 <= k < offer_all(st, c, cfgs[c], dets, n).zones.len()
            ==> placement_sound(cfgs, dets, #[trigger] offer_all(st, c, cfgs[c], dets, n).zones[k]),
    decreases n,
{
    if n > 0 {
        offer_all_sound(st, c, cfgs, dets, (n - 1) as nat);
        let prev = offer_all(st, c, cfgs[c], dets, (n - 1) as nat);
        let d = n - 1;
        let next = offer(prev, c, cfgs[c], d, dets[d]);
        assert forall|k: int| 0 <= k < next.zones.len() implies placement_sound(cfgs, dets, #[trigger] next.zones[k]) by {
            if k < prev.zones.len() {
                assert(next.zones[k] == prev.zones[k]);
            } else {
                assert(matches_spec(cfgs[c], dets[d]));
            }
        }
    }
}

proof fn plan_upto_sound(cfgs: Seq<ZoneConfig>, dets: Seq<DetectedZone>, n: nat)
    requires
        n <= cfgs.len(),
    ensures
        forall|k: int| 0 <= k < plan_upto(cfgs, dets, n).zones.len()
            ==> placement_sound(cfgs, dets, #[trigger] plan_upto(cfgs, dets, n).zones[k]),
    decreases n,
{
    if n > 0 {
        plan_upto_sound(cfgs, dets, (n - 1) as nat);
        let prev = plan_upto(cfgs, dets, (n - 1) as nat);
        let c: int = n - 1;
        if cfgs[c].enabled {
            offer_all_sound(prev, c, cfgs, dets, dets.len());
            assert(plan_upto(cfgs, dets, n) == offer_all(prev, c, cfgs[c], dets, dets.len()));
        } else {
            assert(plan_upto(cfgs, dets, n) == prev);
        }
    }
}

/// The daemon renders only what the user switched on: every placed zone
/// belongs to an enabled entry, sits on a detected zone that entry matches
/// and has at least one LED.
pub proof fn placements_are_sound(cfgs: Seq<ZoneConfig>, dets: Seq<DetectedZone>)
    ensures
        forall|k: int| 0 <= k < plan(cfgs, dets).zones.len()
            ==> placement_sound(cfgs, dets, #[trigger] plan(cfgs, dets).zones[k]),
{
    plan_upto_sound(cfgs, dets, cfgs.len());
}

} // verus!

verus! {

/// The mode index to re-assert on a device the map drives in mode
/// `expected`, given its current description: none while the device is still
/// in that mode; otherwise its direct-control mode, when it has one.
pub fn mode_to_reassert(expected: u32, info: &ControllerInfo) -> (r: Option<u32>)
    ensures
        info.active_mode == i32_of_bits(expected) ==> r is None,
        info.active_mode != i32_of_bits(expected) ==> match direct_mode_index(info@.modes) {
            None => r is None,
            Some(i) => r == Some(wrap32(i as nat)),
        },
{
    if info.active_mode == crate::wire::i32_from_bits(expected) {
        return None;
    }
    match info.direct_mode() {
        Some((idx, _)) => Some(idx),
        None => None,
    }
}

/// Two frames hold the same colors, LED by LED.
pub open spec fn same_frame(a: Seq<[u8; 3]>, b: Seq<[u8; 3]>) -> bool {
    a.len() == b.len() && forall|i: int| 0 <= i < a.len() ==> (#[trigger] a[i])@ == b[i]@
}

/// How a rendered frame reaches the hardware.
#[derive(Debug, Clone, Copy, PartialEq, Eq, Structural)]
pub enum FrameAction {
    /// Unchanged since the last frame sent: no traffic at all.
    Skip,
    /// UPDATEZONELEDS for this zone index.
    UpdateZone(u32),
    /// UPDATELEDS for the whole device.
    UpdateLeds,
}

impl ResolvedZone {
    /// A rendered frame differs from the last one sent (only then is it sent).
    pub fn frame_changed(&self, frame: &Vec<[u8; 3]>) -> (r: bool)
        ensures
            r == !same_frame(frame@, self.last_frame@),
    {
        if frame.len() != self.last_frame.len() {
            return true;
        }
        let mut i: usize = 0;
        while i < frame.len()
            invariant
                frame@.len() == self.last_frame@.len(),
                i <= frame@.len(),
                forall|k: int| 0 <= k < i ==> (#[trigger] frame@[k])@ == self.last_frame@[k]@,
            decreases frame.len() - i,
        {
            let a = frame[i];
            let b = self.last_frame[i];
            if a[0] != b[0] || a[1] != b[1] || a[2] != b[2] {
                assert(a@[0] != b@[0] || a@[1] != b@[1] || a@[2] != b@[2]);
                return true;
            }
            assert(a@ =~= b@);
            i = i + 1;
        }
        false
    }

    /// What to do with a freshly rendered frame: nothing when it equals the
    /// last one sent, else send it to the zone, or to the whole device for
    /// whole-device entries.
    pub fn frame_action(&self, frame: &Vec<[u8; 3]>) -> (a: FrameAction)
        ensures
            a == (if same_frame(frame@, self.last_frame@) {
                FrameAction::Skip
            } else if self.zone_idx >= 0 {
                FrameAction::UpdateZone(self.zone_idx as u32)
            } else {
                FrameAction::UpdateLeds
            }),
    {
        if !self.frame_changed(frame) {
            FrameAction::Skip
        } else if self.zone_idx >= 0 {
            FrameAction::UpdateZone(self.zone_idx as u32)
        } else {
            FrameAction::UpdateLeds
        }
    }

    /// Remember a frame as the last one sent.
    pub fn remember_frame(&mut self, frame: Vec<[u8; 3]>)
        ensures
            final(self).last_frame@ == frame@,
            final(self).device == old(self).device,
            final(self).zone_idx == old(self).zone_idx,
            final(self).leds == old(self).leds,
            final(self).cfg == old(self).cfg,
    {
        self.last_frame = frame;
    }
}

/// How many stale reads in a row make the renderer drop its view of the
/// sensor memory and reopen it later.
pub const MAX_STALE_READS: u32 = 50;

/// Health of the sensor shared-memory view: consecutive stale reads.
#[derive(Debug, Clone, Copy, PartialEq, Eq, Structural)]
pub struct SensorHealth {
    pub stale_reads: u32,
}

impl SensorHealth {
    pub fn new() -> (h: SensorHealth)
        ensures
            h.stale_reads == 0,
    {
        SensorHealth { stale_reads: 0 }
    }

    /// A fresh reading arrived: the stale streak ends.
    pub fn on_fresh(&mut self)
        ensures
            final(self).stale_reads == 0,
    {
        self.stale_reads = 0;
    }

    /// A stale reading arrived. Returns true when this makes more than
    /// [`MAX_STALE_READS`] in a row — the view should then be dropped so a
    /// clean reopen is tried — and the streak starts over.
    pub fn on_stale(&mut self) -> (drop_view: bool)
        ensures
            drop_view == (old(self).stale_reads >= MAX_STALE_READS),
            drop_view ==> final(self).stale_reads == 0,
            !drop_view ==> final(self).stale_reads == old(self).stale_reads + 1,
    {
        if self.stale_reads >= MAX_STALE_READS {
            self.stale_reads = 0;
            true
        } else {
            self.stale_reads = self.stale_reads + 1;
            false
        }
    }
}

} // verus!
