//! State of one device and the dispatch of the frames it sends.
//!
//! The runtime owns the socket and the tasks; this value holds what the
//! frames say (battery, noise control, ear detection, name, feature flags)
//! and the battery tracker, and decides which events each frame raises.

use vstd::prelude::*;
use crate::address::{address_text, address_value, Address};
use crate::error::AirPodsError;
use crate::event::AirPodsEvent;
use crate::history::Sample;
use crate::parser::{
    battery_frame, ear_frame, metadata_frame, noise_frame, parse_battery_status, parse_ear_detection,
    parse_metadata, parse_noise_mode,
};
use crate::protocol::{
    build_control_packet, control_frame, has_prefix, hdr_ack_features, hdr_ack_handshake, hdr_battery_state,
    hdr_ear_detection, hdr_metadata, hdr_noise_ctl, hdr_ack_features_bytes, hdr_ack_handshake_bytes,
    hdr_battery_state_bytes, hdr_ear_detection_bytes, hdr_metadata_bytes, hdr_noise_ctl_bytes, mode_value,
    parse_feature_frame, starts_with, BatteryInfo, EarDetectionStatus, FeatureCmd, FeatureId, NoiseControlMode,
    NOISE_CONTROL_ID,
};
use crate::study::DeviceStudy;
use crate::history::keep_last;
use crate::tracker::{bud_record, local_rate, BatteryTracker, DEFAULT_DRAIN_RATE, KEEP_COUNT, MIN_LOCAL_SAMPLES};

verus! {

/// Values of a state slot that can be compared.
pub trait SameValue: Sized {
    fn same(&self, other: &Self) -> (r: bool)
        ensures
            r == (*self == *other);
}

impl SameValue for BatteryInfo {
    fn same(&self, other: &Self) -> (r: bool) {
        *self == *other
    }
}

impl SameValue for NoiseControlMode {
    fn same(&self, other: &Self) -> (r: bool) {
        *self == *other
    }
}

impl SameValue for EarDetectionStatus {
    fn same(&self, other: &Self) -> (r: bool) {
        *self == *other
    }
}

/// What an update of a state slot did.
#[derive(Debug, Clone, Copy)]
pub enum UpdateOp<T> {
    /// Nothing changed.
    Noop,
    /// A value appeared.
    Inserted,
    /// The value went away; it was this.
    Deleted(T),
    /// The value changed; it was this.
    Updated(T),
}

pub open spec fn update_op<T>(prev: Option<T>, new: Option<T>) -> UpdateOp<T> {
    match (prev, new) {
        (Some(p), Some(n)) => if p == n { UpdateOp::Noop } else { UpdateOp::Updated(p) },
        (None, Some(_)) => UpdateOp::Inserted,
        (Some(p), None) => UpdateOp::Deleted(p),
        (None, None) => UpdateOp::Noop,
    }
}

impl<T: SameValue + Copy> UpdateOp<T> {
    pub fn new(prev: Option<T>, new: Option<T>) -> (r: UpdateOp<T>)
        ensures
            r == update_op(prev, new),
    {
        match (prev, new) {
            (Some(p), Some(n)) => if p.same(&n) { UpdateOp::Noop } else { UpdateOp::Updated(p) },
            (None, Some(_)) => UpdateOp::Inserted,
            (Some(p), None) => UpdateOp::Deleted(p),
            (None, None) => UpdateOp::Noop,
        }
    }
}

impl<T> UpdateOp<T> {
    /// A value appeared or changed.
    pub fn is_updated(&self) -> (r: bool)
        ensures
            r == (self is Inserted || self is Updated),
    {
        match self {
            UpdateOp::Inserted => true,
            UpdateOp::Updated(_) => true,
            _ => false,
        }
    }
}

/// Bit `b` of `w`.
pub open spec fn bit(w: u64, b: u64) -> bool {
    (w >> b) & 1 == 1
}

proof fn lemma_test_bit(w: u64, b: u64)
    requires
        b < 64,
    ensures
        ((w & (1u64 << b)) != 0) == bit(w, b),
{
    assert(((w & (1u64 << b)) != 0) == ((w >> b) & 1 == 1)) by (bit_vector)
        requires b < 64;
}

proof fn lemma_set_bit(w: u64, b: u64, c: u64)
    requires
        b < 64,
        c < 64,
    ensures
        bit(w | (1u64 << b), b),
        !bit(w & !(1u64 << b), b),
        c != b ==> bit(w | (1u64 << b), c) == bit(w, c),
        c != b ==> bit(w & !(1u64 << b), c) == bit(w, c),
{
    assert(((w | (1u64 << b)) >> b) & 1 == 1) by (bit_vector)
        requires b < 64;
    assert(((w & !(1u64 << b)) >> b) & 1 == 0) by (bit_vector)
        requires b < 64;
    assert(c != b ==> (((w | (1u64 << b)) >> c) & 1 == 1) == ((w >> c) & 1 == 1)) by (bit_vector)
        requires b < 64, c < 64;
    assert(c != b ==> (((w & !(1u64 << b)) >> c) & 1 == 1) == ((w >> c) & 1 == 1)) by (bit_vector)
        requires b < 64, c < 64;
}

/// A set of feature ids, one bit each.
#[derive(Debug, Clone, Copy)]
pub struct FeatureBitmap {
    pub words: [u64; 4],
}

impl FeatureBitmap {
    pub open spec fn has(self, id: u8) -> bool {
        bit(self.words@[(id / 64) as int], (id % 64) as u64)
    }

    pub fn new() -> (r: FeatureBitmap)
        ensures
            forall|id: u8| !r.has(id),
    {
        let r = FeatureBitmap { words: [0u64; 4] };
        assert forall|id: u8| !r.has(id) by {
            let b = (id % 64) as u64;
            assert(r.words@[(id / 64) as int] == 0);
            assert((0u64 >> b) & 1 == 0) by (bit_vector);
        }
        r
    }

    pub fn get(&self, feature: FeatureId) -> (r: bool)
        ensures
            r == self.has(feature.id),
    {
        let (idx, mask) = feature.bitpos();
        proof {
            vstd::bits::lemma_u64_pow2_no_overflow((feature.id % 64) as nat);
            vstd::bits::lemma_u64_shl_is_mul(1, (feature.id % 64) as u64);
            lemma_test_bit(self.words@[idx as int], (feature.id % 64) as u64);
        }
        self.words[idx] & mask != 0
    }

    /// Sets one flag; returns its previous value.
    pub fn set(&mut self, feature: FeatureId, value: bool) -> (r: bool)
        ensures
            r == old(self).has(feature.id),
            final(self).has(feature.id) == value,
            forall|id: u8| id != feature.id ==> final(self).has(id) == old(self).has(id),
    {
        let prev = self.get(feature);
        let (idx, mask) = feature.bitpos();
        let b: u64 = (feature.id % 64) as u64;
        proof {
            vstd::bits::lemma_u64_pow2_no_overflow(b as nat);
            vstd::bits::lemma_u64_shl_is_mul(1, b);
        }
        let w = self.words[idx];
        let nw: u64 = if value { w | mask } else { w & !mask };
        self.words[idx] = nw;
        proof {
            lemma_set_bit(w, b, b);
            assert forall|id: u8| id != feature.id implies self.has(id) == old(self).has(id) by {
                let c = (id % 64) as u64;
                if id / 64 == feature.id / 64 {
                    lemma_set_bit(w, b, c);
                    assert(c != b);
                } else {
                    assert(self.words@[(id / 64) as int] == old(self).words@[(id / 64) as int]);
                }
            }
        }
        prev
    }
}

/// Ids of `present` below `n`, with their flag in `enabled`, ascending.
pub open spec fn feature_list(present: FeatureBitmap, enabled: FeatureBitmap, n: int) -> Seq<(FeatureId, bool)>
    decreases n,
{
    if n <= 0 {
        Seq::empty()
    } else {
        let id = (n - 1) as u8;
        feature_list(present, enabled, n - 1) + if present.has(id) {
            seq![(FeatureId { id }, enabled.has(id))]
        } else {
            Seq::empty()
        }
    }
}

/// State of one device.
#[derive(Debug)]
pub struct AirPods {
    pub address: Address,
    pub name: String,
    /// A session is open and the transport reports the peer connected.
    pub connected: bool,
    pub battery: Option<BatteryInfo>,
    pub noise_mode: Option<NoiseControlMode>,
    pub ear_detection: Option<EarDetectionStatus>,
    /// Flags that are on.
    pub features: FeatureBitmap,
    /// Flags seen in this session.
    pub features_present: FeatureBitmap,
    pub tracker: BatteryTracker,
}

impl AirPods {
    /// The tracker is well formed and every enabled feature is present.
    pub open spec fn wf(&self) -> bool {
        &&& self.tracker.wf()
        &&& forall|id: u8| self.features.has(id) ==> self.features_present.has(id)
    }

    pub fn new(address: Address, name: String) -> (r: AirPods)
        ensures
            r.wf(),
            r.address == address,
            r.name == name,
            !r.connected,
            r.battery is None,
            r.noise_mode is None,
            r.ear_detection is None,
            forall|id: u8| !r.features_present.has(id),
            r.tracker.left_history@ == Seq::<Sample>::empty(),
            r.tracker.right_history@ == Seq::<Sample>::empty(),
    {
        AirPods {
            address,
            name,
            connected: false,
            battery: None,
            noise_mode: None,
            ear_detection: None,
            features: FeatureBitmap::new(),
            features_present: FeatureBitmap::new(),
            tracker: BatteryTracker::new(),
        }
    }

    pub fn address(&self) -> (r: Address)
        ensures
            r == self.address,
    {
        self.address
    }

    /// The address as text.
    pub fn address_str(&self) -> (r: String)
        requires
            self.address.value < 0x1_0000_0000_0000,
        ensures
            exists|b: Seq<u8>| b.len() == 6 && address_value(b) == self.address.value && r@ == address_text(b),
    {
        self.address.to_text()
    }

    pub fn name(&self) -> (r: &String)
        ensures
            r == self.name,
    {
        &self.name
    }

    /// Replaces the name; reports the previous one if it differs.
    pub fn update_name(&mut self, name: String) -> (r: UpdateOp<String>)
        ensures
            old(self).name@ == name@ ==> r is Noop && final(self).name == old(self).name,
            old(self).name@ != name@ ==> r == UpdateOp::Updated(old(self).name) && final(self).name == name,
            final(self).battery == old(self).battery,
            final(self).noise_mode == old(self).noise_mode,
            final(self).ear_detection == old(self).ear_detection,
            final(self).features == old(self).features,
            final(self).features_present == old(self).features_present,
            final(self).tracker == old(self).tracker,
            final(self).connected == old(self).connected,
            final(self).address == old(self).address,
    {
        if self.name.eq(&name) {
            return UpdateOp::Noop;
        }
        let mut prev = name;
        std::mem::swap(&mut self.name, &mut prev);
        UpdateOp::Updated(prev)
    }

    pub fn battery_info(&self) -> (r: Option<BatteryInfo>)
        ensures
            r == self.battery,
    {
        self.battery
    }

    pub fn update_battery_info(&mut self, battery: Option<BatteryInfo>) -> (r: UpdateOp<BatteryInfo>)
        ensures
            r == update_op(old(self).battery, battery),
            final(self).battery == battery,
            final(self).name == old(self).name,
            final(self).noise_mode == old(self).noise_mode,
            final(self).ear_detection == old(self).ear_detection,
            final(self).features == old(self).features,
            final(self).features_present == old(self).features_present,
            final(self).tracker == old(self).tracker,
            final(self).connected == old(self).connected,
            final(self).address == old(self).address,
    {
        let r = UpdateOp::new(self.battery, battery);
        self.battery = battery;
        r
    }

    pub fn is_connected(&self) -> (r: bool)
        ensures
            r == self.connected,
    {
        self.connected
    }

    pub fn set_connected(&mut self, connected: bool)
        ensures
            final(self).connected == connected,
            final(self).name == old(self).name,
            final(self).battery == old(self).battery,
            final(self).noise_mode == old(self).noise_mode,
            final(self).ear_detection == old(self).ear_detection,
            final(self).features == old(self).features,
            final(self).features_present == old(self).features_present,
            final(self).tracker == old(self).tracker,
            final(self).address == old(self).address,
    {
        self.connected = connected;
    }

    pub fn ear_detection(&self) -> (r: Option<EarDetectionStatus>)
        ensures
            r == self.ear_detection,
    {
        self.ear_detection
    }

    pub fn update_ear_detection(&mut self, status: Option<EarDetectionStatus>) -> (r: UpdateOp<EarDetectionStatus>)
        ensures
            r == update_op(old(self).ear_detection, status),
            final(self).ear_detection == status,
            final(self).name == old(self).name,
            final(self).battery == old(self).battery,
            final(self).noise_mode == old(self).noise_mode,
            final(self).features == old(self).features,
            final(self).features_present == old(self).features_present,
            final(self).tracker == old(self).tracker,
            final(self).connected == old(self).connected,
            final(self).address == old(self).address,
    {
        let r = UpdateOp::new(self.ear_detection, status);
        self.ear_detection = status;
        r
    }

    pub fn noise_mode(&self) -> (r: Option<NoiseControlMode>)
        ensures
            r == self.noise_mode,
    {
        self.noise_mode
    }

    pub fn update_noise_mode(&mut self, mode: Option<NoiseControlMode>) -> (r: UpdateOp<NoiseControlMode>)
        ensures
            r == update_op(old(self).noise_mode, mode),
            final(self).noise_mode == mode,
            final(self).name == old(self).name,
            final(self).battery == old(self).battery,
            final(self).ear_detection == old(self).ear_detection,
            final(self).features == old(self).features,
            final(self).features_present == old(self).features_present,
            final(self).tracker == old(self).tracker,
            final(self).connected == old(self).connected,
            final(self).address == old(self).address,
    {
        let r = UpdateOp::new(self.noise_mode, mode);
        self.noise_mode = mode;
        r
    }

    pub fn feature_enabled(&self, feature: FeatureId) -> (r: bool)
        ensures
            r == self.features.has(feature.id),
    {
        self.features.get(feature)
    }

    /// Marks a feature present and sets whether it is on; returns whether
    /// it was on.
    pub fn set_feature_enabled(&mut self, feature: FeatureId, enabled: bool) -> (r: bool)
        requires
            old(self).wf(),
        ensures
            final(self).wf(),
            r == old(self).features.has(feature.id),
            final(self).features.has(feature.id) == enabled,
            final(self).features_present.has(feature.id),
            forall|id: u8| id != feature.id ==> final(self).features.has(id) == old(self).features.has(id)
                && final(self).features_present.has(id) == old(self).features_present.has(id),
            final(self).name == old(self).name,
            final(self).battery == old(self).battery,
            final(self).noise_mode == old(self).noise_mode,
            final(self).ear_detection == old(self).ear_detection,
            final(self).tracker == old(self).tracker,
            final(self).connected == old(self).connected,
            final(self).address == old(self).address,
    {
        self.features_present.set(feature, true);
        self.features.set(feature, enabled)
    }

    /// Every present feature with whether it is on, by ascending id.
    pub fn features(&self) -> (r: Vec<(FeatureId, bool)>)
        ensures
            r@ == feature_list(self.features_present, self.features, 256),
    {
        let mut r: Vec<(FeatureId, bool)> = Vec::new();
        let mut i: u32 = 0;
        while i < 256
            invariant
                i <= 256,
                r@ == feature_list(self.features_present, self.features, i as int),
            decreases 256 - i,
        {
            let f = FeatureId::from_id(i as u8);
            if self.features_present.get(f) {
                r.push((f, self.features.get(f)));
            }
            assert(r@ =~= feature_list(self.features_present, self.features, i as int + 1));
            i = i + 1;
        }
        r
    }

    /// A session must be open for a command.
    pub fn require_session(&self) -> (r: Result<(), AirPodsError>)
        ensures
            self.connected ==> r is Ok,
            !self.connected ==> r == Err::<(), AirPodsError>(AirPodsError::DeviceNotConnected),
    {
        if self.connected { Ok(()) } else { Err(AirPodsError::DeviceNotConnected) }
    }

    /// Frame that selects a noise control mode.
    pub fn noise_control_command(&self, mode: NoiseControlMode) -> (r: Result<Vec<u8>, AirPodsError>)
        ensures
            !self.connected ==> r matches Err(AirPodsError::DeviceNotConnected),
            self.connected ==> (r matches Ok(p) && p@ == control_frame(
                NOISE_CONTROL_ID,
                seq![mode_value(mode) as u8, 0u8, 0u8, 0u8],
            )),
    {
        if !self.connected {
            return Err(AirPodsError::DeviceNotConnected);
        }
        let v = mode.repr() as u8;
        let p = build_control_packet(NOISE_CONTROL_ID, [v, 0, 0, 0]);
        assert([v, 0u8, 0u8, 0u8]@ =~= seq![mode_value(mode) as u8, 0u8, 0u8, 0u8]);
        Ok(p)
    }

    /// Frame that turns a feature on or off.
    pub fn feature_command(&self, feature: FeatureId, enabled: bool) -> (r: Result<Vec<u8>, AirPodsError>)
        ensures
            !self.connected ==> r matches Err(AirPodsError::DeviceNotConnected),
            self.connected ==> (r matches Ok(p) && p@ == control_frame(
                feature.id,
                seq![if enabled { 1u8 } else { 2u8 }, 0u8, 0u8, 0u8],
            )),
    {
        if !self.connected {
            return Err(AirPodsError::DeviceNotConnected);
        }
        let cmd = if enabled { FeatureCmd::Enable } else { FeatureCmd::Disable };
        Ok(cmd.build(feature.id()))
    }
}


/// The fields of a device other than the battery slot and tracker are as
/// before.
pub open spec fn same_but_battery(a: AirPods, b: AirPods) -> bool {
    &&& a.address == b.address && a.name == b.name && a.connected == b.connected
    &&& a.noise_mode == b.noise_mode && a.ear_detection == b.ear_detection
    &&& a.features == b.features && a.features_present == b.features_present
}

/// Batch that ending a save period hands to the store: the local rate and
/// its bud's sample count, under the current mode (`Off` when unknown).
pub open spec fn save_batch(d: AirPods, now: u32) -> Option<(NoiseControlMode, u64, u32)> {
    match local_rate(d.tracker.left_history@, d.tracker.right_history@, now) {
        Some((rate, _, n)) => if n >= MIN_LOCAL_SAMPLES {
            Some((match d.noise_mode { Some(x) => x, None => NoiseControlMode::Off }, rate, n as u32))
        } else {
            None
        },
        None => None,
    }
}

/// Nothing observable changed.
pub open spec fn unchanged(a: AirPods, b: AirPods) -> bool {
    same_but_battery(a, b) && a.battery == b.battery && a.tracker == b.tracker
}

impl AirPods {
    /// Applies one received frame and returns the events it raises, trying
    /// in order: battery, noise control, ear detection, metadata, the two
    /// acknowledgements, and feature commands. A frame that does not parse,
    /// or that repeats the current value, changes nothing and raises
    /// nothing. A new battery reading is also recorded by the tracker at
    /// `now`.
    pub fn process_packet(&mut self, packet: &[u8], now: u32) -> (r: Vec<AirPodsEvent>)
        requires
            old(self).wf(),
        ensures
            final(self).wf(),
            has_prefix(packet@, hdr_battery_state()) ==> match battery_frame(packet@) {
                Ok(b) => if old(self).battery == Some(b) {
                    unchanged(*final(self), *old(self)) && r@.len() == 0
                } else {
                    &&& same_but_battery(*final(self), *old(self))
                    &&& final(self).battery == Some(b)
                    &&& final(self).tracker.left_history@ == bud_record(old(self).tracker.left_history@, b.left, now)
                    &&& final(self).tracker.right_history@ == bud_record(old(self).tracker.right_history@, b.right, now)
                    &&& final(self).tracker.cache == old(self).tracker.cache
                    &&& final(self).tracker.last_ttl_estimate == old(self).tracker.last_ttl_estimate
                    &&& r@ == seq![AirPodsEvent::BatteryUpdated(b)]
                },
                Err(_) => unchanged(*final(self), *old(self)) && r@.len() == 0,
            },
            !has_prefix(packet@, hdr_battery_state()) && has_prefix(packet@, hdr_noise_ctl()) ==> match noise_frame(packet@) {
                Ok(m) => if old(self).noise_mode == Some(m) {
                    unchanged(*final(self), *old(self)) && r@.len() == 0
                } else {
                    &&& final(self).noise_mode == Some(m)
                    &&& final(self).battery == old(self).battery && final(self).tracker == old(self).tracker
                    &&& final(self).name == old(self).name && final(self).ear_detection == old(self).ear_detection
                    &&& final(self).features == old(self).features && final(self).features_present == old(self).features_present
                    &&& final(self).connected == old(self).connected && final(self).address == old(self).address
                    &&& r@ == seq![AirPodsEvent::NoiseControlChanged(m)]
                },
                Err(_) => unchanged(*final(self), *old(self)) && r@.len() == 0,
            },
            !has_prefix(packet@, hdr_battery_state()) && !has_prefix(packet@, hdr_noise_ctl()) && has_prefix(
                packet@,
                hdr_ear_detection(),
            ) ==> match ear_frame(packet@) {
                Ok(e) => if old(self).ear_detection == Some(e) {
                    unchanged(*final(self), *old(self)) && r@.len() == 0
                } else {
                    &&& final(self).ear_detection == Some(e)
                    &&& final(self).battery == old(self).battery && final(self).tracker == old(self).tracker
                    &&& final(self).name == old(self).name && final(self).noise_mode == old(self).noise_mode
                    &&& final(self).features == old(self).features && final(self).features_present == old(self).features_present
                    &&& final(self).connected == old(self).connected && final(self).address == old(self).address
                    &&& r@ == seq![AirPodsEvent::EarDetectionChanged(e)]
                },
                Err(_) => unchanged(*final(self), *old(self)) && r@.len() == 0,
            },
            !has_prefix(packet@, hdr_battery_state()) && !has_prefix(packet@, hdr_noise_ctl()) && !has_prefix(
                packet@,
                hdr_ear_detection(),
            ) && has_prefix(packet@, hdr_metadata()) ==> match metadata_frame(packet@) {
                Ok(Some(n)) => if old(self).name@ == n {
                    unchanged(*final(self), *old(self)) && r@.len() == 0
                } else {
                    &&& final(self).name@ == n
                    &&& final(self).battery == old(self).battery && final(self).tracker == old(self).tracker
                    &&& final(self).noise_mode == old(self).noise_mode && final(self).ear_detection == old(self).ear_detection
                    &&& final(self).features == old(self).features && final(self).features_present == old(self).features_present
                    &&& final(self).connected == old(self).connected && final(self).address == old(self).address
                    &&& r@.len() == 1
                    &&& (r@[0] matches AirPodsEvent::DeviceNameChanged(t) && t@ == n)
                },
                _ => unchanged(*final(self), *old(self)) && r@.len() == 0,
            },
            !has_prefix(packet@, hdr_battery_state()) && !has_prefix(packet@, hdr_noise_ctl()) && !has_prefix(
                packet@,
                hdr_ear_detection(),
            ) && !has_prefix(packet@, hdr_metadata()) ==> r@.len() == 0 && final(self).battery == old(self).battery
                && final(self).tracker == old(self).tracker && final(self).name == old(self).name
                && final(self).noise_mode == old(self).noise_mode && final(self).ear_detection == old(self).ear_detection
                && final(self).connected == old(self).connected && final(self).address == old(self).address && (
                match (if !has_prefix(packet@, hdr_ack_handshake()) && !has_prefix(packet@, hdr_ack_features()) {
                    parse_feature_frame(packet@)
                } else {
                    None
                }) {
                    Some((f, c)) => if c is Query {
                        final(self).features == old(self).features && final(self).features_present == old(self).features_present
                    } else {
                        &&& final(self).features.has(f.id) == (c is Enable)
                        &&& final(self).features_present.has(f.id)
                        &&& forall|id: u8| id != f.id ==> final(self).features.has(id) == old(self).features.has(id)
                            && final(self).features_present.has(id) == old(self).features_present.has(id)
                    },
                    None => final(self).features == old(self).features && final(self).features_present
                        == old(self).features_present,
                }),
    {
        let mut events: Vec<AirPodsEvent> = Vec::new();
        if starts_with(packet, hdr_battery_state_bytes().as_slice()) {
            match parse_battery_status(packet) {
                Ok(b) => {
                    let op = self.update_battery_info(Some(b));
                    if op.is_updated() {
                        self.tracker.record_battery_drop(b.left, b.right, now);
                        events.push(AirPodsEvent::BatteryUpdated(b));
                        assert(events@ =~= seq![AirPodsEvent::BatteryUpdated(b)]);
                    }
                },
                Err(_) => {},
            }
        } else if starts_with(packet, hdr_noise_ctl_bytes().as_slice()) {
            match parse_noise_mode(packet) {
                Ok(m) => {
                    if self.update_noise_mode(Some(m)).is_updated() {
                        events.push(AirPodsEvent::NoiseControlChanged(m));
                        assert(events@ =~= seq![AirPodsEvent::NoiseControlChanged(m)]);
                    }
                },
                Err(_) => {},
            }
        } else if starts_with(packet, hdr_ear_detection_bytes().as_slice()) {
            match parse_ear_detection(packet) {
                Ok(e) => {
                    if self.update_ear_detection(Some(e)).is_updated() {
                        events.push(AirPodsEvent::EarDetectionChanged(e));
                        assert(events@ =~= seq![AirPodsEvent::EarDetectionChanged(e)]);
                    }
                },
                Err(_) => {},
            }
        } else if starts_with(packet, hdr_metadata_bytes().as_slice()) {
            match parse_metadata(packet) {
                Ok(meta) => match meta.name_candidate {
                    Some(n) => {
                        let copy = n.clone();
                        if self.update_name(n).is_updated() {
                            events.push(AirPodsEvent::DeviceNameChanged(copy));
                        }
                    },
                    None => {},
                },
                Err(_) => {},
            }
        } else if starts_with(packet, hdr_ack_handshake_bytes().as_slice()) {
        } else if starts_with(packet, hdr_ack_features_bytes().as_slice()) {
        } else {
            match FeatureCmd::parse(packet) {
                Some((f, FeatureCmd::Enable)) => {
                    self.set_feature_enabled(f, true);
                },
                Some((f, FeatureCmd::Disable)) => {
                    self.set_feature_enabled(f, false);
                },
                _ => {},
            }
        }
        events
    }

    /// Estimated minutes of battery left: the tracker's estimate, or, when
    /// it has none, the lower bud's level at the default drain rate; none
    /// without a battery reading.
    pub fn estimate_battery_ttl(&mut self, now: u32, study: Option<&DeviceStudy>) -> (r: Option<u32>)
        requires
            old(self).wf(),
        ensures
            final(self).wf(),
            old(self).battery is None ==> r is None,
            old(self).battery matches Some(b) ==> (final(self).tracker.last_ttl_estimate matches Some(t) ==> r == Some(t)),
            old(self).battery matches Some(b) ==> (final(self).tracker.last_ttl_estimate is None ==> r == Some(
                (60 * (if b.left.level < b.right.level { b.left.level } else { b.right.level }) * 1_000_000
                    / DEFAULT_DRAIN_RATE as int) as u32,
            )),
            final(self).battery == old(self).battery,
            final(self).name == old(self).name,
            final(self).noise_mode == old(self).noise_mode,
            final(self).features == old(self).features,
            final(self).features_present == old(self).features_present,
            final(self).connected == old(self).connected,
    {
        let b = match self.battery {
            Some(b) => b,
            None => {
                return None;
            },
        };
        match self.tracker.estimate_ttl(&b, self.noise_mode, now, study) {
            Some(t) => Some(t),
            None => {
                let level: u64 = if b.left.level < b.right.level { b.left.level as u64 } else { b.right.level as u64 };
                Some((60 * level * 1_000_000 / DEFAULT_DRAIN_RATE) as u32)
            },
        }
    }

    /// Whether a periodic save is due now (`interval_minutes` after the
    /// oldest sample), which needs a battery reading.
    pub fn should_save_battery_study(&self, interval_minutes: u32, now: u32) -> (r: bool)
        ensures
            r == (self.battery matches Some(b) && crate::tracker::save_due(
                self.tracker.left_history@,
                self.tracker.right_history@,
                interval_minutes,
                b,
                now,
            )),
    {
        match self.battery {
            Some(b) => self.tracker.should_save(interval_minutes, &b, now),
            None => false,
        }
    }

    /// Ends a save period: the batch to merge into the stored statistics of
    /// the current mode (`Off` when unknown), if any; histories are trimmed.
    pub fn save_battery_study(&mut self, now: u32) -> (r: Option<(NoiseControlMode, u64, u32)>)
        requires
            old(self).wf(),
        ensures
            final(self).wf(),
            r == save_batch(*old(self), now),
            final(self).tracker.left_history@ == keep_last(old(self).tracker.left_history@, KEEP_COUNT as nat),
            final(self).tracker.right_history@ == keep_last(old(self).tracker.right_history@, KEEP_COUNT as nat),
            final(self).battery == old(self).battery,
            final(self).noise_mode == old(self).noise_mode,
            final(self).connected == old(self).connected,
    {
        let mode = match self.noise_mode {
            Some(m) => m,
            None => NoiseControlMode::Off,
        };
        match self.tracker.save_to_study(mode, now) {
            Some((rate, n)) => Some((mode, rate, n)),
            None => None,
        }
    }

    /// Periodic work: while connected, ends a save period when one is due
    /// (five minutes after the oldest sample).
    pub fn tick(&mut self, now: u32) -> (r: Option<(NoiseControlMode, u64, u32)>)
        requires
            old(self).wf(),
        ensures
            final(self).wf(),
            !(old(self).connected && (old(self).battery matches Some(b) && crate::tracker::save_due(
                old(self).tracker.left_history@,
                old(self).tracker.right_history@,
                5,
                b,
                now,
            ))) ==> r is None && final(self).tracker == old(self).tracker,
            (old(self).connected && (old(self).battery matches Some(b) && crate::tracker::save_due(
                old(self).tracker.left_history@,
                old(self).tracker.right_history@,
                5,
                b,
                now,
            ))) ==> r == save_batch(*old(self), now)
                && final(self).tracker.left_history@ == keep_last(old(self).tracker.left_history@, KEEP_COUNT as nat)
                && final(self).tracker.right_history@ == keep_last(old(self).tracker.right_history@, KEEP_COUNT as nat),
    {
        if self.connected && self.should_save_battery_study(5, now) {
            self.save_battery_study(now)
        } else {
            None
        }
    }
}

} // verus!
