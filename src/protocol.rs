//! Wire vocabulary of the accessory control channel: fixed frames, headers,
//! component / status / mode enumerations and the feature command codec.

use vstd::prelude::*;
use vstd::string::StrSliceExecFns;

verus! {

/// Bytes of the outbound handshake frame.
pub open spec fn handshake_frame() -> Seq<u8> {
    seq![0x00u8, 0x00, 0x04, 0x00, 0x01, 0x00, 0x02, 0x00, 0x00, 0x00, 0x00, 0x00, 0x00, 0x00, 0x00, 0x00]
}

/// Bytes of the outbound feature-enable preamble.
pub open spec fn set_features_frame() -> Seq<u8> {
    seq![0x04u8, 0x00, 0x04, 0x00, 0x4d, 0x00, 0xff, 0x00, 0x00, 0x00, 0x00, 0x00, 0x00, 0x00]
}

/// Bytes of the outbound notification subscription.
pub open spec fn request_notify_frame() -> Seq<u8> {
    seq![0x04u8, 0x00, 0x04, 0x00, 0x0f, 0x00, 0xff, 0xff, 0xff, 0xff, 0xff]
}

pub open spec fn hdr_battery_state() -> Seq<u8> {
    seq![0x04u8, 0x00, 0x04, 0x00, 0x04, 0x00]
}

pub open spec fn hdr_noise_ctl() -> Seq<u8> {
    seq![0x04u8, 0x00, 0x04, 0x00, 0x09, 0x00, 0x0d]
}

pub open spec fn hdr_cmd_ctl() -> Seq<u8> {
    seq![0x04u8, 0x00, 0x04, 0x00, 0x09, 0x00]
}

pub open spec fn hdr_ack_handshake() -> Seq<u8> {
    seq![0x01u8, 0x00, 0x04, 0x00]
}

pub open spec fn hdr_ack_features() -> Seq<u8> {
    seq![0x04u8, 0x00, 0x04, 0x00, 0x2b]
}

pub open spec fn hdr_metadata() -> Seq<u8> {
    seq![0x04u8, 0x00, 0x04, 0x00, 0x1d]
}

pub open spec fn hdr_ear_detection() -> Seq<u8> {
    seq![0x04u8, 0x00, 0x04, 0x00, 0x06, 0x00]
}

pub fn pkt_handshake() -> (r: Vec<u8>)
    ensures
        r@ == handshake_frame(),
{
    let r = vec![0x00u8, 0x00, 0x04, 0x00, 0x01, 0x00, 0x02, 0x00, 0x00, 0x00, 0x00, 0x00, 0x00, 0x00, 0x00, 0x00];
    assert(r@ =~= handshake_frame());
    r
}

pub fn pkt_set_features() -> (r: Vec<u8>)
    ensures
        r@ == set_features_frame(),
{
    let r = vec![0x04u8, 0x00, 0x04, 0x00, 0x4d, 0x00, 0xff, 0x00, 0x00, 0x00, 0x00, 0x00, 0x00, 0x00];
    assert(r@ =~= set_features_frame());
    r
}

pub fn pkt_request_notify() -> (r: Vec<u8>)
    ensures
        r@ == request_notify_frame(),
{
    let r = vec![0x04u8, 0x00, 0x04, 0x00, 0x0f, 0x00, 0xff, 0xff, 0xff, 0xff, 0xff];
    assert(r@ =~= request_notify_frame());
    r
}

pub fn hdr_battery_state_bytes() -> (r: Vec<u8>)
    ensures
        r@ == hdr_battery_state(),
{
    let r = vec![0x04u8, 0x00, 0x04, 0x00, 0x04, 0x00];
    assert(r@ =~= hdr_battery_state());
    r
}

pub fn hdr_noise_ctl_bytes() -> (r: Vec<u8>)
    ensures
        r@ == hdr_noise_ctl(),
{
    let r = vec![0x04u8, 0x00, 0x04, 0x00, 0x09, 0x00, 0x0d];
    assert(r@ =~= hdr_noise_ctl());
    r
}

pub fn hdr_cmd_ctl_bytes() -> (r: Vec<u8>)
    ensures
        r@ == hdr_cmd_ctl(),
{
    let r = vec![0x04u8, 0x00, 0x04, 0x00, 0x09, 0x00];
    assert(r@ =~= hdr_cmd_ctl());
    r
}

pub fn hdr_ack_handshake_bytes() -> (r: Vec<u8>)
    ensures
        r@ == hdr_ack_handshake(),
{
    let r = vec![0x01u8, 0x00, 0x04, 0x00];
    assert(r@ =~= hdr_ack_handshake());
    r
}

pub fn hdr_ack_features_bytes() -> (r: Vec<u8>)
    ensures
        r@ == hdr_ack_features(),
{
    let r = vec![0x04u8, 0x00, 0x04, 0x00, 0x2b];
    assert(r@ =~= hdr_ack_features());
    r
}

pub fn hdr_metadata_bytes() -> (r: Vec<u8>)
    ensures
        r@ == hdr_metadata(),
{
    let r = vec![0x04u8, 0x00, 0x04, 0x00, 0x1d];
    assert(r@ =~= hdr_metadata());
    r
}

pub fn hdr_ear_detection_bytes() -> (r: Vec<u8>)
    ensures
        r@ == hdr_ear_detection(),
{
    let r = vec![0x04u8, 0x00, 0x04, 0x00, 0x06, 0x00];
    assert(r@ =~= hdr_ear_detection());
    r
}

/// `data` begins with `prefix`.
pub open spec fn has_prefix(data: Seq<u8>, prefix: Seq<u8>) -> bool {
    prefix.len() <= data.len() && data.subrange(0, prefix.len() as int) == prefix
}

pub fn starts_with(data: &[u8], prefix: &[u8]) -> (r: bool)
    ensures
        r == has_prefix(data@, prefix@),
{
    if prefix.len() > data.len() {
        return false;
    }
    let mut i: usize = 0;
    while i < prefix.len()
        invariant
            prefix@.len() <= data@.len(),
            i <= prefix@.len(),
            forall|j: int| 0 <= j < i ==> data@[j] == prefix@[j],
        decreases prefix@.len() - i,
    {
        if data[i] != prefix[i] {
            assert(data@.subrange(0, prefix@.len() as int)[i as int] != prefix@[i as int]);
            return false;
        }
        i = i + 1;
    }
    assert(data@.subrange(0, prefix@.len() as int) =~= prefix@);
    true
}

/// Components that report a battery level.
#[derive(Debug, Clone, Copy, PartialEq, Eq, Structural)]
pub enum Component {
    Right,
    Left,
    Case,
}

pub open spec fn component_of(id: u8) -> Option<Component> {
    if id == 0x02 {
        Some(Component::Right)
    } else if id == 0x04 {
        Some(Component::Left)
    } else if id == 0x08 {
        Some(Component::Case)
    } else {
        None
    }
}

impl Component {
    pub fn from_repr(id: u8) -> (r: Option<Component>)
        ensures
            r == component_of(id),
    {
        if id == 0x02 {
            Some(Component::Right)
        } else if id == 0x04 {
            Some(Component::Left)
        } else if id == 0x08 {
            Some(Component::Case)
        } else {
            None
        }
    }

    pub fn repr(self) -> (r: u8)
        ensures
            component_of(r) == Some(self),
    {
        match self {
            Component::Right => 0x02,
            Component::Left => 0x04,
            Component::Case => 0x08,
        }
    }
}

/// Charge status of one component.
#[derive(Debug, Clone, Copy, PartialEq, Eq, Structural)]
pub enum BatteryStatus {
    Normal,
    Charging,
    Discharging,
    Disconnected,
}

/// Status byte on the wire; unknown values read as `Normal`.
pub open spec fn status_of(b: u8) -> BatteryStatus {
    if b == 0x01 {
        BatteryStatus::Charging
    } else if b == 0x02 {
        BatteryStatus::Discharging
    } else if b == 0x04 {
        BatteryStatus::Disconnected
    } else {
        BatteryStatus::Normal
    }
}

impl BatteryStatus {
    pub fn from_repr(b: u8) -> (r: Option<BatteryStatus>)
        ensures
            r == (if b == 0x00 || b == 0x01 || b == 0x02 || b == 0x04 {
                Some(status_of(b))
            } else {
                None
            }),
    {
        if b == 0x00 {
            Some(BatteryStatus::Normal)
        } else if b == 0x01 {
            Some(BatteryStatus::Charging)
        } else if b == 0x02 {
            Some(BatteryStatus::Discharging)
        } else if b == 0x04 {
            Some(BatteryStatus::Disconnected)
        } else {
            None
        }
    }

    pub fn repr(self) -> (r: u8)
        ensures
            status_of(r) == self,
    {
        match self {
            BatteryStatus::Normal => 0x00,
            BatteryStatus::Charging => 0x01,
            BatteryStatus::Discharging => 0x02,
            BatteryStatus::Disconnected => 0x04,
        }
    }
}

/// Active noise control modes, in their enumeration order.
#[derive(Debug, Clone, Copy, PartialEq, Eq, Structural)]
pub enum NoiseControlMode {
    Off,
    NC,
    Trans,
    Adapt,
}

pub open spec fn mode_of(v: u32) -> Option<NoiseControlMode> {
    if v == 1 {
        Some(NoiseControlMode::Off)
    } else if v == 2 {
        Some(NoiseControlMode::NC)
    } else if v == 3 {
        Some(NoiseControlMode::Trans)
    } else if v == 4 {
        Some(NoiseControlMode::Adapt)
    } else {
        None
    }
}

/// Wire value of a mode.
pub open spec fn mode_value(m: NoiseControlMode) -> u32 {
    match m {
        NoiseControlMode::Off => 1,
        NoiseControlMode::NC => 2,
        NoiseControlMode::Trans => 3,
        NoiseControlMode::Adapt => 4,
    }
}

impl NoiseControlMode {
    pub fn from_repr(v: u32) -> (r: Option<NoiseControlMode>)
        ensures
            r == mode_of(v),
    {
        if v == 1 {
            Some(NoiseControlMode::Off)
        } else if v == 2 {
            Some(NoiseControlMode::NC)
        } else if v == 3 {
            Some(NoiseControlMode::Trans)
        } else if v == 4 {
            Some(NoiseControlMode::Adapt)
        } else {
            None
        }
    }

    pub fn repr(self) -> (r: u32)
        ensures
            r == mode_value(self),
            mode_of(r) == Some(self),
    {
        match self {
            NoiseControlMode::Off => 1,
            NoiseControlMode::NC => 2,
            NoiseControlMode::Trans => 3,
            NoiseControlMode::Adapt => 4,
        }
    }

    /// Short name used by control clients.
    pub fn to_str(self) -> (r: &'static str)
        ensures
            r@ == mode_name(self),
    {
        match self {
            NoiseControlMode::Off => "off",
            NoiseControlMode::NC => "nc",
            NoiseControlMode::Trans => "trans",
            NoiseControlMode::Adapt => "adapt",
        }
    }

    /// Every mode, in enumeration order.
    pub fn all() -> (r: Vec<NoiseControlMode>)
        ensures
            r@ == all_modes(),
    {
        let r = vec![NoiseControlMode::Off, NoiseControlMode::NC, NoiseControlMode::Trans, NoiseControlMode::Adapt];
        assert(r@ =~= all_modes());
        r
    }
}

/// Mode named by a control client: `off`, `nc`, `trans` or `transparency`,
/// `adapt` or `adaptive` (bytes of the name, exactly).
pub open spec fn mode_by_name(n: Seq<u8>) -> Option<NoiseControlMode> {
    if n == seq![0x6fu8, 0x66, 0x66] {
        Some(NoiseControlMode::Off)
    } else if n == seq![0x6eu8, 0x63] {
        Some(NoiseControlMode::NC)
    } else if n == seq![0x74u8, 0x72, 0x61, 0x6e, 0x73] || n == seq![
        0x74u8, 0x72, 0x61, 0x6e, 0x73, 0x70, 0x61, 0x72, 0x65, 0x6e, 0x63, 0x79,
    ] {
        Some(NoiseControlMode::Trans)
    } else if n == seq![0x61u8, 0x64, 0x61, 0x70, 0x74] || n == seq![0x61u8, 0x64, 0x61, 0x70, 0x74, 0x69, 0x76, 0x65] {
        Some(NoiseControlMode::Adapt)
    } else {
        None
    }
}

/// Whether two byte strings are equal.
pub fn bytes_equal(a: &[u8], b: &[u8]) -> (r: bool)
    ensures
        r == (a@ == b@),
{
    if a.len() != b.len() {
        return false;
    }
    let mut i: usize = 0;
    while i < a.len()
        invariant
            a@.len() == b@.len(),
            i <= a@.len(),
            forall|j: int| 0 <= j < i ==> a@[j] == b@[j],
        decreases a@.len() - i,
    {
        if a[i] != b[i] {
            return false;
        }
        i = i + 1;
    }
    assert(a@ =~= b@);
    true
}

impl NoiseControlMode {
    /// The mode a control client names.
    pub fn from_name(name: &[u8]) -> (r: Option<NoiseControlMode>)
        ensures
            r == mode_by_name(name@),
    {
        let off = vec![0x6fu8, 0x66, 0x66];
        let nc = vec![0x6eu8, 0x63];
        let trans = vec![0x74u8, 0x72, 0x61, 0x6e, 0x73];
        let transparency = vec![0x74u8, 0x72, 0x61, 0x6e, 0x73, 0x70, 0x61, 0x72, 0x65, 0x6e, 0x63, 0x79];
        let adapt = vec![0x61u8, 0x64, 0x61, 0x70, 0x74];
        let adaptive = vec![0x61u8, 0x64, 0x61, 0x70, 0x74, 0x69, 0x76, 0x65];
        assert(off@ =~= seq![0x6fu8, 0x66, 0x66]);
        assert(nc@ =~= seq![0x6eu8, 0x63]);
        assert(trans@ =~= seq![0x74u8, 0x72, 0x61, 0x6e, 0x73]);
        assert(transparency@ =~= seq![0x74u8, 0x72, 0x61, 0x6e, 0x73, 0x70, 0x61, 0x72, 0x65, 0x6e, 0x63, 0x79]);
        assert(adapt@ =~= seq![0x61u8, 0x64, 0x61, 0x70, 0x74]);
        assert(adaptive@ =~= seq![0x61u8, 0x64, 0x61, 0x70, 0x74, 0x69, 0x76, 0x65]);
        if bytes_equal(name, off.as_slice()) {
            Some(NoiseControlMode::Off)
        } else if bytes_equal(name, nc.as_slice()) {
            Some(NoiseControlMode::NC)
        } else if bytes_equal(name, trans.as_slice()) || bytes_equal(name, transparency.as_slice()) {
            Some(NoiseControlMode::Trans)
        } else if bytes_equal(name, adapt.as_slice()) || bytes_equal(name, adaptive.as_slice()) {
            Some(NoiseControlMode::Adapt)
        } else {
            None
        }
    }
}

pub open spec fn all_modes() -> Seq<NoiseControlMode> {
    seq![NoiseControlMode::Off, NoiseControlMode::NC, NoiseControlMode::Trans, NoiseControlMode::Adapt]
}

pub open spec fn mode_name(m: NoiseControlMode) -> Seq<char> {
    match m {
        NoiseControlMode::Off => "off"@,
        NoiseControlMode::NC => "nc"@,
        NoiseControlMode::Trans => "trans"@,
        NoiseControlMode::Adapt => "adapt"@,
    }
}


pub const NOISE_CONTROL_ID: u8 = 0x0D;
pub const ONE_BUD_ANC_ID: u8 = 0x1B;
pub const VOLUME_INTERVAL_ID: u8 = 0x23;
pub const VOLUME_SWIPE_ID: u8 = 0x25;
pub const ADAPTIVE_VOLUME_ID: u8 = 0x26;
pub const CONVERSATIONAL_ID: u8 = 0x28;
pub const HEARING_ASSIST_ID: u8 = 0x33;
pub const ALLOW_OFF_ID: u8 = 0x34;

/// Identifier of a vendor feature flag (one of 256).
#[derive(Debug, Clone, Copy, PartialEq, Eq, Structural)]
pub struct FeatureId {
    pub id: u8,
}

/// Name of a known feature.
pub open spec fn feature_name(id: u8) -> Option<Seq<char>> {
    if id == NOISE_CONTROL_ID {
        Some("noise_control"@)
    } else if id == ONE_BUD_ANC_ID {
        Some("one_bud_anc"@)
    } else if id == VOLUME_INTERVAL_ID {
        Some("volume_interval"@)
    } else if id == VOLUME_SWIPE_ID {
        Some("volume_swipe"@)
    } else if id == ADAPTIVE_VOLUME_ID {
        Some("adaptive_volume"@)
    } else if id == CONVERSATIONAL_ID {
        Some("conversational"@)
    } else if id == HEARING_ASSIST_ID {
        Some("hearing_assist"@)
    } else if id == ALLOW_OFF_ID {
        Some("allow_off"@)
    } else {
        None
    }
}

/// ASCII lower case of a byte.
pub open spec fn ascii_lower(b: u8) -> u8 {
    if 65 <= b <= 90 { (b + 32) as u8 } else { b }
}

/// Known feature ids with their names, as bytes, in ascending id order.
pub open spec fn known_features() -> Seq<(u8, Seq<char>)> {
    seq![
        (NOISE_CONTROL_ID, "noise_control"@),
        (ONE_BUD_ANC_ID, "one_bud_anc"@),
        (VOLUME_INTERVAL_ID, "volume_interval"@),
        (VOLUME_SWIPE_ID, "volume_swipe"@),
        (ADAPTIVE_VOLUME_ID, "adaptive_volume"@),
        (CONVERSATIONAL_ID, "conversational"@),
        (HEARING_ASSIST_ID, "hearing_assist"@),
        (ALLOW_OFF_ID, "allow_off"@),
    ]
}

/// Text of a name's bytes equals `name` ignoring ASCII case (the names are
/// lower-case ASCII).
pub open spec fn names_feature(text: Seq<u8>, name: Seq<char>) -> bool {
    text.len() == name.len() && forall|j: int| 0 <= j < text.len() ==> ascii_lower(text[j]) as char == name[j]
}

/// Lower-case hexadecimal digit of a nibble.
pub open spec fn hex_digit(n: u8) -> char {
    if n < 10 {
        ((n + 48) as u8) as char
    } else {
        ((n + 87) as u8) as char
    }
}

fn hex_digit_of(n: u8) -> (r: char)
    requires
        n < 16,
    ensures
        r == hex_digit(n),
{
    if n < 10 {
        ((n + 48) as u8) as char
    } else {
        ((n + 87) as u8) as char
    }
}

/// Relies on `String::push`: appends one character.
#[verifier::external_body]
pub(crate) fn push_char(s: &mut String, c: char)
    ensures
        final(s)@ == old(s)@.push(c),
{
    s.push(c);
}

fn names_equal_ignore_case(text: &[u8], name: &str) -> (r: bool)
    ensures
        r == names_feature(text@, name@),
{
    let n = name.unicode_len();
    if text.len() != n {
        return false;
    }
    let mut j: usize = 0;
    while j < n
        invariant
            n == name@.len(),
            text@.len() == n,
            j <= n,
            forall|q: int| 0 <= q < j ==> ascii_lower(text@[q]) as char == name@[q],
        decreases n - j,
    {
        let b = text[j];
        let lb: u8 = if 65 <= b && b <= 90 { b + 32 } else { b };
        if lb as char != name.get_char(j) {
            return false;
        }
        j = j + 1;
    }
    true
}

impl FeatureId {
    /// The known feature whose name `text` spells, ignoring ASCII case.
    pub fn from_name(text: &[u8]) -> (r: Option<FeatureId>)
        ensures
            r matches Some(f) ==> exists|k: int| 0 <= k < known_features().len() && known_features()[k].0 == f.id
                && names_feature(text@, known_features()[k].1),
            r is None ==> forall|k: int| 0 <= k < known_features().len() ==> !names_feature(text@, known_features()[k].1),
    {
        let ids: [u8; 8] = [
            NOISE_CONTROL_ID, ONE_BUD_ANC_ID, VOLUME_INTERVAL_ID, VOLUME_SWIPE_ID, ADAPTIVE_VOLUME_ID,
            CONVERSATIONAL_ID, HEARING_ASSIST_ID, ALLOW_OFF_ID,
        ];
        let mut k: usize = 0;
        while k < 8
            invariant
                k <= 8,
                forall|q: int| 0 <= q < 8 ==> ids@[q] == known_features()[q].0,
                forall|q: int| 0 <= q < k ==> !names_feature(text@, known_features()[q].1),
            decreases 8 - k,
        {
            let f = FeatureId::from_id(ids[k]);
            let name = match f.try_to_str() {
                Some(n) => n,
                None => {
                    return None;
                },
            };
            assert(name@ == known_features()[k as int].1);
            if names_equal_ignore_case(text, name) {
                return Some(f);
            }
            k = k + 1;
        }
        None
    }

    pub fn from_id(repr: u8) -> (r: FeatureId)
        ensures
            r.id == repr,
    {
        FeatureId { id: repr }
    }

    pub fn id(self) -> (r: u8)
        ensures
            r == self.id,
    {
        self.id
    }

    /// Word index and bit mask of this feature in a 256-bit bitmap.
    pub fn bitpos(self) -> (r: (usize, u64))
        ensures
            r.0 == self.id / 64,
            r.0 < 4,
            r.1 == pow2_u64((self.id % 64) as nat),
    {
        let idx: usize = (self.id / 64) as usize;
        let sh: u64 = (self.id % 64) as u64;
        proof {
            vstd::bits::lemma_u64_pow2_no_overflow(sh as nat);
            vstd::bits::lemma_u64_shl_is_mul(1, sh);
        }
        (idx, 1u64 << sh)
    }

    pub fn try_to_str(self) -> (r: Option<&'static str>)
        ensures
            r is Some <==> feature_name(self.id) is Some,
            r is Some ==> r->0@ == feature_name(self.id)->0,
    {
        let id = self.id;
        if id == NOISE_CONTROL_ID {
            Some("noise_control")
        } else if id == ONE_BUD_ANC_ID {
            Some("one_bud_anc")
        } else if id == VOLUME_INTERVAL_ID {
            Some("volume_interval")
        } else if id == VOLUME_SWIPE_ID {
            Some("volume_swipe")
        } else if id == ADAPTIVE_VOLUME_ID {
            Some("adaptive_volume")
        } else if id == CONVERSATIONAL_ID {
            Some("conversational")
        } else if id == HEARING_ASSIST_ID {
            Some("hearing_assist")
        } else if id == ALLOW_OFF_ID {
            Some("allow_off")
        } else {
            None
        }
    }

    /// Name of a known feature, else its id as two lower-case hex digits.
    pub fn to_str(self) -> (r: String)
        ensures
            feature_name(self.id) is Some ==> r@ == feature_name(self.id)->0,
            feature_name(self.id) is None ==> r@ == seq![hex_digit(self.id / 16), hex_digit(self.id % 16)],
    {
        match self.try_to_str() {
            Some(name) => name.to_owned(),
            None => {
                let mut s = String::new();
                let hi = hex_digit_of(self.id / 16);
                let lo = hex_digit_of(self.id % 16);
                push_char(&mut s, hi);
                push_char(&mut s, lo);
                assert(s@ =~= seq![hex_digit(self.id / 16), hex_digit(self.id % 16)]);
                s
            },
        }
    }
}

/// Bit `e` of a 64-bit word.
pub open spec fn pow2_u64(e: nat) -> u64
    recommends
        e < 64,
{
    vstd::arithmetic::power2::pow2(e) as u64
}

/// Level and status of one component.
#[derive(Debug, Clone, Copy, PartialEq, Eq, Structural)]
pub struct BatteryState {
    pub level: u8,
    pub status: BatteryStatus,
}

impl BatteryState {
    pub open spec fn unknown() -> BatteryState {
        BatteryState { level: 0, status: BatteryStatus::Disconnected }
    }

    pub fn new() -> (r: BatteryState)
        ensures
            r == BatteryState::unknown(),
    {
        BatteryState { level: 0, status: BatteryStatus::Disconnected }
    }

    pub fn is_charging(&self) -> (r: bool)
        ensures
            r == (self.status == BatteryStatus::Charging),
    {
        self.status == BatteryStatus::Charging
    }

    pub fn is_available(&self) -> (r: bool)
        ensures
            r == (self.status != BatteryStatus::Disconnected),
    {
        self.status != BatteryStatus::Disconnected
    }
}

/// Battery of both buds and the case.
#[derive(Debug, Clone, Copy, PartialEq, Eq, Structural)]
pub struct BatteryInfo {
    pub left: BatteryState,
    pub right: BatteryState,
    pub case: BatteryState,
}

impl BatteryInfo {
    pub open spec fn unknown() -> BatteryInfo {
        BatteryInfo {
            left: BatteryState::unknown(),
            right: BatteryState::unknown(),
            case: BatteryState::unknown(),
        }
    }

    pub fn new() -> (r: BatteryInfo)
        ensures
            r == BatteryInfo::unknown(),
    {
        BatteryInfo { left: BatteryState::new(), right: BatteryState::new(), case: BatteryState::new() }
    }
}

pub const EAR_LEFT: u8 = 0x01;
pub const EAR_RIGHT: u8 = 0x02;
pub const EAR_VALID: u8 = 0x80;

/// In-ear flags of both buds, packed with a validity bit so that the byte is
/// never zero.
#[derive(Debug, Clone, Copy, PartialEq, Eq, Structural)]
pub struct EarDetectionStatus {
    flags: u8,
}

impl EarDetectionStatus {
    pub closed spec fn left_in_ear(self) -> bool {
        self.flags % 2 == 1
    }

    pub closed spec fn right_in_ear(self) -> bool {
        (self.flags / 2) % 2 == 1
    }

    pub closed spec fn packed(self) -> u8 {
        self.flags
    }

    /// The status with the given in-ear flags.
    pub closed spec fn with_flags(left_in_ear: bool, right_in_ear: bool) -> EarDetectionStatus {
        EarDetectionStatus {
            flags: (EAR_VALID + (if left_in_ear { EAR_LEFT } else { 0 }) + (if right_in_ear { EAR_RIGHT } else { 0 })) as u8,
        }
    }

    pub fn new(left_in_ear: bool, right_in_ear: bool) -> (r: EarDetectionStatus)
        ensures
            r == EarDetectionStatus::with_flags(left_in_ear, right_in_ear),
            r.left_in_ear() == left_in_ear,
            r.right_in_ear() == right_in_ear,
            r.packed() != 0,
            r.packed() == EAR_VALID + (if left_in_ear { EAR_LEFT } else { 0 }) + (if right_in_ear {
                EAR_RIGHT
            } else {
                0
            }),
    {
        let mut flags: u8 = EAR_VALID;
        if left_in_ear {
            flags = flags + EAR_LEFT;
        }
        if right_in_ear {
            flags = flags + EAR_RIGHT;
        }
        EarDetectionStatus { flags }
    }

    pub fn is_left_in_ear(&self) -> (r: bool)
        ensures
            r == self.left_in_ear(),
    {
        self.flags % 2 == 1
    }

    pub fn is_right_in_ear(&self) -> (r: bool)
        ensures
            r == self.right_in_ear(),
    {
        (self.flags / 2) % 2 == 1
    }

    /// The packed byte.
    pub fn bits(&self) -> (r: u8)
        ensures
            r == self.packed(),
    {
        self.flags
    }
}

/// Little-endian value of four bytes.
pub open spec fn le_u32(b: Seq<u8>) -> int {
    b[0] + 256 * b[1] + 65536 * b[2] + 16777216 * b[3]
}

/// Control frame: command header, opcode, four payload bytes.
pub open spec fn control_frame(cmd: u8, data: Seq<u8>) -> Seq<u8> {
    hdr_cmd_ctl() + seq![cmd] + data
}

/// Builds a control packet for sending commands.
pub fn build_control_packet(cmd: u8, data: [u8; 4]) -> (r: Vec<u8>)
    ensures
        r@ == control_frame(cmd, data@),
{
    let mut r = hdr_cmd_ctl_bytes();
    r.push(cmd);
    let mut i: usize = 0;
    while i < 4
        invariant
            i <= 4,
            r@ == hdr_cmd_ctl() + seq![cmd] + data@.subrange(0, i as int),
        decreases 4 - i,
    {
        r.push(data[i]);
        assert(data@.subrange(0, i as int + 1) =~= data@.subrange(0, i as int).push(data@[i as int]));
        i = i + 1;
    }
    assert(data@.subrange(0, 4) =~= data@);
    r
}

/// Feature command carried in a control frame.
#[derive(Debug, Clone, Copy, PartialEq, Eq, Structural)]
pub enum FeatureCmd {
    Query,
    Enable,
    Disable,
}

pub open spec fn feature_cmd_of(v: int) -> Option<FeatureCmd> {
    if v == 0 {
        Some(FeatureCmd::Query)
    } else if v == 1 {
        Some(FeatureCmd::Enable)
    } else if v == 2 {
        Some(FeatureCmd::Disable)
    } else {
        None
    }
}

pub open spec fn feature_cmd_value(c: FeatureCmd) -> u32 {
    match c {
        FeatureCmd::Query => 0,
        FeatureCmd::Enable => 1,
        FeatureCmd::Disable => 2,
    }
}

/// What a received frame says as a feature command.
pub open spec fn parse_feature_frame(d: Seq<u8>) -> Option<(FeatureId, FeatureCmd)> {
    if has_prefix(d, hdr_cmd_ctl()) && d.len() == 11 {
        match feature_cmd_of(le_u32(d.subrange(7, 11))) {
            Some(c) => Some((FeatureId { id: d[6] }, c)),
            None => None,
        }
    } else {
        None
    }
}

impl FeatureCmd {
    pub fn build(self, feature: u8) -> (r: Vec<u8>)
        ensures
            r@ == control_frame(feature, seq![feature_cmd_value(self) as u8, 0u8, 0u8, 0u8]),
    {
        let v: u8 = match self {
            FeatureCmd::Query => 0,
            FeatureCmd::Enable => 1,
            FeatureCmd::Disable => 2,
        };
        let r = build_control_packet(feature, [v, 0, 0, 0]);
        assert([v, 0u8, 0u8, 0u8]@ =~= seq![feature_cmd_value(self) as u8, 0u8, 0u8, 0u8]);
        r
    }

    pub fn parse(data: &[u8]) -> (r: Option<(FeatureId, FeatureCmd)>)
        ensures
            r == parse_feature_frame(data@),
    {
        let hdr = hdr_cmd_ctl_bytes();
        if !starts_with(data, hdr.as_slice()) || data.len() != 11 {
            return None;
        }
        let feature = data[6];
        let v: u32 = data[7] as u32 + 256 * (data[8] as u32) + 65536 * (data[9] as u32) + 16777216 * (data[10] as u32);
        assert(v == le_u32(data@.subrange(7, 11)));
        if v == 0 {
            Some((FeatureId::from_id(feature), FeatureCmd::Query))
        } else if v == 1 {
            Some((FeatureId::from_id(feature), FeatureCmd::Enable))
        } else if v == 2 {
            Some((FeatureId::from_id(feature), FeatureCmd::Disable))
        } else {
            None
        }
    }
}

/// Parsing a built control frame gives back its opcode, with the command
/// that the payload encodes, exactly when the little-endian payload is 0, 1
/// or 2; otherwise nothing.
pub proof fn lemma_control_frame_round_trip(opcode: u8, data: Seq<u8>)
    requires
        data.len() == 4,
    ensures
        parse_feature_frame(control_frame(opcode, data)) == (match feature_cmd_of(le_u32(data)) {
            Some(c) => Some((FeatureId { id: opcode }, c)),
            None => None,
        }),
{
    let f = control_frame(opcode, data);
    assert(f.len() == 11);
    assert(f.subrange(0, 6) =~= hdr_cmd_ctl());
    assert(f.subrange(7, 11) =~= data);
    assert(f[6] == opcode);
}

} // verus!
