//! Parsers for the frames the earbuds send.

use vstd::prelude::*;
use vstd::utf8::{valid_utf8, decode_utf8};
use vstd::string::StrSliceExecFns;
use crate::protocol::{
    has_prefix, hdr_battery_state, hdr_ear_detection, hdr_metadata, starts_with,
    hdr_battery_state_bytes, hdr_ear_detection_bytes, hdr_metadata_bytes, component_of, status_of, mode_of,
    BatteryInfo, BatteryState, BatteryStatus, Component, EarDetectionStatus, NoiseControlMode,
};

verus! {

/// Frame kinds that a parser can expect.
#[derive(Debug, Clone, Copy, PartialEq, Eq, Structural)]
pub enum PacketKind {
    BatteryStatus,
    EarDetection,
    Metadata,
}

/// Why a frame could not be parsed.
#[allow(inconsistent_fields)]
#[derive(Debug, Clone, Copy, PartialEq, Eq, Structural)]
pub enum ProtoError {
    /// The frame does not carry the header of the expected kind.
    WrongPacketType { expected: PacketKind },
    /// The frame is shorter than the kind requires.
    PacketTooShort { expected: usize, actual: usize },
    /// A battery frame announces more than three records.
    InvalidBatteryCount { count: u8 },
    /// A battery frame's length disagrees with its record count.
    PacketSizeMismatch { expected: usize, actual: usize },
    /// A component id that is not known.
    UnknownComponentType { component_type: u8 },
    /// A noise control value that is not known.
    UnknownNoiseMode { mode: u32 },
    /// Any other malformation.
    InvalidFormat,
}

/// Battery state after applying record `i` (five bytes at `7 + 5 i`).
pub open spec fn apply_record(info: BatteryInfo, d: Seq<u8>, i: int) -> BatteryInfo {
    let off = 7 + 5 * i;
    let st = BatteryState { level: d[off + 2], status: status_of(d[off + 3]) };
    if st.status == BatteryStatus::Disconnected {
        info
    } else {
        match component_of(d[off]) {
            Some(Component::Left) => BatteryInfo { left: st, ..info },
            Some(Component::Right) => BatteryInfo { right: st, ..info },
            Some(Component::Case) => BatteryInfo { case: st, ..info },
            None => info,
        }
    }
}

/// Battery state after the first `k` records.
pub open spec fn apply_records(d: Seq<u8>, k: int) -> BatteryInfo
    decreases k,
{
    if k <= 0 {
        BatteryInfo::unknown()
    } else {
        apply_record(apply_records(d, k - 1), d, k - 1)
    }
}

/// Result of parsing a battery status frame.
pub open spec fn battery_frame(d: Seq<u8>) -> Result<BatteryInfo, ProtoError> {
    if d.len() < 7 {
        Err(ProtoError::PacketTooShort { expected: 7, actual: d.len() as usize })
    } else if !has_prefix(d, hdr_battery_state()) {
        Err(ProtoError::WrongPacketType { expected: PacketKind::BatteryStatus })
    } else if d[6] > 3 {
        Err(ProtoError::InvalidBatteryCount { count: d[6] })
    } else if d.len() != 7 + 5 * d[6] {
        Err(ProtoError::PacketSizeMismatch { expected: (7 + 5 * d[6]) as usize, actual: d.len() as usize })
    } else {
        Ok(apply_records(d, d[6] as int))
    }
}

/// Parses a battery status frame: a header, a record count of at most three,
/// and five bytes per record. Unknown components are skipped, unknown status
/// bytes read as `Normal`, and records of disconnected components leave the
/// slot as it was.
pub fn parse_battery_status(data: &[u8]) -> (r: Result<BatteryInfo, ProtoError>)
    ensures
        r == battery_frame(data@),
{
    let hdr = hdr_battery_state_bytes();
    if data.len() < 7 {
        return Err(ProtoError::PacketTooShort { expected: 7, actual: data.len() });
    }
    if !starts_with(data, hdr.as_slice()) {
        return Err(ProtoError::WrongPacketType { expected: PacketKind::BatteryStatus });
    }
    let count = data[6];
    if count > 3 {
        return Err(ProtoError::InvalidBatteryCount { count });
    }
    let expected: usize = 7 + 5 * (count as usize);
    if data.len() != expected {
        return Err(ProtoError::PacketSizeMismatch { expected, actual: data.len() });
    }
    let mut info = BatteryInfo::new();
    let mut i: u8 = 0;
    while i < count
        invariant
            count <= 3,
            i <= count,
            data@.len() == 7 + 5 * count,
            info == apply_records(data@, i as int),
        decreases count - i,
    {
        let off: usize = 7 + 5 * (i as usize);
        let id = data[off];
        let level = data[off + 2];
        let status = match BatteryStatus::from_repr(data[off + 3]) {
            Some(s) => s,
            None => BatteryStatus::Normal,
        };
        if status != BatteryStatus::Disconnected {
            let st = BatteryState { level, status };
            match Component::from_repr(id) {
                Some(Component::Left) => { info.left = st; },
                Some(Component::Right) => { info.right = st; },
                Some(Component::Case) => { info.case = st; },
                None => {},
            }
        }
        i = i + 1;
    }
    Ok(info)
}

/// Result of parsing a noise control frame.
pub open spec fn noise_frame(d: Seq<u8>) -> Result<NoiseControlMode, ProtoError> {
    if d.len() < 8 {
        Err(ProtoError::PacketTooShort { expected: 8, actual: d.len() as usize })
    } else {
        match mode_of(d[7] as u32) {
            Some(m) => Ok(m),
            None => Err(ProtoError::UnknownNoiseMode { mode: d[7] as u32 }),
        }
    }
}

/// Parses a noise control frame: byte 7 holds the mode.
pub fn parse_noise_mode(data: &[u8]) -> (r: Result<NoiseControlMode, ProtoError>)
    ensures
        r == noise_frame(data@),
{
    if data.len() < 8 {
        return Err(ProtoError::PacketTooShort { expected: 8, actual: data.len() });
    }
    let mode = data[7] as u32;
    match NoiseControlMode::from_repr(mode) {
        Some(m) => Ok(m),
        None => Err(ProtoError::UnknownNoiseMode { mode }),
    }
}

/// Result of parsing an ear detection frame.
pub open spec fn ear_frame(d: Seq<u8>) -> Result<EarDetectionStatus, ProtoError> {
    if d.len() < 8 {
        Err(ProtoError::PacketTooShort { expected: 8, actual: d.len() as usize })
    } else if !has_prefix(d, hdr_ear_detection()) {
        Err(ProtoError::WrongPacketType { expected: PacketKind::EarDetection })
    } else {
        Ok(EarDetectionStatus::with_flags(d[6] != 0x01, d[7] != 0x01))
    }
}

/// Parses an ear detection frame: bytes 6 and 7 are 0x01 when the left or
/// right bud is out of the ear.
pub fn parse_ear_detection(data: &[u8]) -> (r: Result<EarDetectionStatus, ProtoError>)
    ensures
        r == ear_frame(data@),
        data@.len() < 8 ==> r == Err::<EarDetectionStatus, ProtoError>(
            ProtoError::PacketTooShort { expected: 8, actual: data@.len() as usize },
        ),
        data@.len() >= 8 && !has_prefix(data@, hdr_ear_detection()) ==> r == Err::<EarDetectionStatus, ProtoError>(
            ProtoError::WrongPacketType { expected: PacketKind::EarDetection },
        ),
        has_prefix(data@, hdr_ear_detection()) && data@.len() >= 8 ==> (r matches Ok(s) && s.left_in_ear()
            == (data@[6] != 0x01) && s.right_in_ear() == (data@[7] != 0x01)),
{
    let hdr = hdr_ear_detection_bytes();
    if data.len() < 8 {
        return Err(ProtoError::PacketTooShort { expected: 8, actual: data.len() });
    }
    if !starts_with(data, hdr.as_slice()) {
        return Err(ProtoError::WrongPacketType { expected: PacketKind::EarDetection });
    }
    let left_out = data[6] == 0x01;
    let right_out = data[7] == 0x01;
    Ok(EarDetectionStatus::new(!left_out, !right_out))
}

/// Every slice shorter than a kind's minimum length is rejected as too
/// short, naming both lengths, whatever its first bytes.
pub proof fn lemma_short_frames_rejected(d: Seq<u8>)
    ensures
        d.len() < 7 ==> battery_frame(d) == Err::<BatteryInfo, ProtoError>(
            ProtoError::PacketTooShort { expected: 7, actual: d.len() as usize },
        ),
        d.len() < 8 ==> noise_frame(d) == Err::<NoiseControlMode, ProtoError>(
            ProtoError::PacketTooShort { expected: 8, actual: d.len() as usize },
        ),
        d.len() < 8 ==> ear_frame(d) == Err::<EarDetectionStatus, ProtoError>(
            ProtoError::PacketTooShort { expected: 8, actual: d.len() as usize },
        ),
        d.len() < 20 ==> metadata_frame(d) == Err::<Option<Seq<char>>, ProtoError>(
            ProtoError::PacketTooShort { expected: 20, actual: d.len() as usize },
        ),
{
}

/// A battery frame with its header and a count byte is rejected when the
/// count exceeds three, and otherwise when its length is not `7 + 5 n`.
pub proof fn lemma_battery_frame_bounds(d: Seq<u8>)
    requires
        has_prefix(d, hdr_battery_state()),
        d.len() >= 7,
    ensures
        d[6] > 3 ==> battery_frame(d) == Err::<BatteryInfo, ProtoError>(ProtoError::InvalidBatteryCount { count: d[6] }),
        d[6] <= 3 && d.len() != 7 + 5 * d[6] ==> battery_frame(d) == Err::<BatteryInfo, ProtoError>(
            ProtoError::PacketSizeMismatch { expected: (7 + 5 * d[6]) as usize, actual: d.len() as usize },
        ),
        d[6] <= 3 && d.len() == 7 + 5 * d[6] ==> battery_frame(d) is Ok,
{
}


/// What `char::is_alphabetic` says of a character.
pub uninterp spec fn alphabetic(c: char) -> bool;

/// Characters with the Unicode `White_Space` property.
pub open spec fn white_space(c: char) -> bool {
    let v = c as u32;
    (0x09 <= v <= 0x0d) || v == 0x20 || v == 0x85 || v == 0xa0 || v == 0x1680 || (0x2000 <= v <= 0x200a) || v
        == 0x2028 || v == 0x2029 || v == 0x202f || v == 0x205f || v == 0x3000
}

/// A text without its leading white space.
pub open spec fn trim_start(s: Seq<char>) -> Seq<char>
    decreases s.len(),
{
    if s.len() > 0 && white_space(s[0]) {
        trim_start(s.drop_first())
    } else {
        s
    }
}

/// A text without its trailing white space.
pub open spec fn trim_end(s: Seq<char>) -> Seq<char>
    decreases s.len(),
{
    if s.len() > 0 && white_space(s.last()) {
        trim_end(s.drop_last())
    } else {
        s
    }
}

/// A text without leading and trailing white space.
pub open spec fn trimmed(s: Seq<char>) -> Seq<char> {
    trim_end(trim_start(s))
}

/// Not a control character (general category Cc).
pub open spec fn printable(c: char) -> bool {
    !((c as u32) < 0x20 || (0x7f <= (c as u32) && (c as u32) <= 0x9f))
}

/// Relies on `std::str::from_utf8`: succeeds exactly on valid UTF-8, with
/// the characters it encodes.
#[verifier::external_body]
fn utf8_text(b: &[u8]) -> (r: Option<String>)
    ensures
        r is Some <==> valid_utf8(b@),
        r matches Some(t) ==> t@ == decode_utf8(b@),
{
    std::str::from_utf8(b).ok().map(|t| t.to_owned())
}

/// Relies on `char::is_alphabetic`; ASCII letters are alphabetic and other
/// ASCII characters are not.
#[verifier::external_body]
fn is_alphabetic(c: char) -> (r: bool)
    ensures
        r == alphabetic(c),
        ('a' <= c <= 'z' || 'A' <= c <= 'Z') ==> r,
        (c as u32) < 128 && !('a' <= c <= 'z' || 'A' <= c <= 'Z') ==> !r,
{
    c.is_alphabetic()
}

/// Relies on `str::trim`: the text without leading and trailing characters
/// of the Unicode `White_Space` property.
#[verifier::external_body]
fn trim(s: &String) -> (r: String)
    ensures
        r@ == trimmed(s@),
{
    s.trim().to_owned()
}

/// Window of up to ten payload bytes starting at `i`.
pub open spec fn window(p: Seq<u8>, i: int) -> Seq<u8> {
    p.subrange(i, if i + 10 < p.len() { i + 10 } else { p.len() as int })
}

/// Text made only of printable characters, at least one of them a letter.
pub open spec fn printable_with_letter(t: Seq<char>) -> bool {
    (forall|k: int| 0 <= k < t.len() ==> printable(t[k])) && exists|k: int| 0 <= k < t.len() && alphabetic(t[k])
}

/// A window that decodes as printable text holding a letter and, trimmed,
/// at least three characters.
pub open spec fn name_at(p: Seq<u8>, i: int) -> Option<Seq<char>> {
    let w = window(p, i);
    if valid_utf8(w) && printable_with_letter(decode_utf8(w))
        && trimmed(decode_utf8(w)).len() > 2 {
        Some(trimmed(decode_utf8(w)))
    } else {
        None
    }
}

/// First name found at a window start in `i..end`.
pub open spec fn first_name(p: Seq<u8>, i: int, end: int) -> Option<Seq<char>>
    decreases end - i,
{
    if i >= end {
        None
    } else {
        match name_at(p, i) {
            Some(n) => Some(n),
            None => first_name(p, i + 1, end),
        }
    }
}

/// Result of parsing a metadata frame: the name it proposes, if any.
pub open spec fn metadata_frame(d: Seq<u8>) -> Result<Option<Seq<char>>, ProtoError> {
    if d.len() < 20 {
        Err(ProtoError::PacketTooShort { expected: 20, actual: d.len() as usize })
    } else if !has_prefix(d, hdr_metadata()) {
        Err(ProtoError::WrongPacketType { expected: PacketKind::Metadata })
    } else {
        let p = d.subrange(6, d.len() as int);
        Ok(first_name(p, 0, p.len() - 5))
    }
}

/// Device metadata carried by a metadata frame.
#[derive(Debug)]
pub struct Metadata {
    pub name_candidate: Option<String>,
}

fn has_printable_letter(t: &String) -> (r: bool)
    ensures
        r == printable_with_letter(t@),
{
    let txt = t.as_str();
    let n = txt.unicode_len();
    let mut k: usize = 0;
    let mut letter = false;
    while k < n
        invariant
            txt@ == t@,
            n == t@.len(),
            k <= n,
            forall|j: int| 0 <= j < k ==> printable(t@[j]),
            letter == exists|j: int| 0 <= j < k && alphabetic(t@[j]),
        decreases n - k,
    {
        let c = txt.get_char(k);
        let v = c as u32;
        if v < 0x20 || (0x7f <= v && v <= 0x9f) {
            assert(!printable(t@[k as int]));
            return false;
        }
        if is_alphabetic(c) {
            letter = true;
        }
        k = k + 1;
    }
    letter
}

/// Copies `b[from..to]`.
fn slice_copy(b: &[u8], from: usize, to: usize) -> (r: Vec<u8>)
    requires
        from <= to <= b@.len(),
    ensures
        r@ == b@.subrange(from as int, to as int),
{
    let mut r: Vec<u8> = Vec::new();
    let mut i: usize = from;
    while i < to
        invariant
            from <= i <= to <= b@.len(),
            r@ == b@.subrange(from as int, i as int),
        decreases to - i,
    {
        r.push(b[i]);
        assert(b@.subrange(from as int, i as int + 1) =~= b@.subrange(from as int, i as int).push(b@[i as int]));
        i = i + 1;
    }
    r
}

/// Parses a metadata frame: a header and at least twenty bytes. The first
/// window of up to ten bytes of the payload (after byte 6) that is valid
/// UTF-8, printable, holds a letter and keeps at least three characters once trimmed
/// proposes the device name; finding none is no error.
pub fn parse_metadata(data: &[u8]) -> (r: Result<Metadata, ProtoError>)
    ensures
        metadata_frame(data@) is Err ==> (r matches Err(e) && metadata_frame(data@) == Err::<Option<Seq<char>>, ProtoError>(e)),
        metadata_frame(data@) matches Ok(n) ==> (r matches Ok(m) && (m.name_candidate matches Some(c) ==> n == Some(c@))
            && (m.name_candidate is None ==> n is None)),
{
    let hdr = hdr_metadata_bytes();
    if data.len() < 20 {
        return Err(ProtoError::PacketTooShort { expected: 20, actual: data.len() });
    }
    if !starts_with(data, hdr.as_slice()) {
        return Err(ProtoError::WrongPacketType { expected: PacketKind::Metadata });
    }
    let payload = slice_copy(data, 6, data.len());
    let plen = payload.len();
    let end = plen - 5;
    let ghost p = data@.subrange(6, data@.len() as int);
    let mut i: usize = 0;
    while i < end
        invariant
            payload@ == p,
            plen == p.len(),
            end == plen - 5,
            i <= end,
            first_name(p, 0, end as int) == first_name(p, i as int, end as int),
            has_prefix(data@, hdr_metadata()),
            data@.len() >= 20,
            p == data@.subrange(6, data@.len() as int),
        decreases end - i,
    {
        let stop: usize = if plen - i > 10 { i + 10 } else { plen };
        let w = slice_copy(payload.as_slice(), i, stop);
        assert(w@ == window(p, i as int));
        match utf8_text(w.as_slice()) {
            Some(text) => {
                if has_printable_letter(&text) {
                    let t = trim(&text);
                    if t.as_str().unicode_len() > 2 {
                        assert(name_at(p, i as int) == Some(t@));
                        return Ok(Metadata { name_candidate: Some(t) });
                    }
                }
            },
            None => {},
        }
        assert(name_at(p, i as int) is None);
        i = i + 1;
    }
    Ok(Metadata { name_candidate: None })
}

} // verus!
