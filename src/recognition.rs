//! Whether a paired device belongs to the supported family.
//!
//! The host stack's view of a device is handed in as plain values; the
//! strongest signals are tried first.

use vstd::prelude::*;

verus! {

/// Vendor id of the manufacturer in a modalias.
pub const APPLE_VID: u32 = 0x004C;

/// Company id under which manufacturer data is looked up.
pub const APPLE_CID: u16 = 0x004C;

/// Proximity-pairing message type in manufacturer data.
pub const PP_TYPE: u8 = 0x07;

/// Offset of the product-id byte in manufacturer data.
pub const PID_OFFSET: usize = 6;

/// Product ids of the supported family.
pub open spec fn known_pid(p: u32) -> bool {
    p == 0x2002 || p == 0x200E || p == 0x200A || p == 0x200F || p == 0x2012 || p == 0x2013 || p == 0x2014 || p == 0x2024
}

/// Low byte of a supported product id.
pub open spec fn known_pid_low(b: u8) -> bool {
    b == 0x02 || b == 0x0E || b == 0x0A || b == 0x0F || b == 0x12 || b == 0x13 || b == 0x14 || b == 0x24
}

/// Service UUIDs that only the family advertises (16-bit ids fd6f, fd39 and
/// fd32 under the Bluetooth base UUID).
pub open spec fn apple_service(u: u128) -> bool {
    u == 0x0000fd6f_0000_1000_8000_00805f9b34fb || u == 0x0000fd39_0000_1000_8000_00805f9b34fb || u
        == 0x0000fd32_0000_1000_8000_00805f9b34fb
}

pub fn is_known_pid(p: u32) -> (r: bool)
    ensures
        r == known_pid(p),
{
    p == 0x2002 || p == 0x200E || p == 0x200A || p == 0x200F || p == 0x2012 || p == 0x2013 || p == 0x2014 || p == 0x2024
}

/// Manufacturer data announces a supported product: a proximity-pairing
/// message whose product byte is the low byte of a known product id.
pub open spec fn manufacturer_match(d: Seq<u8>) -> bool {
    d.len() > PID_OFFSET && d[0] == PP_TYPE && known_pid_low(d[PID_OFFSET as int])
}

pub fn check_manufacturer_data(data: &[u8]) -> (r: bool)
    ensures
        r == manufacturer_match(data@),
{
    if data.len() > PID_OFFSET && data[0] == PP_TYPE {
        let b = data[PID_OFFSET];
        b == 0x02 || b == 0x0E || b == 0x0A || b == 0x0F || b == 0x12 || b == 0x13 || b == 0x14 || b == 0x24
    } else {
        false
    }
}

/// ASCII lower case of a byte.
pub open spec fn lower(b: u8) -> u8 {
    if 65 <= b <= 90 { (b + 32) as u8 } else { b }
}

/// `pat` occurs in `name` at `i`, ignoring ASCII case.
pub open spec fn occurs_at(name: Seq<u8>, pat: Seq<u8>, i: int) -> bool {
    0 <= i && i + pat.len() <= name.len() && forall|j: int| 0 <= j < pat.len() ==> lower(name[i + j]) == pat[j]
}

pub open spec fn contains_pattern(name: Seq<u8>, pat: Seq<u8>) -> bool {
    exists|i: int| occurs_at(name, pat, i)
}

/// Lower-case name patterns of the family ("earpods" is not one of them).
pub open spec fn name_patterns() -> Seq<Seq<u8>> {
    seq![
        seq![0x61u8, 0x69, 0x72, 0x70, 0x6f, 0x64, 0x73],
        seq![0x62u8, 0x65, 0x61, 0x74, 0x73],
        seq![0x70u8, 0x6f, 0x77, 0x65, 0x72, 0x62, 0x65, 0x61, 0x74, 0x73],
    ]
}

pub open spec fn name_match(name: Seq<u8>) -> bool {
    exists|k: int| 0 <= k < name_patterns().len() && contains_pattern(name, name_patterns()[k])
}

fn lower_byte(b: u8) -> (r: u8)
    ensures
        r == lower(b),
{
    if 65 <= b && b <= 90 { b + 32 } else { b }
}

/// Whether `pat` occurs in `name`, ignoring ASCII case.
pub fn contains_ignore_case(name: &[u8], pat: &[u8]) -> (r: bool)
    ensures
        r == contains_pattern(name@, pat@),
{
    if pat.len() > name.len() {
        assert forall|i: int| !occurs_at(name@, pat@, i) by {}
        return false;
    }
    let n = name.len();
    let last = n - pat.len();
    let mut i: usize = 0;
    while i <= last
        invariant
            pat@.len() <= name@.len(),
            n == name@.len(),
            last == name@.len() - pat@.len(),
            forall|k: int| 0 <= k < i ==> !occurs_at(name@, pat@, k),
        decreases last + 1 - i,
    {
        let mut j: usize = 0;
        let mut ok = true;
        while j < pat.len()
            invariant
                i <= last,
                n == name@.len(),
                pat@.len() <= name@.len(),
                last == name@.len() - pat@.len(),
                j <= pat@.len(),
                ok == forall|q: int| 0 <= q < j ==> lower(name@[i + q]) == pat@[q],
            decreases pat@.len() - j,
        {
            if lower_byte(name[i + j]) != pat[j] {
                ok = false;
            }
            j = j + 1;
        }
        if ok {
            assert(occurs_at(name@, pat@, i as int));
            return true;
        }
        if i == last {
            assert forall|k: int| !occurs_at(name@, pat@, k) by {
                if k > last {
                    assert(!(k + pat@.len() <= name@.len()));
                } else if k == i {
                } else if 0 <= k < i {
                }
            }
            return false;
        }
        i = i + 1;
    }
    false
}

/// Whether a name (raw UTF-8 bytes) contains a pattern of the family.
pub fn name_matches(name: &[u8]) -> (r: bool)
    ensures
        r == name_match(name@),
{
    let airpods: Vec<u8> = vec![0x61u8, 0x69, 0x72, 0x70, 0x6f, 0x64, 0x73];
    let beats: Vec<u8> = vec![0x62u8, 0x65, 0x61, 0x74, 0x73];
    let powerbeats: Vec<u8> = vec![0x70u8, 0x6f, 0x77, 0x65, 0x72, 0x62, 0x65, 0x61, 0x74, 0x73];
    assert(airpods@ =~= name_patterns()[0]);
    assert(beats@ =~= name_patterns()[1]);
    assert(powerbeats@ =~= name_patterns()[2]);
    let r = contains_ignore_case(name, airpods.as_slice()) || contains_ignore_case(name, beats.as_slice())
        || contains_ignore_case(name, powerbeats.as_slice());
    proof {
        if name_match(name@) {
            let k = choose|k: int| 0 <= k < name_patterns().len() && contains_pattern(name@, name_patterns()[k]);
            assert(k == 0 || k == 1 || k == 2);
        }
    }
    r
}

/// What the host stack reports of a device.
#[derive(Debug)]
pub struct DeviceTraits {
    /// Vendor and product id of the modalias.
    pub modalias: Option<(u32, u32)>,
    /// Manufacturer data under `APPLE_CID`.
    pub apple_data: Option<Vec<u8>>,
    /// Advertised service UUIDs.
    pub uuids: Option<Vec<u128>>,
    /// Name and alias, as bytes.
    pub name: Option<Vec<u8>>,
    pub alias: Option<Vec<u8>>,
}

/// Recognition rule: modalias, then manufacturer data, then services, then
/// name and alias.
pub open spec fn recognized(t: DeviceTraits) -> bool {
    (t.modalias matches Some((v, p)) && v == APPLE_VID && known_pid(p))
    || (t.apple_data matches Some(d) && manufacturer_match(d@))
    || (t.uuids matches Some(u) && exists|k: int| 0 <= k < u@.len() && apple_service(u@[k]))
    || (t.name matches Some(n) && name_match(n@))
    || (t.alias matches Some(n) && name_match(n@))
}

fn any_apple_service(u: &Vec<u128>) -> (r: bool)
    ensures
        r == exists|k: int| 0 <= k < u@.len() && apple_service(u@[k]),
{
    let mut k: usize = 0;
    while k < u.len()
        invariant
            k <= u@.len(),
            forall|q: int| 0 <= q < k ==> !apple_service(u@[q]),
        decreases u@.len() - k,
    {
        let x = u[k];
        if x == 0x0000fd6f_0000_1000_8000_00805f9b34fb || x == 0x0000fd39_0000_1000_8000_00805f9b34fb || x
            == 0x0000fd32_0000_1000_8000_00805f9b34fb {
            return true;
        }
        k = k + 1;
    }
    false
}

/// Whether the device belongs to the supported family.
pub fn is_device_airpods(t: &DeviceTraits) -> (r: bool)
    ensures
        r == recognized(*t),
{
    if let Some((v, p)) = t.modalias {
        if v == APPLE_VID && is_known_pid(p) {
            return true;
        }
    }
    if let Some(d) = &t.apple_data {
        if check_manufacturer_data(d.as_slice()) {
            return true;
        }
    }
    if let Some(u) = &t.uuids {
        if any_apple_service(u) {
            return true;
        }
    }
    if let Some(n) = &t.name {
        if name_matches(n.as_slice()) {
            return true;
        }
    }
    if let Some(n) = &t.alias {
        if name_matches(n.as_slice()) {
            return true;
        }
    }
    false
}

} // verus!
