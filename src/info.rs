//! Device information: option queries and their answers.
use vstd::prelude::*;

use crate::bytes::{copy_range, push_all};
use crate::text::{decode_lossy, utf8_lossy};

verus! {

/// What a device reports about itself; absent values are empty.
pub struct DeviceInfo {
    pub device_name: String,
    pub firmware_version: String,
    pub serial_number: String,
    pub platform: String,
    pub mac_address: String,
}

impl DeviceInfo {
    /// A record with every value absent.
    pub fn empty() -> (d: DeviceInfo)
        ensures
            d.device_name@.len() == 0,
            d.firmware_version@.len() == 0,
            d.serial_number@.len() == 0,
            d.platform@.len() == 0,
            d.mac_address@.len() == 0,
    {
        DeviceInfo {
            device_name: String::new(),
            firmware_version: String::new(),
            serial_number: String::new(),
            platform: String::new(),
            mac_address: String::new(),
        }
    }
}

/// The position of the first `x` in `b` at or after `i`, or the length.
pub open spec fn find_from(b: Seq<u8>, x: u8, i: int) -> int
    decreases b.len() - i,
{
    if i < 0 || i >= b.len() { b.len() as int } else if b[i] == x { i } else { find_from(b, x, i + 1) }
}

/// `b` up to its first NUL byte.
pub open spec fn cut_at_nul(b: Seq<u8>) -> Seq<u8> {
    b.subrange(0, find_from(b, 0, 0))
}

/// The value of an option answer `<name>=<value>\0`: what follows the first
/// `=` (the whole answer where there is none), up to the first NUL.
pub open spec fn option_value_bytes(b: Seq<u8>) -> Seq<u8> {
    let eq = find_from(b, 0x3Du8, 0);
    let rest = if eq < b.len() { b.subrange(eq + 1, b.len() as int) } else { b };
    cut_at_nul(rest)
}

proof fn lemma_find_from_bounds(b: Seq<u8>, x: u8, i: int)
    requires
        0 <= i <= b.len(),
    ensures
        i <= find_from(b, x, i) <= b.len(),
        find_from(b, x, i) < b.len() ==> b[find_from(b, x, i)] == x,
    decreases b.len() - i,
{
    if i < b.len() && b[i] != x {
        lemma_find_from_bounds(b, x, i + 1);
    }
}

/// The position of the first `x` in `b`, or the length.
pub fn find_byte(b: &[u8], x: u8) -> (r: usize)
    ensures
        r == find_from(b@, x, 0),
{
    let mut i: usize = 0;
    while i < b.len() && b[i] != x
        invariant
            i <= b@.len(),
            find_from(b@, x, i as int) == find_from(b@, x, 0),
        decreases b@.len() - i,
    {
        i = i + 1;
    }
    i
}

/// The payload of an option query: the name and a NUL byte.
pub fn option_request(name: &[u8]) -> (r: Vec<u8>)
    ensures
        r@ == name@.push(0u8),
{
    let mut r: Vec<u8> = Vec::new();
    push_all(&mut r, name);
    r.push(0u8);
    r
}

/// The text of a reply payload, up to its first NUL byte.
pub fn reply_text(payload: &[u8]) -> (r: String)
    ensures
        r@ == utf8_lossy(cut_at_nul(payload@)),
{
    let n = find_byte(payload, 0);
    proof {
        lemma_find_from_bounds(payload@, 0, 0);
    }
    let cut = copy_range(payload, 0, n);
    decode_lossy(cut.as_slice())
}

/// The value of an option answer.
pub fn option_value(payload: &[u8]) -> (r: String)
    ensures
        r@ == utf8_lossy(option_value_bytes(payload@)),
{
    let eq = find_byte(payload, 0x3D);
    proof {
        lemma_find_from_bounds(payload@, 0x3Du8, 0);
    }
    if eq < payload.len() {
        let rest = copy_range(payload, eq + 1, payload.len());
        reply_text(rest.as_slice())
    } else {
        reply_text(payload)
    }
}

/// The options asked for the firmware version, in order, after the version
/// command gave nothing.
pub fn firmware_options() -> (r: Vec<&'static str>)
    ensures
        r@.len() == 4,
        r@[0]@ == "~ZKFPVersion"@,
        r@[1]@ == "FWVersion"@,
        r@[2]@ == "~FWVersion"@,
        r@[3]@ == "ZKFPVersion"@,
{
    vec!["~ZKFPVersion", "FWVersion", "~FWVersion", "ZKFPVersion"]
}

/// The options asked for the serial number, in order, after the serial
/// number command gave nothing.
pub fn serial_options() -> (r: Vec<&'static str>)
    ensures
        r@.len() == 3,
        r@[0]@ == "~SerialNumber"@,
        r@[1]@ == "SerialNumber"@,
        r@[2]@ == "SN"@,
{
    vec!["~SerialNumber", "SerialNumber", "SN"]
}

} // verus!
