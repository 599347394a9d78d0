//! Planning of a network scan for devices: the subnets, addresses and ports
//! to probe, and the summary of a device that answered.
use vstd::prelude::*;

use crate::info::DeviceInfo;
use crate::text::{dec, push_decimal, push_char};

verus! {

/// Probes in flight at most.
pub const MAX_CONCURRENT: usize = 100;

/// Milliseconds allowed to the probe that finds a device's main port.
pub const MAIN_PROBE_MS: u64 = 300;

/// Milliseconds allowed to each further port probe.
pub const PORT_PROBE_MS: u64 = 200;

/// Seconds allowed to the device-information fetch of a found device.
pub const INFO_FETCH_SECS: u64 = 3;

/// A /24 subnet by its first three octets.
pub type Subnet = (u8, u8, u8);

/// The subnets scanned besides the local one.
pub open spec fn common_subnets() -> Seq<Subnet> {
    seq![(192u8, 168u8, 1u8), (192u8, 168u8, 0u8), (192u8, 168u8, 2u8), (10u8, 0u8, 0u8), (10u8, 0u8, 1u8), (172u8, 16u8, 0u8)]
}

/// The ports of the device protocol, in probing order.
pub open spec fn device_ports() -> Seq<u16> {
    seq![4370u16, 4360u16, 5005u16, 5010u16, 89u16]
}

/// The web and service ports also probed on a device.
pub open spec fn web_ports() -> Seq<u16> {
    seq![80u16, 8080u16, 443u16, 8443u16]
}

/// Every probed port, in increasing order.
pub open spec fn all_ports_sorted() -> Seq<u16> {
    seq![80u16, 89u16, 443u16, 4360u16, 4370u16, 5005u16, 5010u16, 8080u16, 8443u16]
}

/// `s` without the elements equal to `x`, in order.
pub open spec fn without<T>(s: Seq<T>, x: T) -> Seq<T>
    decreases s.len(),
{
    if s.len() == 0 {
        Seq::empty()
    } else if s.last() == x {
        without(s.drop_last(), x)
    } else {
        without(s.drop_last(), x).push(s.last())
    }
}

/// The elements of `s` that occur in `keep`, in order.
pub open spec fn kept(s: Seq<u16>, keep: Seq<u16>) -> Seq<u16>
    decreases s.len(),
{
    if s.len() == 0 {
        Seq::empty()
    } else if keep.contains(s.last()) {
        kept(s.drop_last(), keep).push(s.last())
    } else {
        kept(s.drop_last(), keep)
    }
}

/// The subnets to scan: the local one, then the common ones that differ from it.
pub open spec fn scan_subnets(local: Subnet) -> Seq<Subnet> {
    seq![local] + without(common_subnets(), local)
}

/// A found device.
pub struct BiometricDevice {
    pub ip: String,
    pub mac: String,
    /// The open ports, in increasing order.
    pub open_ports: Vec<u16>,
    pub device_name: Option<String>,
    pub firmware_version: Option<String>,
    pub serial_number: Option<String>,
}

/// `r` is the value `t` where that is non-empty, else none.
pub open spec fn present(t: Seq<char>, r: Option<String>) -> bool {
    match r {
        Some(s) => t.len() > 0 && s@ == t,
        None => t.len() == 0,
    }
}

/// The subnets to scan, given the local one.
pub fn subnets_to_scan(local: Subnet) -> (r: Vec<Subnet>)
    ensures
        r@ == scan_subnets(local),
{
    let common: Vec<Subnet> = vec![(192, 168, 1), (192, 168, 0), (192, 168, 2), (10, 0, 0), (10, 0, 1), (172, 16, 0)];
    assert(common@ =~= common_subnets());
    let mut r: Vec<Subnet> = Vec::new();
    r.push(local);
    let mut i: usize = 0;
    while i < common.len()
        invariant
            i <= common@.len(),
            common@ == common_subnets(),
            r@ == seq![local] + without(common@.subrange(0, i as int), local),
        decreases common@.len() - i,
    {
        let s = common[i];
        proof {
            assert(common@.subrange(0, i + 1).drop_last() =~= common@.subrange(0, i as int));
        }
        if !(s.0 == local.0 && s.1 == local.1 && s.2 == local.2) {
            r.push(s);
        }
        i = i + 1;
        proof {
            assert(r@ =~= seq![local] + without(common@.subrange(0, i as int), local));
        }
    }
    assert(common@.subrange(0, common@.len() as int) =~= common@);
    r
}

/// The address of host `host` in a subnet, as `a.b.c.host`.
pub fn host_address(subnet: Subnet, host: u8) -> (r: String)
    ensures
        r@ == dec(subnet.0 as nat) + seq!['.'] + dec(subnet.1 as nat) + seq!['.'] + dec(subnet.2 as nat) + seq!['.']
            + dec(host as nat),
{
    let mut s = String::new();
    push_decimal(&mut s, subnet.0 as u32);
    push_char(&mut s, '.');
    push_decimal(&mut s, subnet.1 as u32);
    push_char(&mut s, '.');
    push_decimal(&mut s, subnet.2 as u32);
    push_char(&mut s, '.');
    push_decimal(&mut s, host as u32);
    assert(s@ =~= dec(subnet.0 as nat) + seq!['.'] + dec(subnet.1 as nat) + seq!['.'] + dec(subnet.2 as nat) + seq!['.']
        + dec(host as nat));
    s
}

/// The ports of the device protocol, in probing order.
pub fn zkteco_ports() -> (r: Vec<u16>)
    ensures
        r@ == device_ports(),
{
    let r: Vec<u16> = vec![4370, 4360, 5005, 5010, 89];
    assert(r@ =~= device_ports());
    r
}

/// The ports probed after the main port `main` answered: the other protocol
/// ports, then the web ports.
pub fn follow_up_ports(main: u16) -> (r: Vec<u16>)
    ensures
        r@ == without(device_ports() + web_ports(), main),
{
    let all: Vec<u16> = vec![4370, 4360, 5005, 5010, 89, 80, 8080, 443, 8443];
    assert(all@ =~= device_ports() + web_ports());
    let mut r: Vec<u16> = Vec::new();
    let mut i: usize = 0;
    while i < all.len()
        invariant
            i <= all@.len(),
            all@ == device_ports() + web_ports(),
            r@ == without(all@.subrange(0, i as int), main),
        decreases all@.len() - i,
    {
        let p = all[i];
        proof {
            assert(all@.subrange(0, i + 1).drop_last() =~= all@.subrange(0, i as int));
        }
        if p != main {
            r.push(p);
        }
        i = i + 1;
    }
    assert(all@.subrange(0, all@.len() as int) =~= all@);
    r
}

/// Whether `p` occurs in `v`.
pub fn contains_port(v: &Vec<u16>, p: u16) -> (r: bool)
    ensures
        r == v@.contains(p),
{
    let mut j: usize = 0;
    while j < v.len()
        invariant
            j <= v@.len(),
            forall|k: int| 0 <= k < j ==> v@[k] != p,
        decreases v@.len() - j,
    {
        if v[j] == p {
            assert(v@[j as int] == p);
            return true;
        }
        j = j + 1;
    }
    false
}

/// The open ports in increasing order: the probed ports, in increasing order,
/// that occur in `open`.
pub fn sorted_open_ports(open: &Vec<u16>) -> (r: Vec<u16>)
    ensures
        r@ == kept(all_ports_sorted(), open@),
{
    let all: Vec<u16> = vec![80, 89, 443, 4360, 4370, 5005, 5010, 8080, 8443];
    assert(all@ =~= all_ports_sorted());
    let mut r: Vec<u16> = Vec::new();
    let mut i: usize = 0;
    while i < all.len()
        invariant
            i <= all@.len(),
            all@ == all_ports_sorted(),
            r@ == kept(all@.subrange(0, i as int), open@),
        decreases all@.len() - i,
    {
        let p = all[i];
        proof {
            assert(all@.subrange(0, i + 1).drop_last() =~= all@.subrange(0, i as int));
        }
        if contains_port(open, p) {
            r.push(p);
        }
        i = i + 1;
    }
    assert(all@.subrange(0, all@.len() as int) =~= all@);
    r
}

/// `Some(t)` where `t` is non-empty, else `None`.
fn non_empty(t: &String) -> (r: Option<String>)
    ensures
        present(t@, r),
{
    if t.as_str().unicode_len() == 0 { None } else { Some(t.clone()) }
}

impl BiometricDevice {
    /// The summary of a device found at `ip`, with what its information fetch
    /// gave, if anything; its MAC address is not known from a scan.
    pub fn found(ip: String, open_ports: &Vec<u16>, info: Option<&DeviceInfo>) -> (d: BiometricDevice)
        ensures
            d.ip@ == ip@,
            d.mac@ == "Unknown"@,
            d.open_ports@ == kept(all_ports_sorted(), open_ports@),
            info is None ==> d.device_name is None && d.firmware_version is None && d.serial_number is None,
            info is Some ==> present(info->Some_0.device_name@, d.device_name)
                && present(info->Some_0.firmware_version@, d.firmware_version)
                && present(info->Some_0.serial_number@, d.serial_number),
    {
        let (device_name, firmware_version, serial_number) = match info {
            Some(i) => (non_empty(&i.device_name), non_empty(&i.firmware_version), non_empty(&i.serial_number)),
            None => (None, None, None),
        };
        BiometricDevice {
            ip,
            mac: String::from_str("Unknown"),
            open_ports: sorted_open_ports(open_ports),
            device_name,
            firmware_version,
            serial_number,
        }
    }
}

} // verus!
