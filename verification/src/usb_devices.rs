//! Reading the USB devices of the registry: every device entry of the
//! `IOUSBHostDevice` trees, one per (location, vendor, product), ordered by name.

use vstd::prelude::*;
use vstd::string::*;
use crate::ioreg::{IoregError, as_dict, entry_id, or_zero};
use crate::models::{USBDevice, device_display_name, opt_view};
use crate::plist_tree::{
    PlistDict, PlistNode, dict_get, dict_lookup, find_key, first_key_index, get_integer,
    get_string, parse_plist, plist_from_bytes, spec_get_integer, spec_get_string,
};
use crate::text::{chars_lt, dec, lemma_chars_lt_strict_total, push_digits, str_lt};

verus! {

/// The fields of a BCD-coded version: `major.minor`, or `major.minor.sub`
/// when the sub-minor digit is not zero.
pub open spec fn bcd_text(value: u16) -> Seq<char> {
    let major = (value >> 8u16) & 0xFFu16;
    let minor = (value >> 4u16) & 0xFu16;
    let sub = value & 0xFu16;
    if sub == 0 {
        dec(major as nat) + "."@ + dec(minor as nat)
    } else {
        dec(major as nat) + "."@ + dec(minor as nat) + "."@ + dec(sub as nat)
    }
}

pub fn format_bcd(value: u16) -> (r: String)
    ensures
        r@ == bcd_text(value),
{
    let major = (value >> 8u16) & 0xFFu16;
    let minor = (value >> 4u16) & 0xFu16;
    let sub = value & 0xFu16;
    let mut s = String::new();
    push_digits(&mut s, major as u64, 10);
    s.append(".");
    push_digits(&mut s, minor as u64, 10);
    if sub != 0 {
        s.append(".");
        push_digits(&mut s, sub as u64, 10);
    }
    s
}

/// The bus index of a location ID: its upper byte.
pub open spec fn bus_of_location(location_id: u32) -> i64 {
    (location_id >> 24u32) as i64
}

/// An integer read from the dictionary, doubled with 64-bit wrapping (the
/// registry counts these currents in units of 2 mA).
pub open spec fn doubled(v: Option<i64>) -> Option<i64> {
    match v {
        Some(x) => Some(x.wrapping_mul(2)),
        None => None,
    }
}

/// The device entries worth keeping: dictionaries with an ID and a vendor
/// name, a product name or a non-zero vendor ID.
pub open spec fn usb_device_dict(n: PlistNode) -> Option<PlistDict> {
    match as_dict(n) {
        Some(d) => if dict_lookup(d, "IORegistryEntryID"@) is Some && !(spec_get_string(
            d,
            "USB Vendor Name"@,
        ) is None && spec_get_string(d, "USB Product Name"@) is None && (or_zero(
            spec_get_integer(d, "idVendor"@),
        ) as u16) == 0) {
            Some(d)
        } else {
            None
        },
        None => None,
    }
}

/// `dev` holds what the registry dictionary `d` says of a USB device. Numbers
/// are truncated to the field's width; the bus index is the upper byte of
/// the location ID, when there is one.
pub open spec fn device_read_from(dev: USBDevice, d: PlistDict) -> bool {
    let location = spec_get_integer(d, "locationID"@);
    &&& dev.id == entry_id(d)
    &&& dev.location_id == or_zero(location) as u32
    &&& dev.vendor_id == or_zero(spec_get_integer(d, "idVendor"@)) as u16
    &&& dev.product_id == or_zero(spec_get_integer(d, "idProduct"@)) as u16
    &&& opt_view(dev.vendor_name) == spec_get_string(d, "USB Vendor Name"@)
    &&& opt_view(dev.product_name) == spec_get_string(d, "USB Product Name"@)
    &&& opt_view(dev.serial_number) == spec_get_string(d, "USB Serial Number"@)
    &&& opt_view(dev.usb_version) == match spec_get_integer(d, "bcdUSB"@) {
        Some(v) => Some(bcd_text(v as u16)),
        None => None,
    }
    &&& dev.speed_raw == match spec_get_integer(d, "Device Speed"@) {
        Some(v) => Some(v as u8),
        None => None,
    }
    &&& dev.bus_power_ma == doubled(spec_get_integer(d, "Bus Power Available"@))
    &&& dev.current_ma == doubled(spec_get_integer(d, "Requested Power"@))
    &&& dev.bus_index == match location {
        Some(v) => Some(bus_of_location(v as u32)),
        None => None,
    }
}

fn doubled_exec(v: Option<i64>) -> (r: Option<i64>)
    ensures
        r == doubled(v),
{
    match v {
        Some(x) => Some(x.wrapping_mul(2)),
        None => None,
    }
}

fn parse_usb_device(entry: &PlistNode) -> (r: Option<USBDevice>)
    ensures
        match r {
            Some(dev) => usb_device_dict(*entry) matches Some(d) && device_read_from(dev, d),
            None => usb_device_dict(*entry) is None,
        },
{
    let dict = match entry {
        PlistNode::Dictionary(d) => d,
        _ => {
            return None;
        },
    };
    let id = match dict_get(dict, "IORegistryEntryID") {
        Some(PlistNode::Integer(_, Some(u))) => *u,
        Some(_) => 0,
        None => {
            return None;
        },
    };
    let location = get_integer(dict, "locationID");
    let location_id: u32 = match location {
        Some(v) => #[verifier::truncate] (v as u32),
        None => 0,
    };
    let vendor_id: u16 = match get_integer(dict, "idVendor") {
        Some(v) => #[verifier::truncate] (v as u16),
        None => 0,
    };
    let product_id: u16 = match get_integer(dict, "idProduct") {
        Some(v) => #[verifier::truncate] (v as u16),
        None => 0,
    };
    let speed_raw: Option<u8> = match get_integer(dict, "Device Speed") {
        Some(v) => Some(#[verifier::truncate] (v as u8)),
        None => None,
    };
    let usb_version = match get_integer(dict, "bcdUSB") {
        Some(v) => Some(format_bcd(#[verifier::truncate] (v as u16))),
        None => None,
    };
    let bus_power = doubled_exec(get_integer(dict, "Bus Power Available"));
    let current = doubled_exec(get_integer(dict, "Requested Power"));
    let vendor_name = get_string(dict, "USB Vendor Name");
    let product_name = get_string(dict, "USB Product Name");
    // Skip devices without meaningful identification
    if vendor_name.is_none() && product_name.is_none() && vendor_id == 0 {
        return None;
    }
    let bus_index = match location {
        Some(_) => Some((location_id >> 24u32) as i64),
        None => None,
    };
    Some(
        USBDevice {
            id,
            location_id,
            vendor_id,
            product_id,
            vendor_name,
            product_name,
            serial_number: get_string(dict, "USB Serial Number"),
            usb_version,
            speed_raw,
            bus_power_ma: bus_power,
            current_ma: current,
            bus_index,
        },
    )
}


/// The device dictionaries of a registry tree, in preorder: the node itself,
/// then the trees of its `IORegistryEntryChildren` array.
pub open spec fn device_dicts(n: PlistNode) -> Seq<PlistDict>
    decreases n,
{
    let own = match usb_device_dict(n) {
        Some(d) => seq![d],
        None => seq![],
    };
    own + match n {
        PlistNode::Dictionary(d) => match first_key_index(d.keys@, "IORegistryEntryChildren"@) {
            Some(i) => if 0 <= i < d.values@.len() {
                match d.values@[i] {
                    PlistNode::Array(children) => device_dicts_of_list(children@),
                    _ => seq![],
                }
            } else {
                seq![]
            },
            None => seq![],
        },
        _ => seq![],
    }
}

/// The device dictionaries of a list of trees, tree after tree.
pub open spec fn device_dicts_of_list(ns: Seq<PlistNode>) -> Seq<PlistDict>
    decreases ns,
{
    if ns.len() == 0 {
        seq![]
    } else {
        device_dicts_of_list(ns.subrange(0, ns.len() - 1)) + device_dicts(ns[ns.len() - 1])
    }
}

/// `devs` holds, one for one, what the dictionaries `ds` say of devices.
pub open spec fn devices_read_from(devs: Seq<USBDevice>, ds: Seq<PlistDict>) -> bool {
    &&& devs.len() == ds.len()
    &&& forall|i: int| 0 <= i < devs.len() ==> device_read_from(#[trigger] devs[i], ds[i])
}

/// Recursively collect USB devices from the IORegistry tree.
/// Devices can be nested within hubs, so IORegistryEntryChildren is traversed.
fn collect_usb_devices_recursive(entry: &PlistNode, devices: &mut Vec<USBDevice>)
    ensures
        old(devices)@.len() <= final(devices)@.len(),
        final(devices)@.subrange(0, old(devices)@.len() as int) == old(devices)@,
        devices_read_from(
            final(devices)@.subrange(old(devices)@.len() as int, final(devices)@.len() as int),
            device_dicts(*entry),
        ),
    decreases entry,
{
    let ghost start = devices@;
    // Try to parse this entry as a USB device
    match parse_usb_device(entry) {
        Some(device) => devices.push(device),
        None => {},
    }
    let ghost own = match usb_device_dict(*entry) {
        Some(d) => seq![d],
        None => Seq::<PlistDict>::empty(),
    };
    assert(devices@.subrange(0, start.len() as int) =~= start);
    assert(devices_read_from(devices@.subrange(start.len() as int, devices@.len() as int), own));
    // Recursively process children
    if let PlistNode::Dictionary(dict) = entry {
        if let Some(k) = find_key(dict, "IORegistryEntryChildren") {
            if k < dict.values.len() {
                if let PlistNode::Array(children) = &dict.values[k] {
                    let n = children.len();
                    let mut j: usize = 0;
                    let ghost mid = devices@;
                    assert(device_dicts_of_list(children@.subrange(0, 0)) =~= Seq::<
                        PlistDict,
                    >::empty());
                    while j < n
                        invariant
                            n == children@.len(),
                            j <= n,
                            mid.len() == start.len() + own.len(),
                            mid.len() <= devices@.len(),
                            devices@.subrange(0, mid.len() as int) == mid,
                            mid.subrange(0, start.len() as int) == start,
                            devices_read_from(
                                mid.subrange(start.len() as int, mid.len() as int),
                                own,
                            ),
                            devices_read_from(
                                devices@.subrange(mid.len() as int, devices@.len() as int),
                                device_dicts_of_list(children@.subrange(0, j as int)),
                            ),
                            *entry == PlistNode::Dictionary(*dict),
                            k < dict.values@.len(),
                            dict.values@[k as int] == PlistNode::Array(*children),
                        decreases n - j,
                    {
                        let ghost before = devices@;
                        proof {
                            assert(decreases_to!(*entry => entry->Dictionary_0));
                            assert(entry->Dictionary_0 == *dict);
                            assert(decreases_to!(*dict => dict.values));
                            assert(decreases_to!(dict.values => dict.values@));
                            assert(decreases_to!(dict.values@ => dict.values@[k as int]));
                            assert(decreases_to!(dict.values@[k as int] => dict.values@[k as int]->Array_0));
                            assert(dict.values@[k as int]->Array_0 == *children);
                            assert(decreases_to!(*children => children@));
                            assert(decreases_to!(children@ => children@[j as int]));
                        }
                        collect_usb_devices_recursive(&children[j], devices);
                        proof {
                            let lst = children@.subrange(0, j + 1);
                            assert(lst.subrange(0, lst.len() - 1) =~= children@.subrange(
                                0,
                                j as int,
                            ));
                            assert(lst[lst.len() - 1] == children@[j as int]);
                            let prev = before.subrange(mid.len() as int, before.len() as int);
                            let new = devices@.subrange(before.len() as int, devices@.len() as int);
                            assert(devices@.subrange(mid.len() as int, devices@.len() as int)
                                =~= prev + new);
                            assert(devices@.subrange(0, mid.len() as int) =~= mid);
                        }
                        j = j + 1;
                    }
                    proof {
                        assert(children@.subrange(0, n as int) =~= children@);
                        assert(devices@.subrange(start.len() as int, devices@.len() as int)
                            =~= mid.subrange(start.len() as int, mid.len() as int)
                            + devices@.subrange(mid.len() as int, devices@.len() as int));
                        assert(devices@.subrange(0, start.len() as int) =~= start);
                    }
                    return;
                }
            }
        }
    }
    proof {
        assert(device_dicts(*entry) =~= own);
    }
}


/// What identifies one device: (location ID, vendor ID, product ID).
pub open spec fn device_key(d: USBDevice) -> (u32, u16, u16) {
    (d.location_id, d.vendor_id, d.product_id)
}

/// Lexicographic order on device keys.
pub open spec fn key_lt(a: (u32, u16, u16), b: (u32, u16, u16)) -> bool {
    a.0 < b.0 || (a.0 == b.0 && (a.1 < b.1 || (a.1 == b.1 && a.2 < b.2)))
}

/// The order of the device list: by display name, then by key.
pub open spec fn device_before(a: USBDevice, b: USBDevice) -> bool {
    chars_lt(device_display_name(a), device_display_name(b)) || (device_display_name(a)
        == device_display_name(b) && key_lt(device_key(a), device_key(b)))
}

/// Each device comes before the next one.
pub open spec fn devices_sorted(s: Seq<USBDevice>) -> bool {
    forall|i: int, j: int|
        #![trigger s[i], s[j]]
        0 <= i && j == i + 1 && j < s.len() ==> device_before(s[i], s[j])
}

/// Some device of `s` has key `k`.
pub open spec fn has_key(s: Seq<USBDevice>, k: (u32, u16, u16)) -> bool {
    exists|i: int| 0 <= i < s.len() && device_key(#[trigger] s[i]) == k
}

/// The devices that report a speed (actual devices, not interfaces), in order.
pub open spec fn with_speed(s: Seq<USBDevice>) -> Seq<USBDevice>
    decreases s.len(),
{
    if s.len() == 0 {
        seq![]
    } else {
        let rest = with_speed(s.drop_last());
        if s.last().speed_raw is Some {
            rest.push(s.last())
        } else {
            rest
        }
    }
}

/// The first device of each key, in order.
pub open spec fn first_per_key(s: Seq<USBDevice>) -> Seq<USBDevice>
    decreases s.len(),
{
    if s.len() == 0 {
        seq![]
    } else {
        let rest = first_per_key(s.drop_last());
        if has_key(rest, device_key(s.last())) {
            rest
        } else {
            rest.push(s.last())
        }
    }
}

/// The device list as shown: the devices that report a speed, the first of
/// each (location, vendor, product) only, ordered by display name and then by key.
pub open spec fn arranged(devs: Seq<USBDevice>, r: Seq<USBDevice>) -> bool {
    &&& r.to_multiset() == first_per_key(with_speed(devs)).to_multiset()
    &&& devices_sorted(r)
}

proof fn lemma_device_before_total(a: USBDevice, b: USBDevice)
    requires
        device_key(a) != device_key(b),
    ensures
        device_before(a, b) || device_before(b, a),
{
    lemma_chars_lt_strict_total(device_display_name(a), device_display_name(b));
}

fn key_of(d: &USBDevice) -> (r: (u32, u16, u16))
    ensures
        r == device_key(*d),
{
    (d.location_id, d.vendor_id, d.product_id)
}

fn exec_key_lt(a: (u32, u16, u16), b: (u32, u16, u16)) -> (r: bool)
    ensures
        r == key_lt(a, b),
{
    a.0 < b.0 || (a.0 == b.0 && (a.1 < b.1 || (a.1 == b.1 && a.2 < b.2)))
}

fn exec_device_before(a: &USBDevice, b: &USBDevice) -> (r: bool)
    ensures
        r == device_before(*a, *b),
{
    let na = a.display_name();
    let nb = b.display_name();
    if str_lt(na.as_str(), nb.as_str()) {
        return true;
    }
    na == nb && exec_key_lt(key_of(a), key_of(b))
}

fn exec_has_key(s: &Vec<USBDevice>, k: (u32, u16, u16)) -> (r: bool)
    ensures
        r == has_key(s@, k),
{
    let mut i: usize = 0;
    while i < s.len()
        invariant
            i <= s@.len(),
            forall|j: int| 0 <= j < i ==> device_key(#[trigger] s@[j]) != k,
        decreases s.len() - i,
    {
        let sk = key_of(&s[i]);
        if sk.0 == k.0 && sk.1 == k.1 && sk.2 == k.2 {
            assert(device_key(s@[i as int]) == k);
            return true;
        }
        i = i + 1;
    }
    false
}

fn insert_sorted(out: &mut Vec<USBDevice>, x: USBDevice)
    requires
        devices_sorted(old(out)@),
        !has_key(old(out)@, device_key(x)),
    ensures
        devices_sorted(final(out)@),
        final(out)@.to_multiset() == old(out)@.to_multiset().insert(x),
        forall|k: (u32, u16, u16)|
            has_key(final(out)@, k) <==> (has_key(old(out)@, k) || k == device_key(x)),
{
    let ghost s = out@;
    let mut pos: usize = 0;
    while pos < out.len()
        invariant
            out@ == s,
            pos <= s.len(),
            forall|j: int| 0 <= j < pos ==> !device_before(x, #[trigger] s[j]),
        ensures
            out@ == s,
            pos <= s.len(),
            forall|j: int| 0 <= j < pos ==> !device_before(x, #[trigger] s[j]),
            pos < s.len() ==> device_before(x, s[pos as int]),
        decreases out.len() - pos,
    {
        if exec_device_before(&x, &out[pos]) {
            break;
        }
        pos = pos + 1;
    }
    proof {
        if pos > 0 {
            assert(device_key(s[pos - 1]) != device_key(x));
            lemma_device_before_total(x, s[pos - 1]);
        }
        vstd::seq_lib::to_multiset_insert(s, pos as int, x);
    }
    out.insert(pos, x);
    proof {
        let t = out@;
        assert(t =~= s.insert(pos as int, x));
        assert forall|i: int, j: int|
            #![trigger t[i], t[j]]
            0 <= i && j == i + 1 && j < t.len() implies device_before(t[i], t[j]) by {
            if j < pos {
                assert(t[i] == s[i] && t[j] == s[j]);
            } else if j == pos {
                assert(t[j] == x && t[i] == s[i]);
            } else if i == pos {
                assert(t[i] == x && t[j] == s[pos as int]);
            } else {
                assert(t[i] == s[i - 1] && t[j] == s[j - 1]);
            }
        }
        assert forall|k: (u32, u16, u16)|
            has_key(t, k) <==> (has_key(s, k) || k == device_key(x)) by {
            if has_key(t, k) {
                let i = choose|i: int| 0 <= i < t.len() && device_key(#[trigger] t[i]) == k;
                if i < pos {
                    assert(t[i] == s[i]);
                } else if i > pos {
                    assert(t[i] == s[i - 1]);
                }
            }
            if has_key(s, k) {
                let i = choose|i: int| 0 <= i < s.len() && device_key(#[trigger] s[i]) == k;
                if i < pos {
                    assert(t[i] == s[i]);
                } else {
                    assert(t[i + 1] == s[i]);
                }
            }
            if k == device_key(x) {
                assert(t[pos as int] == x);
            }
        }
    }
}

/// Keeps the devices that report a speed (the actual device entries, not
/// their interfaces), only the first of each (location, vendor, product), and
/// orders them by display name, then by that key.
pub fn arrange_usb_devices(devices: Vec<USBDevice>) -> (r: Vec<USBDevice>)
    ensures
        arranged(devices@, r@),
{
    let ghost orig = devices@;
    let mut rest = devices;
    let mut out: Vec<USBDevice> = Vec::new();
    let mut i: usize = 0;
    let n = rest.len();
    assert(orig.take(0) =~= Seq::<USBDevice>::empty());
    proof {
        broadcast use vstd::seq_lib::group_to_multiset_ensures;

        assert(out@ =~= Seq::<USBDevice>::empty());
        assert(first_per_key(with_speed(orig.take(0))) =~= Seq::<USBDevice>::empty());
    }
    assert(orig.skip(0) =~= orig);
    while i < n
        invariant
            n == orig.len(),
            i <= n,
            rest@ == orig.skip(i as int),
            devices_sorted(out@),
            out@.to_multiset() == first_per_key(with_speed(orig.take(i as int))).to_multiset(),
            forall|k: (u32, u16, u16)|
                has_key(out@, k) <==> has_key(first_per_key(with_speed(orig.take(i as int))), k),
        decreases n - i,
    {
        let ghost p = orig.take(i as int);
        let ghost fk = first_per_key(with_speed(p));
        let x = rest.remove(0);
        assert(x == orig[i as int]);
        assert(rest@ =~= orig.skip(i + 1));
        assert(orig.take(i + 1).drop_last() =~= p);
        assert(orig.take(i + 1).last() == x);
        let ghost ws = with_speed(p);
        proof {
            if x.speed_raw is Some {
                assert(with_speed(orig.take(i + 1)) == ws.push(x));
                assert(ws.push(x).drop_last() =~= ws);
                if has_key(fk, device_key(x)) {
                    assert(first_per_key(ws.push(x)) == fk);
                } else {
                    assert(first_per_key(ws.push(x)) == fk.push(x));
                }
            } else {
                assert(with_speed(orig.take(i + 1)) == ws);
            }
        }
        if x.speed_raw.is_some() {
            let k = key_of(&x);
            if !exec_has_key(&out, k) {
                proof {
                    vstd::seq_lib::to_multiset_build(fk, x);
                }
                insert_sorted(&mut out, x);
                proof {
                    assert forall|kk: (u32, u16, u16)|
                        has_key(out@, kk) <==> has_key(fk.push(x), kk) by {
                        if has_key(fk.push(x), kk) {
                            let j = choose|j: int|
                                0 <= j < fk.push(x).len() && device_key(#[trigger] fk.push(x)[j])
                                    == kk;
                            if j < fk.len() {
                                assert(fk.push(x)[j] == fk[j]);
                            }
                        }
                        if has_key(fk, kk) {
                            let j = choose|j: int|
                                0 <= j < fk.len() && device_key(#[trigger] fk[j]) == kk;
                            assert(fk.push(x)[j] == fk[j]);
                        }
                        if kk == device_key(x) {
                            assert(fk.push(x)[fk.len() as int] == x);
                        }
                    }
                }
            }
        }
        i = i + 1;
    }
    assert(orig.take(n as int) =~= orig);
    out
}


/// The USB devices of a parsed `ioreg -c IOUSBHostDevice` array: the device
/// entries of every tree, arranged as `arranged` says.
pub fn usb_devices_from_root(root: &PlistNode) -> (r: Vec<USBDevice>)
    ensures
        exists|found: Seq<USBDevice>|
            devices_read_from(found, device_dicts_of_list(crate::ioreg::array_entries(*root)))
                && #[trigger] arranged(found, r@),
{
    let mut devices: Vec<USBDevice> = Vec::new();
    if let PlistNode::Array(entries) = root {
        let n = entries.len();
        let mut j: usize = 0;
        assert(device_dicts_of_list(entries@.subrange(0, 0)) =~= Seq::<PlistDict>::empty());
        while j < n
            invariant
                n == entries@.len(),
                j <= n,
                devices_read_from(devices@, device_dicts_of_list(entries@.subrange(0, j as int))),
            decreases n - j,
        {
            let ghost before = devices@;
            collect_usb_devices_recursive(&entries[j], &mut devices);
            proof {
                let lst = entries@.subrange(0, j + 1);
                assert(lst.subrange(0, lst.len() - 1) =~= entries@.subrange(0, j as int));
                assert(lst[lst.len() - 1] == entries@[j as int]);
                assert(devices@ =~= before + devices@.subrange(
                    before.len() as int,
                    devices@.len() as int,
                ));
            }
            j = j + 1;
        }
        assert(entries@.subrange(0, n as int) =~= entries@);
    } else {
        assert(device_dicts_of_list(crate::ioreg::array_entries(*root)) =~= Seq::<
            PlistDict,
        >::empty());
    }
    let ghost found = devices@;
    let r = arrange_usb_devices(devices);
    assert(arranged(found, r@));
    r
}

/// The USB devices in the output of `ioreg -c IOUSBHostDevice -r -l -a`: the
/// device entries of every tree, arranged as `arranged` says. A failed run or
/// empty output yields no device; output that is not a property list is an error.
pub fn usb_devices_from_ioreg_output(success: bool, stdout: &[u8]) -> (r: Result<
    Vec<USBDevice>,
    IoregError,
>)
    ensures
        (!success || stdout@.len() == 0) ==> (r matches Ok(v) && v@.len() == 0),
        (success && stdout@.len() > 0) ==> (r is Err <==> plist_from_bytes(stdout@) is None),
        (success && stdout@.len() > 0) ==> match (r, plist_from_bytes(stdout@)) {
            (Ok(v), Some(root)) => exists|found: Seq<USBDevice>|
                devices_read_from(found, device_dicts_of_list(crate::ioreg::array_entries(root)))
                    && #[trigger] arranged(found, v@),
            _ => true,
        },
{
    if !success || stdout.len() == 0 {
        return Ok(Vec::new());
    }
    match parse_plist(stdout) {
        Some(value) => {
            let v = usb_devices_from_root(&value);
            let r: Result<Vec<USBDevice>, IoregError> = Ok(v);
            proof {
                let ds = device_dicts_of_list(crate::ioreg::array_entries(value));
                let found = choose|f: Seq<USBDevice>|
                    devices_read_from(f, ds) && #[trigger] arranged(f, v@);
                assert(arranged(found, r->Ok_0@));
            }
            r
        },
        None => Err(IoregError::ParseFailed),
    }
}

} // verus!
