//! Reading port controllers, power sources, PD identities and USB devices out
//! of the property lists that `ioreg -r -l -a` prints.

use vstd::prelude::*;
use vstd::string::*;
use crate::models::{PDEndpoint, PDIdentity, PowerOption, PowerSource, USBCPort, endpoint_of, opt_view};
use crate::plist_tree::{
    PlistDict, PlistNode, dict_get, dict_lookup, get_boolean, get_integer, get_string,
    get_string_array, parse_plist, plist_from_bytes, spec_get_boolean, spec_get_integer,
    spec_get_string, spec_get_string_array, unsigned_of,
};
use crate::registry_path::{bus_index_from_chain, find_ancestry, port_bus_index};
use crate::text::{str_starts_with, views};

verus! {

/// Why reading a registry class failed.
#[derive(Debug, Clone, Copy, PartialEq, Eq, Structural)]
pub enum IoregError {
    /// The output of `ioreg` is not a property list.
    ParseFailed,
}

/// The IOKit classes of USB-C / MagSafe port controllers:
/// AppleHPMInterfaceType10/11/12 (M3+) and AppleTCControllerType10 (M1/M2).
pub fn port_controller_classes() -> (r: Vec<&'static str>)
    ensures
        r@.len() == 4,
        r@[0]@ == "AppleHPMInterfaceType10"@,
        r@[1]@ == "AppleHPMInterfaceType11"@,
        r@[2]@ == "AppleHPMInterfaceType12"@,
        r@[3]@ == "AppleTCControllerType10"@,
{
    let mut v = Vec::new();
    v.push("AppleHPMInterfaceType10");
    v.push("AppleHPMInterfaceType11");
    v.push("AppleHPMInterfaceType12");
    v.push("AppleTCControllerType10");
    v
}

/// The dictionary of a node, if it is one.
pub open spec fn as_dict(n: PlistNode) -> Option<PlistDict> {
    match n {
        PlistNode::Dictionary(d) => Some(d),
        _ => None,
    }
}

/// The characters of a string node; empty for anything else.
pub open spec fn string_or_empty(n: Option<PlistNode>) -> Seq<char> {
    match n {
        Some(PlistNode::String(s)) => s@,
        _ => Seq::empty(),
    }
}

/// The registry entry ID: the unsigned reading of the `IORegistryEntryID` node, else 0.
pub open spec fn entry_id(d: PlistDict) -> u64 {
    match dict_lookup(d, "IORegistryEntryID"@) {
        Some(n) => match unsigned_of(n) {
            Some(v) => v,
            None => 0,
        },
        None => 0,
    }
}

/// An entry that can be read as a port: a dictionary with an ID, a name and a class.
pub open spec fn port_dict(n: PlistNode) -> Option<PlistDict> {
    match as_dict(n) {
        Some(d) => if dict_lookup(d, "IORegistryEntryID"@) is Some && dict_lookup(
            d,
            "IORegistryEntryName"@,
        ) is Some && dict_lookup(d, "IOObjectClass"@) is Some {
            Some(d)
        } else {
            None
        },
        None => None,
    }
}

/// `p` holds what the registry dictionary `d` says of a port, and the bus
/// index that the entries above it in the registry tree give it (see
/// `port_bus_index`; `registry` is `None` when the tree could not be read).
pub open spec fn port_read_from(p: USBCPort, d: PlistDict, registry: Option<PlistNode>) -> bool {
    &&& p.id == entry_id(d)
    &&& p.service_name@ == string_or_empty(dict_lookup(d, "IORegistryEntryName"@))
    &&& p.class_name@ == string_or_empty(dict_lookup(d, "IOObjectClass"@))
    &&& opt_view(p.port_description) == spec_get_string(d, "PortDescription"@)
    &&& opt_view(p.port_type_description) == spec_get_string(d, "PortTypeDescription"@)
    &&& p.port_number == spec_get_integer(d, "PortNumber"@)
    &&& p.connection_active == spec_get_boolean(d, "ConnectionActive"@)
    &&& p.active_cable == spec_get_boolean(d, "ActiveCable"@)
    &&& p.optical_cable == spec_get_boolean(d, "OpticalCable"@)
    &&& p.usb_active == spec_get_boolean(d, "IOAccessoryUSBActive"@)
    &&& p.super_speed_active == spec_get_boolean(d, "IOAccessoryUSBSuperSpeedActive"@)
    &&& p.usb_mode_type == spec_get_integer(d, "IOAccessoryUSBModeType"@)
    &&& opt_view(p.usb_connect_string) == spec_get_string(d, "IOAccessoryUSBConnectString"@)
    &&& views(p.transports_supported@) == spec_get_string_array(d, "TransportsSupported"@)
    &&& views(p.transports_active@) == spec_get_string_array(d, "TransportsActive"@)
    &&& views(p.transports_provisioned@) == spec_get_string_array(d, "TransportsProvisioned"@)
    &&& p.plug_orientation == spec_get_integer(d, "PlugOrientation"@)
    &&& p.plug_event_count == spec_get_integer(d, "Plug Event Count"@)
    &&& p.connection_count == spec_get_integer(d, "ConnectionCount"@)
    &&& p.overcurrent_count == spec_get_integer(d, "Overcurrent Count"@)
    &&& p.bus_index == port_bus_index(registry, entry_id(d))
}

/// A physical port has a port type description and a service name that starts with `Port-`.
pub open spec fn physical_port(p: USBCPort) -> bool {
    &&& p.port_type_description is Some
    &&& "Port-"@.len() <= p.service_name@.len()
    &&& p.service_name@.subrange(0, "Port-"@.len() as int) == "Port-"@
}

/// The same test on a registry dictionary.
pub open spec fn physical_port_dict(d: PlistDict) -> bool {
    let name = string_or_empty(dict_lookup(d, "IORegistryEntryName"@));
    &&& spec_get_string(d, "PortTypeDescription"@) is Some
    &&& "Port-"@.len() <= name.len()
    &&& name.subrange(0, "Port-"@.len() as int) == "Port-"@
}

fn string_node_or_empty(n: &PlistNode) -> (r: String)
    ensures
        r@ == string_or_empty(Some(*n)),
{
    match n {
        PlistNode::String(s) => s.clone(),
        _ => String::new(),
    }
}

fn unsigned_or_zero(n: &PlistNode) -> (r: u64)
    ensures
        r == match unsigned_of(*n) {
            Some(v) => v,
            None => 0,
        },
{
    match n {
        PlistNode::Integer(_, Some(u)) => *u,
        _ => 0,
    }
}

pub fn is_physical_port(port: &USBCPort) -> (r: bool)
    ensures
        r == physical_port(*port),
{
    // Real ports have PortTypeDescription and service name starts with "Port-"
    let has_port_type = port.port_type_description.is_some();
    let is_named_port = str_starts_with(port.service_name.as_str(), "Port-");
    has_port_type && is_named_port
}

/// Reads a port controller entry; its bus index comes from the registry tree.
pub fn parse_usbc_port(entry: &PlistNode, registry: &Option<PlistNode>) -> (r: Option<USBCPort>)
    ensures
        match r {
            Some(p) => port_dict(*entry) matches Some(d) && port_read_from(p, d, *registry),
            None => port_dict(*entry) is None,
        },
{
    let dict = match entry {
        PlistNode::Dictionary(d) => d,
        _ => {
            return None;
        },
    };
    let id = match dict_get(dict, "IORegistryEntryID") {
        Some(n) => unsigned_or_zero(n),
        None => {
            return None;
        },
    };
    let service_name = match dict_get(dict, "IORegistryEntryName") {
        Some(n) => string_node_or_empty(n),
        None => {
            return None;
        },
    };
    let class_name = match dict_get(dict, "IOObjectClass") {
        Some(n) => string_node_or_empty(n),
        None => {
            return None;
        },
    };
    let bus_index = match registry {
        Some(tree) => match find_ancestry(tree, id) {
            Some(chain) => bus_index_from_chain(&chain),
            None => None,
        },
        None => None,
    };
    Some(
        USBCPort {
            id,
            service_name,
            class_name,
            port_description: get_string(dict, "PortDescription"),
            port_type_description: get_string(dict, "PortTypeDescription"),
            port_number: get_integer(dict, "PortNumber"),
            connection_active: get_boolean(dict, "ConnectionActive"),
            active_cable: get_boolean(dict, "ActiveCable"),
            optical_cable: get_boolean(dict, "OpticalCable"),
            usb_active: get_boolean(dict, "IOAccessoryUSBActive"),
            super_speed_active: get_boolean(dict, "IOAccessoryUSBSuperSpeedActive"),
            usb_mode_type: get_integer(dict, "IOAccessoryUSBModeType"),
            usb_connect_string: get_string(dict, "IOAccessoryUSBConnectString"),
            transports_supported: get_string_array(dict, "TransportsSupported"),
            transports_active: get_string_array(dict, "TransportsActive"),
            transports_provisioned: get_string_array(dict, "TransportsProvisioned"),
            plug_orientation: get_integer(dict, "PlugOrientation"),
            plug_event_count: get_integer(dict, "Plug Event Count"),
            connection_count: get_integer(dict, "ConnectionCount"),
            overcurrent_count: get_integer(dict, "Overcurrent Count"),
            bus_index,
        },
    )
}

/// The dictionaries of the physical ports among the entries, in order.
pub open spec fn physical_port_dicts(entries: Seq<PlistNode>) -> Seq<PlistDict>
    decreases entries.len(),
{
    if entries.len() == 0 {
        seq![]
    } else {
        let rest = physical_port_dicts(entries.drop_last());
        match port_dict(entries.last()) {
            Some(d) => if physical_port_dict(d) {
                rest.push(d)
            } else {
                rest
            },
            None => rest,
        }
    }
}

/// The port dictionaries that one `ioreg -c <class>` run yields: none when the
/// run failed or printed nothing, or when its output is not a property list.
pub open spec fn ioreg_port_dicts(success: bool, stdout: Seq<u8>) -> Seq<PlistDict> {
    if !success || stdout.len() == 0 {
        seq![]
    } else {
        match plist_from_bytes(stdout) {
            Some(root) => physical_port_dicts(array_entries(root)),
            None => seq![],
        }
    }
}

/// The registry tree in the output of `ioreg -a -p IOService`: `None` when the
/// run failed or printed nothing, or when its output is not a property list.
pub fn registry_tree_from_ioreg_output(success: bool, stdout: &[u8]) -> (r: Option<PlistNode>)
    ensures
        r == (if !success || stdout@.len() == 0 {
            None
        } else {
            plist_from_bytes(stdout@)
        }),
{
    if !success || stdout.len() == 0 {
        return None;
    }
    parse_plist(stdout)
}

/// The physical ports among the entries of a parsed `ioreg -c <class>` array,
/// in order, each with the bus index that the registry tree gives it.
pub fn ports_from_root(root: &PlistNode, registry: &Option<PlistNode>) -> (r: Vec<USBCPort>)
    ensures
        r@.len() == physical_port_dicts(array_entries(*root)).len(),
        forall|i: int|
            0 <= i < r@.len() ==> port_read_from(
                #[trigger] r@[i],
                physical_port_dicts(array_entries(*root))[i],
                *registry,
            ),
{
    let mut all_ports: Vec<USBCPort> = Vec::new();
    let entries = match root {
        PlistNode::Array(entries) => entries,
        _ => {
            return all_ports;
        },
    };
    let n = entries.len();
    let mut i: usize = 0;
    while i < n
        invariant
            n == entries@.len(),
            i <= n,
            array_entries(*root) == entries@,
            all_ports@.len() == physical_port_dicts(entries@.take(i as int)).len(),
            forall|j: int|
                0 <= j < all_ports@.len() ==> port_read_from(
                    #[trigger] all_ports@[j],
                    physical_port_dicts(entries@.take(i as int))[j],
                    *registry,
                ),
        decreases n - i,
    {
        assert(entries@.take(i + 1).drop_last() =~= entries@.take(i as int));
        assert(entries@.take(i + 1).last() == entries@[i as int]);
        match parse_usbc_port(&entries[i], registry) {
            Some(port) => {
                // Only include if it's a real physical port
                if is_physical_port(&port) {
                    all_ports.push(port);
                }
            },
            None => {},
        }
        i = i + 1;
    }
    assert(entries@.take(n as int) =~= entries@);
    all_ports
}

/// The physical ports in the output of one `ioreg -c <class> -r -l -a` run.
/// A run that failed or printed nothing, or output that is not a property
/// list, yields no port (the class may not exist on this system).
pub fn ports_from_ioreg_output(success: bool, stdout: &[u8], registry: &Option<PlistNode>) -> (r:
    Vec<USBCPort>)
    ensures
        r@.len() == ioreg_port_dicts(success, stdout@).len(),
        forall|i: int|
            0 <= i < r@.len() ==> port_read_from(
                #[trigger] r@[i],
                ioreg_port_dicts(success, stdout@)[i],
                *registry,
            ),
{
    if !success || stdout.len() == 0 {
        return Vec::new();
    }
    match parse_plist(stdout) {
        Some(value) => ports_from_root(&value, registry),
        None => Vec::new(),
    }
}

/// The value of an optional integer, else 0.
pub open spec fn or_zero(v: Option<i64>) -> i64 {
    match v {
        Some(x) => x,
        None => 0,
    }
}

/// `x / 1000`, rounded toward zero (Rust's integer division).
pub open spec fn div_thousand_toward_zero(x: i64) -> i64 {
    if x >= 0 {
        (x / 1000) as i64
    } else {
        (-((-(x as int)) / 1000)) as i64
    }
}

/// A power option read from its dictionary: voltage, current and power
/// (default 0 each, the power computed as voltage times current / 1000 with
/// 64-bit wrapping multiplication when absent); none unless the voltage is positive.
pub open spec fn power_option_of(n: PlistNode) -> Option<PowerOption> {
    match as_dict(n) {
        Some(d) => {
            let v = or_zero(spec_get_integer(d, "Voltage (mV)"@));
            let c = or_zero(spec_get_integer(d, "Max Current (mA)"@));
            let p = match spec_get_integer(d, "Max Power (mW)"@) {
                Some(p) => p,
                None => div_thousand_toward_zero(v.wrapping_mul(c)),
            };
            if v <= 0 {
                None
            } else {
                Some(PowerOption { voltage_mv: v, max_current_ma: c, max_power_mw: p })
            }
        },
        None => None,
    }
}

/// The options read from a list of nodes, skipping those that are not options.
pub open spec fn power_options_of_nodes(nodes: Seq<PlistNode>) -> Seq<PowerOption>
    decreases nodes.len(),
{
    if nodes.len() == 0 {
        seq![]
    } else {
        let rest = power_options_of_nodes(nodes.drop_last());
        match power_option_of(nodes.last()) {
            Some(o) => rest.push(o),
            None => rest,
        }
    }
}

/// The options of a `PowerSourceOptions` node: none unless it is an array.
pub open spec fn power_options_of(n: Option<PlistNode>) -> Seq<PowerOption> {
    match n {
        Some(PlistNode::Array(a)) => power_options_of_nodes(a@),
        _ => seq![],
    }
}

fn div_thousand(x: i64) -> (r: i64)
    ensures
        r == div_thousand_toward_zero(x),
{
    if x >= 0 {
        x / 1000
    } else {
        let m = crate::text::magnitude(x);
        let q = m / 1000;
        assert(q < 0x8000_0000_0000_0000u64);
        -(q as i64)
    }
}

fn parse_power_option(value: &PlistNode) -> (r: Option<PowerOption>)
    ensures
        r == power_option_of(*value),
{
    let dict = match value {
        PlistNode::Dictionary(d) => d,
        _ => {
            return None;
        },
    };
    let voltage_mv = match get_integer(dict, "Voltage (mV)") {
        Some(v) => v,
        None => 0,
    };
    let max_current_ma = match get_integer(dict, "Max Current (mA)") {
        Some(v) => v,
        None => 0,
    };
    let max_power_mw = match get_integer(dict, "Max Power (mW)") {
        Some(v) => v,
        None => div_thousand(voltage_mv.wrapping_mul(max_current_ma)),
    };
    if voltage_mv <= 0 {
        return None;
    }
    Some(PowerOption { voltage_mv, max_current_ma, max_power_mw })
}

fn parse_power_options(value: Option<&PlistNode>) -> (r: Vec<PowerOption>)
    ensures
        r@ == power_options_of(
            match value {
                Some(v) => Some(*v),
                None => None,
            },
        ),
{
    let mut out: Vec<PowerOption> = Vec::new();
    let array = match value {
        Some(PlistNode::Array(a)) => a,
        _ => {
            return out;
        },
    };
    let n = array.len();
    let mut i: usize = 0;
    assert(array@.take(0) =~= Seq::<PlistNode>::empty());
    while i < n
        invariant
            n == array@.len(),
            i <= n,
            out@ == power_options_of_nodes(array@.take(i as int)),
        decreases n - i,
    {
        assert(array@.take(i + 1).drop_last() =~= array@.take(i as int));
        match parse_power_option(&array[i]) {
            Some(o) => out.push(o),
            None => {},
        }
        i = i + 1;
    }
    assert(array@.take(n as int) =~= array@);
    out
}

/// An entry that can be read as a power source: a dictionary with an ID.
pub open spec fn source_dict(n: PlistNode) -> Option<PlistDict> {
    match as_dict(n) {
        Some(d) => if dict_lookup(d, "IORegistryEntryID"@) is Some {
            Some(d)
        } else {
            None
        },
        None => None,
    }
}

/// `s` holds what the registry dictionary `d` says of a power source: name
/// `Unknown` and port 0 / 0 when absent.
pub open spec fn source_read_from(s: PowerSource, d: PlistDict) -> bool {
    &&& s.id == entry_id(d)
    &&& s.name@ == match spec_get_string(d, "PowerSourceName"@) {
        Some(n) => n,
        None => "Unknown"@,
    }
    &&& s.parent_port_type == or_zero(spec_get_integer(d, "ParentPortType"@))
    &&& s.parent_port_number == or_zero(spec_get_integer(d, "ParentPortNumber"@))
    &&& s.options@ == power_options_of(dict_lookup(d, "PowerSourceOptions"@))
    &&& s.winning == match dict_lookup(d, "WinningPowerSourceOption"@) {
        Some(n) => power_option_of(n),
        None => None,
    }
}

fn parse_power_source(entry: &PlistNode) -> (r: Option<PowerSource>)
    ensures
        match r {
            Some(s) => source_dict(*entry) matches Some(d) && source_read_from(s, d),
            None => source_dict(*entry) is None,
        },
{
    let dict = match entry {
        PlistNode::Dictionary(d) => d,
        _ => {
            return None;
        },
    };
    let id = match dict_get(dict, "IORegistryEntryID") {
        Some(n) => unsigned_or_zero(n),
        None => {
            return None;
        },
    };
    let name = match get_string(dict, "PowerSourceName") {
        Some(n) => n,
        None => "Unknown".to_owned(),
    };
    let parent_port_type = match get_integer(dict, "ParentPortType") {
        Some(v) => v,
        None => 0,
    };
    let parent_port_number = match get_integer(dict, "ParentPortNumber") {
        Some(v) => v,
        None => 0,
    };
    let options = parse_power_options(dict_get(dict, "PowerSourceOptions"));
    let winning = match dict_get(dict, "WinningPowerSourceOption") {
        Some(n) => parse_power_option(n),
        None => None,
    };
    Some(PowerSource { id, name, parent_port_type, parent_port_number, options, winning })
}

/// The dictionaries of the power sources among the entries, in order.
pub open spec fn source_dicts(entries: Seq<PlistNode>) -> Seq<PlistDict>
    decreases entries.len(),
{
    if entries.len() == 0 {
        seq![]
    } else {
        let rest = source_dicts(entries.drop_last());
        match source_dict(entries.last()) {
            Some(d) => rest.push(d),
            None => rest,
        }
    }
}

/// The entries of a property-list array; none for any other node.
pub open spec fn array_entries(n: PlistNode) -> Seq<PlistNode> {
    match n {
        PlistNode::Array(a) => a@,
        _ => seq![],
    }
}

/// The power sources among the entries of a parsed
/// `ioreg -c IOPortFeaturePowerSource` array, in order.
pub fn power_sources_from_root(root: &PlistNode) -> (r: Vec<PowerSource>)
    ensures
        r@.len() == source_dicts(array_entries(*root)).len(),
        forall|i: int|
            0 <= i < r@.len() ==> source_read_from(
                #[trigger] r@[i],
                source_dicts(array_entries(*root))[i],
            ),
{
    let mut sources: Vec<PowerSource> = Vec::new();
    let entries = match root {
        PlistNode::Array(entries) => entries,
        _ => {
            return sources;
        },
    };
    let n = entries.len();
    let mut i: usize = 0;
    while i < n
        invariant
            n == entries@.len(),
            i <= n,
            array_entries(*root) == entries@,
            sources@.len() == source_dicts(entries@.take(i as int)).len(),
            forall|j: int|
                0 <= j < sources@.len() ==> source_read_from(
                    #[trigger] sources@[j],
                    source_dicts(entries@.take(i as int))[j],
                ),
        decreases n - i,
    {
        assert(entries@.take(i + 1).drop_last() =~= entries@.take(i as int));
        assert(entries@.take(i + 1).last() == entries@[i as int]);
        match parse_power_source(&entries[i]) {
            Some(source) => sources.push(source),
            None => {},
        }
        i = i + 1;
    }
    assert(entries@.take(n as int) =~= entries@);
    sources
}

/// The power sources in the output of `ioreg -c IOPortFeaturePowerSource -r -l -a`.
/// A failed run yields no source; output that is not a property list is an error.
pub fn power_sources_from_ioreg_output(success: bool, stdout: &[u8]) -> (r: Result<
    Vec<PowerSource>,
    IoregError,
>)
    ensures
        !success ==> (r matches Ok(v) && v@.len() == 0),
        success ==> (r is Err <==> plist_from_bytes(stdout@) is None),
        success ==> match (r, plist_from_bytes(stdout@)) {
            (Ok(v), Some(root)) => {
                let ds = source_dicts(array_entries(root));
                &&& v@.len() == ds.len()
                &&& forall|i: int| 0 <= i < v@.len() ==> source_read_from(#[trigger] v@[i], ds[i])
            },
            _ => true,
        },
{
    if !success {
        return Ok(Vec::new());
    }
    match parse_plist(stdout) {
        Some(value) => Ok(power_sources_from_root(&value)),
        None => Err(IoregError::ParseFailed),
    }
}


/// The little-endian 32-bit value of the first four bytes, when there are four.
pub open spec fn vdo_of_bytes(data: Seq<u8>) -> Option<u32> {
    if data.len() < 4 {
        None
    } else {
        Some(
            (data[0] as int + data[1] as int * 0x100 + data[2] as int * 0x1_0000 + data[3] as int
                * 0x100_0000) as u32,
        )
    }
}

/// Decode a VDO from a 4-byte little-endian Data blob.
pub fn vdo_from_data(data: &[u8]) -> (r: Option<u32>)
    ensures
        r == vdo_of_bytes(data@),
{
    if data.len() < 4 {
        return None;
    }
    let b0 = data[0] as u32;
    let b1 = data[1] as u32;
    let b2 = data[2] as u32;
    let b3 = data[3] as u32;
    Some(b0 + b1 * 0x100 + b2 * 0x1_0000 + b3 * 0x100_0000)
}

/// The VDOs of a list of data nodes, skipping nodes that are not data of at least four bytes.
pub open spec fn vdos_of_nodes(nodes: Seq<PlistNode>) -> Seq<u32>
    decreases nodes.len(),
{
    if nodes.len() == 0 {
        seq![]
    } else {
        let rest = vdos_of_nodes(nodes.drop_last());
        match nodes.last() {
            PlistNode::Data(d) => match vdo_of_bytes(d@) {
                Some(v) => rest.push(v),
                None => rest,
            },
            _ => rest,
        }
    }
}

/// The `Metadata` dictionary of an identity, if there is one.
pub open spec fn metadata_of(d: PlistDict) -> Option<PlistDict> {
    match dict_lookup(d, "Metadata"@) {
        Some(PlistNode::Dictionary(m)) => Some(m),
        _ => None,
    }
}

/// An integer of the metadata dictionary.
pub open spec fn metadata_integer(m: Option<PlistDict>, key: Seq<char>) -> Option<i64> {
    match m {
        Some(md) => spec_get_integer(md, key),
        None => None,
    }
}

/// An integer of the metadata, else of the identity's own dictionary.
pub open spec fn metadata_or_own_integer(d: PlistDict, key: Seq<char>) -> Option<i64> {
    match metadata_integer(metadata_of(d), key) {
        Some(v) => Some(v),
        None => spec_get_integer(d, key),
    }
}

/// The endpoint name: `ComponentName`, else `AddressDescription`, else
/// `Address Description`, else `Unknown`.
pub open spec fn endpoint_name_of(d: PlistDict) -> Seq<char> {
    match spec_get_string(d, "ComponentName"@) {
        Some(s) => s,
        None => match spec_get_string(d, "AddressDescription"@) {
            Some(s) => s,
            None => match spec_get_string(d, "Address Description"@) {
                Some(s) => s,
                None => "Unknown"@,
            },
        },
    }
}

/// The VDOs listed under `VDOs` in the metadata.
pub open spec fn identity_vdos_of(d: PlistDict) -> Seq<u32> {
    match metadata_of(d) {
        Some(m) => match dict_lookup(m, "VDOs"@) {
            Some(PlistNode::Array(a)) => vdos_of_nodes(a@),
            _ => seq![],
        },
        None => seq![],
    }
}

/// `p` holds what the registry dictionary `d` says of a PD identity.
pub open spec fn identity_read_from(p: PDIdentity, d: PlistDict) -> bool {
    &&& p.id == entry_id(d)
    &&& p.endpoint == endpoint_of(endpoint_name_of(d))
    &&& p.parent_port_type == or_zero(spec_get_integer(d, "ParentPortType"@))
    &&& p.parent_port_number == or_zero(spec_get_integer(d, "ParentPortNumber"@))
    &&& p.spec_revision == or_zero(spec_get_integer(d, "Specification Revision"@))
    &&& p.vendor_id == or_zero(metadata_or_own_integer(d, "Vendor ID"@))
    &&& p.product_id == or_zero(metadata_or_own_integer(d, "Product ID"@))
    &&& p.bcd_device == or_zero(metadata_integer(metadata_of(d), "bcdDevice"@))
    &&& p.vdos@ == identity_vdos_of(d)
}

fn or_else_integer(first: Option<i64>, d: &PlistDict, key: &str) -> (r: i64)
    ensures
        r == or_zero(
            match first {
                Some(v) => Some(v),
                None => spec_get_integer(*d, key@),
            },
        ),
{
    match first {
        Some(v) => v,
        None => match get_integer(d, key) {
            Some(v) => v,
            None => 0,
        },
    }
}

fn parse_vdos(metadata: Option<&PlistDict>) -> (r: Vec<u32>)
    ensures
        r@ == match metadata {
            Some(m) => match dict_lookup(*m, "VDOs"@) {
                Some(PlistNode::Array(a)) => vdos_of_nodes(a@),
                _ => seq![],
            },
            None => seq![],
        },
{
    let mut out: Vec<u32> = Vec::new();
    let m = match metadata {
        Some(m) => m,
        None => {
            return out;
        },
    };
    let arr = match dict_get(m, "VDOs") {
        Some(PlistNode::Array(a)) => a,
        _ => {
            return out;
        },
    };
    let n = arr.len();
    let mut i: usize = 0;
    assert(arr@.take(0) =~= Seq::<PlistNode>::empty());
    while i < n
        invariant
            n == arr@.len(),
            i <= n,
            out@ == vdos_of_nodes(arr@.take(i as int)),
        decreases n - i,
    {
        assert(arr@.take(i + 1).drop_last() =~= arr@.take(i as int));
        match &arr[i] {
            PlistNode::Data(data) => match vdo_from_data(data.as_slice()) {
                Some(v) => out.push(v),
                None => {},
            },
            _ => {},
        }
        i = i + 1;
    }
    assert(arr@.take(n as int) =~= arr@);
    out
}

fn parse_pd_identity(entry: &PlistNode) -> (r: Option<PDIdentity>)
    ensures
        match r {
            Some(p) => source_dict(*entry) matches Some(d) && identity_read_from(p, d),
            None => source_dict(*entry) is None,
        },
{
    let dict = match entry {
        PlistNode::Dictionary(d) => d,
        _ => {
            return None;
        },
    };
    let id = match dict_get(dict, "IORegistryEntryID") {
        Some(n) => unsigned_or_zero(n),
        None => {
            return None;
        },
    };
    let endpoint_name = match get_string(dict, "ComponentName") {
        Some(s) => s,
        None => match get_string(dict, "AddressDescription") {
            Some(s) => s,
            None => match get_string(dict, "Address Description") {
                Some(s) => s,
                None => "Unknown".to_owned(),
            },
        },
    };
    let endpoint = PDEndpoint::from_string(endpoint_name.as_str());
    let parent_port_type = match get_integer(dict, "ParentPortType") {
        Some(v) => v,
        None => 0,
    };
    let parent_port_number = match get_integer(dict, "ParentPortNumber") {
        Some(v) => v,
        None => 0,
    };
    let spec_revision = match get_integer(dict, "Specification Revision") {
        Some(v) => v,
        None => 0,
    };
    // Vendor ID and product ID come from Metadata, else from the entry itself
    let metadata: Option<&PlistDict> = match dict_get(dict, "Metadata") {
        Some(PlistNode::Dictionary(m)) => Some(m),
        _ => None,
    };
    let meta_vendor = match metadata {
        Some(m) => get_integer(m, "Vendor ID"),
        None => None,
    };
    let meta_product = match metadata {
        Some(m) => get_integer(m, "Product ID"),
        None => None,
    };
    let vendor_id = or_else_integer(meta_vendor, dict, "Vendor ID");
    let product_id = or_else_integer(meta_product, dict, "Product ID");
    let bcd_device = match metadata {
        Some(m) => match get_integer(m, "bcdDevice") {
            Some(v) => v,
            None => 0,
        },
        None => 0,
    };
    // Parse VDOs from Metadata
    let vdos = parse_vdos(metadata);
    Some(
        PDIdentity {
            id,
            endpoint,
            parent_port_type,
            parent_port_number,
            vendor_id,
            product_id,
            bcd_device,
            vdos,
            spec_revision,
        },
    )
}

/// The PD identities among the entries of a parsed
/// `ioreg -c IOPortTransportComponentCCUSBPDSOP` array, in order.
pub fn pd_identities_from_root(root: &PlistNode) -> (r: Vec<PDIdentity>)
    ensures
        r@.len() == source_dicts(array_entries(*root)).len(),
        forall|i: int|
            0 <= i < r@.len() ==> identity_read_from(
                #[trigger] r@[i],
                source_dicts(array_entries(*root))[i],
            ),
{
    let mut identities: Vec<PDIdentity> = Vec::new();
    let entries = match root {
        PlistNode::Array(entries) => entries,
        _ => {
            return identities;
        },
    };
    let n = entries.len();
    let mut i: usize = 0;
    while i < n
        invariant
            n == entries@.len(),
            i <= n,
            array_entries(*root) == entries@,
            identities@.len() == source_dicts(entries@.take(i as int)).len(),
            forall|j: int|
                0 <= j < identities@.len() ==> identity_read_from(
                    #[trigger] identities@[j],
                    source_dicts(entries@.take(i as int))[j],
                ),
        decreases n - i,
    {
        assert(entries@.take(i + 1).drop_last() =~= entries@.take(i as int));
        assert(entries@.take(i + 1).last() == entries@[i as int]);
        match parse_pd_identity(&entries[i]) {
            Some(identity) => identities.push(identity),
            None => {},
        }
        i = i + 1;
    }
    assert(entries@.take(n as int) =~= entries@);
    identities
}

/// The PD identities in the output of
/// `ioreg -c IOPortTransportComponentCCUSBPDSOP -r -l -a`. A failed run yields
/// no identity; output that is not a property list is an error.
pub fn pd_identities_from_ioreg_output(success: bool, stdout: &[u8]) -> (r: Result<
    Vec<PDIdentity>,
    IoregError,
>)
    ensures
        !success ==> (r matches Ok(v) && v@.len() == 0),
        success ==> (r is Err <==> plist_from_bytes(stdout@) is None),
        success ==> match (r, plist_from_bytes(stdout@)) {
            (Ok(v), Some(root)) => {
                let ds = source_dicts(array_entries(root));
                &&& v@.len() == ds.len()
                &&& forall|i: int|
                    0 <= i < v@.len() ==> identity_read_from(#[trigger] v@[i], ds[i])
            },
            _ => true,
        },
{
    if !success {
        return Ok(Vec::new());
    }
    match parse_plist(stdout) {
        Some(value) => Ok(pd_identities_from_root(&value)),
        None => Err(IoregError::ParseFailed),
    }
}

} // verus!
