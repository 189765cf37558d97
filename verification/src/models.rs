//! The records read from the IOKit registry: USB-C port controllers, power
//! sources, PD identities and USB devices.

use vstd::prelude::*;
use vstd::string::*;
use crate::pd_vdo::{
    CableVDO, IDHeader, ProductType, cable_vdo_of, decode_cable_vdo, decode_id_header,
    id_header_of,
};
use crate::text::{
    thousandths_rounded, hex4, i64_to_dec, int_dec, push_thousandths_one_place,
    push_thousandths_two_places, round_thousandths, str_equals, str_starts_with,
    thousandths_one_place, thousandths_two_places, u64_to_hex4,
};

verus! {

/// A USB-C / MagSafe port controller.
#[derive(Debug, Clone)]
pub struct USBCPort {
    pub id: u64,
    pub service_name: String,
    pub class_name: String,
    pub port_description: Option<String>,
    pub port_type_description: Option<String>,
    pub port_number: Option<i64>,
    pub connection_active: Option<bool>,
    pub active_cable: Option<bool>,
    pub optical_cable: Option<bool>,
    pub usb_active: Option<bool>,
    pub super_speed_active: Option<bool>,
    pub usb_mode_type: Option<i64>,
    pub usb_connect_string: Option<String>,
    pub transports_supported: Vec<String>,
    pub transports_active: Vec<String>,
    pub transports_provisioned: Vec<String>,
    pub plug_orientation: Option<i64>,
    pub plug_event_count: Option<i64>,
    pub connection_count: Option<i64>,
    pub overcurrent_count: Option<i64>,
    /// Bus index derived from hpm<N> ancestor in IOKit parent chain (M3+).
    /// Used to match devices to their physical port. None on M1/M2.
    pub bus_index: Option<i64>,
}

/// The IOKit port type a port type description stands for: 2 for USB-C,
/// 17 for MagSafe.
pub open spec fn port_type_code(desc: Option<Seq<char>>) -> Option<i64> {
    match desc {
        Some(d) => if d == "USB-C"@ {
            Some(2i64)
        } else if "MagSafe"@.len() <= d.len() && d.subrange(0, "MagSafe"@.len() as int)
            == "MagSafe"@ {
            Some(17i64)
        } else {
            None
        },
        None => None,
    }
}

/// The view of an optional string.
pub open spec fn opt_view(s: Option<String>) -> Option<Seq<char>> {
    match s {
        Some(v) => Some(v@),
        None => None,
    }
}

/// The (port type, port number) pair that power sources and PD identities
/// name their parent port by.
pub open spec fn usbc_port_key(port: USBCPort) -> Option<(i64, i64)> {
    match (port_type_code(opt_view(port.port_type_description)), port.port_number) {
        (Some(t), Some(n)) => Some((t, n)),
        _ => None,
    }
}

pub open spec fn plug_orientation_text(o: Option<i64>) -> Seq<char> {
    if o == Some(1i64) {
        "Normal"@
    } else {
        "Flipped"@
    }
}

pub open spec fn usb_mode_type_text(m: Option<i64>) -> Seq<char> {
    if m == Some(0i64) {
        "None"@
    } else if m == Some(1i64) {
        "Host"@
    } else if m == Some(2i64) {
        "Device"@
    } else if m == Some(3i64) {
        "DRD (Dual-Role)"@
    } else {
        "Unknown"@
    }
}

impl USBCPort {
    /// Port type 2 = USB-C, 17 = MagSafe 3.
    pub fn port_key(&self) -> (r: Option<(i64, i64)>)
        ensures
            r == usbc_port_key(*self),
    {
        let port_type: i64 = match &self.port_type_description {
            Some(desc) => {
                if str_equals(desc.as_str(), "USB-C") {
                    2
                } else if str_starts_with(desc.as_str(), "MagSafe") {
                    17
                } else {
                    return None;
                }
            },
            None => {
                return None;
            },
        };
        match self.port_number {
            Some(n) => Some((port_type, n)),
            None => None,
        }
    }

    pub fn plug_orientation_label(&self) -> (r: &str)
        ensures
            r@ == plug_orientation_text(self.plug_orientation),
    {
        match self.plug_orientation {
            Some(1) => "Normal",
            _ => "Flipped",
        }
    }

    pub fn usb_mode_type_label(&self) -> (r: &str)
        ensures
            r@ == usb_mode_type_text(self.usb_mode_type),
    {
        match self.usb_mode_type {
            Some(0) => "None",
            Some(1) => "Host",
            Some(2) => "Device",
            Some(3) => "DRD (Dual-Role)",
            _ => "Unknown",
        }
    }
}

/// One power data object offered by a source.
#[derive(Debug, Clone, Copy)]
pub struct PowerOption {
    pub voltage_mv: i64,
    pub max_current_ma: i64,
    pub max_power_mw: i64,
}

/// A power source feature of a port (USB-PD, Type-C current, ...).
#[derive(Debug, Clone)]
pub struct PowerSource {
    pub id: u64,
    pub name: String,
    pub parent_port_type: i64,
    pub parent_port_number: i64,
    pub options: Vec<PowerOption>,
    pub winning: Option<PowerOption>,
}

/// The largest `max_power_mw` among `options`, or 0 when there is none.
pub open spec fn max_power_of(options: Seq<PowerOption>) -> int
    decreases options.len(),
{
    if options.len() == 0 {
        0
    } else if options.len() == 1 {
        options[0].max_power_mw as int
    } else {
        let rest = max_power_of(options.drop_last());
        let last = options.last().max_power_mw as int;
        if last >= rest { last } else { rest }
    }
}

impl PowerSource {
    pub fn port_key(&self) -> (r: (i64, i64))
        ensures
            r == (self.parent_port_type, self.parent_port_number),
    {
        (self.parent_port_type, self.parent_port_number)
    }

    pub fn max_power_mw(&self) -> (r: i64)
        ensures
            r == max_power_of(self.options@),
    {
        let n = self.options.len();
        if n == 0 {
            return 0;
        }
        let mut best = self.options[0].max_power_mw;
        let mut i: usize = 1;
        assert(self.options@.take(1).drop_last() =~= Seq::<PowerOption>::empty());
        while i < n
            invariant
                1 <= i <= n,
                n == self.options@.len(),
                best == max_power_of(self.options@.take(i as int)),
            decreases n - i,
        {
            assert(self.options@.take(i + 1).drop_last() =~= self.options@.take(i as int));
            let v = self.options[i].max_power_mw;
            if v >= best {
                best = v;
            }
            i = i + 1;
        }
        assert(self.options@.take(n as int) =~= self.options@);
        best
    }
}

/// The voltage as `{:.1}V` shows `voltage_mv as f64 / 1000.0`.
pub open spec fn volts_text(o: PowerOption) -> Seq<char> {
    thousandths_one_place(o.voltage_mv as int) + "V"@
}

/// The current as `{:.2}A` shows `max_current_ma as f64 / 1000.0`.
pub open spec fn amps_text(o: PowerOption) -> Seq<char> {
    thousandths_two_places(o.max_current_ma as int) + "A"@
}

/// Whole watts, as `(mw as f64 / 1000.0).round()` gives them, then `W`.
pub open spec fn watts_text(o: PowerOption) -> Seq<char> {
    int_dec(thousandths_rounded(o.max_power_mw as int)) + "W"@
}

impl PowerOption {
    pub fn volts_label(&self) -> (r: String)
        ensures
            r@ == volts_text(*self),
    {
        let mut s = String::new();
        push_thousandths_one_place(&mut s, self.voltage_mv);
        s.append("V");
        s
    }

    pub fn amps_label(&self) -> (r: String)
        ensures
            r@ == amps_text(*self),
    {
        let mut s = String::new();
        push_thousandths_two_places(&mut s, self.max_current_ma);
        s.append("A");
        s
    }

    pub fn watts_label(&self) -> (r: String)
        ensures
            r@ == watts_text(*self),
    {
        let w = round_thousandths(self.max_power_mw);
        let mut s = i64_to_dec(w);
        s.append("W");
        s
    }
}

/// Which SOP* endpoint a PD identity was read from.
#[derive(Debug, Clone, Copy, PartialEq, Eq, Structural)]
pub enum PDEndpoint {
    Sop,
    SopPrime,
    SopDoublePrime,
    Unknown,
}

pub open spec fn endpoint_of(s: Seq<char>) -> PDEndpoint {
    if s == "SOP"@ {
        PDEndpoint::Sop
    } else if s == "SOP'"@ {
        PDEndpoint::SopPrime
    } else if s == "SOP''"@ {
        PDEndpoint::SopDoublePrime
    } else {
        PDEndpoint::Unknown
    }
}

impl PDEndpoint {
    pub fn from_string(s: &str) -> (r: PDEndpoint)
        ensures
            r == endpoint_of(s@),
    {
        if str_equals(s, "SOP") {
            PDEndpoint::Sop
        } else if str_equals(s, "SOP'") {
            PDEndpoint::SopPrime
        } else if str_equals(s, "SOP''") {
            PDEndpoint::SopDoublePrime
        } else {
            PDEndpoint::Unknown
        }
    }
}

/// A PD Discover Identity response read from a port partner or a cable e-marker.
#[derive(Debug, Clone)]
pub struct PDIdentity {
    pub id: u64,
    pub endpoint: PDEndpoint,
    pub parent_port_type: i64,
    pub parent_port_number: i64,
    pub vendor_id: i64,
    pub product_id: i64,
    pub bcd_device: i64,
    pub vdos: Vec<u32>,
    pub spec_revision: i64,
}

/// The ID header decoded from the first VDO, if there is one.
pub open spec fn identity_id_header(vdos: Seq<u32>) -> Option<IDHeader> {
    if vdos.len() > 0 {
        Some(id_header_of(vdos[0]))
    } else {
        None
    }
}

/// The cable VDO (VDO 3) of a cable e-marker identity (SOP' or SOP''), read
/// as an active cable when the ID header says so.
pub open spec fn identity_cable_vdo(endpoint: PDEndpoint, vdos: Seq<u32>) -> Option<CableVDO> {
    if (endpoint == PDEndpoint::SopPrime || endpoint == PDEndpoint::SopDoublePrime) && vdos.len()
        > 3 {
        let is_active = match identity_id_header(vdos) {
            Some(h) => h.ufp_product_type == ProductType::ActiveCable,
            None => false,
        };
        Some(cable_vdo_of(vdos[3], is_active))
    } else {
        None
    }
}

impl PDIdentity {
    pub fn port_key(&self) -> (r: (i64, i64))
        ensures
            r == (self.parent_port_type, self.parent_port_number),
    {
        (self.parent_port_type, self.parent_port_number)
    }

    pub fn id_header(&self) -> (r: Option<IDHeader>)
        ensures
            r == identity_id_header(self.vdos@),
    {
        if self.vdos.len() > 0 {
            Some(decode_id_header(self.vdos[0]))
        } else {
            None
        }
    }

    pub fn cable_vdo(&self) -> (r: Option<CableVDO>)
        ensures
            r == identity_cable_vdo(self.endpoint, self.vdos@),
    {
        match self.endpoint {
            PDEndpoint::SopPrime | PDEndpoint::SopDoublePrime => {},
            _ => {
                return None;
            },
        }
        // Cable VDO is typically VDO[3] in PD 3.0+
        if self.vdos.len() <= 3 {
            return None;
        }
        let vdo = self.vdos[3];
        let is_active = match self.id_header() {
            Some(h) => match h.ufp_product_type {
                ProductType::ActiveCable => true,
                _ => false,
            },
            None => false,
        };
        Some(decode_cable_vdo(vdo, is_active))
    }
}

/// A USB device attached below a host controller.
#[derive(Debug, Clone)]
pub struct USBDevice {
    pub id: u64,
    pub location_id: u32,
    pub vendor_id: u16,
    pub product_id: u16,
    pub vendor_name: Option<String>,
    pub product_name: Option<String>,
    pub serial_number: Option<String>,
    pub usb_version: Option<String>,
    pub speed_raw: Option<u8>,
    pub bus_power_ma: Option<i64>,
    pub current_ma: Option<i64>,
    /// Bus index from XHCI controller (upper byte of locationID).
    /// Used to match device to physical port. None if derivation failed.
    pub bus_index: Option<i64>,
}

pub open spec fn speed_text(speed: Option<u8>) -> Seq<char> {
    if speed == Some(0u8) {
        "Low Speed (1.5 Mbps)"@
    } else if speed == Some(1u8) {
        "Full Speed (12 Mbps)"@
    } else if speed == Some(2u8) {
        "High Speed (480 Mbps)"@
    } else if speed == Some(3u8) {
        "SuperSpeed (5 Gbps)"@
    } else if speed == Some(4u8) {
        "SuperSpeed+ (10 Gbps)"@
    } else if speed == Some(5u8) {
        "SuperSpeed+ Gen 2x2 (20 Gbps)"@
    } else {
        "Unknown speed"@
    }
}

/// The product name, else the vendor name, else `USB Device (VID: 0xVVVV)`.
pub open spec fn device_display_name(d: USBDevice) -> Seq<char> {
    match (d.product_name, d.vendor_name) {
        (Some(p), _) => p@,
        (None, Some(v)) => v@,
        (None, None) => "USB Device (VID: 0x"@ + hex4(d.vendor_id as nat) + ")"@,
    }
}

impl USBDevice {
    pub fn speed_label(&self) -> (r: &str)
        ensures
            r@ == speed_text(self.speed_raw),
    {
        match self.speed_raw {
            Some(0) => "Low Speed (1.5 Mbps)",
            Some(1) => "Full Speed (12 Mbps)",
            Some(2) => "High Speed (480 Mbps)",
            Some(3) => "SuperSpeed (5 Gbps)",
            Some(4) => "SuperSpeed+ (10 Gbps)",
            Some(5) => "SuperSpeed+ Gen 2x2 (20 Gbps)",
            _ => "Unknown speed",
        }
    }

    pub fn display_name(&self) -> (r: String)
        ensures
            r@ == device_display_name(*self),
    {
        match &self.product_name {
            Some(p) => p.clone(),
            None => match &self.vendor_name {
                Some(v) => v.clone(),
                None => {
                    let mut s = "USB Device (VID: 0x".to_owned();
                    let h = u64_to_hex4(self.vendor_id as u64);
                    s.append(h.as_str());
                    s.append(")");
                    s
                },
            },
        }
    }
}

} // verus!
