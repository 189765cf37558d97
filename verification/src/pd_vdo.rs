//! USB Power Delivery 3.0 / 3.1 VDO decoders.
//! Only the fields that are surfaced to the user are read; the layout follows
//! the Universal Serial Bus Power Delivery Specification, Revision 3.1.

use vstd::prelude::*;

verus! {

/// Bit `i` of a 32-bit VDO, as a boolean.
pub open spec fn vdo_bit(vdo: u32, i: u32) -> bool {
    (vdo >> i) & 1 == 1
}

/// The unsigned field that starts at bit `lo`, masked by `mask`.
pub open spec fn vdo_field(vdo: u32, lo: u32, mask: u32) -> u32 {
    (vdo >> lo) & mask
}

#[derive(Debug, Clone, Copy, PartialEq, Eq, Structural)]
pub enum ProductType {
    Undefined,
    PdusbHub,
    PdusbPeripheral,
    PassiveCable,
    ActiveCable,
    /// Alternate Mode Adapter
    Ama,
    /// VCONN-Powered Device
    Vpd,
    Other,
}

/// Product type encoded by a raw 3-bit value; anything out of range reads as `Undefined`.
pub open spec fn product_type_of(value: u32) -> ProductType {
    if value == 1 {
        ProductType::PdusbHub
    } else if value == 2 {
        ProductType::PdusbPeripheral
    } else if value == 3 {
        ProductType::PassiveCable
    } else if value == 4 {
        ProductType::ActiveCable
    } else if value == 5 {
        ProductType::Ama
    } else if value == 6 {
        ProductType::Vpd
    } else if value == 7 {
        ProductType::Other
    } else {
        ProductType::Undefined
    }
}

pub open spec fn product_type_label(t: ProductType) -> Seq<char> {
    match t {
        ProductType::Undefined => "Unspecified"@,
        ProductType::PdusbHub => "USB Hub"@,
        ProductType::PdusbPeripheral => "USB Peripheral"@,
        ProductType::PassiveCable => "Passive cable"@,
        ProductType::ActiveCable => "Active cable"@,
        ProductType::Ama => "Alternate Mode Adapter"@,
        ProductType::Vpd => "VCONN-powered device"@,
        ProductType::Other => "Other"@,
    }
}

impl ProductType {
    pub fn from_raw(value: u32) -> (r: ProductType)
        ensures
            r == product_type_of(value),
    {
        match value {
            0 => ProductType::Undefined,
            1 => ProductType::PdusbHub,
            2 => ProductType::PdusbPeripheral,
            3 => ProductType::PassiveCable,
            4 => ProductType::ActiveCable,
            5 => ProductType::Ama,
            6 => ProductType::Vpd,
            7 => ProductType::Other,
            _ => ProductType::Undefined,
        }
    }

    pub fn label(&self) -> (r: &'static str)
        ensures
            r@ == product_type_label(*self),
    {
        match self {
            ProductType::Undefined => "Unspecified",
            ProductType::PdusbHub => "USB Hub",
            ProductType::PdusbPeripheral => "USB Peripheral",
            ProductType::PassiveCable => "Passive cable",
            ProductType::ActiveCable => "Active cable",
            ProductType::Ama => "Alternate Mode Adapter",
            ProductType::Vpd => "VCONN-powered device",
            ProductType::Other => "Other",
        }
    }
}

/// The ID Header VDO (the first VDO of a Discover Identity response).
#[derive(Debug, Clone, Copy)]
pub struct IDHeader {
    pub usb_comm_host: bool,
    pub usb_comm_device: bool,
    pub modal_operation: bool,
    pub ufp_product_type: ProductType,
    pub dfp_product_type: ProductType,
}

/// ID Header layout: bit 31 USB host, bit 30 USB device, bits 29..27 UFP
/// product type, bit 26 modal operation, bits 25..23 DFP product type.
pub open spec fn id_header_of(vdo: u32) -> IDHeader {
    IDHeader {
        usb_comm_host: vdo_bit(vdo, 31),
        usb_comm_device: vdo_bit(vdo, 30),
        modal_operation: vdo_bit(vdo, 26),
        ufp_product_type: product_type_of(vdo_field(vdo, 27, 7)),
        dfp_product_type: product_type_of(vdo_field(vdo, 23, 7)),
    }
}

pub fn decode_id_header(vdo: u32) -> (r: IDHeader)
    ensures
        r == id_header_of(vdo),
{
    IDHeader {
        usb_comm_host: (vdo >> 31) & 1 == 1,
        usb_comm_device: (vdo >> 30) & 1 == 1,
        modal_operation: (vdo >> 26) & 1 == 1,
        ufp_product_type: ProductType::from_raw((vdo >> 27) & 0b111),
        dfp_product_type: ProductType::from_raw((vdo >> 23) & 0b111),
    }
}

#[derive(Debug, Clone, Copy, PartialEq, Eq, Structural)]
pub enum CableSpeed {
    Usb20,
    /// 5 Gbps
    Usb32Gen1,
    /// 10 Gbps
    Usb32Gen2,
    /// 20 / 40 Gbps
    Usb4Gen3,
    /// 80 Gbps
    Usb4Gen4,
}

/// Cable speed encoded by a raw value; anything out of range reads as USB 2.0.
pub open spec fn cable_speed_of(value: u32) -> CableSpeed {
    if value == 1 {
        CableSpeed::Usb32Gen1
    } else if value == 2 {
        CableSpeed::Usb32Gen2
    } else if value == 3 {
        CableSpeed::Usb4Gen3
    } else if value == 4 {
        CableSpeed::Usb4Gen4
    } else {
        CableSpeed::Usb20
    }
}

pub open spec fn cable_speed_label(s: CableSpeed) -> Seq<char> {
    match s {
        CableSpeed::Usb20 => "USB 2.0 (480 Mbps)"@,
        CableSpeed::Usb32Gen1 => "USB 3.2 Gen 1 (5 Gbps)"@,
        CableSpeed::Usb32Gen2 => "USB 3.2 Gen 2 (10 Gbps)"@,
        CableSpeed::Usb4Gen3 => "USB4 Gen 3 (20 / 40 Gbps)"@,
        CableSpeed::Usb4Gen4 => "USB4 Gen 4 (80 Gbps)"@,
    }
}

impl CableSpeed {
    pub fn from_raw(value: u32) -> (r: CableSpeed)
        ensures
            r == cable_speed_of(value),
    {
        match value {
            0 => CableSpeed::Usb20,
            1 => CableSpeed::Usb32Gen1,
            2 => CableSpeed::Usb32Gen2,
            3 => CableSpeed::Usb4Gen3,
            4 => CableSpeed::Usb4Gen4,
            _ => CableSpeed::Usb20,
        }
    }

    pub fn label(&self) -> (r: &'static str)
        ensures
            r@ == cable_speed_label(*self),
    {
        match self {
            CableSpeed::Usb20 => "USB 2.0 (480 Mbps)",
            CableSpeed::Usb32Gen1 => "USB 3.2 Gen 1 (5 Gbps)",
            CableSpeed::Usb32Gen2 => "USB 3.2 Gen 2 (10 Gbps)",
            CableSpeed::Usb4Gen3 => "USB4 Gen 3 (20 / 40 Gbps)",
            CableSpeed::Usb4Gen4 => "USB4 Gen 4 (80 Gbps)",
        }
    }
}

#[derive(Debug, Clone, Copy, PartialEq, Eq, Structural)]
pub enum CableCurrent {
    /// 900 mA / 1.5 A typical USB
    UsbDefault,
    ThreeAmp,
    FiveAmp,
}

/// Cable current rating encoded by a raw value; anything out of range reads as USB default.
pub open spec fn cable_current_of(value: u32) -> CableCurrent {
    if value == 1 {
        CableCurrent::ThreeAmp
    } else if value == 2 {
        CableCurrent::FiveAmp
    } else {
        CableCurrent::UsbDefault
    }
}

/// Whole amperes a cable current rating stands for. The USB default counts as
/// 3 A: the Type-C default current on cables is 3 A.
pub open spec fn cable_current_amps(c: CableCurrent) -> int {
    match c {
        CableCurrent::UsbDefault => 3,
        CableCurrent::ThreeAmp => 3,
        CableCurrent::FiveAmp => 5,
    }
}

pub open spec fn cable_current_label(c: CableCurrent) -> Seq<char> {
    match c {
        CableCurrent::UsbDefault => "USB default"@,
        CableCurrent::ThreeAmp => "3 A"@,
        CableCurrent::FiveAmp => "5 A"@,
    }
}

impl CableCurrent {
    pub fn from_raw(value: u32) -> (r: CableCurrent)
        ensures
            r == cable_current_of(value),
    {
        match value {
            0 => CableCurrent::UsbDefault,
            1 => CableCurrent::ThreeAmp,
            2 => CableCurrent::FiveAmp,
            _ => CableCurrent::UsbDefault,
        }
    }

    /// Maximum current in whole amperes (every rating is a whole number of amperes).
    pub fn max_amps(&self) -> (r: i64)
        ensures
            r == cable_current_amps(*self),
    {
        match self {
            CableCurrent::UsbDefault => 3,
            CableCurrent::ThreeAmp => 3,
            CableCurrent::FiveAmp => 5,
        }
    }

    pub fn label(&self) -> (r: &'static str)
        ensures
            r@ == cable_current_label(*self),
    {
        match self {
            CableCurrent::UsbDefault => "USB default",
            CableCurrent::ThreeAmp => "3 A",
            CableCurrent::FiveAmp => "5 A",
        }
    }
}

#[derive(Debug, Clone, Copy, PartialEq, Eq, Structural)]
pub enum CableType {
    Passive,
    Active,
}

/// The cable VDO of a cable e-marker.
#[derive(Debug, Clone, Copy)]
pub struct CableVDO {
    pub speed: CableSpeed,
    pub current: CableCurrent,
    pub max_watts: i64,
    pub cable_type: CableType,
    pub vbus_through_cable: bool,
    pub max_voltage_encoded: i64,
}

/// Maximum cable voltage in volts for an encoded value; unknown codes read as 20 V.
pub open spec fn max_volts_of(encoded: int) -> int {
    if encoded == 1 {
        30
    } else if encoded == 2 {
        40
    } else if encoded == 3 {
        50
    } else {
        20
    }
}

impl CableVDO {
    pub fn max_volts(&self) -> (r: i64)
        ensures
            r == max_volts_of(self.max_voltage_encoded as int),
    {
        match self.max_voltage_encoded {
            0 => 20,
            1 => 30,
            2 => 40,
            3 => 50,
            _ => 20,
        }
    }
}

/// Cable VDO layout: bits 2..0 speed, bit 4 VBUS through cable, bits 6..5
/// current rating, bits 10..9 maximum voltage. The wattage is the maximum
/// voltage times the rated current.
pub open spec fn cable_vdo_of(vdo: u32, is_active: bool) -> CableVDO {
    let current = cable_current_of(vdo_field(vdo, 5, 3));
    let max_v = vdo_field(vdo, 9, 3);
    CableVDO {
        speed: cable_speed_of(vdo_field(vdo, 0, 7)),
        current: current,
        max_watts: (max_volts_of(max_v as int) * cable_current_amps(current)) as i64,
        cable_type: if is_active { CableType::Active } else { CableType::Passive },
        vbus_through_cable: vdo_bit(vdo, 4),
        max_voltage_encoded: max_v as i64,
    }
}

pub fn decode_cable_vdo(vdo: u32, is_active: bool) -> (r: CableVDO)
    ensures
        r == cable_vdo_of(vdo, is_active),
{
    let speed_bits = vdo & 0b111;
    let speed = CableSpeed::from_raw(speed_bits);
    let vbus_through = (vdo >> 4) & 1 == 1;
    let current_bits = (vdo >> 5) & 0b11;
    let current = CableCurrent::from_raw(current_bits);
    let max_v_bits = (vdo >> 9) & 0b11;
    assert(max_v_bits <= 3) by (bit_vector)
        requires
            max_v_bits == (vdo >> 9) & 0b11,
    ;
    let max_v = max_v_bits as i64;
    let cable_type = if is_active {
        CableType::Active
    } else {
        CableType::Passive
    };
    let volts: i64 = match max_v {
        1 => 30,
        2 => 40,
        3 => 50,
        _ => 20,
    };
    let amps = current.max_amps();
    let watts = volts * amps;
    assert(vdo >> 0u32 == vdo) by (bit_vector);
    CableVDO {
        speed,
        current,
        max_watts: watts,
        cable_type,
        vbus_through_cable: vbus_through,
        max_voltage_encoded: max_v,
    }
}

} // verus!
