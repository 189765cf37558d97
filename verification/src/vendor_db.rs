//! USB vendor ID lookup table.
//!
//! The table is a `match` over constant IDs: it is compiled in whole, so no
//! global map has to be built lazily on first use, and no map is rebuilt for
//! each lookup.

use vstd::prelude::*;
use vstd::string::*;
use crate::text::{hex4, u64_to_hex4};

verus! {

/// The vendor name recorded for a USB vendor ID, if the table knows it.
pub open spec fn vendor_name_of(vendor_id: i64) -> Option<Seq<char>> {
    match vendor_id {
        0x05AC => Some("Apple"@),
        0x004C => Some("Apple (legacy)"@),
        0x05E3 => Some("Genesys Logic"@),
        0x0BDA => Some("Realtek"@),
        0x174C => Some("ASMedia"@),
        0x2109 => Some("VIA Labs"@),
        0x152D => Some("JMicron"@),
        0x067B => Some("Prolific"@),
        0x0451 => Some("Texas Instruments"@),
        0x8087 => Some("Intel"@),
        0x046D => Some("Logitech"@),
        0x0BB4 => Some("HTC"@),
        0x18D1 => Some("Google"@),
        0x12D1 => Some("Huawei"@),
        0x04E8 => Some("Samsung"@),
        0x2717 => Some("Xiaomi"@),
        0x22D9 => Some("OPPO"@),
        0x2A70 => Some("OnePlus"@),
        0x05C6 => Some("Qualcomm"@),
        0x0BC2 => Some("Seagate"@),
        0x1058 => Some("Western Digital"@),
        0x0781 => Some("SanDisk"@),
        0x0930 => Some("Toshiba"@),
        0x0951 => Some("Kingston"@),
        0x125F => Some("ADATA"@),
        0x1B1C => Some("Corsair"@),
        0x154B => Some("PNY"@),
        0x0080 => Some("Crucial"@),
        0x174F => Some("Syntek"@),
        0x046E => Some("Behavior Tech"@),
        0x05DC => Some("Lexar"@),
        0x0E8D => Some("MediaTek"@),
        0x148F => Some("Ralink"@),
        0x0B95 => Some("ASIX"@),
        0x0CF3 => Some("Qualcomm Atheros"@),
        0x06CB => Some("Synaptics"@),
        0x056A => Some("Wacom"@),
        0x040A => Some("Kodak"@),
        0x056D => Some("EIZO"@),
        0x0AF8 => Some("Belkin"@),
        0x050D => Some("Belkin (older)"@),
        0x2BCF => Some("Anker"@),
        0x291A => Some("Anker (older)"@),
        0x0BB8 => Some("Plantronics / Poly"@),
        0x0763 => Some("M-Audio"@),
        0x0FCE => Some("Sony Mobile"@),
        0x054C => Some("Sony"@),
        0x04F2 => Some("Chicony"@),
        0x046A => Some("Cherry"@),
        0x04D9 => Some("Holtek"@),
        0x1532 => Some("Razer"@),
        0x1B7E => Some("Holosonics"@),
        0x07AA => Some("Corega"@),
        0x2188 => Some("SmartAction"@),
        0x0E0F => Some("VMware"@),
        0x0FFE => Some("OWC"@),
        0x152E => Some("Lenovo"@),
        0x17EF => Some("Lenovo (older)"@),
        0x0BAF => Some("U.S. Robotics"@),
        0x0DCD => Some("Diconix"@),
        0x0FCA => Some("Research In Motion"@),
        0x05E0 => Some("Symbol"@),
        0x05DD => Some("Delorme"@),
        0x0764 => Some("CyberPower"@),
        0x051D => Some("American Power Conversion (APC)"@),
        0x2C7C => Some("Quectel"@),
        0x2341 => Some("Arduino"@),
        0x1A40 => Some("Terminus (hub chips)"@),
        0x32AC => Some("Apple (Thunderbolt 4)"@),
        0x1D6B => Some("Linux Foundation"@),
        0x0CF8 => Some("Targus"@),
        0x0B05 => Some("ASUS"@),
        0x103C => Some("HP"@),
        0x413C => Some("Dell"@),
        0x0CCD => Some("TerraTec"@),
        0x0E58 => Some("Aopen"@),
        0x14AD => Some("Microvision"@),
        _ => None,
    }
}

/// What a vendor ID reads as: `Name (0xVVVV)` for a known vendor, `0xVVVV`
/// otherwise, the ID in upper-case hexadecimal of at least four digits (a
/// negative ID prints as its 64-bit two's complement).
pub open spec fn vendor_label_of(vendor_id: i64) -> Seq<char> {
    let hex = "0x"@ + hex4((vendor_id as u64) as nat);
    match vendor_name_of(vendor_id) {
        Some(n) => n + " ("@ + hex + ")"@,
        None => hex,
    }
}

/// Looks a vendor ID up in the table.
pub fn name(vendor_id: i64) -> (r: Option<&'static str>)
    ensures
        r is Some == vendor_name_of(vendor_id) is Some,
        r matches Some(n) ==> n@ == vendor_name_of(vendor_id)->0,
{
    match vendor_id {
        0x05AC => Some("Apple"),
        0x004C => Some("Apple (legacy)"),
        0x05E3 => Some("Genesys Logic"),
        0x0BDA => Some("Realtek"),
        0x174C => Some("ASMedia"),
        0x2109 => Some("VIA Labs"),
        0x152D => Some("JMicron"),
        0x067B => Some("Prolific"),
        0x0451 => Some("Texas Instruments"),
        0x8087 => Some("Intel"),
        0x046D => Some("Logitech"),
        0x0BB4 => Some("HTC"),
        0x18D1 => Some("Google"),
        0x12D1 => Some("Huawei"),
        0x04E8 => Some("Samsung"),
        0x2717 => Some("Xiaomi"),
        0x22D9 => Some("OPPO"),
        0x2A70 => Some("OnePlus"),
        0x05C6 => Some("Qualcomm"),
        0x0BC2 => Some("Seagate"),
        0x1058 => Some("Western Digital"),
        0x0781 => Some("SanDisk"),
        0x0930 => Some("Toshiba"),
        0x0951 => Some("Kingston"),
        0x125F => Some("ADATA"),
        0x1B1C => Some("Corsair"),
        0x154B => Some("PNY"),
        0x0080 => Some("Crucial"),
        0x174F => Some("Syntek"),
        0x046E => Some("Behavior Tech"),
        0x05DC => Some("Lexar"),
        0x0E8D => Some("MediaTek"),
        0x148F => Some("Ralink"),
        0x0B95 => Some("ASIX"),
        0x0CF3 => Some("Qualcomm Atheros"),
        0x06CB => Some("Synaptics"),
        0x056A => Some("Wacom"),
        0x040A => Some("Kodak"),
        0x056D => Some("EIZO"),
        0x0AF8 => Some("Belkin"),
        0x050D => Some("Belkin (older)"),
        0x2BCF => Some("Anker"),
        0x291A => Some("Anker (older)"),
        0x0BB8 => Some("Plantronics / Poly"),
        0x0763 => Some("M-Audio"),
        0x0FCE => Some("Sony Mobile"),
        0x054C => Some("Sony"),
        0x04F2 => Some("Chicony"),
        0x046A => Some("Cherry"),
        0x04D9 => Some("Holtek"),
        0x1532 => Some("Razer"),
        0x1B7E => Some("Holosonics"),
        0x07AA => Some("Corega"),
        0x2188 => Some("SmartAction"),
        0x0E0F => Some("VMware"),
        0x0FFE => Some("OWC"),
        0x152E => Some("Lenovo"),
        0x17EF => Some("Lenovo (older)"),
        0x0BAF => Some("U.S. Robotics"),
        0x0DCD => Some("Diconix"),
        0x0FCA => Some("Research In Motion"),
        0x05E0 => Some("Symbol"),
        0x05DD => Some("Delorme"),
        0x0764 => Some("CyberPower"),
        0x051D => Some("American Power Conversion (APC)"),
        0x2C7C => Some("Quectel"),
        0x2341 => Some("Arduino"),
        0x1A40 => Some("Terminus (hub chips)"),
        0x32AC => Some("Apple (Thunderbolt 4)"),
        0x1D6B => Some("Linux Foundation"),
        0x0CF8 => Some("Targus"),
        0x0B05 => Some("ASUS"),
        0x103C => Some("HP"),
        0x413C => Some("Dell"),
        0x0CCD => Some("TerraTec"),
        0x0E58 => Some("Aopen"),
        0x14AD => Some("Microvision"),
        _ => None,
    }
}

/// The vendor ID as shown to the user, with the vendor's name when known.
pub fn label(vendor_id: i64) -> (r: String)
    ensures
        r@ == vendor_label_of(vendor_id),
{
    let hex = u64_to_hex4(vendor_id as u64);
    let mut out = String::new();
    match name(vendor_id) {
        Some(n) => {
            out.append(n);
            out.append(" (0x");
            out.append(hex.as_str());
            out.append(")");
            proof {
                let h = "0x"@ + hex4((vendor_id as u64) as nat);
                assert(" (0x"@ =~= " ("@ + "0x"@) by {
                    reveal_strlit(" (0x");
                    reveal_strlit(" (");
                    reveal_strlit("0x");
                }
                assert(out@ =~= n@ + " ("@ + h + ")"@);
            }
        },
        None => {
            out.append("0x");
            out.append(hex.as_str());
        },
    }
    out
}

} // verus!
