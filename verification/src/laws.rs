//! Properties of the library as a whole, each proved from the contracts of
//! the functions it speaks of.

use vstd::prelude::*;
use crate::models::{PDIdentity, PowerOption, PowerSource, USBCPort, max_power_of};
use crate::pd_vdo::{
    cable_current_amps, cable_vdo_of, id_header_of, max_volts_of, vdo_bit, vdo_field,
};
use crate::port_summary::{
    connected_headline_for, first_usb_pd, identities_at, port_flags, sources_at, summary_of,
};
use crate::ioreg::{ioreg_port_dicts, physical_port, physical_port_dict, physical_port_dicts, port_read_from};
use crate::usb_devices::{arranged, device_key, first_per_key, has_key, with_speed};
use crate::port_summary::shown_ports;
use crate::vendor_db::vendor_name_of;
use crate::plist_tree::{
    PlistDict, PlistNode, spec_get_boolean, spec_get_integer, spec_get_string, spec_get_string_array,
};
use crate::models::opt_view;
use crate::text::int_dec;

verus! {

/// Decoding a cable VDO reads only bits 2..0, 4, 6..5 and 10..9: two VDOs
/// that agree on those bits decode alike.
pub proof fn law_cable_vdo_reads_only_its_fields(a: u32, b: u32, is_active: bool)
    requires
        a & 0x677u32 == b & 0x677u32,
    ensures
        cable_vdo_of(a, is_active) == cable_vdo_of(b, is_active),
{
    assert(vdo_field(a, 0, 7) == vdo_field(b, 0, 7)) by (bit_vector)
        requires
            a & 0x677u32 == b & 0x677u32,
    ;
    assert(vdo_field(a, 5, 3) == vdo_field(b, 5, 3)) by (bit_vector)
        requires
            a & 0x677u32 == b & 0x677u32,
    ;
    assert(vdo_field(a, 9, 3) == vdo_field(b, 9, 3)) by (bit_vector)
        requires
            a & 0x677u32 == b & 0x677u32,
    ;
    assert(vdo_bit(a, 4) == vdo_bit(b, 4)) by (bit_vector)
        requires
            a & 0x677u32 == b & 0x677u32,
    ;
}

/// Decoding an ID header reads only bits 31..23: two VDOs that agree on
/// those bits decode alike.
pub proof fn law_id_header_reads_only_its_fields(a: u32, b: u32)
    requires
        a & 0xFF80_0000u32 == b & 0xFF80_0000u32,
    ensures
        id_header_of(a) == id_header_of(b),
{
    assert(vdo_bit(a, 31) == vdo_bit(b, 31) && vdo_bit(a, 30) == vdo_bit(b, 30) && vdo_bit(a, 26)
        == vdo_bit(b, 26)) by (bit_vector)
        requires
            a & 0xFF80_0000u32 == b & 0xFF80_0000u32,
    ;
    assert(vdo_field(a, 27, 7) == vdo_field(b, 27, 7) && vdo_field(a, 23, 7) == vdo_field(b, 23, 7))
        by (bit_vector)
        requires
            a & 0xFF80_0000u32 == b & 0xFF80_0000u32,
    ;
}

/// A cable's wattage is its maximum voltage times its current rating, so it
/// lies between 60 W (20 V at 3 A) and 250 W (50 V at 5 A).
pub proof fn law_cable_watts(vdo: u32, is_active: bool)
    ensures
        cable_vdo_of(vdo, is_active).max_watts == max_volts_of(
            cable_vdo_of(vdo, is_active).max_voltage_encoded as int,
        ) * cable_current_amps(cable_vdo_of(vdo, is_active).current),
        60 <= cable_vdo_of(vdo, is_active).max_watts <= 250,
{
    assert(vdo_field(vdo, 9, 3) <= 3) by (bit_vector);
}

/// The sources matched to a port are exactly the sources whose parent port
/// key is the port's key, each kept once and in order.
pub proof fn law_port_sources_share_key(sources: Seq<PowerSource>, key: (i64, i64))
    ensures
        forall|i: int|
            0 <= i < sources_at(sources, key).len() ==> (
            #[trigger] sources_at(sources, key)[i]).parent_port_type == key.0 && sources_at(
                sources,
                key,
            )[i].parent_port_number == key.1,
        forall|j: int|
            0 <= j < sources.len() && (#[trigger] sources[j]).parent_port_type == key.0
                && sources[j].parent_port_number == key.1 ==> sources_at(sources, key).contains(
                sources[j],
            ),
        sources_at(sources, key).len() <= sources.len(),
    decreases sources.len(),
{
    if sources.len() > 0 {
        let init = sources.drop_last();
        law_port_sources_share_key(init, key);
        let rest = sources_at(init, key);
        assert forall|j: int|
            0 <= j < sources.len() && (#[trigger] sources[j]).parent_port_type == key.0
                && sources[j].parent_port_number == key.1 implies sources_at(
                sources,
                key,
            ).contains(sources[j]) by {
            if j < sources.len() - 1 {
                assert(init[j] == sources[j]);
                let k = choose|k: int| 0 <= k < rest.len() && rest[k] == init[j];
                if (sources.last().parent_port_type, sources.last().parent_port_number) == key {
                    assert(rest.push(sources.last())[k] == rest[k]);
                }
            } else {
                assert(sources_at(sources, key) == rest.push(sources.last()));
                assert(rest.push(sources.last())[rest.len() as int] == sources.last());
            }
        }
        assert forall|i: int| 0 <= i < sources_at(sources, key).len() implies (
        #[trigger] sources_at(sources, key)[i]).parent_port_type == key.0 && sources_at(
            sources,
            key,
        )[i].parent_port_number == key.1 by {
            if i < rest.len() {
                if (sources.last().parent_port_type, sources.last().parent_port_number) == key {
                    assert(rest.push(sources.last())[i] == rest[i]);
                }
            }
        }
    }
}

/// The identities matched to a port all name the port's key as their parent.
pub proof fn law_port_identities_share_key(ids: Seq<PDIdentity>, key: (i64, i64))
    ensures
        forall|i: int|
            0 <= i < identities_at(ids, key).len() ==> (
            #[trigger] identities_at(ids, key)[i]).parent_port_type == key.0 && identities_at(
                ids,
                key,
            )[i].parent_port_number == key.1,
    decreases ids.len(),
{
    if ids.len() > 0 {
        law_port_identities_share_key(ids.drop_last(), key);
        let rest = identities_at(ids.drop_last(), key);
        assert forall|i: int| 0 <= i < identities_at(ids, key).len() implies (
        #[trigger] identities_at(ids, key)[i]).parent_port_type == key.0 && identities_at(
            ids,
            key,
        )[i].parent_port_number == key.1 by {
            if i < rest.len() {
                if (ids.last().parent_port_type, ids.last().parent_port_number) == key {
                    assert(rest.push(ids.last())[i] == rest[i]);
                }
            }
        }
    }
}

/// A port with nothing connected reads "Nothing connected" and has no bullets.
pub proof fn law_disconnected_port_summary(
    port: USBCPort,
    sources: Seq<&PowerSource>,
    ids: Seq<&PDIdentity>,
)
    requires
        port.connection_active != Some(true),
    ensures
        summary_of(port, sources, ids).0 == "Nothing connected"@,
        summary_of(port, sources, ids).2.len() == 0,
{
}

/// A connected port with an active Converged I/O transport is headlined as
/// Thunderbolt / USB4, whatever else it carries.
pub proof fn law_thunderbolt_headline(port: USBCPort, sources: Seq<&PowerSource>, ids: Seq<&PDIdentity>)
    requires
        port_flags(port).connected,
        port_flags(port).thunderbolt,
    ensures
        summary_of(port, sources, ids).0.len() >= "Thunderbolt / USB4"@.len(),
        summary_of(port, sources, ids).0.subrange(0, "Thunderbolt / USB4"@.len() as int)
            == "Thunderbolt / USB4"@,
{
    let h = connected_headline_for(port, first_usb_pd(sources)).0;
    assert(h.subrange(0, "Thunderbolt / USB4"@.len() as int) =~= "Thunderbolt / USB4"@);
}

/// A source's maximum power is one of its options' powers and no option
/// offers more; a source without options counts 0.
pub proof fn law_max_power_is_largest_option(options: Seq<PowerOption>)
    ensures
        options.len() == 0 ==> max_power_of(options) == 0,
        options.len() > 0 ==> exists|i: int|
            0 <= i < options.len() && max_power_of(options) == (#[trigger] options[i]).max_power_mw,
        forall|i: int|
            0 <= i < options.len() ==> (#[trigger] options[i]).max_power_mw <= max_power_of(
                options,
            ),
    decreases options.len(),
{
    if options.len() > 1 {
        let init = options.drop_last();
        law_max_power_is_largest_option(init);
        assert forall|i: int| 0 <= i < options.len() implies (
        #[trigger] options[i]).max_power_mw <= max_power_of(options) by {
            if i < init.len() {
                assert(init[i] == options[i]);
            }
        }
        if max_power_of(options) == options.last().max_power_mw {
            assert(options[options.len() - 1] == options.last());
        } else {
            let k = choose|k: int| 0 <= k < init.len() && max_power_of(init) == (
            #[trigger] init[k]).max_power_mw;
            assert(init[k] == options[k]);
        }
    } else if options.len() == 1 {
        assert(options[0].max_power_mw == max_power_of(options));
    }
}

/// Every port read from a controller class's output is a physical port.
pub proof fn law_listed_ports_are_physical(
    success: bool,
    stdout: Seq<u8>,
    registry: Option<crate::plist_tree::PlistNode>,
    ports: Seq<USBCPort>,
)
    requires
        ports.len() == ioreg_port_dicts(success, stdout).len(),
        forall|i: int|
            0 <= i < ports.len() ==> port_read_from(
                #[trigger] ports[i],
                ioreg_port_dicts(success, stdout)[i],
                registry,
            ),
    ensures
        forall|i: int| 0 <= i < ports.len() ==> physical_port(#[trigger] ports[i]),
{
    let ds = ioreg_port_dicts(success, stdout);
    lemma_physical_port_dicts(success, stdout);
    assert forall|i: int| 0 <= i < ports.len() implies physical_port(#[trigger] ports[i]) by {
        assert(port_read_from(ports[i], ds[i], registry));
        assert(physical_port_dict(ds[i]));
    }
}

proof fn lemma_physical_port_dicts(success: bool, stdout: Seq<u8>)
    ensures
        forall|i: int|
            0 <= i < ioreg_port_dicts(success, stdout).len() ==> physical_port_dict(
                #[trigger] ioreg_port_dicts(success, stdout)[i],
            ),
{
    if success && stdout.len() > 0 {
        match crate::plist_tree::plist_from_bytes(stdout) {
            Some(root) => lemma_physical_dicts_all(crate::ioreg::array_entries(root)),
            None => {},
        }
    }
}

proof fn lemma_physical_dicts_all(entries: Seq<crate::plist_tree::PlistNode>)
    ensures
        forall|i: int|
            0 <= i < physical_port_dicts(entries).len() ==> physical_port_dict(
                #[trigger] physical_port_dicts(entries)[i],
            ),
    decreases entries.len(),
{
    if entries.len() > 0 {
        lemma_physical_dicts_all(entries.drop_last());
        let rest = physical_port_dicts(entries.drop_last());
        assert forall|i: int| 0 <= i < physical_port_dicts(entries).len() implies physical_port_dict(
            #[trigger] physical_port_dicts(entries)[i],
        ) by {
            if i < rest.len() {
                match crate::ioreg::port_dict(entries.last()) {
                    Some(d) => if physical_port_dict(d) {
                        assert(rest.push(d)[i] == rest[i]);
                    },
                    None => {},
                }
            }
        }
    }
}


proof fn lemma_with_speed_all_report_speed(s: Seq<crate::models::USBDevice>)
    ensures
        forall|i: int|
            0 <= i < with_speed(s).len() ==> (#[trigger] with_speed(s)[i]).speed_raw is Some,
    decreases s.len(),
{
    if s.len() > 0 {
        lemma_with_speed_all_report_speed(s.drop_last());
        let rest = with_speed(s.drop_last());
        assert forall|i: int| 0 <= i < with_speed(s).len() implies (
        #[trigger] with_speed(s)[i]).speed_raw is Some by {
            if i < rest.len() && s.last().speed_raw is Some {
                assert(rest.push(s.last())[i] == rest[i]);
            }
        }
    }
}

proof fn lemma_first_per_key(s: Seq<crate::models::USBDevice>)
    ensures
        forall|i: int|
            0 <= i < first_per_key(s).len() ==> s.contains(#[trigger] first_per_key(s)[i]),
        forall|i: int, j: int|
            0 <= i < first_per_key(s).len() && 0 <= j < first_per_key(s).len() && i != j
                ==> device_key(#[trigger] first_per_key(s)[i]) != device_key(
                #[trigger] first_per_key(s)[j],
            ),
    decreases s.len(),
{
    if s.len() > 0 {
        let init = s.drop_last();
        lemma_first_per_key(init);
        let rest = first_per_key(init);
        let u = first_per_key(s);
        assert forall|i: int| 0 <= i < u.len() implies s.contains(#[trigger] u[i]) by {
            if i < rest.len() {
                if !has_key(rest, device_key(s.last())) {
                    assert(rest.push(s.last())[i] == rest[i]);
                }
                let k = choose|k: int| 0 <= k < init.len() && init[k] == rest[i];
                assert(s[k] == init[k]);
            } else {
                assert(u[i] == s.last());
                assert(s[s.len() - 1] == s.last());
            }
        }
        assert forall|i: int, j: int|
            0 <= i < u.len() && 0 <= j < u.len() && i != j implies device_key(#[trigger] u[i])
            != device_key(#[trigger] u[j]) by {
            if !has_key(rest, device_key(s.last())) {
                let v = rest.push(s.last());
                if i < rest.len() && j < rest.len() {
                    assert(v[i] == rest[i] && v[j] == rest[j]);
                } else if i < rest.len() {
                    assert(v[i] == rest[i]);
                    assert(v[j] == s.last());
                } else if j < rest.len() {
                    assert(v[j] == rest[j]);
                    assert(v[i] == s.last());
                }
            }
        }
    }
}

/// The device list holds only devices that report a speed, never two with
/// the same (location, vendor, product), each one before the next.
pub proof fn law_device_list_unique_and_ordered(
    devs: Seq<crate::models::USBDevice>,
    r: Seq<crate::models::USBDevice>,
)
    requires
        arranged(devs, r),
    ensures
        forall|i: int| 0 <= i < r.len() ==> (#[trigger] r[i]).speed_raw is Some,
        forall|i: int, j: int|
            0 <= i < r.len() && 0 <= j < r.len() && i != j ==> device_key(#[trigger] r[i])
                != device_key(#[trigger] r[j]),
        crate::usb_devices::devices_sorted(r),
{
    broadcast use vstd::seq_lib::group_to_multiset_ensures;

    let w = with_speed(devs);
    let u = first_per_key(w);
    lemma_with_speed_all_report_speed(devs);
    lemma_first_per_key(w);
    assert(u.no_duplicates()) by {
        assert forall|i: int, j: int| 0 <= i < u.len() && 0 <= j < u.len() && i != j implies u[i]
            != u[j] by {
            assert(device_key(u[i]) != device_key(u[j]));
        }
    }
    u.lemma_multiset_has_no_duplicates();
    assert(forall|x: crate::models::USBDevice|
        r.to_multiset().contains(x) ==> r.to_multiset().count(x) == 1);
    r.lemma_multiset_has_no_duplicates_conv();
    assert forall|i: int| 0 <= i < r.len() implies (#[trigger] r[i]).speed_raw is Some by {
        assert(r.to_multiset().count(r[i]) > 0);
        assert(u.contains(r[i]));
        let k = choose|k: int| 0 <= k < u.len() && u[k] == r[i];
        assert(w.contains(u[k]));
        let m = choose|m: int| 0 <= m < w.len() && w[m] == u[k];
        assert(w[m].speed_raw is Some);
    }
    assert forall|i: int, j: int|
        0 <= i < r.len() && 0 <= j < r.len() && i != j implies device_key(#[trigger] r[i])
        != device_key(#[trigger] r[j]) by {
        assert(r.to_multiset().count(r[i]) > 0);
        assert(r.to_multiset().count(r[j]) > 0);
        let a = choose|a: int| 0 <= a < u.len() && u[a] == r[i];
        let b = choose|b: int| 0 <= b < u.len() && u[b] == r[j];
        assert(r[i] != r[j]);
        if a != b {
            assert(device_key(u[a]) != device_key(u[b]));
        }
    }
}


/// Data that is valid UTF-8 and in which no anonymization rule finds a match
/// comes out of anonymization unchanged.
pub proof fn law_anonymize_leaves_clean_data_unchanged(data: Seq<u8>)
    requires
        crate::anonymize::lossy_utf8(data) == data,
        forall|i: int|
            0 <= i < crate::anonymize::rule_count() ==> #[trigger] crate::anonymize::regex_match_spans(
                crate::anonymize::rule(i).0,
                data,
            ) == Some(Seq::<(usize, usize)>::empty()),
    ensures
        crate::anonymize::anonymized_through(
            crate::anonymize::lossy_utf8(data),
            crate::anonymize::rule_count(),
        ) == data,
{
    lemma_anonymized_prefix_unchanged(data, crate::anonymize::rule_count());
}

proof fn lemma_anonymized_prefix_unchanged(data: Seq<u8>, k: nat)
    requires
        k <= crate::anonymize::rule_count(),
        forall|i: int|
            0 <= i < crate::anonymize::rule_count() ==> #[trigger] crate::anonymize::regex_match_spans(
                crate::anonymize::rule(i).0,
                data,
            ) == Some(Seq::<(usize, usize)>::empty()),
    ensures
        crate::anonymize::anonymized_through(data, k) == data,
    decreases k,
{
    if k > 0 {
        lemma_anonymized_prefix_unchanged(data, (k - 1) as nat);
        let (pattern, key, prefix) = crate::anonymize::rule(k - 1);
        assert(crate::anonymize::regex_match_spans(crate::anonymize::rule(k - 1).0, data) == Some(
            Seq::<(usize, usize)>::empty(),
        ));
        assert(crate::anonymize::replace_spans(data, Seq::<(usize, usize)>::empty(), key, prefix)
            =~= data);
    }
}


/// The charger wattage named in a port's headline is the one its bullets
/// advertise: both appear exactly when the USB-PD source offers a positive
/// wattage, and both name the same number of watts.
pub proof fn law_charger_watts_agree(pd: Option<PowerSource>)
    ensures
        crate::port_summary::charger_watts(pd) is Some <==> crate::port_summary::charger_suffix(
            pd,
        ).len() > 0,
        crate::port_summary::charger_watts(pd) matches Some(w) ==> {
            &&& crate::port_summary::charger_suffix(pd) == " · "@ + crate::text::int_dec(w)
                + "W charger"@
            &&& crate::port_summary::power_bullets(pd)[0] == "Charger advertises up to "@
                + crate::text::int_dec(w) + "W"@
        },
{
    reveal_strlit("");
    reveal_strlit(" · ");
}

/// The vendor table: each listed USB vendor ID has its listed name, and no
/// other ID has one.
pub proof fn law_vendor_table()
    ensures
        vendor_name_of(0x05AC) == Some("Apple"@),
        vendor_name_of(0x004C) == Some("Apple (legacy)"@),
        vendor_name_of(0x05E3) == Some("Genesys Logic"@),
        vendor_name_of(0x0BDA) == Some("Realtek"@),
        vendor_name_of(0x174C) == Some("ASMedia"@),
        vendor_name_of(0x2109) == Some("VIA Labs"@),
        vendor_name_of(0x152D) == Some("JMicron"@),
        vendor_name_of(0x067B) == Some("Prolific"@),
        vendor_name_of(0x0451) == Some("Texas Instruments"@),
        vendor_name_of(0x8087) == Some("Intel"@),
        vendor_name_of(0x046D) == Some("Logitech"@),
        vendor_name_of(0x0BB4) == Some("HTC"@),
        vendor_name_of(0x18D1) == Some("Google"@),
        vendor_name_of(0x12D1) == Some("Huawei"@),
        vendor_name_of(0x04E8) == Some("Samsung"@),
        vendor_name_of(0x2717) == Some("Xiaomi"@),
        vendor_name_of(0x22D9) == Some("OPPO"@),
        vendor_name_of(0x2A70) == Some("OnePlus"@),
        vendor_name_of(0x05C6) == Some("Qualcomm"@),
        vendor_name_of(0x0BC2) == Some("Seagate"@),
        vendor_name_of(0x1058) == Some("Western Digital"@),
        vendor_name_of(0x0781) == Some("SanDisk"@),
        vendor_name_of(0x0930) == Some("Toshiba"@),
        vendor_name_of(0x0951) == Some("Kingston"@),
        vendor_name_of(0x125F) == Some("ADATA"@),
        vendor_name_of(0x1B1C) == Some("Corsair"@),
        vendor_name_of(0x154B) == Some("PNY"@),
        vendor_name_of(0x0080) == Some("Crucial"@),
        vendor_name_of(0x174F) == Some("Syntek"@),
        vendor_name_of(0x046E) == Some("Behavior Tech"@),
        vendor_name_of(0x05DC) == Some("Lexar"@),
        vendor_name_of(0x0E8D) == Some("MediaTek"@),
        vendor_name_of(0x148F) == Some("Ralink"@),
        vendor_name_of(0x0B95) == Some("ASIX"@),
        vendor_name_of(0x0CF3) == Some("Qualcomm Atheros"@),
        vendor_name_of(0x06CB) == Some("Synaptics"@),
        vendor_name_of(0x056A) == Some("Wacom"@),
        vendor_name_of(0x040A) == Some("Kodak"@),
        vendor_name_of(0x056D) == Some("EIZO"@),
        vendor_name_of(0x0AF8) == Some("Belkin"@),
        vendor_name_of(0x050D) == Some("Belkin (older)"@),
        vendor_name_of(0x2BCF) == Some("Anker"@),
        vendor_name_of(0x291A) == Some("Anker (older)"@),
        vendor_name_of(0x0BB8) == Some("Plantronics / Poly"@),
        vendor_name_of(0x0763) == Some("M-Audio"@),
        vendor_name_of(0x0FCE) == Some("Sony Mobile"@),
        vendor_name_of(0x054C) == Some("Sony"@),
        vendor_name_of(0x04F2) == Some("Chicony"@),
        vendor_name_of(0x046A) == Some("Cherry"@),
        vendor_name_of(0x04D9) == Some("Holtek"@),
        vendor_name_of(0x1532) == Some("Razer"@),
        vendor_name_of(0x1B7E) == Some("Holosonics"@),
        vendor_name_of(0x07AA) == Some("Corega"@),
        vendor_name_of(0x2188) == Some("SmartAction"@),
        vendor_name_of(0x0E0F) == Some("VMware"@),
        vendor_name_of(0x0FFE) == Some("OWC"@),
        vendor_name_of(0x152E) == Some("Lenovo"@),
        vendor_name_of(0x17EF) == Some("Lenovo (older)"@),
        vendor_name_of(0x0BAF) == Some("U.S. Robotics"@),
        vendor_name_of(0x0DCD) == Some("Diconix"@),
        vendor_name_of(0x0FCA) == Some("Research In Motion"@),
        vendor_name_of(0x05E0) == Some("Symbol"@),
        vendor_name_of(0x05DD) == Some("Delorme"@),
        vendor_name_of(0x0764) == Some("CyberPower"@),
        vendor_name_of(0x051D) == Some("American Power Conversion (APC)"@),
        vendor_name_of(0x2C7C) == Some("Quectel"@),
        vendor_name_of(0x2341) == Some("Arduino"@),
        vendor_name_of(0x1A40) == Some("Terminus (hub chips)"@),
        vendor_name_of(0x32AC) == Some("Apple (Thunderbolt 4)"@),
        vendor_name_of(0x1D6B) == Some("Linux Foundation"@),
        vendor_name_of(0x0CF8) == Some("Targus"@),
        vendor_name_of(0x0B05) == Some("ASUS"@),
        vendor_name_of(0x103C) == Some("HP"@),
        vendor_name_of(0x413C) == Some("Dell"@),
        vendor_name_of(0x0CCD) == Some("TerraTec"@),
        vendor_name_of(0x0E58) == Some("Aopen"@),
        vendor_name_of(0x14AD) == Some("Microvision"@),
        forall|id: i64| #![trigger vendor_name_of(id)] !(id == 0x05AC || id == 0x004C || id == 0x05E3 || id == 0x0BDA || id == 0x174C || id == 0x2109 || id == 0x152D || id == 0x067B || id == 0x0451 || id == 0x8087 || id == 0x046D || id == 0x0BB4 || id == 0x18D1 || id == 0x12D1 || id == 0x04E8 || id == 0x2717 || id == 0x22D9 || id == 0x2A70 || id == 0x05C6 || id == 0x0BC2 || id == 0x1058 || id == 0x0781 || id == 0x0930 || id == 0x0951 || id == 0x125F || id == 0x1B1C || id == 0x154B || id == 0x0080 || id == 0x174F || id == 0x046E || id == 0x05DC || id == 0x0E8D || id == 0x148F || id == 0x0B95 || id == 0x0CF3 || id == 0x06CB || id == 0x056A || id == 0x040A || id == 0x056D || id == 0x0AF8 || id == 0x050D || id == 0x2BCF || id == 0x291A || id == 0x0BB8 || id == 0x0763 || id == 0x0FCE || id == 0x054C || id == 0x04F2 || id == 0x046A || id == 0x04D9 || id == 0x1532 || id == 0x1B7E || id == 0x07AA || id == 0x2188 || id == 0x0E0F || id == 0x0FFE || id == 0x152E || id == 0x17EF || id == 0x0BAF || id == 0x0DCD || id == 0x0FCA || id == 0x05E0 || id == 0x05DD || id == 0x0764 || id == 0x051D || id == 0x2C7C || id == 0x2341 || id == 0x1A40 || id == 0x32AC || id == 0x1D6B || id == 0x0CF8 || id == 0x0B05 || id == 0x103C || id == 0x413C || id == 0x0CCD || id == 0x0E58 || id == 0x14AD) ==> vendor_name_of(id) is None,
{
}

/// The power sources matched to a key are the given sources whose parent
/// port is that key, all of them and in their order.
pub proof fn law_port_sources_are_filtered(sources: Seq<PowerSource>, key: (i64, i64))
    ensures
        sources_at(sources, key) == sources.filter(
            |s: PowerSource| s.parent_port_type == key.0 && s.parent_port_number == key.1,
        ),
    decreases sources.len(),
{
    reveal(Seq::filter);
    if sources.len() > 0 {
        law_port_sources_are_filtered(sources.drop_last(), key);
    }
}

/// The PD identities matched to a key are the given identities whose parent
/// port is that key, all of them and in their order.
pub proof fn law_port_identities_are_filtered(ids: Seq<PDIdentity>, key: (i64, i64))
    ensures
        identities_at(ids, key) == ids.filter(
            |p: PDIdentity| p.parent_port_type == key.0 && p.parent_port_number == key.1,
        ),
    decreases ids.len(),
{
    reveal(Seq::filter);
    if ids.len() > 0 {
        law_port_identities_are_filtered(ids.drop_last(), key);
    }
}

/// With `all` every port is shown, in order; without it exactly the ports
/// whose connection is active, in order.
pub proof fn law_ports_shown(ports: Seq<USBCPort>)
    ensures
        shown_ports(ports, true) == ports,
        shown_ports(ports, false) == ports.filter(
            |p: USBCPort| p.connection_active == Some(true),
        ),
    decreases ports.len(),
{
    reveal(Seq::filter);
    if ports.len() > 0 {
        law_ports_shown(ports.drop_last());
        assert(ports.drop_last().push(ports.last()) =~= ports);
    }
}

/// The overcurrent warning: a connected port whose overcurrent count is
/// positive has the bullet that gives the count; a count of zero or less, or
/// none, adds nothing: the summary is that of the same port with no count.
pub proof fn law_overcurrent_warning(
    port: USBCPort,
    sources: Seq<&PowerSource>,
    ids: Seq<&PDIdentity>,
)
    ensures
        port.overcurrent_count matches Some(c) ==> (c > 0 && port_flags(port).connected
            ==> summary_of(port, sources, ids).2.contains(
            "⚠️  "@ + int_dec(c as int) + " overcurrent event(s) detected"@,
        )),
        !(port.overcurrent_count matches Some(c) && c > 0) ==> summary_of(port, sources, ids)
            == summary_of(USBCPort { overcurrent_count: None, ..port }, sources, ids),
{
    let quiet = USBCPort { overcurrent_count: None, ..port };
    assert(port_flags(quiet) == port_flags(port));
    if port_flags(port).connected {
        if port.overcurrent_count matches Some(c) && c > 0 {
            let c = port.overcurrent_count->0;
            let line = "⚠️  "@ + int_dec(c as int) + " overcurrent event(s) detected"@;
            let f = port_flags(port);
            let cable = crate::port_summary::first_cable_identity(ids);
            let before = crate::port_summary::speed_bullets(f) + crate::port_summary::line_if(
                f.display_port,
                "Carrying DisplayPort video"@,
            ) + crate::port_summary::emarker_bullets(f, port) + crate::port_summary::line_if(
                port.optical_cable == Some(true),
                "Optical cable"@,
            ) + crate::port_summary::power_bullets(first_usb_pd(sources));
            let after = crate::port_summary::cable_bullets(cable)
                + crate::port_summary::partner_bullets(
                crate::port_summary::first_partner_identity(ids),
            ) + crate::port_summary::cable_vendor_bullets(cable);
            let all = summary_of(port, sources, ids).2;
            assert(all == before + seq![line] + after);
            assert(all[before.len() as int] == line);
        } else {
            assert(crate::port_summary::overcurrent_bullets(port) =~= Seq::<Seq<char>>::empty());
            assert(crate::port_summary::overcurrent_bullets(quiet) =~= Seq::<Seq<char>>::empty());
            assert(connected_headline_for(port, first_usb_pd(sources)) == connected_headline_for(
                quiet,
                first_usb_pd(sources),
            ));
            assert(crate::port_summary::connected_bullets(port, sources, ids)
                =~= crate::port_summary::connected_bullets(quiet, sources, ids));
        }
    } else {
        assert(crate::port_summary::port_label_of(port) == crate::port_summary::port_label_of(
            quiet,
        ));
    }
}

/// Each flag and number of a port is read from its own registry key: the
/// connection, cable and USB flags, and the port, mode and orientation numbers.
pub proof fn law_port_fields_read_from_own_keys(
    p: USBCPort,
    d: PlistDict,
    registry: Option<PlistNode>,
)
    requires
        port_read_from(p, d, registry),
    ensures
        p.connection_active == spec_get_boolean(d, "ConnectionActive"@),
        p.active_cable == spec_get_boolean(d, "ActiveCable"@),
        p.optical_cable == spec_get_boolean(d, "OpticalCable"@),
        p.usb_active == spec_get_boolean(d, "IOAccessoryUSBActive"@),
        p.super_speed_active == spec_get_boolean(d, "IOAccessoryUSBSuperSpeedActive"@),
        p.port_number == spec_get_integer(d, "PortNumber"@),
        p.usb_mode_type == spec_get_integer(d, "IOAccessoryUSBModeType"@),
        p.plug_orientation == spec_get_integer(d, "PlugOrientation"@),
        p.overcurrent_count == spec_get_integer(d, "Overcurrent Count"@),
        opt_view(p.port_type_description) == spec_get_string(d, "PortTypeDescription"@),
        opt_view(p.port_description) == spec_get_string(d, "PortDescription"@),
        opt_view(p.usb_connect_string) == spec_get_string(d, "IOAccessoryUSBConnectString"@),
        p.plug_event_count == spec_get_integer(d, "Plug Event Count"@),
        p.connection_count == spec_get_integer(d, "ConnectionCount"@),
        crate::text::views(p.transports_supported@) == spec_get_string_array(d, "TransportsSupported"@),
        crate::text::views(p.transports_active@) == spec_get_string_array(d, "TransportsActive"@),
        crate::text::views(p.transports_provisioned@) == spec_get_string_array(
            d,
            "TransportsProvisioned"@,
        ),
{
}


} // verus!
