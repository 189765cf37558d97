//! Plain-English summary of one port: a headline, a subtitle and bullets.

use vstd::prelude::*;
use vstd::string::*;
use crate::models::{
    PDEndpoint, PDIdentity, PowerSource, USBCPort, amps_text, identity_cable_vdo,
    identity_id_header, max_power_of, usbc_port_key, volts_text, watts_text,
};
use crate::pd_vdo::{
    CableType, ProductType, cable_current_label, cable_speed_label, max_volts_of,
    product_type_label,
};
use crate::text::{
    thousandths_rounded, i64_to_dec, int_dec, round_thousandths, str_equals, vec_contains_str, views,
};
use crate::vendor_db::{label, vendor_label_of};

verus! {

pub struct PortSummary {
    pub headline: String,
    pub subtitle: String,
    pub bullets: Vec<String>,
}

/// Whether some string of `v` reads `s`.
pub open spec fn has_str(v: Seq<String>, s: Seq<char>) -> bool {
    exists|i: int| 0 <= i < v.len() && v[i]@ == s
}

/// What the port's state says is active.
pub struct PortFlags {
    pub connected: bool,
    pub usb3: bool,
    pub usb2: bool,
    pub thunderbolt: bool,
    pub display_port: bool,
    pub emarker: bool,
}

pub open spec fn port_flags(port: USBCPort) -> PortFlags {
    let active = port.transports_active@;
    PortFlags {
        connected: port.connection_active == Some(true),
        usb3: has_str(active, "USB3"@) || port.super_speed_active == Some(true),
        usb2: has_str(active, "USB2"@),
        // Thunderbolt = Converged I/O
        thunderbolt: has_str(active, "CIO"@),
        display_port: has_str(active, "DisplayPort"@),
        emarker: port.active_cable == Some(true),
    }
}

/// The port's description, else its service name.
pub open spec fn port_label_of(port: USBCPort) -> Seq<char> {
    match port.port_description {
        Some(d) => d@,
        None => port.service_name@,
    }
}

/// The first source named `USB-PD`.
pub open spec fn first_usb_pd(sources: Seq<&PowerSource>) -> Option<PowerSource>
    decreases sources.len(),
{
    if sources.len() == 0 {
        None
    } else if sources[0].name@ == "USB-PD"@ {
        Some(*sources[0])
    } else {
        first_usb_pd(sources.drop_first())
    }
}

/// Whether an identity was read from a cable e-marker (SOP' or SOP'').
pub open spec fn is_cable_endpoint(e: PDEndpoint) -> bool {
    e == PDEndpoint::SopPrime || e == PDEndpoint::SopDoublePrime
}

/// The first identity read from a cable e-marker.
pub open spec fn first_cable_identity(ids: Seq<&PDIdentity>) -> Option<PDIdentity>
    decreases ids.len(),
{
    if ids.len() == 0 {
        None
    } else if is_cable_endpoint(ids[0].endpoint) {
        Some(*ids[0])
    } else {
        first_cable_identity(ids.drop_first())
    }
}

/// The first identity read from the port partner (SOP).
pub open spec fn first_partner_identity(ids: Seq<&PDIdentity>) -> Option<PDIdentity>
    decreases ids.len(),
{
    if ids.len() == 0 {
        None
    } else if ids[0].endpoint == PDEndpoint::Sop {
        Some(*ids[0])
    } else {
        first_partner_identity(ids.drop_first())
    }
}

/// A one-element or empty list of lines.
pub open spec fn line_if(cond: bool, line: Seq<char>) -> Seq<Seq<char>> {
    if cond {
        seq![line]
    } else {
        seq![]
    }
}

pub open spec fn speed_bullets(f: PortFlags) -> Seq<Seq<char>> {
    if f.thunderbolt {
        seq!["Thunderbolt / USB4 link active"@]
    } else if f.usb3 {
        seq!["SuperSpeed USB (5 Gbps or faster)"@]
    } else if f.usb2 {
        seq!["USB 2.0 only (480 Mbps) — no high-speed data"@]
    } else {
        seq![]
    }
}

pub open spec fn emarker_bullets(f: PortFlags, port: USBCPort) -> Seq<Seq<char>> {
    if f.emarker {
        seq!["Cable has an e-marker chip (advertises its capabilities)"@]
    } else if port.transports_active@.len() > 0 {
        seq!["Cable does not advertise an e-marker (basic cable)"@]
    } else {
        seq![]
    }
}

/// The charger's largest offer in whole watts, when it offers anything positive.
pub open spec fn charger_watts(pd: Option<PowerSource>) -> Option<int> {
    match pd {
        Some(s) => {
            let w = thousandths_rounded(max_power_of(s.options@));
            if s.options@.len() > 0 && w > 0 {
                Some(w)
            } else {
                None
            }
        },
        None => None,
    }
}

pub open spec fn power_bullets(pd: Option<PowerSource>) -> Seq<Seq<char>> {
    match pd {
        Some(s) => {
            let advertised = match charger_watts(pd) {
                Some(w) => seq!["Charger advertises up to "@ + int_dec(w) + "W"@],
                None => seq![],
            };
            let negotiated = match s.winning {
                Some(win) => seq![
                    "Currently negotiated: "@ + volts_text(win) + " @ "@ + amps_text(win) + " ("@
                        + watts_text(win) + ")"@,
                ],
                None => seq![],
            };
            advertised + negotiated
        },
        None => seq![],
    }
}

pub open spec fn overcurrent_bullets(port: USBCPort) -> Seq<Seq<char>> {
    match port.overcurrent_count {
        Some(c) => line_if(
            c > 0,
            "⚠️  "@ + int_dec(c as int) + " overcurrent event(s) detected"@,
        ),
        None => seq![],
    }
}

/// What a cable e-marker's cable VDO says about the cable.
pub open spec fn cable_bullets(cable: Option<PDIdentity>) -> Seq<Seq<char>> {
    match cable {
        Some(id) => match identity_cable_vdo(id.endpoint, id.vdos@) {
            Some(cv) => seq![
                "Cable speed: "@ + cable_speed_label(cv.speed),
                "Cable rated for "@ + cable_current_label(cv.current) + " at up to "@ + int_dec(
                    max_volts_of(cv.max_voltage_encoded as int),
                ) + "V (~"@ + int_dec(cv.max_watts as int) + "W)"@,
            ] + line_if(
                cv.cable_type == CableType::Active,
                "Active cable (contains signal-conditioning electronics)"@,
            ) + line_if(cv.vbus_through_cable, "Cable carries VBUS power"@),
            None => seq![],
        },
        None => seq![],
    }
}

/// What the port partner's ID header says is connected.
pub open spec fn partner_bullets(partner: Option<PDIdentity>) -> Seq<Seq<char>> {
    match partner {
        Some(id) => match identity_id_header(id.vdos@) {
            Some(h) => {
                let kind = if h.ufp_product_type != ProductType::Undefined {
                    product_type_label(h.ufp_product_type)
                } else {
                    product_type_label(h.dfp_product_type)
                };
                seq!["Connected device: "@ + kind + " — "@ + vendor_label_of(id.vendor_id)]
            },
            None => seq![],
        },
        None => seq![],
    }
}

/// Who made the cable, from a cable e-marker with a non-zero vendor ID.
pub open spec fn cable_vendor_bullets(cable: Option<PDIdentity>) -> Seq<Seq<char>> {
    match cable {
        Some(id) => line_if(id.vendor_id != 0, "Cable made by "@ + vendor_label_of(id.vendor_id)),
        None => seq![],
    }
}

/// The bullets of a connected port, in the order they are shown.
pub open spec fn connected_bullets(
    port: USBCPort,
    sources: Seq<&PowerSource>,
    ids: Seq<&PDIdentity>,
) -> Seq<Seq<char>> {
    let f = port_flags(port);
    let cable = first_cable_identity(ids);
    speed_bullets(f) + line_if(f.display_port, "Carrying DisplayPort video"@) + emarker_bullets(
        f,
        port,
    ) + line_if(port.optical_cable == Some(true), "Optical cable"@) + power_bullets(
        first_usb_pd(sources),
    ) + overcurrent_bullets(port) + cable_bullets(cable) + partner_bullets(
        first_partner_identity(ids),
    ) + cable_vendor_bullets(cable)
}

/// `Supports a, b, c.` over the capabilities present, or `Connected.` when none is.
pub open spec fn capabilities_subtitle(usb3: bool, dp: bool, emarker: bool) -> Seq<char> {
    let parts = line_if(usb3, "high-speed data"@) + line_if(dp, "video"@) + line_if(
        emarker,
        "smart cable"@,
    );
    if parts.len() == 0 {
        "Connected."@
    } else {
        "Supports "@ + join_with_comma(parts) + "."@
    }
}

/// The lines joined by `, `.
pub open spec fn join_with_comma(parts: Seq<Seq<char>>) -> Seq<char>
    decreases parts.len(),
{
    if parts.len() == 0 {
        seq![]
    } else if parts.len() == 1 {
        parts[0]
    } else {
        join_with_comma(parts.drop_last()) + ", "@ + parts.last()
    }
}

/// ` · NW charger` when a USB-PD charger offers N watts, else nothing.
pub open spec fn charger_suffix(pd: Option<PowerSource>) -> Seq<char> {
    match charger_watts(pd) {
        Some(w) => " · "@ + int_dec(w) + "W charger"@,
        None => ""@,
    }
}

/// Headline and subtitle of a connected port whose first USB-PD source is `pd`.
pub open spec fn connected_headline_for(port: USBCPort, pd: Option<PowerSource>) -> (
    Seq<char>,
    Seq<char>,
) {
    let f = port_flags(port);
    let suffix = charger_suffix(pd);
    if f.thunderbolt {
        ("Thunderbolt / USB4"@ + suffix, capabilities_subtitle(f.usb3, f.display_port, f.emarker))
    } else if f.usb3 && f.display_port {
        ("USB-C with video"@ + suffix, "Carrying both data and DisplayPort video."@)
    } else if f.display_port {
        ("Display connected"@ + suffix, "DisplayPort video over USB-C alt mode."@)
    } else if f.usb3 {
        ("USB device"@ + suffix, "SuperSpeed data link is active."@)
    } else if f.usb2 {
        (
            "Slow USB device or charge-only cable"@ + suffix,
            "Only USB 2.0 is active. If you expected high speed, the cable may not support it."@,
        )
    } else if pd is Some {
        ("Charging"@ + suffix, "Power is flowing. No data connection."@)
    } else if port.transports_active@.len() == 0 && has_str(port.transports_supported@, "USB2"@) {
        ("Charging only"@, "Power is flowing but no data link is established."@)
    } else {
        ("Connected"@, "Couldn't determine cable type from this port."@)
    }
}

/// The whole summary: headline, subtitle and bullets.
pub open spec fn summary_of(
    port: USBCPort,
    sources: Seq<&PowerSource>,
    ids: Seq<&PDIdentity>,
) -> (Seq<char>, Seq<char>, Seq<Seq<char>>) {
    if !port_flags(port).connected {
        (
            "Nothing connected"@,
            "Plug a cable into "@ + port_label_of(port) + " to see what it can do."@,
            seq![],
        )
    } else {
        let (h, s) = connected_headline_for(port, first_usb_pd(sources));
        (h, s, connected_bullets(port, sources, ids))
    }
}

fn push_line(lines: &mut Vec<String>, line: String)
    ensures
        views(final(lines)@) == views(old(lines)@).push(line@),
{
    let ghost before = lines@;
    lines.push(line);
    assert(views(lines@) =~= views(before).push(line@));
}

fn owned(s: &str) -> (r: String)
    ensures
        r@ == s@,
{
    s.to_owned()
}

fn find_usb_pd<'a>(sources: &[&'a PowerSource]) -> (r: Option<&'a PowerSource>)
    ensures
        match r {
            Some(s) => first_usb_pd(sources@) == Some(*s),
            None => first_usb_pd(sources@) is None,
        },
{
    let mut i: usize = 0;
    assert(sources@.skip(0) =~= sources@);
    while i < sources.len()
        invariant
            i <= sources@.len(),
            first_usb_pd(sources@) == first_usb_pd(sources@.skip(i as int)),
        decreases sources.len() - i,
    {
        assert(sources@.skip(i as int).drop_first() =~= sources@.skip(i + 1));
        if str_equals(sources[i].name.as_str(), "USB-PD") {
            return Some(sources[i]);
        }
        i = i + 1;
    }
    None
}

fn find_cable_identity<'a>(ids: &[&'a PDIdentity]) -> (r: Option<&'a PDIdentity>)
    ensures
        match r {
            Some(s) => first_cable_identity(ids@) == Some(*s),
            None => first_cable_identity(ids@) is None,
        },
{
    let mut i: usize = 0;
    assert(ids@.skip(0) =~= ids@);
    while i < ids.len()
        invariant
            i <= ids@.len(),
            first_cable_identity(ids@) == first_cable_identity(ids@.skip(i as int)),
        decreases ids.len() - i,
    {
        assert(ids@.skip(i as int).drop_first() =~= ids@.skip(i + 1));
        match ids[i].endpoint {
            PDEndpoint::SopPrime | PDEndpoint::SopDoublePrime => {
                return Some(ids[i]);
            },
            _ => {},
        }
        i = i + 1;
    }
    None
}

fn find_partner_identity<'a>(ids: &[&'a PDIdentity]) -> (r: Option<&'a PDIdentity>)
    ensures
        match r {
            Some(s) => first_partner_identity(ids@) == Some(*s),
            None => first_partner_identity(ids@) is None,
        },
{
    let mut i: usize = 0;
    assert(ids@.skip(0) =~= ids@);
    while i < ids.len()
        invariant
            i <= ids@.len(),
            first_partner_identity(ids@) == first_partner_identity(ids@.skip(i as int)),
        decreases ids.len() - i,
    {
        assert(ids@.skip(i as int).drop_first() =~= ids@.skip(i + 1));
        if ids[i].endpoint == PDEndpoint::Sop {
            return Some(ids[i]);
        }
        i = i + 1;
    }
    None
}


fn flags_of(port: &USBCPort) -> (r: PortFlags)
    ensures
        r == port_flags(*port),
{
    let active = &port.transports_active;
    PortFlags {
        connected: port.connection_active == Some(true),
        usb3: vec_contains_str(active, "USB3") || port.super_speed_active == Some(true),
        usb2: vec_contains_str(active, "USB2"),
        thunderbolt: vec_contains_str(active, "CIO"),
        display_port: vec_contains_str(active, "DisplayPort"),
        emarker: port.active_cable == Some(true),
    }
}

fn push_speed_bullets(bullets: &mut Vec<String>, f: &PortFlags)
    ensures
        views(final(bullets)@) == views(old(bullets)@) + speed_bullets(*f),
{
    let ghost before = views(bullets@);
    if f.thunderbolt {
        push_line(bullets, owned("Thunderbolt / USB4 link active"));
    } else if f.usb3 {
        push_line(bullets, owned("SuperSpeed USB (5 Gbps or faster)"));
    } else if f.usb2 {
        push_line(bullets, owned("USB 2.0 only (480 Mbps) — no high-speed data"));
    }
    assert(views(bullets@) =~= before + speed_bullets(*f));
}

fn push_line_if(bullets: &mut Vec<String>, cond: bool, line: &str)
    ensures
        views(final(bullets)@) == views(old(bullets)@) + line_if(cond, line@),
{
    let ghost before = views(bullets@);
    if cond {
        push_line(bullets, owned(line));
    }
    assert(views(bullets@) =~= before + line_if(cond, line@));
}

fn push_emarker_bullets(bullets: &mut Vec<String>, f: &PortFlags, port: &USBCPort)
    ensures
        views(final(bullets)@) == views(old(bullets)@) + emarker_bullets(*f, *port),
{
    let ghost before = views(bullets@);
    if f.emarker {
        push_line(bullets, owned("Cable has an e-marker chip (advertises its capabilities)"));
    } else if port.transports_active.len() > 0 {
        push_line(bullets, owned("Cable does not advertise an e-marker (basic cable)"));
    }
    assert(views(bullets@) =~= before + emarker_bullets(*f, *port));
}

/// The charger's largest offer in whole watts, when it offers anything positive.
fn charger_watts_of(pd: Option<&PowerSource>) -> (r: Option<i64>)
    ensures
        match pd {
            Some(s) => r == match charger_watts(Some(*s)) {
                Some(w) => Some(w as i64),
                None => None::<i64>,
            } && (r matches Some(w) ==> charger_watts(Some(*s)) == Some(w as int)),
            None => r is None,
        },
{
    match pd {
        Some(s) => {
            let w = round_thousandths(s.max_power_mw());
            if s.options.len() > 0 && w > 0 {
                Some(w)
            } else {
                None
            }
        },
        None => None,
    }
}

fn push_power_bullets(bullets: &mut Vec<String>, pd: Option<&PowerSource>)
    ensures
        views(final(bullets)@) == views(old(bullets)@) + power_bullets(
            match pd {
                Some(s) => Some(*s),
                None => None,
            },
        ),
{
    let ghost before = views(bullets@);
    let ghost spd = match pd {
        Some(s) => Some(*s),
        None => None,
    };
    match pd {
        Some(s) => {
            match charger_watts_of(pd) {
                Some(w) => {
                    let mut line = owned("Charger advertises up to ");
                    line.append(i64_to_dec(w).as_str());
                    line.append("W");
                    push_line(bullets, line);
                },
                None => {},
            }
            match &s.winning {
                Some(win) => {
                    let mut line = owned("Currently negotiated: ");
                    line.append(win.volts_label().as_str());
                    line.append(" @ ");
                    line.append(win.amps_label().as_str());
                    line.append(" (");
                    line.append(win.watts_label().as_str());
                    line.append(")");
                    push_line(bullets, line);
                },
                None => {},
            }
            assert(views(bullets@) =~= before + power_bullets(spd));
        },
        None => {
            assert(views(bullets@) =~= before + power_bullets(spd));
        },
    }
}

fn push_overcurrent_bullets(bullets: &mut Vec<String>, port: &USBCPort)
    ensures
        views(final(bullets)@) == views(old(bullets)@) + overcurrent_bullets(*port),
{
    let ghost before = views(bullets@);
    match port.overcurrent_count {
        Some(count) => {
            if count > 0 {
                let mut line = owned("⚠️  ");
                line.append(i64_to_dec(count).as_str());
                line.append(" overcurrent event(s) detected");
                push_line(bullets, line);
            }
        },
        None => {},
    }
    assert(views(bullets@) =~= before + overcurrent_bullets(*port));
}

fn push_cable_bullets(bullets: &mut Vec<String>, cable: Option<&PDIdentity>)
    ensures
        views(final(bullets)@) == views(old(bullets)@) + cable_bullets(
            match cable {
                Some(c) => Some(*c),
                None => None,
            },
        ),
{
    let ghost before = views(bullets@);
    let ghost sc = match cable {
        Some(c) => Some(*c),
        None => None,
    };
    match cable {
        Some(c) => {
            match c.cable_vdo() {
                Some(cv) => {
                    let mut speed = owned("Cable speed: ");
                    speed.append(cv.speed.label());
                    push_line(bullets, speed);
                    let mut rated = owned("Cable rated for ");
                    rated.append(cv.current.label());
                    rated.append(" at up to ");
                    rated.append(i64_to_dec(cv.max_volts()).as_str());
                    rated.append("V (~");
                    rated.append(i64_to_dec(cv.max_watts).as_str());
                    rated.append("W)");
                    push_line(bullets, rated);
                    let is_active = match cv.cable_type {
                        CableType::Active => true,
                        CableType::Passive => false,
                    };
                    push_line_if(
                        bullets,
                        is_active,
                        "Active cable (contains signal-conditioning electronics)",
                    );
                    push_line_if(bullets, cv.vbus_through_cable, "Cable carries VBUS power");
                    assert(views(bullets@) =~= before + cable_bullets(sc));
                },
                None => {
                    assert(views(bullets@) =~= before + cable_bullets(sc));
                },
            }
        },
        None => {
            assert(views(bullets@) =~= before + cable_bullets(sc));
        },
    }
}

fn push_partner_bullets(bullets: &mut Vec<String>, partner: Option<&PDIdentity>)
    ensures
        views(final(bullets)@) == views(old(bullets)@) + partner_bullets(
            match partner {
                Some(c) => Some(*c),
                None => None,
            },
        ),
{
    let ghost before = views(bullets@);
    let ghost sp = match partner {
        Some(c) => Some(*c),
        None => None,
    };
    match partner {
        Some(p) => {
            match p.id_header() {
                Some(header) => {
                    let kind = if header.ufp_product_type != ProductType::Undefined {
                        header.ufp_product_type.label()
                    } else {
                        header.dfp_product_type.label()
                    };
                    let mut line = owned("Connected device: ");
                    line.append(kind);
                    line.append(" — ");
                    line.append(label(p.vendor_id).as_str());
                    push_line(bullets, line);
                    assert(views(bullets@) =~= before + partner_bullets(sp));
                },
                None => {
                    assert(views(bullets@) =~= before + partner_bullets(sp));
                },
            }
        },
        None => {
            assert(views(bullets@) =~= before + partner_bullets(sp));
        },
    }
}

fn push_cable_vendor_bullets(bullets: &mut Vec<String>, cable: Option<&PDIdentity>)
    ensures
        views(final(bullets)@) == views(old(bullets)@) + cable_vendor_bullets(
            match cable {
                Some(c) => Some(*c),
                None => None,
            },
        ),
{
    let ghost before = views(bullets@);
    let ghost sc = match cable {
        Some(c) => Some(*c),
        None => None,
    };
    match cable {
        Some(c) => {
            if c.vendor_id != 0 {
                let mut line = owned("Cable made by ");
                line.append(label(c.vendor_id).as_str());
                push_line(bullets, line);
            }
        },
        None => {},
    }
    assert(views(bullets@) =~= before + cable_vendor_bullets(sc));
}


fn join_lines_with_comma(parts: &Vec<String>) -> (r: String)
    ensures
        r@ == join_with_comma(views(parts@)),
{
    let mut out = String::new();
    let n = parts.len();
    let ghost v = views(parts@);
    let mut i: usize = 0;
    assert(v.take(0) =~= Seq::<Seq<char>>::empty());
    while i < n
        invariant
            n == parts@.len(),
            v == views(parts@),
            i <= n,
            out@ == join_with_comma(v.take(i as int)),
        decreases n - i,
    {
        assert(v.take(i + 1).drop_last() =~= v.take(i as int));
        if i > 0 {
            out.append(", ");
        }
        out.append(parts[i].as_str());
        proof {
            if i == 0 {
                assert(v.take(1).len() == 1);
                assert(out@ =~= v.take(1)[0]);
            } else {
                assert(out@ =~= join_with_comma(v.take(i as int)) + ", "@ + v.take(i + 1).last());
            }
        }
        i = i + 1;
    }
    assert(v.take(n as int) =~= v);
    out
}

fn subtitle_for_capabilities(usb3: bool, dp: bool, emarker: bool) -> (r: String)
    ensures
        r@ == capabilities_subtitle(usb3, dp, emarker),
{
    let mut parts: Vec<String> = Vec::new();
    push_line_if(&mut parts, usb3, "high-speed data");
    push_line_if(&mut parts, dp, "video");
    push_line_if(&mut parts, emarker, "smart cable");
    assert(views(parts@) =~= line_if(usb3, "high-speed data"@) + line_if(dp, "video"@) + line_if(
        emarker,
        "smart cable"@,
    ));
    if parts.len() == 0 {
        owned("Connected.")
    } else {
        let mut out = owned("Supports ");
        out.append(join_lines_with_comma(&parts).as_str());
        out.append(".");
        out
    }
}

fn with_suffix(head: &str, suffix: &String) -> (r: String)
    ensures
        r@ == head@ + suffix@,
{
    let mut out = owned(head);
    out.append(suffix.as_str());
    out
}

fn headline_for_connected(
    port: &USBCPort,
    f: &PortFlags,
    pd: Option<&PowerSource>,
) -> (r: (String, String))
    requires
        *f == port_flags(*port),
    ensures
        (r.0@, r.1@) == connected_headline_for(
            *port,
            match pd {
                Some(s) => Some(*s),
                None => None,
            },
        ),
{
    let suffix = match charger_watts_of(pd) {
        Some(w) => {
            let mut s = owned(" · ");
            s.append(i64_to_dec(w).as_str());
            s.append("W charger");
            s
        },
        None => String::new(),
    };
    proof {
        reveal_strlit("");
        let spd = match pd {
            Some(s) => Some(*s),
            None => None,
        };
        assert(suffix@ =~= charger_suffix(spd));
    }
    if f.thunderbolt {
        (
            with_suffix("Thunderbolt / USB4", &suffix),
            subtitle_for_capabilities(f.usb3, f.display_port, f.emarker),
        )
    } else if f.usb3 && f.display_port {
        (with_suffix("USB-C with video", &suffix), owned("Carrying both data and DisplayPort video."))
    } else if f.display_port {
        (with_suffix("Display connected", &suffix), owned("DisplayPort video over USB-C alt mode."))
    } else if f.usb3 {
        (with_suffix("USB device", &suffix), owned("SuperSpeed data link is active."))
    } else if f.usb2 {
        (
            with_suffix("Slow USB device or charge-only cable", &suffix),
            owned(
                "Only USB 2.0 is active. If you expected high speed, the cable may not support it.",
            ),
        )
    } else if pd.is_some() {
        (with_suffix("Charging", &suffix), owned("Power is flowing. No data connection."))
    } else if port.transports_active.len() == 0 && vec_contains_str(
        &port.transports_supported,
        "USB2",
    ) {
        (owned("Charging only"), owned("Power is flowing but no data link is established."))
    } else {
        (owned("Connected"), owned("Couldn't determine cable type from this port."))
    }
}

impl PortSummary {
    pub fn new(port: &USBCPort, sources: &[&PowerSource], identities: &[&PDIdentity]) -> (r: Self)
        ensures
            (r.headline@, r.subtitle@, views(r.bullets@)) == summary_of(
                *port,
                sources@,
                identities@,
            ),
    {
        let f = flags_of(port);
        if !f.connected {
            let mut subtitle = owned("Plug a cable into ");
            match &port.port_description {
                Some(d) => subtitle.append(d.as_str()),
                None => subtitle.append(port.service_name.as_str()),
            }
            subtitle.append(" to see what it can do.");
            let r = PortSummary {
                headline: owned("Nothing connected"),
                subtitle,
                bullets: Vec::new(),
            };
            assert(views(r.bullets@) =~= Seq::<Seq<char>>::empty());
            return r;
        }
        let mut bullets: Vec<String> = Vec::new();
        let ghost empty = views(bullets@);
        assert(empty =~= Seq::<Seq<char>>::empty());
        // Speed
        push_speed_bullets(&mut bullets, &f);
        push_line_if(&mut bullets, f.display_port, "Carrying DisplayPort video");
        // E-marker
        push_emarker_bullets(&mut bullets, &f, port);
        push_line_if(&mut bullets, port.optical_cable == Some(true), "Optical cable");
        // Power summary from PD power sources
        let usb_pd = find_usb_pd(sources);
        push_power_bullets(&mut bullets, usb_pd);
        push_overcurrent_bullets(&mut bullets, port);
        // Cable e-marker (SOP'): the cable's own capabilities
        let cable = find_cable_identity(identities);
        push_cable_bullets(&mut bullets, cable);
        // Partner identity (SOP): what's connected
        let partner = find_partner_identity(identities);
        push_partner_bullets(&mut bullets, partner);
        // Cable e-marker vendor (SOP'): who made the cable
        push_cable_vendor_bullets(&mut bullets, cable);
        let (headline, subtitle) = headline_for_connected(port, &f, usb_pd);
        let r = PortSummary { headline, subtitle, bullets };
        assert(views(r.bullets@) =~= connected_bullets(*port, sources@, identities@));
        r
    }
}


/// The sources whose parent port is `key`, in their original order.
pub open spec fn sources_at(sources: Seq<PowerSource>, key: (i64, i64)) -> Seq<PowerSource>
    decreases sources.len(),
{
    if sources.len() == 0 {
        seq![]
    } else {
        let rest = sources_at(sources.drop_last(), key);
        let last = sources.last();
        if (last.parent_port_type, last.parent_port_number) == key {
            rest.push(last)
        } else {
            rest
        }
    }
}

/// The identities whose parent port is `key`, in their original order.
pub open spec fn identities_at(ids: Seq<PDIdentity>, key: (i64, i64)) -> Seq<PDIdentity>
    decreases ids.len(),
{
    if ids.len() == 0 {
        seq![]
    } else {
        let rest = identities_at(ids.drop_last(), key);
        let last = ids.last();
        if (last.parent_port_type, last.parent_port_number) == key {
            rest.push(last)
        } else {
            rest
        }
    }
}

/// The values behind a list of references.
pub open spec fn derefs<T>(v: Seq<&T>) -> Seq<T> {
    v.map_values(|x: &T| *x)
}

/// The power sources that belong to `port`: those whose parent port key is
/// the port's key; none when the port has no key.
pub fn find_port_sources<'a>(port: &USBCPort, sources: &'a [PowerSource]) -> (r: Vec<&'a PowerSource>)
    ensures
        derefs(r@) == match usbc_port_key(*port) {
            Some(k) => sources_at(sources@, k),
            None => Seq::<PowerSource>::empty(),
        },
{
    let mut out: Vec<&'a PowerSource> = Vec::new();
    match port.port_key() {
        Some(key) => {
            let n = sources.len();
            let mut i: usize = 0;
            assert(derefs(out@) =~= sources_at(sources@.take(0), key));
            while i < n
                invariant
                    n == sources@.len(),
                    i <= n,
                    derefs(out@) == sources_at(sources@.take(i as int), key),
                decreases n - i,
            {
                assert(sources@.take(i + 1).drop_last() =~= sources@.take(i as int));
                let k = sources[i].port_key();
                if k.0 == key.0 && k.1 == key.1 {
                    out.push(&sources[i]);
                }
                assert(derefs(out@) =~= sources_at(sources@.take(i + 1), key));
                i = i + 1;
            }
            assert(sources@.take(n as int) =~= sources@);
        },
        None => {
            assert(derefs(out@) =~= Seq::<PowerSource>::empty());
        },
    }
    out
}

/// The PD identities that belong to `port`: those whose parent port key is
/// the port's key; none when the port has no key.
pub fn find_port_identities<'a>(port: &USBCPort, identities: &'a [PDIdentity]) -> (r: Vec<
    &'a PDIdentity,
>)
    ensures
        derefs(r@) == match usbc_port_key(*port) {
            Some(k) => identities_at(identities@, k),
            None => Seq::<PDIdentity>::empty(),
        },
{
    let mut out: Vec<&'a PDIdentity> = Vec::new();
    match port.port_key() {
        Some(key) => {
            let n = identities.len();
            let mut i: usize = 0;
            assert(derefs(out@) =~= identities_at(identities@.take(0), key));
            while i < n
                invariant
                    n == identities@.len(),
                    i <= n,
                    derefs(out@) == identities_at(identities@.take(i as int), key),
                decreases n - i,
            {
                assert(identities@.take(i + 1).drop_last() =~= identities@.take(i as int));
                let k = identities[i].port_key();
                if k.0 == key.0 && k.1 == key.1 {
                    out.push(&identities[i]);
                }
                assert(derefs(out@) =~= identities_at(identities@.take(i + 1), key));
                i = i + 1;
            }
            assert(identities@.take(n as int) =~= identities@);
        },
        None => {
            assert(derefs(out@) =~= Seq::<PDIdentity>::empty());
        },
    }
    out
}


/// The ports to show: every port with `all`, else the ports with a connection active.
pub open spec fn shown_ports(ports: Seq<USBCPort>, all: bool) -> Seq<USBCPort>
    decreases ports.len(),
{
    if ports.len() == 0 {
        seq![]
    } else {
        let rest = shown_ports(ports.drop_last(), all);
        if all || ports.last().connection_active == Some(true) {
            rest.push(ports.last())
        } else {
            rest
        }
    }
}

/// The ports to show, in order: all of them, or only those with a cable connected.
pub fn ports_to_show<'a>(ports: &'a [USBCPort], all: bool) -> (r: Vec<&'a USBCPort>)
    ensures
        derefs(r@) == shown_ports(ports@, all),
{
    let mut out: Vec<&'a USBCPort> = Vec::new();
    let n = ports.len();
    let mut i: usize = 0;
    assert(derefs(out@) =~= shown_ports(ports@.take(0), all));
    while i < n
        invariant
            n == ports@.len(),
            i <= n,
            derefs(out@) == shown_ports(ports@.take(i as int), all),
        decreases n - i,
    {
        assert(ports@.take(i + 1).drop_last() =~= ports@.take(i as int));
        if all || ports[i].connection_active == Some(true) {
            out.push(&ports[i]);
        }
        assert(derefs(out@) =~= shown_ports(ports@.take(i + 1), all));
        i = i + 1;
    }
    assert(ports@.take(n as int) =~= ports@);
    out
}

/// What to print when no port is to be shown.
pub fn nothing_to_show_message(all: bool) -> (r: &'static str)
    ensures
        r@ == if all {
            "No USB-C ports found on this system."@
        } else {
            "No cables connected. Use --all to show all ports."@
        },
{
    if all {
        "No USB-C ports found on this system."
    } else {
        "No cables connected. Use --all to show all ports."
    }
}

/// The devices on bus `bus`, in order.
pub open spec fn devices_on(devices: Seq<crate::models::USBDevice>, bus: i64) -> Seq<
    crate::models::USBDevice,
>
    decreases devices.len(),
{
    if devices.len() == 0 {
        seq![]
    } else {
        let rest = devices_on(devices.drop_last(), bus);
        if devices.last().bus_index == Some(bus) {
            rest.push(devices.last())
        } else {
            rest
        }
    }
}

/// The USB devices attached to the port on bus `bus`.
pub fn devices_on_bus<'a>(devices: &'a [crate::models::USBDevice], bus: i64) -> (r: Vec<
    &'a crate::models::USBDevice,
>)
    ensures
        derefs(r@) == devices_on(devices@, bus),
{
    let mut out: Vec<&'a crate::models::USBDevice> = Vec::new();
    let n = devices.len();
    let mut i: usize = 0;
    assert(derefs(out@) =~= devices_on(devices@.take(0), bus));
    while i < n
        invariant
            n == devices@.len(),
            i <= n,
            derefs(out@) == devices_on(devices@.take(i as int), bus),
        decreases n - i,
    {
        assert(devices@.take(i + 1).drop_last() =~= devices@.take(i as int));
        if devices[i].bus_index == Some(bus) {
            out.push(&devices[i]);
        }
        assert(derefs(out@) =~= devices_on(devices@.take(i + 1), bus));
        i = i + 1;
    }
    assert(devices@.take(n as int) =~= devices@);
    out
}

} // verus!
