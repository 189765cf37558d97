use whatcable::models::{PDEndpoint, PDIdentity, PowerOption, PowerSource, USBCPort};
use whatcable::port_summary::{find_port_identities, find_port_sources, PortSummary};

fn port(connected: bool, active: &[&str]) -> USBCPort {
    USBCPort {
        id: 7,
        service_name: "Port-USB-C@1".to_string(),
        class_name: "AppleHPMInterfaceType12".to_string(),
        port_description: None,
        port_type_description: Some("USB-C".to_string()),
        port_number: Some(1),
        connection_active: Some(connected),
        active_cable: Some(false),
        optical_cable: Some(false),
        usb_active: None,
        super_speed_active: None,
        usb_mode_type: None,
        usb_connect_string: None,
        transports_supported: vec!["USB2".to_string(), "USB3".to_string(), "CIO".to_string()],
        transports_active: active.iter().map(|s| s.to_string()).collect(),
        transports_provisioned: vec![],
        plug_orientation: None,
        plug_event_count: None,
        connection_count: None,
        overcurrent_count: None,
        bus_index: None,
    }
}

fn option(mv: i64, ma: i64, mw: i64) -> PowerOption {
    PowerOption {
        voltage_mv: mv,
        max_current_ma: ma,
        max_power_mw: mw,
    }
}

fn usb_pd(options: Vec<PowerOption>, winning: Option<PowerOption>) -> PowerSource {
    PowerSource {
        id: 3,
        name: "USB-PD".to_string(),
        parent_port_type: 2,
        parent_port_number: 1,
        options,
        winning,
    }
}

fn identity(endpoint: PDEndpoint, vendor_id: i64, vdos: Vec<u32>) -> PDIdentity {
    PDIdentity {
        id: 9,
        endpoint,
        parent_port_type: 2,
        parent_port_number: 1,
        vendor_id,
        product_id: 0x1234,
        bcd_device: 0,
        vdos,
        spec_revision: 3,
    }
}

#[test]
fn readme_thunderbolt_example() {
    let mut p = port(true, &["CIO", "DisplayPort"]);
    p.super_speed_active = Some(true);
    p.active_cable = Some(true);
    let charger = usb_pd(
        vec![option(5000, 3000, 15000), option(20000, 4800, 96000)],
        Some(option(20000, 4800, 96000)),
    );
    let cable = identity(PDEndpoint::SopPrime, 0x05AC, vec![0x1800_0000, 0, 0, 0x43]);
    let s = PortSummary::new(&p, &[&charger], &[&cable]);
    assert_eq!(s.headline, "Thunderbolt / USB4 · 96W charger");
    assert_eq!(s.subtitle, "Supports high-speed data, video, smart cable.");
    assert_eq!(
        s.bullets,
        vec![
            "Thunderbolt / USB4 link active",
            "Carrying DisplayPort video",
            "Cable has an e-marker chip (advertises its capabilities)",
            "Charger advertises up to 96W",
            "Currently negotiated: 20.0V @ 4.80A (96W)",
            "Cable speed: USB4 Gen 3 (20 / 40 Gbps)",
            "Cable rated for 5 A at up to 20V (~100W)",
            "Cable made by Apple (0x05AC)",
        ]
    );
}

#[test]
fn disconnected_port() {
    let p = port(false, &[]);
    let s = PortSummary::new(&p, &[], &[]);
    assert_eq!(s.headline, "Nothing connected");
    assert_eq!(s.subtitle, "Plug a cable into Port-USB-C@1 to see what it can do.");
    assert!(s.bullets.is_empty());

    let mut p = port(false, &["USB3"]);
    p.port_description = Some("Left USB-C".to_string());
    let s = PortSummary::new(&p, &[], &[]);
    assert_eq!(s.subtitle, "Plug a cable into Left USB-C to see what it can do.");
    assert!(s.bullets.is_empty());
}

#[test]
fn usb2_only_cable() {
    let p = port(true, &["USB2"]);
    let s = PortSummary::new(&p, &[], &[]);
    assert_eq!(s.headline, "Slow USB device or charge-only cable");
    assert_eq!(
        s.subtitle,
        "Only USB 2.0 is active. If you expected high speed, the cable may not support it."
    );
    assert_eq!(
        s.bullets,
        vec![
            "USB 2.0 only (480 Mbps) — no high-speed data",
            "Cable does not advertise an e-marker (basic cable)",
        ]
    );
}

#[test]
fn display_and_usb_headlines() {
    let s = PortSummary::new(&port(true, &["USB3", "DisplayPort"]), &[], &[]);
    assert_eq!(s.headline, "USB-C with video");
    assert_eq!(s.subtitle, "Carrying both data and DisplayPort video.");
    let s = PortSummary::new(&port(true, &["DisplayPort"]), &[], &[]);
    assert_eq!(s.headline, "Display connected");
    assert_eq!(s.subtitle, "DisplayPort video over USB-C alt mode.");
    let s = PortSummary::new(&port(true, &["USB3"]), &[], &[]);
    assert_eq!(s.headline, "USB device");
    assert_eq!(s.subtitle, "SuperSpeed data link is active.");
    let s = PortSummary::new(&port(true, &["CIO"]), &[], &[]);
    assert_eq!(s.headline, "Thunderbolt / USB4");
    assert_eq!(s.subtitle, "Connected.");
}

#[test]
fn charging_headlines() {
    let charger = usb_pd(vec![option(5000, 3000, 15000)], None);
    let s = PortSummary::new(&port(true, &[]), &[&charger], &[]);
    assert_eq!(s.headline, "Charging · 15W charger");
    assert_eq!(s.subtitle, "Power is flowing. No data connection.");
    assert_eq!(s.bullets, vec!["Charger advertises up to 15W"]);

    let empty = usb_pd(vec![], None);
    let s = PortSummary::new(&port(true, &[]), &[&empty], &[]);
    assert_eq!(s.headline, "Charging");
    assert!(s.bullets.is_empty());

    let s = PortSummary::new(&port(true, &[]), &[], &[]);
    assert_eq!(s.headline, "Charging only");
    assert_eq!(s.subtitle, "Power is flowing but no data link is established.");

    let mut p = port(true, &[]);
    p.transports_supported = vec![];
    let s = PortSummary::new(&p, &[], &[]);
    assert_eq!(s.headline, "Connected");
    assert_eq!(s.subtitle, "Couldn't determine cable type from this port.");
}

#[test]
fn only_usb_pd_sources_count() {
    let mut other = usb_pd(vec![option(5000, 1500, 7500)], None);
    other.name = "TypeC".to_string();
    let s = PortSummary::new(&port(true, &[]), &[&other], &[]);
    assert_eq!(s.headline, "Charging only");
    assert!(s.bullets.is_empty());
}

#[test]
fn overcurrent_optical_partner_and_active_cable() {
    let mut p = port(true, &["USB3"]);
    p.overcurrent_count = Some(2);
    p.optical_cable = Some(true);
    let partner = identity(PDEndpoint::Sop, 0x1234, vec![0x1000_0000]);
    let cable = identity(PDEndpoint::SopDoublePrime, 0, vec![0x2000_0000, 0, 0, 0x231]);
    let s = PortSummary::new(&p, &[], &[&partner, &cable]);
    assert_eq!(
        s.bullets,
        vec![
            "SuperSpeed USB (5 Gbps or faster)",
            "Cable does not advertise an e-marker (basic cable)",
            "Optical cable",
            "⚠️  2 overcurrent event(s) detected",
            "Cable speed: USB 3.2 Gen 1 (5 Gbps)",
            "Cable rated for 3 A at up to 30V (~90W)",
            "Active cable (contains signal-conditioning electronics)",
            "Cable carries VBUS power",
            "Connected device: USB Peripheral — 0x1234",
        ]
    );
}

#[test]
fn partner_kind_falls_back_to_dfp() {
    let partner = identity(PDEndpoint::Sop, 0x05AC, vec![0x0080_0000]);
    let s = PortSummary::new(&port(true, &[]), &[], &[&partner]);
    assert_eq!(s.bullets, vec!["Connected device: USB Hub — Apple (0x05AC)"]);
    // too few VDOs: no cable VDO, but the cable vendor is still named
    let cable = identity(PDEndpoint::SopPrime, 0x2BCF, vec![0x1800_0000]);
    let s = PortSummary::new(&port(true, &[]), &[], &[&cable]);
    assert_eq!(s.bullets, vec!["Cable made by Anker (0x2BCF)"]);
}

#[test]
fn find_sources_and_identities_by_port_key() {
    let p = port(true, &[]);
    let mut a = usb_pd(vec![], None);
    a.id = 1;
    let mut b = usb_pd(vec![], None);
    b.id = 2;
    b.parent_port_number = 2;
    let mut c = usb_pd(vec![], None);
    c.id = 3;
    c.parent_port_type = 17;
    let mut d = usb_pd(vec![], None);
    d.id = 4;
    let sources = vec![a, b, c, d];
    let found: Vec<u64> = find_port_sources(&p, &sources).iter().map(|s| s.id).collect();
    assert_eq!(found, vec![1, 4]);

    let mut i1 = identity(PDEndpoint::Sop, 0, vec![]);
    i1.id = 10;
    let mut i2 = identity(PDEndpoint::Sop, 0, vec![]);
    i2.id = 11;
    i2.parent_port_number = 3;
    let ids = vec![i1, i2];
    let found: Vec<u64> = find_port_identities(&p, &ids).iter().map(|s| s.id).collect();
    assert_eq!(found, vec![10]);

    let mut no_key = port(true, &[]);
    no_key.port_type_description = None;
    assert!(find_port_sources(&no_key, &sources).is_empty());
    assert!(find_port_identities(&no_key, &ids).is_empty());
}
