use whatcable::models::{PDEndpoint, PowerOption, PowerSource, USBCPort, USBDevice};

fn create_test_port() -> USBCPort {
    USBCPort {
        id: 0,
        service_name: "Port-USB-C".to_string(),
        class_name: "AppleHPMInterfaceType12".to_string(),
        port_description: None,
        port_type_description: Some("USB-C".to_string()),
        port_number: Some(1),
        connection_active: Some(false),
        active_cable: Some(false),
        optical_cable: Some(false),
        usb_active: Some(false),
        super_speed_active: Some(false),
        usb_mode_type: Some(0),
        usb_connect_string: None,
        transports_supported: vec![],
        transports_active: vec![],
        transports_provisioned: vec![],
        plug_orientation: Some(0),
        plug_event_count: Some(0),
        connection_count: Some(0),
        overcurrent_count: Some(0),
        bus_index: None,
    }
}

fn create_test_device() -> USBDevice {
    USBDevice {
        id: 0,
        location_id: 0,
        vendor_id: 0,
        product_id: 0,
        vendor_name: None,
        product_name: None,
        serial_number: None,
        usb_version: None,
        speed_raw: Some(1),
        bus_power_ma: None,
        current_ma: None,
        bus_index: None,
    }
}

#[test]
fn test_usbc_port_orientation_labels() {
    let mut port = create_test_port();

    port.plug_orientation = Some(1);
    assert_eq!(port.plug_orientation_label(), "Normal");

    port.plug_orientation = Some(2);
    assert_eq!(port.plug_orientation_label(), "Flipped");

    port.plug_orientation = Some(0);
    assert_eq!(port.plug_orientation_label(), "Flipped");

    port.plug_orientation = None;
    assert_eq!(port.plug_orientation_label(), "Flipped");
}

#[test]
fn test_usbc_port_mode_type_labels() {
    let mut port = create_test_port();

    port.usb_mode_type = Some(0);
    assert_eq!(port.usb_mode_type_label(), "None");

    port.usb_mode_type = Some(1);
    assert_eq!(port.usb_mode_type_label(), "Host");

    port.usb_mode_type = Some(2);
    assert_eq!(port.usb_mode_type_label(), "Device");

    port.usb_mode_type = Some(3);
    assert_eq!(port.usb_mode_type_label(), "DRD (Dual-Role)");
}

#[test]
fn test_usbc_port_key() {
    let mut port = create_test_port();

    port.port_type_description = Some("USB-C".to_string());
    port.port_number = Some(1);
    assert_eq!(port.port_key(), Some((2, 1)));

    port.port_type_description = Some("MagSafe 3".to_string());
    port.port_number = Some(2);
    assert_eq!(port.port_key(), Some((17, 2)));

    port.port_type_description = None;
    assert_eq!(port.port_key(), None);
}

#[test]
fn test_usb_device_speed_labels() {
    let mut device = create_test_device();

    device.speed_raw = Some(0);
    assert_eq!(device.speed_label(), "Low Speed (1.5 Mbps)");

    device.speed_raw = Some(1);
    assert_eq!(device.speed_label(), "Full Speed (12 Mbps)");

    device.speed_raw = Some(2);
    assert_eq!(device.speed_label(), "High Speed (480 Mbps)");

    device.speed_raw = Some(3);
    assert_eq!(device.speed_label(), "SuperSpeed (5 Gbps)");

    device.speed_raw = Some(4);
    assert_eq!(device.speed_label(), "SuperSpeed+ (10 Gbps)");
}

#[test]
fn test_usb_device_display_name() {
    let mut device = create_test_device();

    device.product_name = Some("Magic Mouse".to_string());
    device.vendor_name = Some("Apple Inc.".to_string());
    assert_eq!(device.display_name(), "Magic Mouse");

    device.product_name = None;
    assert_eq!(device.display_name(), "Apple Inc.");

    device.vendor_name = None;
    device.vendor_id = 0x05AC;
    assert_eq!(device.display_name(), "USB Device (VID: 0x05AC)");
}

#[test]
fn test_power_option_labels() {
    let option = PowerOption {
        voltage_mv: 20000,
        max_current_ma: 3000,
        max_power_mw: 60000,
    };

    assert_eq!(option.volts_label(), "20.0V");
    assert_eq!(option.amps_label(), "3.00A");
    assert_eq!(option.watts_label(), "60W");
}

#[test]
fn test_pd_endpoint_from_str() {
    assert_eq!(PDEndpoint::from_string("SOP"), PDEndpoint::Sop);
    assert_eq!(PDEndpoint::from_string("SOP'"), PDEndpoint::SopPrime);
    assert_eq!(PDEndpoint::from_string("SOP''"), PDEndpoint::SopDoublePrime);
    assert_eq!(PDEndpoint::from_string("invalid"), PDEndpoint::Unknown);
}

#[test]
fn port_key_rejects_other_port_types_and_missing_numbers() {
    let mut port = create_test_port();
    port.port_type_description = Some("Thunderbolt".to_string());
    assert_eq!(port.port_key(), None);
    port.port_type_description = Some("Mag".to_string());
    assert_eq!(port.port_key(), None);
    port.port_type_description = Some("USB-C".to_string());
    port.port_number = None;
    assert_eq!(port.port_key(), None);
    port.port_type_description = Some("MagSafe".to_string());
    port.port_number = Some(-3);
    assert_eq!(port.port_key(), Some((17, -3)));
}

#[test]
fn mode_type_unknown_values() {
    let mut port = create_test_port();
    port.usb_mode_type = Some(4);
    assert_eq!(port.usb_mode_type_label(), "Unknown");
    port.usb_mode_type = None;
    assert_eq!(port.usb_mode_type_label(), "Unknown");
}

#[test]
fn device_speed_gen2x2_and_unknown() {
    let mut device = create_test_device();
    device.speed_raw = Some(5);
    assert_eq!(device.speed_label(), "SuperSpeed+ Gen 2x2 (20 Gbps)");
    device.speed_raw = Some(9);
    assert_eq!(device.speed_label(), "Unknown speed");
    device.speed_raw = None;
    assert_eq!(device.speed_label(), "Unknown speed");
}

#[test]
fn display_name_pads_small_vendor_ids() {
    let mut device = create_test_device();
    device.vendor_id = 0x1A;
    assert_eq!(device.display_name(), "USB Device (VID: 0x001A)");
    device.vendor_id = 0xFFFF;
    assert_eq!(device.display_name(), "USB Device (VID: 0xFFFF)");
}

fn option(mv: i64, ma: i64, mw: i64) -> PowerOption {
    PowerOption {
        voltage_mv: mv,
        max_current_ma: ma,
        max_power_mw: mw,
    }
}

#[test]
fn power_option_labels_round() {
    let o = option(5000, 1500, 7500);
    assert_eq!(o.volts_label(), "5.0V");
    assert_eq!(o.amps_label(), "1.50A");
    assert_eq!(o.watts_label(), "8W");

    let o = option(14960, 2349, 60499);
    assert_eq!(o.volts_label(), "15.0V");
    assert_eq!(o.amps_label(), "2.35A");
    assert_eq!(o.watts_label(), "60W");

    let o = option(20250, 1125, 500);
    assert_eq!(o.volts_label(), "20.2V");
    assert_eq!(o.amps_label(), "1.12A");
    assert_eq!(o.watts_label(), "1W");

    let o = option(0, 0, 0);
    assert_eq!(o.volts_label(), "0.0V");
    assert_eq!(o.amps_label(), "0.00A");
    assert_eq!(o.watts_label(), "0W");
}

#[test]
fn power_option_labels_negative() {
    let o = option(-1500, -2500, -1500);
    assert_eq!(o.volts_label(), "-1.5V");
    assert_eq!(o.amps_label(), "-2.50A");
    assert_eq!(o.watts_label(), "-2W");
    let o = option(-40, -4, -400);
    assert_eq!(o.volts_label(), "-0.0V");
    assert_eq!(o.amps_label(), "-0.00A");
    assert_eq!(o.watts_label(), "0W");
}

#[test]
fn power_source_max_power() {

    let mut s = PowerSource {
        id: 1,
        name: "USB-PD".to_string(),
        parent_port_type: 2,
        parent_port_number: 1,
        options: vec![],
        winning: None,
    };
    assert_eq!(s.max_power_mw(), 0);
    assert_eq!(s.port_key(), (2, 1));
    s.options = vec![option(5000, 3000, 15000), option(20000, 5000, 100000), option(9000, 3000, 27000)];
    assert_eq!(s.max_power_mw(), 100000);
    s.options = vec![option(5000, 3000, -5), option(5000, 3000, -2)];
    assert_eq!(s.max_power_mw(), -2);
}

#[test]
fn power_option_labels_follow_double_rounding() {
    // 1.05 and 1.15 are not doubles: the nearest ones lie just above and just below
    let o = option(1050, 4825, 2500);
    assert_eq!(o.volts_label(), "1.1V");
    assert_eq!(o.amps_label(), "4.83A");
    assert_eq!(o.watts_label(), "3W");
    let o = option(1150, 350, -2500);
    assert_eq!(o.volts_label(), "1.1V");
    assert_eq!(o.amps_label(), "0.35A");
    assert_eq!(o.watts_label(), "-3W");
    let o = option(-1050, -1, 250);
    assert_eq!(o.volts_label(), "-1.1V");
    assert_eq!(o.amps_label(), "-0.00A");
    assert_eq!(o.watts_label(), "0W");
    let o = option(i64::MAX, i64::MIN, i64::MAX);
    assert_eq!(o.volts_label(), "9223372036854776.0V");
    assert_eq!(o.amps_label(), "-9223372036854776.00A");
    assert_eq!(o.watts_label(), "9223372036854776W");
}
