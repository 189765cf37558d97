use whatcable::pd_vdo::{
    decode_cable_vdo, decode_id_header, CableCurrent, CableSpeed, CableType, ProductType,
};
use whatcable::vendor_db;

#[test]
fn product_type_from_raw_and_labels() {
    assert_eq!(ProductType::from_raw(0), ProductType::Undefined);
    assert_eq!(ProductType::from_raw(1), ProductType::PdusbHub);
    assert_eq!(ProductType::from_raw(2), ProductType::PdusbPeripheral);
    assert_eq!(ProductType::from_raw(3), ProductType::PassiveCable);
    assert_eq!(ProductType::from_raw(4), ProductType::ActiveCable);
    assert_eq!(ProductType::from_raw(5), ProductType::Ama);
    assert_eq!(ProductType::from_raw(6), ProductType::Vpd);
    assert_eq!(ProductType::from_raw(7), ProductType::Other);
    assert_eq!(ProductType::from_raw(8), ProductType::Undefined);
    assert_eq!(ProductType::Undefined.label(), "Unspecified");
    assert_eq!(ProductType::Ama.label(), "Alternate Mode Adapter");
    assert_eq!(ProductType::Vpd.label(), "VCONN-powered device");
    assert_eq!(ProductType::PassiveCable.label(), "Passive cable");
}

#[test]
fn cable_speed_and_current_from_raw() {
    assert_eq!(CableSpeed::from_raw(0), CableSpeed::Usb20);
    assert_eq!(CableSpeed::from_raw(1), CableSpeed::Usb32Gen1);
    assert_eq!(CableSpeed::from_raw(2), CableSpeed::Usb32Gen2);
    assert_eq!(CableSpeed::from_raw(3), CableSpeed::Usb4Gen3);
    assert_eq!(CableSpeed::from_raw(4), CableSpeed::Usb4Gen4);
    assert_eq!(CableSpeed::from_raw(7), CableSpeed::Usb20);
    assert_eq!(CableSpeed::Usb4Gen4.label(), "USB4 Gen 4 (80 Gbps)");
    assert_eq!(CableSpeed::Usb20.label(), "USB 2.0 (480 Mbps)");
    assert_eq!(CableCurrent::from_raw(0), CableCurrent::UsbDefault);
    assert_eq!(CableCurrent::from_raw(1), CableCurrent::ThreeAmp);
    assert_eq!(CableCurrent::from_raw(2), CableCurrent::FiveAmp);
    assert_eq!(CableCurrent::from_raw(3), CableCurrent::UsbDefault);
    assert_eq!(CableCurrent::UsbDefault.max_amps(), 3);
    assert_eq!(CableCurrent::ThreeAmp.max_amps(), 3);
    assert_eq!(CableCurrent::FiveAmp.max_amps(), 5);
    assert_eq!(CableCurrent::UsbDefault.label(), "USB default");
    assert_eq!(CableCurrent::FiveAmp.label(), "5 A");
}

#[test]
fn decode_id_header_fields() {
    let h = decode_id_header(0xA500_0000);
    assert!(h.usb_comm_host);
    assert!(!h.usb_comm_device);
    assert!(h.modal_operation);
    assert_eq!(h.ufp_product_type, ProductType::ActiveCable);
    assert_eq!(h.dfp_product_type, ProductType::PdusbPeripheral);

    let h = decode_id_header(0x4000_0000);
    assert!(!h.usb_comm_host);
    assert!(h.usb_comm_device);
    assert!(!h.modal_operation);
    assert_eq!(h.ufp_product_type, ProductType::Undefined);
    assert_eq!(h.dfp_product_type, ProductType::Undefined);
}

#[test]
fn decode_cable_vdo_fields() {
    let cv = decode_cable_vdo(0x253, true);
    assert_eq!(cv.speed, CableSpeed::Usb4Gen3);
    assert_eq!(cv.current, CableCurrent::FiveAmp);
    assert_eq!(cv.max_watts, 150);
    assert_eq!(cv.cable_type, CableType::Active);
    assert!(cv.vbus_through_cable);
    assert_eq!(cv.max_voltage_encoded, 1);
    assert_eq!(cv.max_volts(), 30);

    let cv = decode_cable_vdo(0x0, false);
    assert_eq!(cv.speed, CableSpeed::Usb20);
    assert_eq!(cv.current, CableCurrent::UsbDefault);
    assert_eq!(cv.max_watts, 60);
    assert_eq!(cv.cable_type, CableType::Passive);
    assert!(!cv.vbus_through_cable);
    assert_eq!(cv.max_volts(), 20);

    let cv = decode_cable_vdo(0x644, false);
    assert_eq!(cv.speed, CableSpeed::Usb4Gen4);
    assert_eq!(cv.current, CableCurrent::FiveAmp);
    assert_eq!(cv.max_voltage_encoded, 3);
    assert_eq!(cv.max_volts(), 50);
    assert_eq!(cv.max_watts, 250);
}

#[test]
fn decode_ignores_unread_bits() {
    // bits outside 2..0, 4, 6..5, 10..9 change nothing
    let a = decode_cable_vdo(0x253, false);
    let b = decode_cable_vdo(0x253 | 0xFFFF_F988, false);
    assert_eq!(a.speed, b.speed);
    assert_eq!(a.current, b.current);
    assert_eq!(a.max_watts, b.max_watts);
    assert_eq!(a.vbus_through_cable, b.vbus_through_cable);
    assert_eq!(a.max_voltage_encoded, b.max_voltage_encoded);
    let h1 = decode_id_header(0xA500_0000);
    let h2 = decode_id_header(0xA57F_FFFF);
    assert_eq!(h1.ufp_product_type, h2.ufp_product_type);
    assert_eq!(h1.dfp_product_type, h2.dfp_product_type);
    assert_eq!(h1.modal_operation, h2.modal_operation);
}

#[test]
fn cable_watts_is_volts_times_amps() {
    for vdo in [0u32, 0x20, 0x40, 0x60, 0x200, 0x240, 0x400, 0x440, 0x600, 0x640] {
        let cv = decode_cable_vdo(vdo, false);
        assert_eq!(cv.max_watts, cv.max_volts() * cv.current.max_amps());
        assert!(cv.max_watts >= 60 && cv.max_watts <= 250);
    }
}

#[test]
fn vendor_names_and_labels() {
    assert_eq!(vendor_db::name(0x05AC), Some("Apple"));
    assert_eq!(vendor_db::name(0x2BCF), Some("Anker"));
    assert_eq!(vendor_db::name(0x14AD), Some("Microvision"));
    assert_eq!(vendor_db::name(0x1234), None);
    assert_eq!(vendor_db::label(0x05AC), "Apple (0x05AC)");
    assert_eq!(vendor_db::label(0x0080), "Crucial (0x0080)");
    assert_eq!(vendor_db::label(0x1234), "0x1234");
    assert_eq!(vendor_db::label(0x1), "0x0001");
    assert_eq!(vendor_db::label(0x12345), "0x12345");
    assert_eq!(vendor_db::label(-1), "0xFFFFFFFFFFFFFFFF");
}
