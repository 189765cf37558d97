use whatcable::ioreg::{
    is_physical_port, pd_identities_from_ioreg_output, port_controller_classes,
    ports_from_ioreg_output, power_sources_from_ioreg_output, vdo_from_data, IoregError,
};
use whatcable::models::PDEndpoint;
use whatcable::usb_devices::{format_bcd, usb_devices_from_ioreg_output};

fn plist(body: &str) -> Vec<u8> {
    format!(
        "<?xml version=\"1.0\" encoding=\"UTF-8\"?>\n<!DOCTYPE plist PUBLIC \"-//Apple//DTD PLIST 1.0//EN\" \"http://www.apple.com/DTDs/PropertyList-1.0.dtd\">\n<plist version=\"1.0\">\n{}\n</plist>\n",
        body
    )
    .into_bytes()
}

const PORTS: &str = r#"<array>
  <dict>
    <key>IORegistryEntryID</key><integer>4294968000</integer>
    <key>IORegistryEntryName</key><string>Port-USB-C@1</string>
    <key>IOObjectClass</key><string>AppleHPMInterfaceType12</string>
    <key>PortTypeDescription</key><string>USB-C</string>
    <key>PortDescription</key><string>Left</string>
    <key>PortNumber</key><integer>1</integer>
    <key>ConnectionActive</key><true/>
    <key>ActiveCable</key><integer>1</integer>
    <key>OpticalCable</key><false/>
    <key>TransportsActive</key><array><string>CIO</string><string>USB3</string><integer>5</integer></array>
    <key>TransportsSupported</key><array><string>USB2</string></array>
    <key>PlugOrientation</key><real>1.7</real>
    <key>Overcurrent Count</key><false/>
    <key>IOAccessoryUSBModeType</key><integer>3</integer>
  </dict>
  <dict>
    <key>IORegistryEntryID</key><integer>12</integer>
    <key>IORegistryEntryName</key><string>usbc-internal</string>
    <key>IOObjectClass</key><string>AppleHPMInterfaceType12</string>
    <key>PortTypeDescription</key><string>USB-C</string>
  </dict>
  <dict>
    <key>IORegistryEntryID</key><integer>13</integer>
    <key>IORegistryEntryName</key><string>Port-MagSafe 3@2</string>
    <key>IOObjectClass</key><string>AppleHPMInterfaceType12</string>
  </dict>
  <dict>
    <key>IORegistryEntryID</key><integer>14</integer>
    <key>IORegistryEntryName</key><string>Port-USB-C@3</string>
    <key>PortTypeDescription</key><string>USB-C</string>
  </dict>
  <dict>
    <key>IORegistryEntryID</key><string>not a number</string>
    <key>IORegistryEntryName</key><string>Port-MagSafe 3@2</string>
    <key>IOObjectClass</key><string>AppleHPMInterfaceType12</string>
    <key>PortTypeDescription</key><string>MagSafe 3</string>
  </dict>
  <string>junk</string>
</array>"#;

#[test]
fn reads_physical_ports() {
    let ports = ports_from_ioreg_output(true, &plist(PORTS), &None);
    assert_eq!(ports.len(), 2);
    let p = &ports[0];
    assert_eq!(p.id, 4294968000);
    assert_eq!(p.service_name, "Port-USB-C@1");
    assert_eq!(p.class_name, "AppleHPMInterfaceType12");
    assert_eq!(p.port_description.as_deref(), Some("Left"));
    assert_eq!(p.port_type_description.as_deref(), Some("USB-C"));
    assert_eq!(p.port_number, Some(1));
    assert_eq!(p.connection_active, Some(true));
    assert_eq!(p.active_cable, Some(true));
    assert_eq!(p.optical_cable, Some(false));
    assert_eq!(p.super_speed_active, None);
    assert_eq!(p.transports_active, vec!["CIO".to_string(), "USB3".to_string()]);
    assert_eq!(p.transports_supported, vec!["USB2".to_string()]);
    assert!(p.transports_provisioned.is_empty());
    assert_eq!(p.plug_orientation, Some(1));
    assert_eq!(p.overcurrent_count, Some(0));
    assert_eq!(p.usb_mode_type_label(), "DRD (Dual-Role)");
    assert_eq!(p.bus_index, None);
    assert_eq!(p.port_key(), Some((2, 1)));
    // an ID that is not an integer reads as 0
    assert_eq!(ports[1].id, 0);
    assert_eq!(ports[1].port_key(), None);
    assert!(ports.iter().all(is_physical_port));
}

#[test]
fn port_output_edge_cases() {
    assert!(ports_from_ioreg_output(false, &plist(PORTS), &None).is_empty());
    assert!(ports_from_ioreg_output(true, b"", &None).is_empty());
    assert!(ports_from_ioreg_output(true, b"this is not a plist", &None).is_empty());
    assert!(ports_from_ioreg_output(true, &plist("<dict></dict>"), &None).is_empty());
    let classes = port_controller_classes();
    assert_eq!(
        classes,
        vec![
            "AppleHPMInterfaceType10",
            "AppleHPMInterfaceType11",
            "AppleHPMInterfaceType12",
            "AppleTCControllerType10"
        ]
    );
}

const SOURCES: &str = r#"<array>
  <dict>
    <key>IORegistryEntryID</key><integer>77</integer>
    <key>PowerSourceName</key><string>USB-PD</string>
    <key>ParentPortType</key><integer>2</integer>
    <key>ParentPortNumber</key><integer>1</integer>
    <key>PowerSourceOptions</key>
    <array>
      <dict>
        <key>Voltage (mV)</key><integer>5000</integer>
        <key>Max Current (mA)</key><integer>3000</integer>
        <key>Max Power (mW)</key><integer>15000</integer>
      </dict>
      <dict>
        <key>Voltage (mV)</key><integer>20000</integer>
        <key>Max Current (mA)</key><integer>3250</integer>
      </dict>
      <dict>
        <key>Voltage (mV)</key><integer>0</integer>
        <key>Max Current (mA)</key><integer>3000</integer>
      </dict>
      <string>ignored</string>
    </array>
    <key>WinningPowerSourceOption</key>
    <dict>
      <key>Voltage (mV)</key><integer>20000</integer>
      <key>Max Current (mA)</key><integer>3250</integer>
    </dict>
  </dict>
  <dict>
    <key>IORegistryEntryID</key><integer>78</integer>
  </dict>
  <dict>
    <key>PowerSourceName</key><string>no id</string>
  </dict>
</array>"#;

#[test]
fn reads_power_sources() {
    let sources = power_sources_from_ioreg_output(true, &plist(SOURCES)).unwrap();
    assert_eq!(sources.len(), 2);
    let s = &sources[0];
    assert_eq!(s.id, 77);
    assert_eq!(s.name, "USB-PD");
    assert_eq!(s.port_key(), (2, 1));
    assert_eq!(s.options.len(), 2);
    assert_eq!(s.options[0].max_power_mw, 15000);
    assert_eq!(s.options[1].voltage_mv, 20000);
    assert_eq!(s.options[1].max_power_mw, 65000);
    assert_eq!(s.max_power_mw(), 65000);
    let w = s.winning.unwrap();
    assert_eq!((w.voltage_mv, w.max_current_ma, w.max_power_mw), (20000, 3250, 65000));
    let t = &sources[1];
    assert_eq!(t.name, "Unknown");
    assert_eq!(t.port_key(), (0, 0));
    assert!(t.options.is_empty());
    assert!(t.winning.is_none());
}

#[test]
fn power_source_output_edge_cases() {
    assert!(power_sources_from_ioreg_output(false, b"garbage").unwrap().is_empty());
    assert_eq!(
        power_sources_from_ioreg_output(true, b"garbage").unwrap_err(),
        IoregError::ParseFailed
    );
    assert!(power_sources_from_ioreg_output(true, &plist("<string>x</string>"))
        .unwrap()
        .is_empty());
}

const IDENTITIES: &str = r#"<array>
  <dict>
    <key>IORegistryEntryID</key><integer>501</integer>
    <key>ComponentName</key><string>SOP'</string>
    <key>ParentPortType</key><integer>2</integer>
    <key>ParentPortNumber</key><integer>1</integer>
    <key>Specification Revision</key><integer>3</integer>
    <key>Vendor ID</key><integer>99</integer>
    <key>Metadata</key>
    <dict>
      <key>Vendor ID</key><integer>1452</integer>
      <key>Product ID</key><integer>4660</integer>
      <key>bcdDevice</key><integer>256</integer>
      <key>VDOs</key>
      <array>
        <data>AAAAGA==</data>
        <data>AAAA</data>
        <data>AAAAAA==</data>
        <data>AAAAAA==</data>
        <data>QwAAAA==</data>
      </array>
    </dict>
  </dict>
  <dict>
    <key>IORegistryEntryID</key><integer>502</integer>
    <key>AddressDescription</key><string>SOP</string>
    <key>Vendor ID</key><integer>1452</integer>
    <key>Product ID</key><integer>7</integer>
  </dict>
  <dict>
    <key>IORegistryEntryID</key><integer>503</integer>
  </dict>
</array>"#;

#[test]
fn reads_pd_identities() {
    let ids = pd_identities_from_ioreg_output(true, &plist(IDENTITIES)).unwrap();
    assert_eq!(ids.len(), 3);
    let a = &ids[0];
    assert_eq!(a.id, 501);
    assert_eq!(a.endpoint, PDEndpoint::SopPrime);
    assert_eq!(a.port_key(), (2, 1));
    assert_eq!(a.spec_revision, 3);
    assert_eq!(a.vendor_id, 1452);
    assert_eq!(a.product_id, 4660);
    assert_eq!(a.bcd_device, 256);
    assert_eq!(a.vdos, vec![0x1800_0000, 0, 0, 0x43]);
    let cv = a.cable_vdo().unwrap();
    assert_eq!(cv.max_watts, 100);
    let b = &ids[1];
    assert_eq!(b.endpoint, PDEndpoint::Sop);
    assert_eq!(b.vendor_id, 1452);
    assert_eq!(b.product_id, 7);
    assert_eq!(b.bcd_device, 0);
    assert!(b.vdos.is_empty());
    assert!(b.id_header().is_none());
    assert!(b.cable_vdo().is_none());
    let c = &ids[2];
    assert_eq!(c.endpoint, PDEndpoint::Unknown);
    assert_eq!(c.vendor_id, 0);
    assert_eq!(
        pd_identities_from_ioreg_output(true, b"<plist").unwrap_err(),
        IoregError::ParseFailed
    );
    assert!(pd_identities_from_ioreg_output(false, b"").unwrap().is_empty());
}

#[test]
fn vdo_bytes_are_little_endian() {
    assert_eq!(vdo_from_data(&[0x43, 0x00, 0x00, 0x00]), Some(0x43));
    assert_eq!(vdo_from_data(&[0x01, 0x02, 0x03, 0x04, 0x05]), Some(0x0403_0201));
    assert_eq!(vdo_from_data(&[0x01, 0x02, 0x03]), None);
    assert_eq!(vdo_from_data(&[]), None);
}

const DEVICES: &str = r#"<array>
  <dict>
    <key>IORegistryEntryID</key><integer>1</integer>
    <key>USB Product Name</key><string>Hub</string>
    <key>idVendor</key><integer>1507</integer>
    <key>locationID</key><integer>17825792</integer>
    <key>Device Speed</key><integer>2</integer>
    <key>bcdUSB</key><integer>528</integer>
    <key>IORegistryEntryChildren</key>
    <array>
      <dict>
        <key>IORegistryEntryID</key><integer>2</integer>
        <key>USB Product Name</key><string>Zeta Drive</string>
        <key>idVendor</key><integer>1921</integer>
        <key>idProduct</key><integer>21889</integer>
        <key>locationID</key><integer>17891328</integer>
        <key>Device Speed</key><integer>3</integer>
        <key>bcdUSB</key><integer>800</integer>
        <key>Bus Power Available</key><integer>450</integer>
        <key>Requested Power</key><integer>448</integer>
        <key>USB Serial Number</key><string>ABC</string>
      </dict>
      <dict>
        <key>IORegistryEntryID</key><integer>3</integer>
        <key>USB Product Name</key><string>Zeta Drive Interface</string>
        <key>idVendor</key><integer>1921</integer>
        <key>idProduct</key><integer>21889</integer>
        <key>locationID</key><integer>17891328</integer>
      </dict>
      <dict>
        <key>IORegistryEntryID</key><integer>4</integer>
        <key>USB Product Name</key><string>Alpha Duplicate</string>
        <key>idVendor</key><integer>1921</integer>
        <key>idProduct</key><integer>21889</integer>
        <key>locationID</key><integer>17891328</integer>
        <key>Device Speed</key><integer>3</integer>
      </dict>
    </array>
  </dict>
  <dict>
    <key>IORegistryEntryID</key><integer>5</integer>
    <key>Device Speed</key><integer>1</integer>
  </dict>
  <dict>
    <key>IORegistryEntryID</key><integer>6</integer>
    <key>USB Vendor Name</key><string>Alpha Corp</string>
    <key>idVendor</key><integer>4660</integer>
    <key>idProduct</key><integer>1</integer>
    <key>locationID</key><integer>34603008</integer>
    <key>Device Speed</key><integer>1</integer>
    <key>bcdUSB</key><integer>513</integer>
  </dict>
</array>"#;

#[test]
fn reads_usb_devices() {
    let devs = usb_devices_from_ioreg_output(true, &plist(DEVICES)).unwrap();
    let ids: Vec<u64> = devs.iter().map(|d| d.id).collect();
    assert_eq!(ids, vec![6, 1, 2]);
    let alpha = &devs[0];
    assert_eq!(alpha.display_name(), "Alpha Corp");
    assert_eq!(alpha.usb_version.as_deref(), Some("2.0.1"));
    assert_eq!(alpha.bus_index, Some(2));
    assert_eq!(alpha.speed_label(), "Full Speed (12 Mbps)");
    let hub = &devs[1];
    assert_eq!(hub.usb_version.as_deref(), Some("2.1"));
    assert_eq!(hub.vendor_id, 0x05E3);
    assert_eq!(hub.product_id, 0);
    let zeta = &devs[2];
    assert_eq!(zeta.display_name(), "Zeta Drive");
    assert_eq!(zeta.location_id, 0x0111_0000);
    assert_eq!(zeta.vendor_id, 0x0781);
    assert_eq!(zeta.product_id, 0x5581);
    assert_eq!(zeta.usb_version.as_deref(), Some("3.2"));
    assert_eq!(zeta.bus_power_ma, Some(900));
    assert_eq!(zeta.current_ma, Some(896));
    assert_eq!(zeta.serial_number.as_deref(), Some("ABC"));
    assert_eq!(zeta.bus_index, Some(1));
}

#[test]
fn usb_device_output_edge_cases() {
    assert!(usb_devices_from_ioreg_output(false, &plist(DEVICES)).unwrap().is_empty());
    assert!(usb_devices_from_ioreg_output(true, b"").unwrap().is_empty());
    assert_eq!(
        usb_devices_from_ioreg_output(true, b"nope").unwrap_err(),
        IoregError::ParseFailed
    );
    assert!(usb_devices_from_ioreg_output(true, &plist("<integer>3</integer>"))
        .unwrap()
        .is_empty());
}

#[test]
fn bcd_versions() {
    assert_eq!(format_bcd(0x0200), "2.0");
    assert_eq!(format_bcd(0x0210), "2.1");
    assert_eq!(format_bcd(0x0320), "3.2");
    assert_eq!(format_bcd(0x0201), "2.0.1");
    assert_eq!(format_bcd(0xFFFF), "255.15.15");
    assert_eq!(format_bcd(0), "0.0");
}
