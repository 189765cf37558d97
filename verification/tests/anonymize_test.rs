use whatcable::anonymize::anonymize_data;

#[test]
fn replaces_names_and_serials_with_numbered_placeholders() {
    let input = "<key>USB Product Name</key>\n\t<string>Magic Mouse</string><key>USB Product Name</key><string>Keyboard</string><key>USB Serial Number</key> <string>XYZ</string><key>Serial Number</key><string>S1</string><key>idVendor</key><integer>1452</integer>";
    let out = String::from_utf8(anonymize_data(input.as_bytes())).unwrap();
    assert_eq!(
        out,
        "<key>USB Product Name</key><string>FAKE-PRODUCT-1</string><key>USB Product Name</key><string>FAKE-PRODUCT-2</string><key>USB Serial Number</key><string>FAKE-SERIAL-1</string><key>Serial Number</key><string>FAKE-SERIAL-1</string><key>idVendor</key><integer>1452</integer>"
    );
}

#[test]
fn each_key_keeps_its_own_counter() {
    let input = "<key>IORegistryEntryName</key><string>Port-USB-C@1</string><key>Manufacturer</key><string>Acme</string><key>IORegistryEntryName</key><string>hub</string><key>USB Vendor Name</key><string>Acme</string>";
    let out = String::from_utf8(anonymize_data(input.as_bytes())).unwrap();
    assert_eq!(
        out,
        "<key>IORegistryEntryName</key><string>FAKE-ENTRY-1</string><key>Manufacturer</key><string>FAKE-VENDOR-1</string><key>IORegistryEntryName</key><string>FAKE-ENTRY-2</string><key>USB Vendor Name</key><string>FAKE-VENDOR-1</string>"
    );
}

#[test]
fn text_without_matches_is_unchanged() {
    let input = "<key>Product</key><string></string><key>PortNumber</key><integer>1</integer>";
    assert_eq!(anonymize_data(input.as_bytes()), input.as_bytes().to_vec());
    assert_eq!(anonymize_data(b""), Vec::<u8>::new());
}

#[test]
fn invalid_utf8_is_replaced() {
    let input = b"<key>Product</key><string>A\xffB</string>\xfe";
    let out = String::from_utf8(anonymize_data(input)).unwrap();
    assert_eq!(out, "<key>Product</key><string>FAKE-PRODUCT-1</string>\u{FFFD}");
}
