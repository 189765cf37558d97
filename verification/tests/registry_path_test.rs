use whatcable::anonymize::replace_all_spans;
use whatcable::ioreg::{
    pd_identities_from_root, ports_from_ioreg_output, ports_from_root, power_sources_from_root,
    registry_tree_from_ioreg_output,
};
use whatcable::plist_tree::{PlistDict, PlistNode};
use whatcable::registry_path::{bus_index_from_chain, find_ancestry, hpm_bus_index};
use whatcable::usb_devices::usb_devices_from_root;

fn s(v: &str) -> PlistNode {
    PlistNode::String(v.to_string())
}

fn num(v: i64) -> PlistNode {
    PlistNode::Integer(Some(v), if v >= 0 { Some(v as u64) } else { None })
}

fn dict(pairs: Vec<(&str, PlistNode)>) -> PlistNode {
    let mut keys = Vec::new();
    let mut values = Vec::new();
    for (k, v) in pairs {
        keys.push(k.to_string());
        values.push(v);
    }
    PlistNode::Dictionary(PlistDict { keys, values })
}

fn entry(id: i64, name: &str, children: Vec<PlistNode>) -> PlistNode {
    dict(vec![
        ("IORegistryEntryID", num(id)),
        ("IORegistryEntryName", s(name)),
        ("IORegistryEntryChildren", PlistNode::Array(children)),
    ])
}

fn port_entry(id: i64, name: &str) -> PlistNode {
    dict(vec![
        ("IORegistryEntryID", num(id)),
        ("IORegistryEntryName", s(name)),
        ("IOObjectClass", s("AppleHPMInterfaceType10")),
        ("PortTypeDescription", s("USB-C")),
        ("PortNumber", num(1)),
    ])
}

/// Root → arm-io → hpm2 → (port 100); Root → arm-io → tc-controller → (port 200).
fn registry() -> PlistNode {
    entry(
        1,
        "Root",
        vec![entry(
            2,
            "arm-io",
            vec![
                entry(3, "hpm2", vec![entry(100, "Port-USB-C@1", vec![])]),
                entry(4, "tc-controller", vec![entry(200, "Port-USB-C@2", vec![])]),
                entry(5, "hpm7", vec![entry(6, "hpm3", vec![entry(300, "Port-USB-C@3", vec![])])]),
            ],
        )],
    )
}

#[test]
fn hpm_names_give_bus_indexes() {
    assert_eq!(hpm_bus_index("hpm0"), Some(0));
    assert_eq!(hpm_bus_index("hpm2"), Some(2));
    assert_eq!(hpm_bus_index("hpm12"), Some(12));
    assert_eq!(hpm_bus_index("hpm"), None);
    assert_eq!(hpm_bus_index("hpm2x"), None);
    assert_eq!(hpm_bus_index("xhpm2"), None);
    assert_eq!(hpm_bus_index("HPM2"), None);
    assert_eq!(hpm_bus_index("hpm9223372036854775807"), Some(i64::MAX));
    assert_eq!(hpm_bus_index("hpm9223372036854775808"), None);
}

#[test]
fn nearest_hpm_ancestor_wins() {
    let chain = |v: &[&str]| v.iter().map(|x| x.to_string()).collect::<Vec<String>>();
    assert_eq!(bus_index_from_chain(&chain(&["Root", "arm-io", "hpm2"])), Some(2));
    assert_eq!(bus_index_from_chain(&chain(&["Root", "hpm7", "hpm3", "x"])), Some(3));
    assert_eq!(bus_index_from_chain(&chain(&["Root", "arm-io"])), None);
    assert_eq!(bus_index_from_chain(&chain(&[])), None);
}

#[test]
fn ancestry_in_registry_tree() {
    let tree = registry();
    assert_eq!(
        find_ancestry(&tree, 100),
        Some(vec!["Root".to_string(), "arm-io".to_string(), "hpm2".to_string()])
    );
    assert_eq!(find_ancestry(&tree, 1), Some(vec![]));
    assert_eq!(find_ancestry(&tree, 999), None);
    let list = PlistNode::Array(vec![s("junk"), tree]);
    assert_eq!(
        find_ancestry(&list, 6),
        Some(vec!["Root".to_string(), "arm-io".to_string(), "hpm7".to_string()])
    );
}

#[test]
fn ports_take_bus_index_from_registry() {
    let root = PlistNode::Array(vec![
        port_entry(100, "Port-USB-C@1"),
        port_entry(200, "Port-USB-C@2"),
        port_entry(300, "Port-USB-C@3"),
        port_entry(400, "Port-USB-C@4"),
    ]);
    let tree = Some(registry());
    let ports = ports_from_root(&root, &tree);
    assert_eq!(ports.len(), 4);
    assert_eq!(ports[0].bus_index, Some(2));
    assert_eq!(ports[1].bus_index, None);
    assert_eq!(ports[2].bus_index, Some(3));
    assert_eq!(ports[3].bus_index, None);
    let without = ports_from_root(&root, &None);
    assert!(without.iter().all(|p| p.bus_index.is_none()));
    assert!(ports_from_root(&s("not an array"), &tree).is_empty());
}

#[test]
fn registry_tree_from_output() {
    assert!(registry_tree_from_ioreg_output(false, b"<plist><dict/></plist>").is_none());
    assert!(registry_tree_from_ioreg_output(true, b"").is_none());
    assert!(registry_tree_from_ioreg_output(true, b"not a plist").is_none());
    let xml = b"<?xml version=\"1.0\" encoding=\"UTF-8\"?>
<plist version=\"1.0\"><dict>
<key>IORegistryEntryID</key><integer>1</integer>
<key>IORegistryEntryName</key><string>Root</string>
<key>IORegistryEntryChildren</key><array><dict>
<key>IORegistryEntryID</key><integer>3</integer>
<key>IORegistryEntryName</key><string>hpm5</string>
<key>IORegistryEntryChildren</key><array><dict>
<key>IORegistryEntryID</key><integer>100</integer>
<key>IORegistryEntryName</key><string>Port-USB-C@1</string>
</dict></array></dict></array></dict></plist>";
    let tree = registry_tree_from_ioreg_output(true, xml);
    assert!(tree.is_some());
    let ports_xml = b"<?xml version=\"1.0\" encoding=\"UTF-8\"?>
<plist version=\"1.0\"><array><dict>
<key>IORegistryEntryID</key><integer>100</integer>
<key>IORegistryEntryName</key><string>Port-USB-C@1</string>
<key>IOObjectClass</key><string>AppleHPMInterfaceType10</string>
<key>PortTypeDescription</key><string>USB-C</string>
</dict></array></plist>";
    let ports = ports_from_ioreg_output(true, ports_xml, &tree);
    assert_eq!(ports.len(), 1);
    assert_eq!(ports[0].bus_index, Some(5));
}

#[test]
fn power_sources_from_parsed_root() {
    let root = PlistNode::Array(vec![
        dict(vec![
            ("IORegistryEntryID", num(7)),
            ("PowerSourceName", s("USB-PD")),
            ("ParentPortType", num(2)),
            ("ParentPortNumber", num(1)),
        ]),
        s("junk"),
    ]);
    let sources = power_sources_from_root(&root);
    assert_eq!(sources.len(), 1);
    assert_eq!(sources[0].id, 7);
    assert_eq!(sources[0].name, "USB-PD");
    assert!(power_sources_from_root(&dict(vec![])).is_empty());
}

#[test]
fn pd_identities_from_parsed_root() {
    let root = PlistNode::Array(vec![dict(vec![
        ("IORegistryEntryID", num(9)),
        ("IORegistryEntryName", s("SOP1")),
        ("ParentPortType", num(2)),
        ("ParentPortNumber", num(1)),
    ])]);
    let ids = pd_identities_from_root(&root);
    assert_eq!(ids.len(), 1);
    assert_eq!(ids[0].id, 9);
    assert!(pd_identities_from_root(&s("x")).is_empty());
}

#[test]
fn usb_devices_from_parsed_root() {
    let dev = |loc: i64, name: &str| {
        dict(vec![
            ("IORegistryEntryID", num(loc)),
            ("USB Product Name", s(name)),
            ("idVendor", num(0x05ac)),
            ("idProduct", num(0x1234)),
            ("locationID", num(loc)),
            ("Device Speed", num(3)),
        ])
    };
    let root = PlistNode::Array(vec![dev(0x0210_0000, "Zeta"), dev(0x0110_0000, "Alpha")]);
    let devices = usb_devices_from_root(&root);
    assert_eq!(devices.len(), 2);
    assert_eq!(devices[0].product_name.as_deref(), Some("Alpha"));
    assert_eq!(devices[1].product_name.as_deref(), Some("Zeta"));
    assert!(usb_devices_from_root(&num(3)).is_empty());
}

#[test]
fn spans_are_replaced_in_order() {
    let text = b"a<key>X</key><string>one</string>b<key>X</key><string>two</string>c".to_vec();
    let spans = vec![(1usize, 33usize), (34usize, 66usize)];
    let out = replace_all_spans(&text, &spans, "X", "P");
    assert_eq!(
        String::from_utf8(out).unwrap(),
        "a<key>X</key><string>FAKE-P-1</string>b<key>X</key><string>FAKE-P-2</string>c"
    );
    assert_eq!(replace_all_spans(&text, &vec![], "X", "P"), text);
}
