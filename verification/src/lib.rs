//! Plain-English reading of what a USB-C port, its cable and its partner can do,
//! built from the IOKit registry entries that macOS exposes through `ioreg`.

pub mod pd_vdo;
pub mod text;
pub mod vendor_db;
pub mod models;
pub mod port_summary;
pub mod plist_tree;
pub mod ioreg;
pub mod registry_path;
pub mod float_text;
pub mod usb_devices;
pub mod anonymize;
pub mod laws;
