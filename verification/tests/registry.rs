use fnirsi_usbtester_flasher::device_registry::{
    choose_flash_target, DeviceInfo, DeviceMode, DeviceRegistry, FlashTarget,
};
use fnirsi_usbtester_flasher::usb_class::interface_class_name;

fn fnb48() -> DeviceInfo {
    DeviceInfo {
        vendor_id: 0x2e3c,
        product_id: 0x5559,
        name: "FNIRSI FNB-48".to_string(),
        model: "FNB-48".to_string(),
        dfu_vendor_id: Some(0x0483),
        dfu_product_id: Some(0x0038),
    }
}

#[test]
fn new_registry_holds_fnb58() {
    let r = DeviceRegistry::new();
    let list = r.list_supported_devices();
    assert_eq!(list.len(), 1);
    let d = &list[0];
    assert_eq!(d.name, "FNIRSI FNB-58");
    assert_eq!(d.model, "FNB-58");
    assert_eq!((d.vendor_id, d.product_id), (0x2e3c, 0x5558));
    assert_eq!((d.dfu_vendor_id, d.dfu_product_id), (Some(0x0483), Some(0x0038)));
}

#[test]
fn fnb58_found_in_normal_mode() {
    let r = DeviceRegistry::new();
    let (d, m) = r.find_device(0x2e3c, 0x5558).unwrap();
    assert_eq!(d.model, "FNB-58");
    assert_eq!(m, DeviceMode::Normal);
}

#[test]
fn fnb58_found_in_dfu_mode() {
    let r = DeviceRegistry::new();
    let (d, m) = r.find_device(0x0483, 0x0038).unwrap();
    assert_eq!(d.model, "FNB-58");
    assert_eq!(m, DeviceMode::Dfu);
}

#[test]
fn unknown_ids_not_found() {
    let r = DeviceRegistry::new();
    assert!(r.find_device(0x0483, 0x5558).is_none());
    assert!(r.find_device(0x2e3c, 0x0038).is_none());
    assert!(r.find_device(0x1234, 0x5678).is_none());
}

#[test]
fn mode_checks() {
    let d = fnb48();
    assert!(d.is_normal_mode(0x2e3c, 0x5559));
    assert!(!d.is_normal_mode(0x2e3c, 0x5558));
    assert!(d.is_dfu_mode(0x0483, 0x0038));
    assert!(!d.is_dfu_mode(0x0483, 0x0039));
}

#[test]
fn no_dfu_ids_means_never_dfu() {
    let mut d = fnb48();
    d.dfu_product_id = None;
    assert!(!d.is_dfu_mode(0x0483, 0x0038));
    let mut e = fnb48();
    e.dfu_vendor_id = None;
    assert!(!e.is_dfu_mode(0x0483, 0x0038));
}

#[test]
fn added_device_is_listed_and_found() {
    let mut r = DeviceRegistry::new();
    r.add_device(fnb48());
    assert_eq!(r.list_supported_devices().len(), 2);
    assert_eq!(r.list_supported_devices()[1].model, "FNB-48");
    let (d, m) = r.find_device(0x2e3c, 0x5559).unwrap();
    assert_eq!(d.model, "FNB-48");
    assert_eq!(m, DeviceMode::Normal);
}

#[test]
fn earlier_device_wins_shared_dfu_ids() {
    let mut r = DeviceRegistry::new();
    r.add_device(fnb48());
    let (d, m) = r.find_device(0x0483, 0x0038).unwrap();
    assert_eq!(d.model, "FNB-58");
    assert_eq!(m, DeviceMode::Dfu);
}

#[test]
fn normal_mode_takes_precedence() {
    let mut r = DeviceRegistry::new();
    r.add_device(DeviceInfo {
        vendor_id: 1,
        product_id: 2,
        name: "Same".to_string(),
        model: "S".to_string(),
        dfu_vendor_id: Some(1),
        dfu_product_id: Some(2),
    });
    assert_eq!(r.find_device(1, 2).unwrap().1, DeviceMode::Normal);
}

#[test]
fn mode_labels() {
    assert_eq!(DeviceMode::Normal.label(), "Normal Mode");
    assert_eq!(DeviceMode::Dfu.label(), "DFU/Bootloader Mode");
}

#[test]
fn recognize_keeps_bus_order_and_modes() {
    let r = DeviceRegistry::new();
    let ids = [(0x1d6b, 0x0002), (0x0483, 0x0038), (0x2e3c, 0x5558), (0x046d, 0xc52b)];
    let found = r.recognize_devices(&ids);
    assert_eq!(found, vec![(1, DeviceMode::Dfu), (2, DeviceMode::Normal)]);
    assert!(r.recognize_devices(&[]).is_empty());
}

#[test]
fn target_is_first_dfu_device() {
    let found = [(0, DeviceMode::Normal), (3, DeviceMode::Dfu), (5, DeviceMode::Dfu)];
    assert_eq!(choose_flash_target(&found), FlashTarget::Dfu(1));
}

#[test]
fn target_when_none_in_dfu() {
    let found = [(2, DeviceMode::Normal), (4, DeviceMode::Normal)];
    assert_eq!(choose_flash_target(&found), FlashTarget::NotInDfuMode(0));
}

#[test]
fn target_when_nothing_found() {
    assert_eq!(choose_flash_target(&[]), FlashTarget::NoSupportedDevice);
}

#[test]
fn interface_class_names() {
    assert_eq!(interface_class_name(0x03), "HID (Human Interface)");
    assert_eq!(interface_class_name(0x08), "Mass Storage");
    assert_eq!(interface_class_name(0x0A), "CDC-Data");
    assert_eq!(interface_class_name(0xFF), "Vendor Specific");
    assert_eq!(interface_class_name(0x04), "Unknown");
    assert_eq!(interface_class_name(0x00), "Unknown");
}

#[test]
fn many_added_devices_are_listed_in_call_order() {
    let mut r = DeviceRegistry::new();
    let models = ["A", "B", "A", "C"];
    for m in models {
        let mut d = fnb48();
        d.model = m.to_string();
        r.add_device(d);
    }
    let list = r.list_supported_devices();
    assert_eq!(list.len(), 5);
    assert_eq!(list[0].model, "FNB-58");
    for (i, m) in models.iter().enumerate() {
        assert_eq!(list[i + 1].model, *m);
    }
}
