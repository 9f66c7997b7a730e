use artinchip_flash::usb::ioreg::{
    find_macos_aic_device_block, location_id_to_port_path, macos_block_matches_aic,
    macos_check_device_ready, macos_not_ready_status, macos_preflight_open_error,
    parse_ioreg, parse_ioreg_number, usb_speed_label,
};

const OUTPUT: &str = "+-o Hub@1  <class IOUSBHostDevice, id 0x1>
  | {
  |   \"idVendor\" = 1
  |   \"idProduct\" = 26231
  | }
  |
+-o Board@01200000  <class IOUSBHostDevice, id 0x2>
  | {
  |   \"idVendor\" = 13251
  |   \"idProduct\" = 0x6677
  |   \"idProduct\" = 26231
  |   \"kUSBCurrentConfiguration\" = 1
  |   \"USB Address\" = 9
  |   \"locationID\" = 18874368
  |   \"USBSpeed\" = 3
  | }
  |
  +-o Board@0  <class IOUSBHostInterface, id 0x3>
      {
        \"idVendor\" = 13251
      }
+-o Board@2  <class IOUSBHostDevice, id 0x4>
  | {
  |   \"idVendor\" = 13251
  |   \"idProduct\" = 26231
  |   \"kUSBAddress\" = 12
";

fn number(line: &str, key: &str) -> Option<u64> {
    let chars: Vec<char> = line.chars().collect();
    parse_ioreg_number(&chars, key)
}

#[test]
fn properties_are_read() {
    assert_eq!(number("| \"a\" = 17", "a"), Some(17));
    assert_eq!(number("| \"a\" =  0x1F, x", "a"), Some(31));
    assert_eq!(number("| \"a\" = 0X1f", "a"), Some(31));
    assert_eq!(number("| \"a\" = Yes", "a"), None);
    assert_eq!(number("| \"a\" = 0x", "a"), None);
    assert_eq!(number("| \"a\" = 18446744073709551616", "a"), None);
    assert_eq!(number("| \"b\" = 17", "a"), None);
    assert_eq!(location_id_to_port_path(0x0120_0000), "1-2-0");
    assert_eq!(location_id_to_port_path(0x1a34_ffff), "1-a-3-4");
    assert_eq!(location_id_to_port_path(0xffff), "");
    assert_eq!(usb_speed_label(1), "Low/Full");
    assert_eq!(usb_speed_label(4), "Super");
    assert_eq!(usb_speed_label(5), "Unknown");
}

#[test]
fn devices_are_read_from_the_listing() {
    let found = parse_ioreg(OUTPUT);
    assert_eq!(found.len(), 2);
    assert_eq!(
        (found[0].bus_number, found[0].address, found[0].port_path.as_str()),
        (0, 9, "1-2-0")
    );
    assert_eq!(found[0].speed, "High");
    assert!(!found[0].ready);
    assert_eq!(found[1].address, 12);
    assert_eq!(found[1].speed, "Unknown");
    assert_eq!(found[1].port_path, "");
    assert!(found[1].status.as_ref().unwrap().starts_with(
        "missing kUSBCurrentConfiguration, no IOUSBHostInterface endpoints. Reconnect"
    ));
}

#[test]
fn readiness_needs_configuration_and_interface() {
    assert!(macos_not_ready_status(true, true).is_none());
    assert!(macos_not_ready_status(true, false)
        .unwrap()
        .starts_with("no IOUSBHostInterface endpoints. "));
    assert!(macos_not_ready_status(false, true)
        .unwrap()
        .starts_with("missing kUSBCurrentConfiguration. "));
    assert!(macos_check_device_ready(OUTPUT, 9).is_ok());
    assert!(macos_check_device_ready(OUTPUT, 12).is_err());
    assert!(macos_check_device_ready(OUTPUT, 77).is_ok());
    let block: String = find_macos_aic_device_block(OUTPUT, 9).unwrap().iter().collect();
    assert!(block.starts_with("+-o Board@01200000"));
    assert!(block.ends_with("      }\n"));
    let other: Vec<char> = block.chars().collect();
    assert!(!macos_block_matches_aic(&other, 8));
}

#[test]
fn preflight_names_the_first_device_that_is_not_ready() {
    let mut found = parse_ioreg(OUTPUT);
    let e = macos_preflight_open_error(&found, None).unwrap();
    assert!(e.starts_with(
        "Found ArtInChip device at bus 0 address 9, but macOS has not configured it for USB \
         transfers: no IOUSBHostInterface endpoints."
    ));
    found[1].ready = true;
    assert!(macos_preflight_open_error(&found, None).is_none());
    assert!(macos_preflight_open_error(&found, Some((0, 9))).is_some());
    assert!(macos_preflight_open_error(&found, Some((0, 12))).is_none());
    assert!(macos_preflight_open_error(&found, Some((3, 3))).is_none());
    found[0].status = None;
    assert!(macos_preflight_open_error(&found, Some((0, 9)))
        .unwrap()
        .ends_with("transfers: not ready"));
}
