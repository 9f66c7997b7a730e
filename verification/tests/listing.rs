use artinchip_flash::device::plan::classify_components;
use artinchip_flash::listing::{plan_rows, push_padded, scan_line, serial_port_line, usb_device_line};
use artinchip_flash::number::{
    dec_text, hex_text, parse_decimal, parse_number, push_dec_wide, push_span,
};
use artinchip_flash::protocol::commands::FwcMeta;
use artinchip_flash::text::{
    chars_of, cut_at, cut_last_at, drop_prefix, drop_trailing, find_chars, join, lines, split,
    str_contains, str_trim, string_of,
};
use artinchip_flash::uart::ports::SerialPortInfo;
use artinchip_flash::usb::search::{DeviceInfo, UsbDeviceInfo};

#[test]
fn plan_is_listed() {
    let meta = |name: &str, partition: &str| FwcMeta {
        name: name.to_string(),
        partition: partition.to_string(),
        offset: 0,
        size: 0,
        crc: 0,
        record: Vec::new(),
    };
    let list = vec![
        meta("image.updater.spl", "u"),
        meta("image.info", ""),
        meta("image.target.os", "os"),
        meta("image.target.env", "env"),
        meta("other", "o"),
    ];
    assert_eq!(
        plan_rows(&classify_components(&list, &["env".to_string()])),
        vec![
            "  Updater: image.updater.spl partition=u selected=true",
            "  ImageInfo: image.info partition= selected=true",
            "  Target: image.target.os partition=os selected=false",
            "  Target: image.target.env partition=env selected=true",
            "  Other: other partition=o selected=true",
        ]
    );
}

#[test]
fn rows_are_laid_out() {
    let port = SerialPortInfo {
        port_name: "/dev/ttyUSB0".to_string(),
        port_type: "usb".to_string(),
        vid: Some(0x1a86),
        pid: Some(0x7523),
        serial_number: None,
        manufacturer: None,
        product: Some("Serial".to_string()),
    };
    assert_eq!(
        serial_port_line(&port),
        format!("  {:<32} type={:<9} usb=1a86:7523 Serial", "/dev/ttyUSB0", "usb")
    );
    let d = UsbDeviceInfo {
        bus_number: 1,
        address: 22,
        vendor_id: 0x33c3,
        product_id: 0x6677,
        port_path: "1-2".to_string(),
        speed: "High".to_string(),
        class_code: 0,
        subclass_code: 0xab,
        protocol_code: 1,
    };
    assert_eq!(
        usb_device_line(&d),
        "  bus=1   address=22  33c3:6677 class=00/ab/01 speed=High       path=1-2  <-- ArtInChip upgrade"
    );
    let mut d = DeviceInfo {
        bus_number: 1,
        address: 2,
        vendor_id: 0x33c3,
        product_id: 0x6677,
        port_path: "1".to_string(),
        speed: "High".to_string(),
        ready: true,
        status: None,
    };
    assert_eq!(
        scan_line(&d),
        "  bus=1 address=2 path=1 vid=0x33c3 pid=0x6677 speed=High status=ready"
    );
    d.ready = false;
    d.status = Some("why".to_string());
    assert!(scan_line(&d).ends_with("status=not-ready\n    why"));
    let mut s = String::new();
    push_padded(&mut s, "äb", 4);
    assert_eq!(s, "äb  ");
}

#[test]
fn numbers_are_rendered_and_read() {
    for n in [0u64, 9, 10, 4294967296, u64::MAX] {
        assert_eq!(dec_text(n), n.to_string());
        assert_eq!(hex_text(n, 8), format!("{:08x}", n));
        assert_eq!(hex_text(n, 0), format!("{:x}", n));
        assert_eq!(parse_decimal(&chars_of(&dec_text(n)), u64::MAX), Some(n));
        assert_eq!(parse_number(&chars_of(&hex_text(n, 0)), 16, u64::MAX), Some(n));
    }
    let mut s = String::new();
    push_dec_wide(&mut s, 7, 2);
    push_dec_wide(&mut s, 123, 2);
    assert_eq!(s, "07123");
    assert_eq!(parse_decimal(&chars_of("+5"), 10), Some(5));
    assert_eq!(parse_decimal(&chars_of("11"), 10), None);
    assert_eq!(parse_decimal(&chars_of(""), 10), None);
    assert_eq!(parse_decimal(&chars_of("-1"), 10), None);
    assert_eq!(parse_number(&chars_of("fg"), 16, 1000), None);
}

#[test]
fn spans_read_like_durations() {
    for ms in [0u64, 1, 50, 999, 1000, 1500, 1050, 6000, 20000, 60001, u64::MAX] {
        let mut s = String::new();
        push_span(&mut s, ms);
        assert_eq!(s, format!("{:?}", std::time::Duration::from_millis(ms)));
    }
}

#[test]
fn text_is_taken_apart() {
    for t in ["", "a", " a b ", "\u{3000}x\u{a0}\n", "\t\u{b}\u{c}y", "\u{200b}z"] {
        assert_eq!(str_trim(t), t.trim());
    }
    for t in ["", "\n", "a", "a\n", "a\r\nb", "a\rb\n\n", "\r\n\r"] {
        let got: Vec<String> = lines(&chars_of(t)).iter().map(|l| string_of(l)).collect();
        let want: Vec<&str> = t.lines().collect();
        assert_eq!(got, want);
    }
    for t in ["", ",", "a,b", ",a,"] {
        let got: Vec<String> = split(&chars_of(t), ',').iter().map(|l| string_of(l)).collect();
        let want: Vec<&str> = t.split(',').collect();
        assert_eq!(got, want);
    }
    let c = chars_of("k=v=w");
    let (a, b) = cut_at(&c, '=').unwrap();
    assert_eq!((string_of(a), string_of(b)), ("k".to_string(), "v=w".to_string()));
    let (a, b) = cut_last_at(&c, '=').unwrap();
    assert_eq!((string_of(a), string_of(b)), ("k=v".to_string(), "w".to_string()));
    assert!(cut_at(&c, ',').is_none());
    assert_eq!(find_chars(&c, &chars_of("=w")), Some(3));
    assert_eq!(find_chars(&c, &chars_of("x")), None);
    assert!(str_contains("abc", ""));
    assert_eq!(drop_prefix("abc", "ab"), "c");
    assert_eq!(drop_prefix("abc", "b"), "abc");
    assert_eq!(string_of(drop_trailing(&chars_of("a00"), '0')), "a");
    assert_eq!(join(&vec!["a".to_string(), String::new(), "b".to_string()], ", "), "a, , b");
}
