use artinchip_flash::app_config::AppConfig;
use artinchip_flash::device::plan::BurnEvent;
use artinchip_flash::gui::devices::{start_gate, AutoBurn, DeviceList, Gate};
use artinchip_flash::gui::labels::{
    auto_burn_skipped, burn_cancelled_no_ready, device_info_cancelled_no_ready, device_label,
    format_device_ref, localize_device_status, macos_recovery_hint, not_ready_context_label,
    not_ready_line, port_path_or_address, readiness_label, scan_summary, serial_scan_summary,
    wants_recovery_hint, Language, NotReadyContext, TransportKind,
};
use artinchip_flash::gui::log::{BurnNote, BurnProgress, LogBook};
use artinchip_flash::gui::official::{form_fields, OfficialCommand};
use artinchip_flash::gui::parts::{
    can_be_chosen, choose_part, is_ticked, part_key, sync_selected_parts, MetaSummary,
};
use artinchip_flash::gui::serial::{
    configured_uart_options, opens_any_port, typed_line, SerialList,
};
use artinchip_flash::gui::settings::{
    adb_scan_due, burn_timeout_millis, choose_transport, edit_app_dir, edit_compat_dir,
    scan_target, with_device_log, ScanFor,
};
use artinchip_flash::platform::Platform;
use artinchip_flash::uart::ports::SerialPortInfo;
use artinchip_flash::usb::search::DeviceInfo;

fn device(address: u8, ready: bool) -> DeviceInfo {
    DeviceInfo {
        bus_number: 1,
        address,
        vendor_id: 0x33c3,
        product_id: 0x6677,
        port_path: "1-2".to_string(),
        speed: "High".to_string(),
        ready,
        status: None,
    }
}

#[test]
fn scan_selects_a_ready_device() {
    let mut list = DeviceList::new();
    assert_eq!(list.apply_scan(vec![device(1, false), device(2, true)], true, true), (1, AutoBurn::Start));
    assert_eq!(list.selected, Some(1));
    assert_eq!(list.selected_device().unwrap().address, 2);
    assert_eq!(list.apply_scan(vec![device(2, true)], true, true), (1, AutoBurn::No));
    assert_eq!(list.apply_scan(vec![device(2, false)], true, true), (0, AutoBurn::Skipped));
    assert_eq!(list.selected, Some(0));
    assert!(list.auto_started);
    assert_eq!(list.apply_scan(Vec::new(), true, true), (0, AutoBurn::No));
    assert_eq!(list.selected, None);
    assert!(!list.auto_started);
    assert_eq!(list.apply_scan(vec![device(2, true)], true, false), (1, AutoBurn::No));
    assert_eq!(list.apply_scan(vec![device(2, true)], false, true), (1, AutoBurn::No));
    list.selected = Some(5);
    assert!(list.selected_device().is_none());
}

#[test]
fn work_starts_only_where_it_can() {
    let mut list = DeviceList::new();
    list.apply_scan(vec![device(1, false), device(2, true)], false, false);
    let usb = TransportKind::Usb;
    assert!(matches!(start_gate(&list, true, usb, true, true), Gate::Busy));
    assert!(matches!(start_gate(&list, false, usb, true, false), Gate::NoImage));
    assert!(matches!(start_gate(&list, false, usb, false, false), Gate::Usb(Some((1, 2)))));
    assert!(matches!(
        start_gate(&list, false, TransportKind::Uart, true, true),
        Gate::Serial
    ));
    list.selected = Some(0);
    assert!(matches!(start_gate(&list, false, usb, true, true), Gate::NotReady(0)));
    list.selected = None;
    assert!(matches!(start_gate(&list, false, usb, true, true), Gate::Usb(None)));
    list.devices[1].ready = false;
    assert!(matches!(start_gate(&list, false, usb, true, true), Gate::NoneReady));
    let none = DeviceList::new();
    assert!(matches!(start_gate(&none, false, usb, true, true), Gate::Usb(None)));
}

#[test]
fn languages_and_ways_are_kept() {
    for lang in [Language::ZhCn, Language::En] {
        assert_eq!(Language::from_code(lang.code()), lang);
    }
    assert_eq!(Language::from_code("EN"), Language::En);
    assert_eq!(Language::from_code("fr"), Language::ZhCn);
    for kind in [TransportKind::Usb, TransportKind::Uart] {
        assert_eq!(TransportKind::from_config(kind.config_value()), kind);
    }
    assert_eq!(TransportKind::from_config("UART"), TransportKind::Uart);
    assert_eq!(TransportKind::from_config(""), TransportKind::Usb);
}

#[test]
fn labels_are_in_the_users_language() {
    let zh = Language::ZhCn;
    let en = Language::En;
    assert_eq!(
        scan_summary(en, 3, 2, 1),
        "Scan complete: detected 3 ArtInChip device(s), 2 ready, 1 not ready"
    );
    assert_eq!(
        scan_summary(zh, 3, 2, 1),
        "扫描完成：检测到 3 个 ArtInChip 设备，2 个就绪，1 个未就绪"
    );
    assert_eq!(serial_scan_summary(en, 2), "Scan complete: 2 serial port(s)");
    assert_eq!(serial_scan_summary(zh, 2), "扫描完成：发现 2 个串口");
    assert_eq!(readiness_label(zh, true), "就绪");
    assert_eq!(readiness_label(en, false), "not-ready");
    assert_eq!(auto_burn_skipped(en), "Auto burn skipped: no ready ArtInChip device");
    assert_eq!(not_ready_context_label(zh, NotReadyContext::BurnCancelled), "烧录已取消");
    assert_eq!(
        not_ready_context_label(en, NotReadyContext::DeviceInfoCancelled),
        "Device info cancelled"
    );
    assert_eq!(
        burn_cancelled_no_ready(en),
        "Burn cancelled: detected ArtInChip devices are not ready"
    );
    assert_eq!(
        device_info_cancelled_no_ready(en),
        "Device info cancelled: detected ArtInChip devices are not ready"
    );
    assert!(macos_recovery_hint(en).starts_with("Recovery hint: close other"));
    let mut d = device(7, false);
    assert_eq!(device_label(en, &d, false), "1:1-2  33c3:6677  not-ready");
    assert_eq!(device_label(en, &d, true), "1:1-2  33c3:6677  High  not-ready");
    assert_eq!(
        format_device_ref(&d),
        "bus=1 path=1-2 address=7 vid=0x33c3 pid=0x6677 speed=High"
    );
    d.port_path = String::new();
    assert_eq!(port_path_or_address(&d), "7");
    assert_eq!(
        not_ready_line(en, &d, NotReadyContext::Scan),
        "Scan found a not-ready device: bus=1 path=7 address=7 vid=0x33c3 pid=0x6677 speed=High \
         not-ready (not-ready)"
    );
    assert_eq!(localize_device_status(en, "missing kUSBCurrentConfiguration"), "missing kUSBCurrentConfiguration");
    assert_eq!(
        localize_device_status(zh, "no IOUSBHostInterface"),
        "macOS 已枚举 VID/PID，但还没有为设备创建 USB 配置或接口；原始状态：no IOUSBHostInterface"
    );
    assert!(wants_recovery_hint("x macOS has not configured it for USB transfers: y"));
    assert!(!wants_recovery_hint("x"));
}

#[test]
fn log_keeps_the_last_lines() {
    let mut log = LogBook::new();
    log.log(61, "first");
    assert_eq!(log.lines, vec!["[01:01] first"]);
    log.log(6000, "late");
    assert_eq!(log.lines[1], "[100:00] late");
    for i in 0..1500 {
        log.log(0, &format!("{}", i));
    }
    assert_eq!(log.lines.len(), 1500);
    assert_eq!(log.lines[0], "[00:00] 0");
    assert_eq!(log.lines[1499], "[00:00] 1499");
    log.clear();
    assert!(log.lines.is_empty());
}

#[test]
fn progress_follows_the_reports() {
    let mut p = BurnProgress::new();
    match p.apply_burn_event(BurnEvent::ComponentStarted {
        name: "a".to_string(),
        partition: "b".to_string(),
        size: 9,
    }) {
        BurnNote::Started { name, partition, size } => {
            assert_eq!((name.as_str(), partition.as_str(), size), ("a", "b", 9))
        }
        _ => panic!("a start is told"),
    }
    let e = BurnEvent::ComponentProgress { name: "a".to_string(), sent: 3, total: 9 };
    assert!(matches!(p.apply_burn_event(e), BurnNote::Nothing));
    p.apply_burn_event(BurnEvent::OverallProgress { sent: 3, total: 20 });
    assert_eq!((p.overall, p.component, p.active_component.as_str()), ((3, 20), (3, 9), "a"));
    assert!(matches!(p.apply_burn_event(BurnEvent::Finished), BurnNote::AllDone));
    assert_eq!(p.overall, (1, 1));
    match p.apply_burn_event(BurnEvent::Stage("s".to_string())) {
        BurnNote::Text(t) => assert_eq!(t, "s"),
        _ => panic!("a stage is told"),
    }
    match p.apply_burn_event(BurnEvent::ComponentFinished { name: "a".to_string() }) {
        BurnNote::ComponentDone(t) => assert_eq!(t, "a"),
        _ => panic!("an end is told"),
    }
}

#[test]
fn forms_ask_for_what_commands_need() {
    let f = form_fields(OfficialCommand::WriteMemory);
    assert!(f.input && f.address && f.length && f.skip);
    assert!(!f.output && !f.image && !f.value);
    let f = form_fields(OfficialCommand::DumpPartition);
    assert!(f.output && f.media && f.partition && !f.address);
    let f = form_fields(OfficialCommand::MemTest);
    assert!(f.address && f.length && f.round);
    assert!(form_fields(OfficialCommand::RamBoot).ram_boot);
    assert!(form_fields(OfficialCommand::RamBoot).image);
    assert!(form_fields(OfficialCommand::JtagUnlock).raw_args);
    assert!(form_fields(OfficialCommand::JtagUnlockData).output);
    let none = form_fields(OfficialCommand::ListDevices);
    assert_eq!(none, form_fields(OfficialCommand::ContinueBoot));
    assert!(!none.image && !none.address && !none.raw_args);
}

fn meta(name: &str, partition: &str) -> MetaSummary {
    MetaSummary {
        name: name.to_string(),
        partition: partition.to_string(),
        size: 0,
        offset: 0,
        crc: 0,
    }
}

#[test]
fn parts_are_chosen() {
    let os = meta("image.target.os", "kernel");
    let info = meta("image.info", "");
    assert_eq!(part_key(&os), "os");
    assert_eq!(part_key(&info), "image.info");
    assert!(can_be_chosen(&os) && !can_be_chosen(&info));
    let mut parts = vec!["spl".to_string()];
    assert!(is_ticked(&info, &parts));
    assert!(!is_ticked(&os, &parts));
    choose_part(&mut parts, &os, true);
    choose_part(&mut parts, &os, true);
    assert_eq!(parts, vec!["spl", "os"]);
    parts.push("kernel".to_string());
    parts.push("image.target.os".to_string());
    parts.push("env".to_string());
    choose_part(&mut parts, &os, false);
    assert_eq!(parts, vec!["spl", "env"]);
    assert!(!is_ticked(&os, &parts));
    assert!(is_ticked(&os, &vec!["kernel".to_string()]));
    let metas = vec![info, os, meta("image.target.spl", ""), meta("image.target.x", "")];
    let none: Vec<String> = Vec::new();
    assert_eq!(sync_selected_parts(Vec::new(), &none, &metas), vec!["os", "spl"]);
    let conf = vec!["c".to_string()];
    assert_eq!(sync_selected_parts(Vec::new(), &conf, &metas), vec!["c"]);
    assert_eq!(sync_selected_parts(vec!["s".to_string()], &conf, &metas), vec!["s"]);
}

fn port(name: &str, kind: &str) -> SerialPortInfo {
    SerialPortInfo {
        port_name: name.to_string(),
        port_type: kind.to_string(),
        vid: None,
        pid: None,
        serial_number: None,
        manufacturer: None,
        product: None,
    }
}

#[test]
fn serial_ports_are_selected() {
    let mut list = SerialList::new();
    let mut configured = "b".to_string();
    list.apply_scan(vec![port("a", "pci"), port("b", "usb")], &mut configured);
    assert_eq!(list.selected, Some(1));
    assert_eq!(list.selected_name(&configured), "b");
    let mut other = "z".to_string();
    list.apply_scan(vec![port("a", "pci"), port("b", "usb")], &mut other);
    assert_eq!((list.selected, other.as_str()), (Some(0), "z"));
    let mut empty = String::new();
    list.apply_scan(vec![port("a", "pci"), port("b", "usb")], &mut empty);
    assert_eq!((list.selected, empty.as_str()), (Some(0), "a"));
    list.selected = None;
    assert_eq!(list.selected_name("c"), "c");
    assert_eq!(list.monitor_port("c").unwrap(), "c");
    assert_eq!(list.monitor_port("AUTO").unwrap(), "b");
    assert_eq!(list.monitor_port("").unwrap(), "b");
    list.apply_scan(Vec::new(), &mut empty);
    assert_eq!(list.selected, None);
    assert!(list.monitor_port("").is_none());
    assert!(opens_any_port("") && opens_any_port("auto") && !opens_any_port("a"));
    assert_eq!(typed_line("  ls \n").unwrap(), "ls");
    assert!(typed_line("  ").is_none());
}

#[test]
fn settings_follow_the_user() {
    let mut c = AppConfig::default_in(Platform::Linux, "/data");
    assert_eq!(edit_app_dir(Platform::Linux, &mut c, " /other ").unwrap(), "/other/config.ini");
    assert_eq!(c.app_dir, "/other");
    assert!(edit_app_dir(Platform::Linux, &mut c, "/other").is_none());
    assert!(edit_app_dir(Platform::Linux, &mut c, "  ").is_none());
    edit_compat_dir(Platform::Linux, &mut c, "/burn");
    assert_eq!(c.upgcmd_path, "/burn/upgcmd");
    c.upgcmd_path = "mine".to_string();
    edit_compat_dir(Platform::Linux, &mut c, "/burn ");
    assert_eq!(c.upgcmd_path, "mine");
    edit_compat_dir(Platform::Linux, &mut c, "");
    assert_eq!((c.aiburn_dir.as_str(), c.upgcmd_path.as_str()), ("", "upgcmd"));
    assert_eq!(choose_transport(TransportKind::Usb, TransportKind::Uart, &mut c), (true, false));
    assert_eq!(c.transport, "uart");
    assert_eq!(choose_transport(TransportKind::Uart, TransportKind::Usb, &mut c), (true, true));
    assert_eq!(choose_transport(TransportKind::Usb, TransportKind::Usb, &mut c), (false, false));
    assert_eq!(scan_target(true, TransportKind::Usb), ScanFor::Nothing);
    assert_eq!(scan_target(false, TransportKind::Usb), ScanFor::Devices);
    assert_eq!(scan_target(false, TransportKind::Uart), ScanFor::SerialPorts);
    c.adb_scan = true;
    assert!(adb_scan_due(&c, TransportKind::Usb) && !adb_scan_due(&c, TransportKind::Uart));
    c.burn_timeout_secs = 0;
    assert_eq!(burn_timeout_millis(&c), 1000);
    c.burn_timeout_secs = u64::MAX;
    assert_eq!(burn_timeout_millis(&c), u64::MAX);
    c.serial_baud = 300;
    c.serial_speed = 301;
    c.serial_auto_enter = false;
    let o = configured_uart_options(&c);
    assert_eq!((o.baudrate, o.max_baudrate, o.auto_enter), (1200, Some(301), false));
    assert_eq!(with_device_log("i", "--", &None), "i");
    assert_eq!(with_device_log("i", "--", &Some("l".to_string())), "i\n\n--\nl");
}
