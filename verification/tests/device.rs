use artinchip_flash::device::burn::{chunk_len, crc_note};
use artinchip_flash::device::command::{media_name, parse_resp_header, UpgDevice};
use artinchip_flash::device::plan::{
    classify_components, component_kind, target_part_selected, BurnEvent, BurnOptions,
    ComponentKind,
};
use artinchip_flash::device::talk::Profile;
use artinchip_flash::protocol::cbw_csw::{AicCsw, CmdHeader};
use artinchip_flash::protocol::commands::{CommandSet, FwcMeta};
use artinchip_flash::transport::{
    baudrate_unsupported, nothing_to_drain, CswPolicy, UpgTransport,
};

fn codes() -> CommandSet {
    CommandSet {
        get_hwinfo: 0x00,
        run_shell_str: 0x05,
        set_upg_cfg: 0x08,
        set_upg_end: 0x09,
        get_log_size: 0x0a,
        get_log_data: 0x0b,
        set_uart_args: 0x0c,
        set_fwc_meta: 0x10,
        get_block_size: 0x11,
        send_fwc_data: 0x12,
        get_storage_media: 0x16,
        full_disk_upgrade: 0x03,
    }
}

fn profile(repeat_headers: bool) -> Profile {
    Profile { codes: codes(), repeat_headers }
}

/// A device that answers each command with a payload, and tells what it was asked.
struct Sim {
    log: Vec<String>,
    data: Vec<u8>,
    pieces: Vec<usize>,
    current: u8,
    status: u8,
    block_size: u32,
    media: Vec<u8>,
    device_log: Vec<u8>,
    write_errors: Vec<String>,
    no_csw: bool,
    no_reads: bool,
    reconnect: Result<(), String>,
    limit: usize,
    speed: Result<(), String>,
}

fn sim() -> Sim {
    Sim {
        log: Vec::new(),
        data: Vec::new(),
        pieces: Vec::new(),
        current: 0,
        status: 0,
        block_size: 2048,
        media: b"spi-nand\0\0\0\0".to_vec(),
        device_log: b"ok \xff!".to_vec(),
        write_errors: Vec::new(),
        no_csw: false,
        no_reads: false,
        reconnect: Ok(()),
        limit: usize::MAX,
        speed: Ok(()),
    }
}

fn good_csw() -> AicCsw {
    AicCsw::from_bytes(b"USBS\x01\x00\x00\x00\x00\x00\x00\x00\x00").unwrap()
}

fn hwinfo_bytes() -> Vec<u8> {
    let mut b = vec![0u8; 104];
    b[0..6].copy_from_slice(b"AIC.FW");
    b[12] = 4;
    b[16] = 2;
    b
}

impl Sim {
    fn payload(&self) -> Vec<u8> {
        match self.current {
            0x00 => hwinfo_bytes(),
            0x0a => (self.device_log.len() as u32).to_le_bytes().to_vec(),
            0x0b => self.device_log.clone(),
            0x11 => self.block_size.to_le_bytes().to_vec(),
            0x16 => self.media.clone(),
            _ => Vec::new(),
        }
    }
}

impl UpgTransport for Sim {
    fn write_txn(&mut self, payload: &[u8], policy: CswPolicy) -> Result<Option<AicCsw>, String> {
        if !self.write_errors.is_empty() {
            let e = self.write_errors.remove(0);
            if !e.is_empty() {
                self.log.push(format!("refuse {}", payload.len()));
                return Err(e);
            }
        }
        if payload.len() == 16 && payload.starts_with(b"UPGC") {
            self.current = payload[6];
            self.log.push(format!("command {:02x} {}", payload[6], payload[8]));
        } else if self.current == 0x12 {
            self.data.extend_from_slice(payload);
            self.pieces.push(payload.len());
        } else {
            self.log.push(format!("data {}", payload.len()));
        }
        if self.no_csw && policy == CswPolicy::AllowMissing {
            Ok(None)
        } else {
            Ok(Some(good_csw()))
        }
    }
    fn read_txn(&mut self, len: u32, _policy: CswPolicy) -> Result<Vec<u8>, String> {
        if self.no_reads {
            return Err("silence".to_string());
        }
        let payload = self.payload();
        if len == 16 {
            let mut r = b"UPGR\x01\x01".to_vec();
            r.push(self.current);
            r.push(self.status);
            r.extend_from_slice(&(payload.len() as u32).to_le_bytes());
            r.extend_from_slice(&[0; 4]);
            Ok(r)
        } else {
            Ok(payload)
        }
    }
    fn reconnect(&mut self, timeout: u64) -> Result<(), String> {
        self.log.push(format!("reconnect {}", timeout));
        self.reconnect.clone()
    }
    fn drain_rx(&mut self, timeout: u64, max_bytes: usize) -> Result<(), String> {
        self.log.push(format!("drain {} {}", timeout, max_bytes));
        nothing_to_drain()
    }
    fn pause(&mut self, millis: u64) {
        self.log.push(format!("pause {}", millis));
    }
    fn transport_name(&self) -> &'static str {
        "sim"
    }
    fn max_write_chunk(&self, _block_size: u32) -> usize {
        self.limit
    }
    fn set_uart_baudrate(&mut self, baudrate: u32) -> Result<(), String> {
        self.log.push(format!("speed {}", baudrate));
        self.speed.clone()
    }
}

fn meta(name: &str, partition: &str, offset: u32, size: u32, crc: u32) -> FwcMeta {
    FwcMeta {
        name: name.to_string(),
        partition: partition.to_string(),
        offset,
        size,
        crc,
        record: vec![0x4d; 512],
    }
}

fn image() -> Vec<u8> {
    (0..5000u32).map(|i| (i * 31 % 251) as u8).collect()
}

fn metas(image: &[u8]) -> Vec<FwcMeta> {
    let crc = |a: usize, n: usize| crc32fast::hash(&image[a..a + n]);
    vec![
        meta("image.updater.psram", "", 0, 100, crc(0, 100)),
        meta("image.updater.spl", "", 100, 200, crc(100, 200)),
        meta("image.info", "", 300, 50, crc(300, 50)),
        meta("image.target.spl", "spl", 350, 1000, crc(350, 1000)),
        meta("image.target.os", "os", 1350, 3000, 1),
        meta("image.target.data", "data", 4350, 600, 2),
        meta("other", "", 0, 7, 0),
    ]
}

fn options(parts: &[&str]) -> BurnOptions {
    BurnOptions {
        selected_parts: parts.iter().map(|s| s.to_string()).collect(),
        reset_after_burn: true,
        burn_timeout: 4321,
    }
}

#[test]
fn device_report_is_rendered() {
    let mut device = UpgDevice::new(sim(), profile(false));
    assert_eq!(device.transport_name(), "sim");
    assert_eq!(
        device.device_info_text().unwrap(),
        "Magic:        AIC.FW\nInit mode:    0x0\nCurrent mode: 0x4\nBoot stage:   2\n\
         Chip ID:      00000000 00000000 00000000 00000000\nStorage media: spi-nand"
    );
    assert_eq!(device.show_info().unwrap()[2], "  Current mode: 0x4");
    assert_eq!(device.show_info().unwrap().len(), 5);
    assert_eq!(device.get_block_size().unwrap(), 2048);
    assert_eq!(device.get_device_log().unwrap(), "ok \u{fffd}!");
    assert_eq!(media_name("nor\0\0"), "nor");
    assert_eq!(media_name("\0a\0"), "\0a");
}

#[test]
fn empty_log_is_not_read() {
    let mut s = sim();
    s.device_log = Vec::new();
    let mut device = UpgDevice::new(s, profile(false));
    assert_eq!(device.get_device_log().unwrap(), "");
    assert_eq!(device.into_transport().log, vec!["command 0a 0"]);
}

#[test]
fn commands_are_phrased() {
    let mut device = UpgDevice::new(sim(), profile(false));
    device.set_upg_cfg(3).unwrap();
    device.set_fwc_meta(&meta("m", "", 0, 0, 0)).unwrap();
    device.set_upg_end().unwrap();
    device.run_shell("ls").unwrap();
    device.reset().unwrap();
    assert_eq!(
        device.into_transport().log,
        vec![
            "command 08 36", "data 4", "data 32", "command 10 0", "data 512", "command 09 36",
            "data 36", "command 05 6", "data 6", "command 05 9", "data 9",
        ]
    );
}

#[test]
fn short_answers_are_errors() {
    let mut s = sim();
    s.media = Vec::new();
    let mut device = UpgDevice::new(s, profile(false));
    assert_eq!(device.get_storage_media().unwrap(), "");
    assert_eq!(parse_resp_header(1, &[1, 2, 3]).unwrap_err(), "Response too short");
    let mut bad = b"UPGR".to_vec();
    bad.extend_from_slice(&[0; 20]);
    assert!(parse_resp_header(1, &bad).is_ok());
    bad[7] = 9;
    assert_eq!(
        parse_resp_header(0x16, &bad).unwrap_err(),
        "Command 0x16 failed, status: 9, magic=0x52475055"
    );
    bad[7] = 0;
    bad[0] = 0;
    assert_eq!(
        parse_resp_header(2, &bad).unwrap_err(),
        "Command 0x02 failed, status: 0, magic=0x52475000"
    );
    let mut s = sim();
    s.status = 1;
    let mut device = UpgDevice::new(s, profile(false));
    assert_eq!(
        device.get_hwinfo().err().unwrap(),
        "Command 0x00 failed, status: 1, magic=0x52475055"
    );
    let mut s = sim();
    s.no_reads = true;
    let mut device = UpgDevice::new(s, profile(false));
    assert_eq!(device.get_block_size().unwrap_err(), "silence");
    assert!(device.set_upg_end().is_ok());
}

#[test]
fn refused_headers_are_repeated_once() {
    let mut s = sim();
    s.write_errors = vec!["Bulk write failed at 0/31: Pipe error".to_string()];
    let mut device = UpgDevice::new(s, profile(true));
    device.reset().unwrap();
    assert_eq!(
        device.into_transport().log,
        vec!["refuse 16", "reconnect 10000", "command 05 9", "data 9"]
    );
    let mut s = sim();
    s.write_errors = vec!["Pipe".to_string(), "Pipe again".to_string()];
    let mut device = UpgDevice::new(s, profile(true));
    assert_eq!(device.reset().unwrap_err(), "Pipe again");
    let mut s = sim();
    s.write_errors = vec!["Pipe".to_string()];
    s.reconnect = Err("gone".to_string());
    let mut device = UpgDevice::new(s, profile(true));
    assert_eq!(device.reset().unwrap_err(), "gone");
    let mut s = sim();
    s.write_errors = vec!["timeout".to_string()];
    let mut device = UpgDevice::new(s, profile(true));
    assert_eq!(device.reset().unwrap_err(), "timeout");
    let mut s = sim();
    s.write_errors = vec!["Pipe".to_string()];
    let mut device = UpgDevice::new(s, profile(false));
    assert_eq!(device.reset().unwrap_err(), "Pipe");
}

#[test]
fn speed_change_is_probed() {
    let mut device = UpgDevice::new(sim(), profile(false));
    device.set_max_baudrate(921600).unwrap();
    assert_eq!(device.into_transport().log, vec!["speed 921600", "command 00 0"]);
    let mut s = sim();
    s.speed = baudrate_unsupported();
    let mut device = UpgDevice::new(s, profile(false));
    assert_eq!(
        device.set_max_baudrate(1).unwrap_err(),
        "this transport does not support UART baudrate negotiation"
    );
    let mut s = sim();
    s.no_reads = true;
    let mut device = UpgDevice::new(s, profile(false));
    assert!(device.set_max_baudrate(1).is_ok());
}

#[test]
fn components_are_classified() {
    let img = image();
    let list = metas(&img);
    let parts = vec!["spl".to_string(), "data".to_string()];
    let plan = classify_components(&list, &parts);
    let got: Vec<(ComponentKind, bool)> = plan.iter().map(|c| (c.kind, c.selected)).collect();
    assert_eq!(
        got,
        vec![
            (ComponentKind::Updater, true),
            (ComponentKind::Updater, true),
            (ComponentKind::ImageInfo, true),
            (ComponentKind::Target, true),
            (ComponentKind::Target, false),
            (ComponentKind::Target, true),
            (ComponentKind::Other, true),
        ]
    );
    assert_eq!(component_kind("image.info2"), ComponentKind::Other);
    assert_eq!(component_kind("image.updater"), ComponentKind::Other);
    let m = meta("image.target.rootfs", "root", 0, 0, 0);
    assert!(target_part_selected(&m, &["root".to_string()]));
    assert!(target_part_selected(&m, &["rootfs".to_string()]));
    assert!(target_part_selected(&m, &["image.target.rootfs".to_string()]));
    assert!(!target_part_selected(&m, &["roo".to_string()]));
    assert!(!target_part_selected(&m, &[]));
}

#[test]
fn burn_sends_everything_in_order() {
    let img = image();
    let list = metas(&img);
    let mut s = sim();
    s.limit = 700;
    let mut device = UpgDevice::new(s, profile(false));
    let mut events: Vec<BurnEvent> = Vec::new();
    device
        .burn_image_with_options(&img, &list, &options(&["spl", "os"]), &mut events)
        .unwrap();
    let s = device.into_transport();
    assert_eq!(s.data, img[..4350].to_vec());
    assert_eq!(s.pieces, vec![100, 200, 50, 700, 300, 700, 700, 700, 700, 200]);
    let begin = |size: &str| -> Vec<String> {
        vec![
            "command 10 0".to_string(),
            "data 512".to_string(),
            "command 11 0".to_string(),
            format!("command 12 {}", size),
        ]
    };
    let mut want: Vec<String> = begin("100");
    want.push("pause 30".to_string());
    want.push("command 00 0".to_string());
    want.extend(begin("200"));
    want.push("reconnect 4321".to_string());
    want.push("command 00 0".to_string());
    want.extend(["command 08 36", "data 4", "data 32"].map(|s| s.to_string()));
    want.extend(begin("50"));
    want.extend(begin(&(1000u32 % 256).to_string()));
    want.extend(begin(&(3000u32 % 256).to_string()));
    want.extend(["command 09 36", "data 36", "command 05 9", "data 9"].map(|s| s.to_string()));
    assert_eq!(s.log, want);

    let texts: Vec<String> = events.iter().map(|e| format!("{:?}", e)).collect();
    assert_eq!(texts[0], "Stage(\"Build component plan\")");
    assert_eq!(texts.last().unwrap(), "Finished");
    assert!(texts.contains(
        &"Log(\"WARNING: image.target.os CRC mismatch, expected=0x00000001, actual=0x".to_string()
            .chars()
            .chain(format!("{:08x}\")", crc32fast::hash(&img[1350..4350])).chars())
            .collect::<String>()
    ));
    assert_eq!(texts.iter().filter(|t| t.contains("mismatch")).count(), 1);
    let mut last: usize = 0;
    for e in &events {
        if let BurnEvent::OverallProgress { sent, total } = e {
            assert_eq!(*total, 100 + 200 + 50 + 1000 + 3000 + 7);
            assert!(*sent > last && *sent <= *total);
            last = *sent;
        }
    }
    assert_eq!(last, 4350);
}

#[test]
fn plain_burn_takes_the_usual_parts() {
    let img = image();
    let list = metas(&img);
    let mut device = UpgDevice::new(sim(), profile(false));
    device.burn_image(&img, &list).unwrap();
    let s = device.into_transport();
    assert_eq!(s.data, img[..4350].to_vec());
    assert!(s.log.contains(&"reconnect 60000".to_string()));
    let d = BurnOptions::default();
    let mut usual = UpgDevice::new(sim(), profile(false));
    let mut events: Vec<BurnEvent> = Vec::new();
    usual.burn_image_with_options(&img, &list, &d, &mut events).unwrap();
    assert_eq!(usual.transport_mut().log, s.log);
    assert_eq!(usual.into_transport().data, s.data);
    assert_eq!(d.selected_parts, vec!["spl", "env", "os"]);
    assert!(d.reset_after_burn);
    assert_eq!(d.burn_timeout, 60000);
}

#[test]
fn burn_without_target_fails() {
    let img = image();
    let list = metas(&img);
    let mut device = UpgDevice::new(sim(), profile(false));
    let mut events: Vec<BurnEvent> = Vec::new();
    let e = device
        .burn_image_with_options(&img, &list, &options(&[]), &mut events)
        .unwrap_err();
    assert_eq!(e, "No selected target components to burn");
    assert!(!events.iter().any(|e| matches!(e, BurnEvent::Finished)));
}

#[test]
fn burn_refuses_ranges_outside_of_the_image() {
    let list = vec![meta("image.target.x", "x", 10, 20, 0)];
    let mut device = UpgDevice::new(sim(), profile(false));
    let mut events: Vec<BurnEvent> = Vec::new();
    let e = device
        .burn_image_with_options(&[0; 29], &list, &options(&["x"]), &mut events)
        .unwrap_err();
    assert_eq!(
        e,
        "image.target.x image range out of bounds: offset=0xa, size=20, image_len=29"
    );
    let texts: Vec<String> = events.iter().map(|e| format!("{:?}", e)).collect();
    assert_eq!(
        texts,
        vec![
            "Stage(\"Build component plan\")",
            "Stage(\"Set full-disk upgrade mode\")",
            "Log(\"Warning: no image.info component found\")",
        ]
    );
}

#[test]
fn burn_tolerates_a_silent_updater_and_a_failed_reset() {
    let img = image();
    let list = vec![
        meta("image.updater.spl", "", 0, 100, crc32fast::hash(&img[..100])),
        meta("image.target.x", "x", 0, 10, crc32fast::hash(&img[..10])),
    ];
    let mut s = sim();
    s.reconnect = Err("no device".to_string());
    let mut opts = options(&["x"]);
    opts.reset_after_burn = false;
    let mut device = UpgDevice::new(s, profile(false));
    let mut events: Vec<BurnEvent> = Vec::new();
    device.burn_image_with_options(&img, &list, &opts, &mut events).unwrap();
    assert!(events.iter().any(|e| format!("{:?}", e)
        == "Log(\"Warning: updater reconnect was not observed: no device\")"));
    assert!(!device.into_transport().log.iter().any(|l| l.starts_with("command 05")));

    let mut s = sim();
    s.write_errors = vec![String::new(); 3 + 5 + 2];
    s.write_errors.push("busy".to_string());
    let list = vec![meta("image.target.x", "x", 0, 10, crc32fast::hash(&img[..10]))];
    let mut device = UpgDevice::new(s, profile(false));
    let mut events: Vec<BurnEvent> = Vec::new();
    device.burn_image_with_options(&img, &list, &options(&["x"]), &mut events).unwrap();
    let texts: Vec<String> = events.iter().map(|e| format!("{:?}", e)).collect();
    assert_eq!(texts[texts.len() - 2], "Log(\"Warning: reset failed: busy\")");
}

#[test]
fn pieces_have_the_agreed_length() {
    assert_eq!(chunk_len(ComponentKind::Updater, 2048, usize::MAX), 2048 * 512);
    assert_eq!(chunk_len(ComponentKind::Updater, 0, usize::MAX), 512);
    assert_eq!(chunk_len(ComponentKind::Target, 7, usize::MAX), 1 << 20);
    assert_eq!(chunk_len(ComponentKind::Target, 7, 300), 300);
    assert_eq!(chunk_len(ComponentKind::Updater, 1, 0), 1);
}

#[test]
fn checksums_are_compared() {
    assert!(crc_note("a", 5, 5).is_none());
    assert_eq!(
        crc_note("a", 5, 0xcbf43926).unwrap(),
        "WARNING: a CRC mismatch, expected=0x00000005, actual=0xcbf43926"
    );
    let img = b"123456789".to_vec();
    let list = vec![meta("image.target.x", "x", 0, 9, 0xcbf43926)];
    let mut device = UpgDevice::new(sim(), profile(false));
    let mut events: Vec<BurnEvent> = Vec::new();
    device.burn_image_with_options(&img, &list, &options(&["x"]), &mut events).unwrap();
    assert!(!events.iter().any(|e| format!("{:?}", e).contains("mismatch")));
    let list = vec![meta("image.target.x", "x", 0, 5, 0)];
    let mut device = UpgDevice::new(sim(), profile(false));
    let mut events: Vec<BurnEvent> = Vec::new();
    device.burn_image_with_options(b"hello", &list, &options(&["x"]), &mut events).unwrap();
    assert!(events.iter().any(|e| format!("{:?}", e).contains("actual=0x3610a686")));
}

#[test]
fn header_for_empty_command_is_plain() {
    assert_eq!(CmdHeader::new(0, 0).to_bytes()[..8], *b"UPGC\x01\x01\x00\x00");
}
