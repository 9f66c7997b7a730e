use artinchip_flash::platform::Platform;
use artinchip_flash::uart::console::{hear_protocol, keyword_text_reply, Heard, KeywordReply};
use artinchip_flash::uart::monitor::{
    keyword_said, read_failed_text, upgrade_asked_text, upgrade_steps, MonitorOutput, MonitorState,
};
use artinchip_flash::uart::ports::{
    after_silence, auto_fallback, is_auto, no_ports_error, port_is_listed, port_type_name,
    probe_options, probe_timeout, resolve_monitor_port, retry_options, speed_to_negotiate,
    uart_options, AutoOutcome, ConnectAction, PortConnect, PortKind, PortSearch, ProbeOutcome,
    SearchStep, SerialPortInfo, UartOptions,
};

fn port(name: &str, kind: PortKind) -> SerialPortInfo {
    SerialPortInfo {
        port_name: name.to_string(),
        port_type: port_type_name(kind).to_string(),
        vid: None,
        pid: None,
        serial_number: None,
        manufacturer: None,
        product: None,
    }
}

#[test]
fn options_keep_only_higher_speeds() {
    let d = UartOptions::default();
    assert_eq!((d.baudrate, d.max_baudrate), (115200, None));
    assert_eq!((d.connect_timeout, d.ack_timeout, d.data_timeout), (6000, 2000, 30000));
    assert!(d.auto_enter);
    assert_eq!(d.enter_timeout, 20000);
    assert_eq!(uart_options(9600, Some(115200), false).max_baudrate, Some(115200));
    assert_eq!(uart_options(9600, Some(9600), true).max_baudrate, None);
    assert!(!uart_options(9600, None, false).auto_enter);
    let mut o = UartOptions::default();
    o.max_baudrate = Some(115200);
    assert_eq!(speed_to_negotiate(&o), None);
    o.max_baudrate = Some(115201);
    assert_eq!(speed_to_negotiate(&o), Some(115201));
}

#[test]
fn silence_is_followed_by_console_commands_only_where_allowed() {
    let mut o = UartOptions::default();
    assert_eq!(probe_timeout(&o), 1500);
    assert_eq!(after_silence(&o, "p").unwrap(), 20000);
    o.auto_enter = false;
    assert_eq!(probe_timeout(&o), 6000);
    assert_eq!(
        after_silence(&o, "p").unwrap_err(),
        "UART device did not answer on 'p' within 6s. Check that this is the console UART (115200 \
         8N1), then either run `aicupg gotobl` on the device, reset the board while this tool \
         waits, or allow auto-enter mode"
    );
    let o = UartOptions::default();
    assert!(!probe_options(&o).auto_enter);
    assert_eq!(probe_options(&o).connect_timeout, 1500);
    assert!(retry_options(&o).auto_enter);
    assert_eq!(retry_options(&o).connect_timeout, 1500);
}

#[test]
fn device_behind_a_port_is_reached_step_by_step() {
    let mut o = UartOptions::default();
    o.max_baudrate = Some(921600);
    let (mut c, first) = PortConnect::begin(o, "p");
    assert!(matches!(first, ConnectAction::Handshake(1500)));
    assert!(matches!(c.step(Err("silent".to_string())), ConnectAction::Enter(20000)));
    assert!(matches!(c.step(Ok(())), ConnectAction::Probe));
    assert!(matches!(c.step(Ok(())), ConnectAction::Negotiate(921600)));
    assert!(matches!(c.step(Ok(())), ConnectAction::Done(Ok(()))));

    let (mut c, _) = PortConnect::begin(o, "p");
    assert!(matches!(c.step(Ok(())), ConnectAction::Probe));
    match c.step(Err("no report".to_string())) {
        ConnectAction::Done(Err(e)) => assert_eq!(e, "no report"),
        _ => panic!("a device without a report is given up"),
    }

    o.auto_enter = false;
    let (mut c, first) = PortConnect::begin(o, "p");
    assert!(matches!(first, ConnectAction::Handshake(6000)));
    match c.step(Err("silent".to_string())) {
        ConnectAction::Done(Err(e)) => {
            assert!(e.starts_with("UART device did not answer on 'p' within 6s. "))
        }
        _ => panic!("console commands are not allowed"),
    }

    let (mut c, _) = PortConnect::begin(UartOptions::default(), "p");
    assert!(matches!(c.step(Err("silent".to_string())), ConnectAction::Enter(20000)));
    match c.step(Err("still silent".to_string())) {
        ConnectAction::Done(Err(e)) => assert_eq!(e, "still silent"),
        _ => panic!("the commands are sent once"),
    }
}

#[test]
fn ports_are_searched_in_order() {
    let ports = vec![
        port("a", PortKind::Pci),
        port("b", PortKind::Usb),
        port("c", PortKind::Unknown),
    ];
    let mut s = PortSearch::new();
    assert!(matches!(s.begin(&ports), SearchStep::Probe(0)));
    let step = s.step(&ports, ProbeOutcome::NotOpened("busy".to_string()));
    assert!(matches!(step, SearchStep::Probe(1)));
    assert!(matches!(s.step(&ports, ProbeOutcome::NoAnswer), SearchStep::Probe(2)));
    assert!(matches!(s.step(&ports, ProbeOutcome::NoAnswer), SearchStep::NotFound));
    assert_eq!(s.last_err, "busy");
    let mut s = PortSearch::new();
    assert!(matches!(s.step(&ports, ProbeOutcome::Found), SearchStep::Found(0)));
    assert!(matches!(PortSearch::new().begin(&Vec::new()), SearchStep::NotFound));
    assert_eq!(no_ports_error(&Vec::new()).unwrap(), "No serial ports found");
    assert!(no_ports_error(&ports).is_none());
}

#[test]
fn console_commands_go_only_to_the_only_usb_port() {
    let o = UartOptions::default();
    let one = vec![port("a", PortKind::Pci), port("b", PortKind::Usb)];
    assert!(matches!(auto_fallback(&one, &o, "e"), AutoOutcome::Enter(1)));
    let two = vec![port("a", PortKind::Usb), port("b", PortKind::Usb)];
    match auto_fallback(&two, &o, "e") {
        AutoOutcome::Fail(e) => assert_eq!(
            e,
            "No UART device answered and multiple USB serial ports are present; specify the port \
             explicitly with `--uart <PORT>`"
        ),
        _ => panic!("two ports are in doubt"),
    }
    let mut quiet = UartOptions::default();
    quiet.auto_enter = false;
    match auto_fallback(&one, &quiet, "e") {
        AutoOutcome::Fail(e) => {
            assert_eq!(e, "No ArtInChip UART device responded (last error: e)")
        }
        _ => panic!("commands are not allowed"),
    }
    let none = vec![port("a", PortKind::Bluetooth)];
    assert!(matches!(auto_fallback(&none, &o, "e"), AutoOutcome::Fail(_)));
}

#[test]
fn monitored_port_is_resolved() {
    assert!(is_auto("AUTO"));
    assert!(!is_auto("/dev/auto"));
    let ports = vec![port("a", PortKind::Pci), port("b", PortKind::Usb)];
    assert_eq!(resolve_monitor_port("x", &ports).unwrap(), "x");
    assert_eq!(resolve_monitor_port("Auto", &ports).unwrap(), "b");
    let ports = vec![port("a", PortKind::Pci), port("b", PortKind::Unknown)];
    assert_eq!(resolve_monitor_port("auto", &ports).unwrap(), "a");
    assert_eq!(
        resolve_monitor_port("auto", &Vec::new()).unwrap_err(),
        "No serial port found"
    );
    assert!(!port_is_listed(Platform::MacOs, "/dev/tty.usb1"));
    assert!(port_is_listed(Platform::MacOs, "/dev/cu.usb1"));
    assert!(port_is_listed(Platform::Linux, "/dev/tty.usb1"));
}

fn show(s: &mut MonitorState, bytes: &[u8]) -> Vec<String> {
    let mut out: Vec<String> = Vec::new();
    for b in bytes {
        match s.step(*b) {
            MonitorOutput::Nothing => {}
            MonitorOutput::Text(t) => out.push(t),
            MonitorOutput::Acknowledge(t) => out.push(format!("ACK {}", t)),
        }
    }
    out
}

#[test]
fn monitor_shows_lines_and_answers_keywords() {
    let mut s = MonitorState::new();
    assert_eq!(
        show(&mut s, b"hi\tthere\x07\r\n  \nx\x16AIBURNID\ny\n"),
        vec!["hi there", "ACK [monitor] acknowledged boot keyword 'AIBURNID'", "xy"]
    );
    assert_eq!(show(&mut s, b"\x16 other \n"), vec!["[device] other"]);
    assert!(show(&mut s, b"\x16  \n").is_empty());
    assert_eq!(
        show(&mut s, b"\x160123456789012345678901234z\n"),
        vec!["[device] 0123456789012345678901234", "z"]
    );
    assert_eq!(show(&mut s, b"\x16A\xffB\n"), vec!["[device] A\u{fffd}B"]);
    assert!(matches!(keyword_said(" "), MonitorOutput::Nothing));
    assert_eq!(upgrade_steps()[1], ("aicupg gotobl\r", 800));
    assert!(upgrade_asked_text().starts_with("[monitor] sent `aicupg gotobl`"));
    assert_eq!(read_failed_text("x"), "[monitor] serial read failed: x");
}

#[test]
fn keywords_are_told_from_other_text() {
    match keyword_text_reply(" AIBURNFORCE\n") {
        KeywordReply::Acknowledge(s) => assert_eq!(s, "AIBURNFORCE"),
        _ => panic!("the keyword asks for an answer"),
    }
    match keyword_text_reply("AIBUR N\n") {
        KeywordReply::Show(s) => assert_eq!(s, "AIBUR N"),
        _ => panic!("this is no keyword"),
    }
    assert!(matches!(keyword_text_reply("\r\n"), KeywordReply::Nothing));
}

#[test]
fn long_console_lines_are_shown_early() {
    let mut line = String::new();
    for _ in 0..159 {
        assert!(matches!(hear_protocol(&mut line, b'x'), Heard::Nothing));
    }
    match hear_protocol(&mut line, b'x') {
        Heard::Line(s) => assert_eq!(s.len(), 160),
        _ => panic!("the line is long enough"),
    }
    assert_eq!(line, "");
}
