use std::collections::VecDeque;

use artinchip_flash::protocol::cbw_csw::{AicCsw, AIC_USB_SIGN_USBS};
use artinchip_flash::transport::CswPolicy;
use artinchip_flash::uart::console::{
    enter_upgrade, hear_answer, hear_console, hear_protocol, keyword_complete, keyword_reply,
    Awaited, EntryStep, Heard, KeywordReply, Tick, Wait,
};
use artinchip_flash::uart::frame::{
    frame_slices, frame_status, pack_frame, FrameStatus, ACK, CAN, DC1_SEND, DC2_RECV,
    LONG_FRAME_DATA, NAK, SIG_A, SIG_C, SOH, STX,
};
use artinchip_flash::uart::leg::{RecvLeg, SendLeg};
use artinchip_flash::uart::txn::{
    max_write_chunk, read_csw_for, speed_change_wanted, speed_switch_error, ReadTxn, SpeedAction,
    SpeedChange, TagCounter, TxnStep, WriteTxn,
};
use artinchip_flash::uart::wire::{Prompt, Purpose, Reception, WireAction, WireEvent};

/// What the model of the bootloader waits for.
enum Phase {
    Idle,
    Command,
    Payload { cbw: Vec<u8>, left: usize },
    AskedForData { cbw: Vec<u8> },
    AskedForStatus { cbw: Vec<u8> },
    Sending { frames: Vec<Vec<u8>>, next: usize, cbw: Option<Vec<u8>> },
}

/// A model of the device: an application console, a bootloader that asks to be kept, or one that
/// is in upgrade mode.
struct Device {
    console: Option<Vec<u8>>,
    keyword: bool,
    keyword_due: u64,
    phase: Phase,
    frame: Vec<u8>,
    send_blk: u8,
    received: Vec<Vec<u8>>,
    blocks: Vec<u8>,
    switches: Vec<u8>,
    refuse: usize,
    greet: usize,
    damage: usize,
    deaf: bool,
    csw_status: u8,
    out: VecDeque<u8>,
}

fn device() -> Device {
    Device {
        console: None,
        keyword: false,
        keyword_due: 0,
        phase: Phase::Idle,
        frame: Vec::new(),
        send_blk: 0,
        received: Vec::new(),
        blocks: Vec::new(),
        switches: Vec::new(),
        refuse: 0,
        greet: 0,
        damage: 0,
        deaf: false,
        csw_status: 0,
        out: VecDeque::from(vec![CAN]),
    }
}

impl Device {
    fn say(&mut self, bytes: &[u8]) {
        self.out.extend(bytes);
    }

    /// Asks to be kept, again and again until that is acknowledged.
    fn pass_time(&mut self, now: u64) {
        if self.keyword && now >= self.keyword_due {
            self.keyword_due = now + 300;
            self.say(b"\x16AIBURNFORCE\n");
        }
    }

    fn feed(&mut self, bytes: &[u8]) {
        for b in bytes {
            self.take(*b);
        }
    }

    fn take(&mut self, byte: u8) {
        if self.deaf {
            return;
        }
        if self.keyword {
            if byte == ACK {
                self.keyword = false;
                self.say(&[CAN]);
            }
            return;
        }
        if let Some(line) = self.console.as_mut() {
            if byte == b'\r' || byte == b'\n' {
                let text = String::from_utf8_lossy(line).to_string();
                line.clear();
                if text.contains("aicupg gotobl") || text.contains("aicupg uart 0") {
                    self.console = None;
                    self.say(b"\r\naicupg: rebooting into upgrade mode\r\n");
                }
            } else {
                line.push(byte);
            }
            return;
        }
        let phase = std::mem::replace(&mut self.phase, Phase::Idle);
        match phase {
            Phase::Idle => match byte {
                SIG_C => self.say(&[ACK]),
                DC1_SEND => {
                    self.say(&[ACK]);
                    self.phase = Phase::Command;
                }
                _ => {}
            },
            Phase::Command => match self.frame_byte(byte) {
                None => self.phase = Phase::Command,
                Some(cbw) => {
                    let len = u32::from_le_bytes(cbw[8..12].try_into().unwrap()) as usize;
                    self.phase = if cbw[12] != 0 {
                        Phase::AskedForData { cbw }
                    } else if len > 0 {
                        Phase::Payload { cbw, left: len }
                    } else {
                        Phase::AskedForStatus { cbw }
                    };
                }
            },
            Phase::Payload { cbw, left } => match self.frame_byte(byte) {
                None => self.phase = Phase::Payload { cbw, left },
                Some(data) => {
                    self.received.push(data.clone());
                    self.phase = if data.len() < left {
                        Phase::Payload { cbw, left: left - data.len() }
                    } else {
                        Phase::AskedForStatus { cbw }
                    };
                }
            },
            Phase::AskedForData { cbw } => {
                if byte == DC2_RECV {
                    self.switches.push(byte);
                    self.say(&[ACK]);
                    let len = u32::from_le_bytes(cbw[8..12].try_into().unwrap()) as usize;
                    let data = vec![0x5Au8; len];
                    let frames = frame_slices(&data).iter().map(|s| s.to_vec()).collect();
                    self.send(frames, 0, Some(cbw));
                } else {
                    self.phase = Phase::AskedForData { cbw };
                }
            }
            Phase::AskedForStatus { cbw } => {
                if byte == DC2_RECV {
                    self.say(&[ACK]);
                    let mut csw = vec![0u8; 13];
                    csw[0..4].copy_from_slice(&AIC_USB_SIGN_USBS.to_le_bytes());
                    csw[4..8].copy_from_slice(&cbw[4..8]);
                    csw[12] = self.csw_status;
                    self.send(vec![csw], 0, None);
                } else {
                    self.phase = Phase::AskedForStatus { cbw };
                }
            }
            Phase::Sending { frames, next, cbw } => match byte {
                ACK => {
                    self.send_blk = self.send_blk.wrapping_add(1);
                    if next + 1 < frames.len() {
                        self.send(frames, next + 1, cbw);
                    } else if let Some(cbw) = cbw {
                        self.phase = Phase::AskedForStatus { cbw };
                    }
                }
                NAK => self.send(frames, next, cbw),
                DC2_RECV => {
                    self.switches.push(byte);
                    self.out.clear();
                    self.say(&[ACK]);
                    self.send(frames, next, cbw);
                }
                _ => self.phase = Phase::Sending { frames, next, cbw },
            },
        }
    }

    fn send(&mut self, frames: Vec<Vec<u8>>, next: usize, cbw: Option<Vec<u8>>) {
        let mut frame = pack_frame(self.send_blk, &frames[next]);
        if self.damage > 0 {
            self.damage -= 1;
            let last = frame.len() - 1;
            frame[last] ^= 0xff;
        }
        self.say(&frame);
        self.phase = Phase::Sending { frames, next, cbw };
    }

    fn frame_byte(&mut self, byte: u8) -> Option<Vec<u8>> {
        if self.frame.is_empty() && byte != SOH && byte != STX {
            if byte == DC1_SEND || byte == DC2_RECV {
                self.say(&[ACK]);
            }
            return None;
        }
        self.frame.push(byte);
        match frame_status(&self.frame) {
            FrameStatus::More => None,
            FrameStatus::Bad => {
                self.frame.clear();
                self.say(&[NAK]);
                None
            }
            FrameStatus::Good(data) => {
                let blk = self.frame[1];
                self.frame.clear();
                if self.refuse > 0 {
                    self.refuse -= 1;
                    self.say(&[NAK]);
                    return None;
                }
                if self.greet > 0 {
                    self.greet -= 1;
                    self.say(&[SIG_A]);
                    return None;
                }
                self.blocks.push(blk);
                self.say(&[ACK]);
                Some(data)
            }
        }
    }
}

/// A host that runs the library's machines against the model, with a clock of its own.
struct Host {
    device: Device,
    tags: TagCounter,
    send_blk: u8,
    now: u64,
    lines: Vec<String>,
    baudrate: u32,
}

fn host(device: Device) -> Host {
    Host { device, tags: TagCounter::new(), send_blk: 1, now: 0, lines: Vec::new(), baudrate: 115200 }
}

impl Host {
    fn read_byte(&mut self) -> Option<u8> {
        self.device.pass_time(self.now);
        let b = self.device.out.pop_front();
        if b.is_none() {
            self.now += 50;
        }
        b
    }

    fn answer(&mut self, action: &WireAction) -> WireEvent {
        match action {
            WireAction::Write(b) => {
                self.device.feed(b);
                WireEvent::Written
            }
            _ => match self.read_byte() {
                Some(b) => WireEvent::Byte(b),
                None => WireEvent::NoByte("serial read timed out".to_string()),
            },
        }
    }

    fn send(&mut self, data: &[u8]) -> Result<Vec<u8>, String> {
        let mut leg = SendLeg::new(self.send_blk, data);
        let mut event = WireEvent::Begin;
        loop {
            let action = leg.step(event);
            if let WireAction::Done(r) = action {
                self.send_blk = leg.block();
                return r;
            }
            event = self.answer(&action);
        }
    }

    fn recv(&mut self, len: usize) -> Result<Vec<u8>, String> {
        let mut leg = RecvLeg::new("mock", len);
        let mut event = WireEvent::Begin;
        loop {
            let action = leg.step(event);
            if let WireAction::Done(r) = action {
                return r;
            }
            event = self.answer(&action);
        }
    }

    fn write_txn(&mut self, payload: &[u8], policy: CswPolicy) -> Result<Option<AicCsw>, String> {
        let (mut txn, cbw) = WriteTxn::begin(self.tags.next_tag(), payload, policy);
        let mut leg = self.send(&cbw);
        loop {
            leg = match txn.step(leg) {
                TxnStep::Send(b) => self.send(&b),
                TxnStep::Recv(n) => self.recv(n),
                TxnStep::Done(r) => return r,
            };
        }
    }

    fn read_txn(&mut self, len: u32, policy: CswPolicy) -> Result<Vec<u8>, String> {
        let (mut txn, cbw) = ReadTxn::begin(self.tags.next_tag(), len, policy);
        let mut leg = self.send(&cbw);
        loop {
            leg = match txn.step(leg) {
                TxnStep::Send(b) => self.send(&b),
                TxnStep::Recv(n) => self.recv(n),
                TxnStep::Done(r) => return r,
            };
        }
    }

    fn keyword(&mut self) {
        let mut keyword: Vec<u8> = Vec::new();
        while !keyword_complete(&keyword) {
            match self.read_byte() {
                Some(b) => keyword.push(b),
                None => break,
            }
        }
        match keyword_reply(&keyword) {
            KeywordReply::Acknowledge(s) => {
                self.lines.push(s);
                self.device.feed(&[ACK]);
            }
            KeywordReply::Show(s) => self.lines.push(s),
            KeywordReply::Nothing => {}
        }
    }

    fn wait(&mut self, awaited: Awaited, timeout: u64) -> Result<(), String> {
        let mut wait = Wait::new(awaited, "mock", timeout, self.now);
        let mut line = String::new();
        loop {
            match wait.tick(self.now) {
                Tick::Expired(e) => return Err(e),
                Tick::Probe => {
                    self.device.feed(&[SIG_C]);
                    wait.probed(self.now, Ok(()))?;
                }
                Tick::Listen => {}
            }
            if let Some(b) = self.read_byte() {
                let heard = if awaited == Awaited::UpgradeMode {
                    hear_protocol(&mut line, b)
                } else {
                    hear_answer(b)
                };
                match heard {
                    Heard::Nothing => {}
                    Heard::Ready(last) => {
                        self.lines.extend(last);
                        return Ok(());
                    }
                    Heard::Greeting => self.device.feed(&[ACK]),
                    Heard::Keyword => self.keyword(),
                    Heard::Line(s) => self.lines.push(s),
                }
            }
        }
    }

    fn enter(&mut self, timeout: u64) -> Result<(), String> {
        for step in enter_upgrade() {
            match step {
                EntryStep::Flush(_) => self.device.out.clear(),
                EntryStep::Say(b) => self.device.feed(&b),
                EntryStep::Capture(ms) => {
                    let end = self.now + ms;
                    let mut line = String::new();
                    while self.now < end {
                        if let Some(b) = self.read_byte() {
                            match hear_console(&mut line, b) {
                                Heard::Line(s) => self.lines.push(s),
                                Heard::Keyword => self.keyword(),
                                _ => {}
                            }
                        }
                    }
                }
            }
        }
        self.wait(Awaited::UpgradeMode, timeout)
    }

    fn set_speed(&mut self, baudrate: u32) -> (Result<(), String>, Vec<String>) {
        let mut did: Vec<String> = Vec::new();
        let (mut change, cbw) = SpeedChange::begin(0x0c, baudrate, self.tags.tag);
        let mut leg = self.send(&cbw);
        loop {
            leg = match change.step(leg) {
                SpeedAction::Send(b) => self.send(&b),
                SpeedAction::Recv(n) => {
                    did.push(format!("recv {}", n));
                    self.recv(n)
                }
                SpeedAction::Pause(ms) => {
                    did.push(format!("pause {}", ms));
                    Ok(Vec::new())
                }
                SpeedAction::SetSpeed(n) => {
                    did.push(format!("speed {}", n));
                    self.baudrate = n;
                    Ok(Vec::new())
                }
                SpeedAction::Done(r) => {
                    self.tags.tag = change.tag;
                    return (r, did);
                }
            };
        }
    }
}

#[test]
fn enter_upgrade_sends_console_commands() {
    let mut d = device();
    d.console = Some(Vec::new());
    let mut h = host(d);
    h.enter(4000).unwrap();
    assert_eq!(h.lines, vec!["aicupg: rebooting into upgrade mode"]);
    let csw = h
        .write_txn(b"after entry", CswPolicy::Required)
        .unwrap()
        .unwrap();
    assert!(csw.is_ok());
}

#[test]
fn enter_upgrade_answers_boot_keyword() {
    let mut d = device();
    d.keyword = true;
    let mut h = host(d);
    h.enter(4000).unwrap();
    assert_eq!(h.lines, vec!["AIBURNFORCE"]);
    let data = h.read_txn(16, CswPolicy::Required).unwrap();
    assert_eq!(data.len(), 16);
}

#[test]
fn transport_roundtrips_against_device_simulator() {
    let mut h = host(device());
    h.wait(Awaited::Handshake, 2000).unwrap();

    let csw = h
        .write_txn(b"hello device", CswPolicy::Required)
        .unwrap()
        .unwrap();
    assert!(csw.is_ok());

    let data = h.read_txn(3000, CswPolicy::Required).unwrap();
    assert_eq!(data.len(), 3000);
    assert!(data.iter().all(|byte| *byte == 0x5A));

    let csw = h
        .write_txn(&vec![0u8; LONG_FRAME_DATA], CswPolicy::Required)
        .unwrap()
        .unwrap();
    assert!(csw.is_ok());
}

#[test]
fn frames_arrive_in_order_and_numbered() {
    let mut h = host(device());
    let payload: Vec<u8> = (0..3000usize).map(|i| (i * 13) as u8).collect();
    h.write_txn(&payload, CswPolicy::Required).unwrap();
    assert_eq!(h.device.received.concat(), payload);
    let n = 1 + frame_slices(&payload).len();
    assert_eq!(h.device.blocks, (1..=n as u8).collect::<Vec<u8>>());
    assert_eq!(h.send_blk as usize, n + 1);
}

#[test]
fn long_reads_are_asked_for_again() {
    let mut h = host(device());
    let data = h.read_txn(70000, CswPolicy::Required).unwrap();
    assert_eq!(data, vec![0x5A; 70000]);
    assert_eq!(h.device.switches.len(), 2);
}

#[test]
fn lost_frames_are_repeated() {
    let mut d = device();
    d.refuse = 3;
    d.greet = 2;
    d.damage = 2;
    let mut h = host(d);
    h.wait(Awaited::Handshake, 2000).unwrap();
    assert!(h.write_txn(b"x", CswPolicy::Required).unwrap().unwrap().is_ok());
    assert_eq!(h.device.received, vec![b"x".to_vec()]);
}

#[test]
fn a_deaf_device_is_given_up() {
    let mut d = device();
    d.refuse = 12;
    let mut h = host(d);
    h.device.out.clear();
    assert_eq!(
        h.write_txn(b"x", CswPolicy::Required).err().unwrap(),
        "Frame not acknowledged after 12 tries: device replied NAK"
    );
    let mut d = device();
    d.deaf = true;
    d.out.clear();
    let mut h = host(d);
    assert_eq!(
        h.read_txn(4, CswPolicy::AllowMissing).err().unwrap(),
        "Failed to switch UART to send mode: serial read timed out"
    );
    assert_eq!(
        h.wait(Awaited::Handshake, 1500).unwrap_err(),
        "UART device did not answer on 'mock' within 1.5s"
    );
    assert_eq!(
        h.wait(Awaited::Reconnect, 60000).unwrap_err(),
        "Timed out waiting for UART device reconnect on 'mock'"
    );
    assert_eq!(
        h.enter(20000).unwrap_err(),
        "Device on 'mock' did not enter UART upgrade mode within 20s. Make sure this is the \
         console UART (115200 8N1), run `aicupg gotobl` on the device, or reset the board while \
         this tool waits"
    );
}

#[test]
fn prompts_are_repeated_and_counted() {
    let mut p = Prompt::new(vec![DC2_RECV], Purpose::SwitchToRecv);
    let mut writes = 0;
    let mut event = WireEvent::Begin;
    let r = loop {
        event = match p.step(event) {
            WireAction::Write(b) => {
                assert_eq!(b, vec![DC2_RECV]);
                writes += 1;
                WireEvent::Written
            }
            WireAction::ReadAck => WireEvent::Byte(0x7f),
            WireAction::ReadData => unreachable!(),
            WireAction::Done(r) => break r,
        };
    };
    assert_eq!(writes, 12);
    assert_eq!(
        r.unwrap_err(),
        "Failed to switch UART to recv mode: unexpected 0x7f while switching to recv mode"
    );
    let mut p = Prompt::new(vec![1], Purpose::Frame);
    assert!(matches!(p.step(WireEvent::Begin), WireAction::Write(_)));
    match p.step(WireEvent::WriteFailed("gone".to_string())) {
        WireAction::Done(Err(e)) => assert_eq!(e, "gone"),
        _ => panic!("a failed write ends the prompt"),
    }
}

#[test]
fn too_much_data_is_refused() {
    let mut leg = RecvLeg::new("mock", 2);
    assert!(matches!(leg.step(WireEvent::Begin), WireAction::Write(_)));
    assert!(matches!(leg.step(WireEvent::Written), WireAction::ReadAck));
    assert!(matches!(leg.step(WireEvent::Byte(ACK)), WireAction::ReadData));
    let frame = pack_frame(0, &[1, 2, 3]);
    for b in &frame[..frame.len() - 1] {
        assert!(matches!(leg.step(WireEvent::Byte(*b)), WireAction::ReadData));
    }
    match leg.step(WireEvent::Byte(frame[frame.len() - 1])) {
        WireAction::Write(b) => assert_eq!(b, vec![ACK]),
        _ => panic!("a good frame is acknowledged"),
    }
    match leg.step(WireEvent::Written) {
        WireAction::Done(Err(e)) => {
            assert_eq!(e, "Device sent more data than expected (0 + 3 > 2)")
        }
        _ => panic!("too much was accepted"),
    }
}

#[test]
fn broken_receptions_say_why() {
    let mut leg = RecvLeg::new("mock", 2);
    leg.step(WireEvent::Begin);
    leg.step(WireEvent::Written);
    leg.step(WireEvent::Byte(ACK));
    assert!(matches!(leg.step(WireEvent::Byte(0x55)), WireAction::ReadData));
    match leg.step(WireEvent::NoByte("late".to_string())) {
        WireAction::Write(b) => assert_eq!(b, vec![NAK]),
        _ => panic!("silence is refused"),
    }
    match leg.step(WireEvent::Written) {
        WireAction::Done(Err(e)) => {
            assert_eq!(e, "Timed out waiting for a frame on 'mock': late")
        }
        _ => panic!("silence is an error"),
    }
}

#[test]
fn status_wrappers_are_judged() {
    let mut csw = b"USBS".to_vec();
    csw.extend_from_slice(&7u32.to_le_bytes());
    csw.extend_from_slice(&9u32.to_le_bytes());
    csw.push(0);
    assert_eq!(
        read_csw_for(Ok(csw.clone()), 7, CswPolicy::Required).unwrap().unwrap().tag_val(),
        7
    );
    assert_eq!(
        read_csw_for(Ok(csw.clone()), 8, CswPolicy::Required).err().unwrap(),
        "UART CSW tag mismatch: got 7, expected 8"
    );
    csw[12] = 1;
    assert_eq!(
        read_csw_for(Ok(csw.clone()), 7, CswPolicy::AllowMissing).err().unwrap(),
        "UART CSW failed: status=1 residue=9"
    );
    assert_eq!(
        read_csw_for(Ok(vec![1]), 7, CswPolicy::Required).err().unwrap(),
        "Failed to parse UART CSW"
    );
    assert_eq!(
        read_csw_for(Err("e".to_string()), 7, CswPolicy::Required).err().unwrap(),
        "e"
    );
    assert!(read_csw_for(Err("e".to_string()), 7, CswPolicy::AllowMissing).unwrap().is_none());
    let mut d = device();
    d.csw_status = 2;
    let mut h = host(d);
    assert_eq!(
        h.write_txn(b"", CswPolicy::Required).err().unwrap(),
        "UART CSW failed: status=2 residue=0"
    );
}

#[test]
fn tags_skip_zero() {
    let mut t = TagCounter::new();
    assert_eq!(t.next_tag(), 1);
    assert_eq!(t.next_tag(), 2);
    t.tag = u32::MAX;
    assert_eq!(t.next_tag(), u32::MAX);
    assert_eq!(t.next_tag(), 1);
}

#[test]
fn speed_changes_between_response_and_status() {
    let mut h = host(device());
    let (r, did) = h.set_speed(921600);
    r.unwrap();
    assert_eq!(
        did,
        vec!["recv 13", "recv 13", "recv 16", "pause 20", "speed 921600", "pause 20", "recv 13"]
    );
    assert_eq!(h.tags.tag, 4);
    assert_eq!(h.device.received[1], 921600u32.to_le_bytes().to_vec());
    assert!(speed_change_wanted(115200, 921600));
    assert!(!speed_change_wanted(115200, 115200));
    assert!(!speed_change_wanted(115200, 0));
    assert_eq!(
        speed_switch_error("/dev/x", 9600, "no"),
        "Failed to switch '/dev/x' to 9600 bps: no"
    );
}

#[test]
fn write_limit_follows_the_block_size() {
    assert_eq!(max_write_chunk(0), 4096);
    assert_eq!(max_write_chunk(256), 4096);
    assert_eq!(max_write_chunk(2048), 32768);
    assert_eq!(max_write_chunk(4096), 65536);
    assert_eq!(max_write_chunk(u32::MAX), 65536);
}

#[test]
fn probes_are_spaced() {
    let mut w = Wait::new(Awaited::Handshake, "p", 1000, 5000);
    assert!(matches!(w.tick(5000), Tick::Probe));
    w.probed(5000, Ok(())).unwrap();
    assert!(matches!(w.tick(5199), Tick::Listen));
    assert!(matches!(w.tick(5200), Tick::Probe));
    assert!(matches!(w.tick(6000), Tick::Expired(_)));
    assert_eq!(w.probed(5300, Err("x".to_string())).unwrap_err(), "x");
    let mut w = Wait::new(Awaited::UpgradeMode, "p", u64::MAX, 5000);
    assert!(w.probed(5300, Err("x".to_string())).is_ok());
    assert!(matches!(w.tick(5301), Tick::Listen));
}

#[test]
fn damaged_frames_are_refused_until_an_intact_one_comes() {
    for data in [b"payload".to_vec(), Vec::new(), vec![0x5a; 176], vec![0xa5; LONG_FRAME_DATA]] {
        let whole = pack_frame(7, &data);
        let mut first = whole.clone();
        let mut second = whole.clone();
        let n = whole.len();
        first[n - 1] ^= 0x01;
        second[n - 2] ^= 0x80;
        let mut bytes = vec![ACK, NAK, CAN, SIG_A, 0x00, 0xff];
        bytes.extend(&first);
        bytes.push(SIG_A);
        bytes.extend(&second);
        bytes.extend(&whole);
        let mut reception = Reception::new("mock");
        let mut action = reception.step(WireEvent::Begin);
        let mut written: Vec<u8> = Vec::new();
        let mut arriving = bytes.iter();
        let result = loop {
            action = match action {
                WireAction::Write(b) => {
                    written.extend(&b);
                    reception.step(WireEvent::Written)
                }
                WireAction::Done(r) => break r,
                _ => reception.step(WireEvent::Byte(*arriving.next().unwrap())),
            };
        };
        assert_eq!(result.unwrap(), data);
        assert_eq!(written, vec![NAK, NAK, ACK]);
        assert!(arriving.next().is_none());
    }
}
