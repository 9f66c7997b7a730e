//! Serial ports: which ones are offered, and how a device behind one is reached.
use vstd::prelude::*;

use crate::platform::Platform;
use crate::text::{begins, lowered, same_ignoring_case, same_str, str_starts_with};
use crate::transport::done;
use crate::uart::console::{not_answered_error, not_answered_text};

verus! {

/// How long a port is probed before anything else is tried, in milliseconds.
pub const PROBE_MILLIS: u64 = 1500;

/// How a device behind a serial port is talked to. Times are in milliseconds.
#[derive(Clone, Copy, Debug, Eq, PartialEq, Structural)]
pub struct UartOptions {
    pub baudrate: u32,
    /// Optional higher baudrate negotiated with `SET_UART_ARGS` after connect.
    pub max_baudrate: Option<u32>,
    pub connect_timeout: u64,
    pub ack_timeout: u64,
    pub data_timeout: u64,
    /// When the UART upgrade protocol does not answer, try to enter upgrade mode by sending
    /// console commands and answering boot keywords.
    pub auto_enter: bool,
    /// How long to wait for the device to enter UART upgrade mode.
    pub enter_timeout: u64,
}

/// The usual options.
pub open spec fn usual_options() -> UartOptions {
    UartOptions {
        baudrate: 115200,
        max_baudrate: None,
        connect_timeout: 6000,
        ack_timeout: 2000,
        data_timeout: 30_000,
        auto_enter: true,
        enter_timeout: 20_000,
    }
}

impl Default for UartOptions {
    fn default() -> (options: Self)
        ensures
            options == usual_options(),
    {
        UartOptions {
            baudrate: 115200,
            max_baudrate: None,
            connect_timeout: 6000,
            ack_timeout: 2000,
            data_timeout: 30_000,
            auto_enter: true,
            enter_timeout: 20_000,
        }
    }
}

/// The options for a line at `baud`. A speed to negotiate counts only where it is higher.
pub fn uart_options(baud: u32, speed: Option<u32>, auto_enter: bool) -> (options: UartOptions)
    ensures
        options == (UartOptions {
            baudrate: baud,
            max_baudrate: match speed {
                Some(n) => if n > baud {
                    Some(n)
                } else {
                    None
                },
                None => None,
            },
            auto_enter,
            ..usual_options()
        }),
{
    let max_baudrate = match speed {
        Some(n) => if n > baud {
            Some(n)
        } else {
            None
        },
        None => None,
    };
    UartOptions { baudrate: baud, max_baudrate, auto_enter, ..UartOptions::default() }
}

/// What is known of a serial port.
#[derive(Clone, Debug)]
pub struct SerialPortInfo {
    pub port_name: String,
    pub port_type: String,
    pub vid: Option<u16>,
    pub pid: Option<u16>,
    pub serial_number: Option<String>,
    pub manufacturer: Option<String>,
    pub product: Option<String>,
}

/// The bus that a serial port hangs on.
#[derive(Clone, Copy, Debug, Eq, PartialEq, Structural)]
pub enum PortKind {
    Usb,
    Pci,
    Bluetooth,
    Unknown,
}

/// The name of a bus.
pub open spec fn port_type_text(kind: PortKind) -> Seq<char> {
    match kind {
        PortKind::Usb => "usb"@,
        PortKind::Pci => "pci"@,
        PortKind::Bluetooth => "bluetooth"@,
        PortKind::Unknown => "unknown"@,
    }
}

/// The name of a bus.
pub fn port_type_name(kind: PortKind) -> (s: &'static str)
    ensures
        s@ == port_type_text(kind),
{
    match kind {
        PortKind::Usb => "usb",
        PortKind::Pci => "pci",
        PortKind::Bluetooth => "bluetooth",
        PortKind::Unknown => "unknown",
    }
}

/// Whether a port is offered: on macOS every port has two names, and the one for incoming calls
/// is left out.
pub fn port_is_listed(platform: Platform, port_name: &str) -> (r: bool)
    ensures
        r == !(platform == Platform::MacOs && begins(port_name@, "/dev/tty."@)),
{
    !(platform == Platform::MacOs && str_starts_with(port_name, "/dev/tty."))
}

/// Whether the user leaves the choice of the port to the program.
pub fn is_auto(path: &str) -> (r: bool)
    ensures
        r == (lowered(path@) == lowered("auto"@)),
{
    same_ignoring_case(path, "auto")
}

// ---------------------------------------------------------------------------------------
// Opening one port
// ---------------------------------------------------------------------------------------
/// How long a device may take to answer at first: briefly where it can be talked into upgrade
/// mode afterwards.
pub fn probe_timeout(options: &UartOptions) -> (millis: u64)
    ensures
        millis == (if options.auto_enter {
            PROBE_MILLIS
        } else {
            options.connect_timeout
        }),
{
    if options.auto_enter {
        PROBE_MILLIS
    } else {
        options.connect_timeout
    }
}

/// What follows when a device did not answer at first: it is awaited in upgrade mode for the
/// time given, or given up.
pub fn after_silence(options: &UartOptions, port_name: &str) -> (r: Result<u64, String>)
    ensures
        match r {
            Ok(millis) => options.auto_enter && millis == options.enter_timeout,
            Err(e) => !options.auto_enter && e@ == not_answered_text(
                port_name@,
                options.connect_timeout,
            ),
        },
{
    if options.auto_enter {
        Ok(options.enter_timeout)
    } else {
        Err(not_answered_error(port_name, options.connect_timeout))
    }
}

/// The speed to negotiate once a device is connected.
pub fn speed_to_negotiate(options: &UartOptions) -> (r: Option<u32>)
    ensures
        r == (match options.max_baudrate {
            Some(speed) => if speed > options.baudrate {
                Some(speed)
            } else {
                None
            },
            None => None,
        }),
{
    match options.max_baudrate {
        Some(speed) => if speed > options.baudrate {
            Some(speed)
        } else {
            None
        },
        None => None,
    }
}

/// How far the way to the device behind a port is.
#[derive(Clone, Copy, Debug, Eq, PartialEq, Structural)]
pub enum ConnectStage {
    /// A first answer is awaited.
    Handshake,
    /// The device is talked into upgrade mode.
    Entering,
    /// The device is asked for its hardware report.
    Probing,
    /// A higher speed is negotiated.
    Negotiating,
}

/// What to do next on the way to the device behind a port. What comes of it is reported back.
pub enum ConnectAction<S = String> {
    /// Await a first answer, for this many milliseconds.
    Handshake(u64),
    /// Send the console commands, then await upgrade mode for this many milliseconds.
    Enter(u64),
    /// Ask the device for its hardware report.
    Probe,
    /// Negotiate this speed.
    Negotiate(u32),
    /// The device is reached, or given up.
    Done(Result<(), S>),
}

impl View for ConnectAction {
    type V = ConnectAction<Seq<char>>;

    open spec fn view(&self) -> ConnectAction<Seq<char>> {
        match *self {
            ConnectAction::Handshake(ms) => ConnectAction::Handshake(ms),
            ConnectAction::Enter(ms) => ConnectAction::Enter(ms),
            ConnectAction::Probe => ConnectAction::Probe,
            ConnectAction::Negotiate(n) => ConnectAction::Negotiate(n),
            ConnectAction::Done(r) => ConnectAction::Done(done(r)),
        }
    }
}

/// The way to the device behind a port.
pub struct PortConnect<S = String> {
    pub options: UartOptions,
    pub port_name: S,
    pub stage: ConnectStage,
}

impl View for PortConnect {
    type V = PortConnect<Seq<char>>;

    open spec fn view(&self) -> PortConnect<Seq<char>> {
        PortConnect { options: self.options, port_name: self.port_name@, stage: self.stage }
    }
}

/// What follows when the device gave its hardware report: a higher speed where one is wanted.
pub open spec fn after_probe(s: PortConnect<Seq<char>>) -> (
    PortConnect<Seq<char>>,
    ConnectAction<Seq<char>>,
) {
    match s.options.max_baudrate {
        Some(speed) => if speed > s.options.baudrate {
            (
                PortConnect { stage: ConnectStage::Negotiating, ..s },
                ConnectAction::Negotiate(speed),
            )
        } else {
            (s, ConnectAction::Done(Ok(())))
        },
        None => (s, ConnectAction::Done(Ok(()))),
    }
}

/// What follows on the way to the device when the last action came to `outcome`: a device that
/// does not answer at first is talked into upgrade mode, where that is allowed; one that
/// answers has to give its hardware report.
pub open spec fn connect_step(s: PortConnect<Seq<char>>, outcome: Result<(), Seq<char>>) -> (
    PortConnect<Seq<char>>,
    ConnectAction<Seq<char>>,
) {
    match s.stage {
        ConnectStage::Handshake => match outcome {
            Ok(()) => (PortConnect { stage: ConnectStage::Probing, ..s }, ConnectAction::Probe),
            Err(_) => if s.options.auto_enter {
                (
                    PortConnect { stage: ConnectStage::Entering, ..s },
                    ConnectAction::Enter(s.options.enter_timeout),
                )
            } else {
                (
                    s,
                    ConnectAction::Done(
                        Err(not_answered_text(s.port_name, s.options.connect_timeout)),
                    ),
                )
            },
        },
        ConnectStage::Entering => match outcome {
            Ok(()) => (PortConnect { stage: ConnectStage::Probing, ..s }, ConnectAction::Probe),
            Err(e) => (s, ConnectAction::Done(Err(e))),
        },
        ConnectStage::Probing => match outcome {
            Ok(()) => after_probe(s),
            Err(e) => (s, ConnectAction::Done(Err(e))),
        },
        ConnectStage::Negotiating => (s, ConnectAction::Done(outcome)),
    }
}

impl PortConnect {
    /// Begins on the way to the device behind a port: a first answer is awaited, briefly where
    /// the device can be talked into upgrade mode afterwards.
    pub fn begin(options: UartOptions, port_name: &str) -> (r: (Self, ConnectAction))
        ensures
            r.0@ == (PortConnect {
                options,
                port_name: port_name@,
                stage: ConnectStage::Handshake,
            }),
            r.1@ == ConnectAction::<Seq<char>>::Handshake(
                if options.auto_enter {
                    PROBE_MILLIS
                } else {
                    options.connect_timeout
                },
            ),
    {
        let timeout: u64 = probe_timeout(&options);
        (
            PortConnect {
                options,
                port_name: port_name.to_string(),
                stage: ConnectStage::Handshake,
            },
            ConnectAction::Handshake(timeout),
        )
    }

    /// Says what to do when the last action came to `outcome`.
    pub fn step(&mut self, outcome: Result<(), String>) -> (action: ConnectAction)
        ensures
            (final(self)@, action@) == connect_step(old(self)@, done(outcome)),
    {
        match outcome {
            Ok(()) => match self.stage {
                ConnectStage::Handshake | ConnectStage::Entering => {
                    self.stage = ConnectStage::Probing;
                    ConnectAction::Probe
                },
                ConnectStage::Probing => match speed_to_negotiate(&self.options) {
                    Some(speed) => {
                        self.stage = ConnectStage::Negotiating;
                        ConnectAction::Negotiate(speed)
                    },
                    None => ConnectAction::Done(Ok(())),
                },
                ConnectStage::Negotiating => ConnectAction::Done(Ok(())),
            },
            Err(e) => {
                if self.stage != ConnectStage::Handshake {
                    return ConnectAction::Done(Err(e));
                }
                match after_silence(&self.options, self.port_name.as_str()) {
                    Ok(timeout) => {
                        self.stage = ConnectStage::Entering;
                        ConnectAction::Enter(timeout)
                    },
                    Err(why) => ConnectAction::Done(Err(why)),
                }
            },
        }
    }
}

/// Console commands go only to a port whose device did not answer, only where they are allowed,
/// and only once; and no device counts as reached that did not give its hardware report.
pub proof fn commands_are_sent_only_where_allowed(
    s: PortConnect<Seq<char>>,
    outcome: Result<(), Seq<char>>,
)
    ensures
        connect_step(s, outcome).1 is Enter ==> s.options.auto_enter && s.stage
            == ConnectStage::Handshake && outcome is Err && connect_step(s, outcome).0.stage
            == ConnectStage::Entering,
        connect_step(s, outcome).0.options == s.options,
        connect_step(s, outcome).1 == ConnectAction::<Seq<char>>::Done(Ok(())) ==> s.stage
            == ConnectStage::Probing || s.stage == ConnectStage::Negotiating,
{
}

// ---------------------------------------------------------------------------------------
// Finding the port
// ---------------------------------------------------------------------------------------
/// The options for probing a port of which nothing is known: briefly, and without sending it
/// console commands.
pub fn probe_options(options: &UartOptions) -> (r: UartOptions)
    ensures
        r == (UartOptions { connect_timeout: PROBE_MILLIS, auto_enter: false, ..*options }),
{
    UartOptions { connect_timeout: PROBE_MILLIS, auto_enter: false, ..*options }
}

/// The options for talking the device behind the only candidate into upgrade mode.
pub fn retry_options(options: &UartOptions) -> (r: UartOptions)
    ensures
        r == (UartOptions { connect_timeout: PROBE_MILLIS, ..*options }),
{
    UartOptions { connect_timeout: PROBE_MILLIS, ..*options }
}

/// The indices of the ports that hang on the USB bus, from `k` on.
pub open spec fn usb_ports(ports: Seq<SerialPortInfo>, k: int) -> Seq<int>
    decreases ports.len() - k,
{
    if 0 <= k < ports.len() {
        if ports[k].port_type@ == "usb"@ {
            seq![k] + usb_ports(ports, k + 1)
        } else {
            usb_ports(ports, k + 1)
        }
    } else {
        Seq::empty()
    }
}

/// The first USB port and whether it is the only one.
fn usb_candidate(ports: &Vec<SerialPortInfo>) -> (r: Option<(usize, bool)>)
    ensures
        match r {
            None => usb_ports(ports@, 0).len() == 0,
            Some((i, only)) => i < ports@.len() && usb_ports(ports@, 0).len() > 0 && usb_ports(
                ports@,
                0,
            )[0] == i && only == (usb_ports(ports@, 0).len() == 1),
        },
{
    let mut first: Option<usize> = None;
    let mut k: usize = 0;
    assert(Seq::<int>::empty() + usb_ports(ports@, 0) =~= usb_ports(ports@, 0));
    while k < ports.len()
        invariant
            k <= ports.len(),
            match first {
                None => usb_ports(ports@, 0) == usb_ports(ports@, k as int),
                Some(i) => i < k && usb_ports(ports@, 0) == seq![i as int] + usb_ports(
                    ports@,
                    k as int,
                ),
            },
        decreases ports.len() - k,
    {
        if same_str(ports[k].port_type.as_str(), "usb") {
            match first {
                Some(i) => {
                    assert(usb_ports(ports@, 0).len() >= 2);
                    return Some((i, false));
                },
                None => {
                    first = Some(k);
                },
            }
        }
        k = k + 1;
    }
    match first {
        Some(i) => Some((i, true)),
        None => None,
    }
}

/// What follows when no port was found behind which a device answers.
pub enum AutoOutcome {
    /// Talk the device behind this port into upgrade mode.
    Enter(usize),
    Fail(String),
}

/// What follows when no device answered on any of `ports`: console commands go only to a port
/// that is beyond doubt, the only one on the USB bus, and only where they are allowed at all.
pub fn auto_fallback(ports: &Vec<SerialPortInfo>, options: &UartOptions, last_err: &str) -> (r:
    AutoOutcome)
    ensures
        match r {
            AutoOutcome::Enter(i) => options.auto_enter && i < ports@.len() && usb_ports(
                ports@,
                0,
            ) == seq![i as int],
            AutoOutcome::Fail(e) => !(options.auto_enter && usb_ports(ports@, 0).len() == 1)
                && e@ == if options.auto_enter && usb_ports(ports@, 0).len() > 1 {
                "No UART device answered and multiple USB serial ports are present; specify the port explicitly with `--uart <PORT>`"@
            } else {
                "No ArtInChip UART device responded (last error: "@ + last_err@ + ")"@
            },
        },
{
    if options.auto_enter {
        match usb_candidate(ports) {
            Some((i, true)) => {
                assert(usb_ports(ports@, 0) =~= seq![i as int]);
                return AutoOutcome::Enter(i);
            },
            Some((_, false)) => {
                return AutoOutcome::Fail(
                    "No UART device answered and multiple USB serial ports are present; specify the port explicitly with `--uart <PORT>`".to_string(),
                );
            },
            None => {},
        }
    }
    let mut e = "No ArtInChip UART device responded (last error: ".to_string();
    e.append(last_err);
    e.append(")");
    AutoOutcome::Fail(e)
}

/// What came of probing a port.
pub enum ProbeOutcome {
    /// The port could not be opened.
    NotOpened(String),
    /// No device answered, or not as it should.
    NoAnswer,
    Found,
}

/// The search for a device over all ports.
pub struct PortSearch {
    /// The port to probe next.
    pub next: usize,
    pub last_err: String,
}

/// What to do next in a search.
pub enum SearchStep {
    /// Probe this port.
    Probe(usize),
    /// The device was found behind this port.
    Found(usize),
    /// No device was found.
    NotFound,
}

/// What is said where there is no port at all.
pub fn no_ports_error(ports: &Vec<SerialPortInfo>) -> (r: Option<String>)
    ensures
        match r {
            Some(e) => ports@.len() == 0 && e@ == "No serial ports found"@,
            None => ports@.len() > 0,
        },
{
    if ports.len() == 0 {
        Some("No serial ports found".to_string())
    } else {
        None
    }
}

impl PortSearch {
    /// A search that has not begun.
    pub fn new() -> (s: Self)
        ensures
            s.next == 0,
            s.last_err@ == Seq::<char>::empty(),
    {
        PortSearch { next: 0, last_err: String::new() }
    }

    /// The port to probe, if there is one left.
    pub fn begin(&self, ports: &Vec<SerialPortInfo>) -> (step: SearchStep)
        ensures
            step == (if self.next < ports@.len() {
                SearchStep::Probe(self.next)
            } else {
                SearchStep::NotFound
            }),
    {
        if self.next < ports.len() {
            SearchStep::Probe(self.next)
        } else {
            SearchStep::NotFound
        }
    }

    /// Goes on after the present port was probed: the first port behind which a device answers
    /// is the one. Why a port could not be opened is kept.
    pub fn step(&mut self, ports: &Vec<SerialPortInfo>, outcome: ProbeOutcome) -> (step:
        SearchStep)
        requires
            old(self).next < ports@.len(),
        ensures
            outcome is Found ==> step == SearchStep::Found(old(self).next) && *final(self)
                == *old(self),
            outcome !is Found ==> final(self).next == old(self).next + 1,
            outcome !is Found ==> step == (if final(self).next < ports@.len() {
                SearchStep::Probe(final(self).next)
            } else {
                SearchStep::NotFound
            }),
            outcome matches ProbeOutcome::NotOpened(e) ==> final(self).last_err@ == e@,
            outcome is NoAnswer ==> final(self).last_err@ == old(self).last_err@,
    {
        match outcome {
            ProbeOutcome::Found => {
                return SearchStep::Found(self.next);
            },
            ProbeOutcome::NotOpened(e) => {
                self.last_err = e;
            },
            ProbeOutcome::NoAnswer => {},
        }
        assert(self.next < ports.len());
        self.next = self.next + 1;
        self.begin(ports)
    }
}

/// The port to monitor: the one that was named, or else the first one on the USB bus, or else
/// the first one.
pub fn resolve_monitor_port(path: &str, ports: &Vec<SerialPortInfo>) -> (r: Result<
    String,
    String,
>)
    ensures
        match r {
            Ok(name) => if lowered(path@) != lowered("auto"@) {
                name@ == path@
            } else if usb_ports(ports@, 0).len() > 0 {
                name@ == ports@[usb_ports(ports@, 0)[0]].port_name@
            } else {
                ports@.len() > 0 && name@ == ports@[0].port_name@
            },
            Err(e) => lowered(path@) == lowered("auto"@) && ports@.len() == 0 && e@
                == "No serial port found"@,
        },
{
    if !is_auto(path) {
        return Ok(path.to_string());
    }
    match usb_candidate(ports) {
        Some((i, _)) => Ok(ports[i].port_name.clone()),
        None => {
            if ports.len() > 0 {
                Ok(ports[0].port_name.clone())
            } else {
                Err("No serial port found".to_string())
            }
        },
    }
}

} // verus!
