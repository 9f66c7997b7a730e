//! The serial ports that the windows list.
use vstd::prelude::*;

use crate::app_config::AppConfig;
use crate::text::{lowered, same_str, str_trim, trimmed};
use crate::uart::ports::{
    is_auto, resolve_monitor_port, usb_ports, usual_options, SerialPortInfo, UartOptions,
};

verus! {

/// The lowest speed that the windows ask for.
pub const MIN_BAUD: u32 = 1200;

/// The serial ports found by the last scan.
pub struct SerialList {
    pub ports: Vec<SerialPortInfo>,
    pub selected: Option<usize>,
}

/// The first of the ports from `k` on with this name.
pub open spec fn port_named(ports: Seq<SerialPortInfo>, name: Seq<char>, k: int) -> Option<int>
    decreases ports.len() - k,
{
    if !(0 <= k < ports.len()) {
        None
    } else if ports[k].port_name@ == name {
        Some(k)
    } else {
        port_named(ports, name, k + 1)
    }
}

/// The port that is selected after a scan: the one that the settings name, or else the first.
pub open spec fn port_selection(ports: Seq<SerialPortInfo>, configured: Seq<char>) -> Option<int> {
    if ports.len() == 0 {
        None
    } else if configured.len() == 0 {
        Some(0)
    } else {
        match port_named(ports, configured, 0) {
            Some(k) => Some(k),
            None => Some(0),
        }
    }
}

/// The name of the selected port, or of the one in the settings where none is selected.
pub open spec fn selected_port(list: SerialList, configured: Seq<char>) -> Seq<char> {
    match list.selected {
        Some(i) => if i < list.ports@.len() {
            list.ports@[i as int].port_name@
        } else {
            Seq::empty()
        },
        None => configured,
    }
}

impl SerialList {
    /// No ports, and none selected.
    pub fn new() -> (list: Self)
        ensures
            list.ports@ == Seq::<SerialPortInfo>::empty(),
            list.selected is None,
    {
        SerialList { ports: Vec::new(), selected: None }
    }

    /// Takes the ports of a scan. Where the settings name no port, they name the first one from
    /// now on.
    pub fn apply_scan(&mut self, ports: Vec<SerialPortInfo>, configured: &mut String)
        ensures
            final(self).ports@ == ports@,
            match final(self).selected {
                Some(i) => port_selection(ports@, old(configured)@) == Some(i as int),
                None => port_selection(ports@, old(configured)@) is None,
            },
            final(configured)@ == (if old(configured)@.len() == 0 && ports@.len() > 0 {
                ports@[0].port_name@
            } else {
                old(configured)@
            }),
    {
        self.ports = ports;
        if self.ports.len() == 0 {
            self.selected = None;
            return;
        }
        if configured.as_str().unicode_len() == 0 {
            self.selected = Some(0);
            *configured = self.ports[0].port_name.clone();
            return;
        }
        let ghost name = configured@;
        let mut k: usize = 0;
        while k < self.ports.len()
            invariant
                k <= self.ports.len(),
                self.ports@ == ports@,
                ports@.len() > 0,
                configured@ == name,
                name == old(configured)@,
                name.len() > 0,
                port_named(ports@, name, 0) == port_named(ports@, name, k as int),
            decreases self.ports.len() - k,
        {
            if same_str(self.ports[k].port_name.as_str(), configured.as_str()) {
                self.selected = Some(k);
                return;
            }
            k = k + 1;
        }
        self.selected = Some(0);
    }

    /// The name of the selected port.
    pub fn selected_name(&self, configured: &str) -> (s: String)
        ensures
            s@ == selected_port(*self, configured@),
    {
        match self.selected {
            Some(i) => if i < self.ports.len() {
                self.ports[i].port_name.clone()
            } else {
                String::new()
            },
            None => configured.to_string(),
        }
    }

    /// The port to monitor: the selected one; where that leaves the choice open, the first one
    /// on the USB bus, or else the first one.
    pub fn monitor_port(&self, configured: &str) -> (r: Option<String>)
        ensures
            ({
                let name = selected_port(*self, configured@);
                let open = name.len() == 0 || lowered(name) == lowered("auto"@);
                match r {
                    Some(s) => if !open {
                        s@ == name
                    } else if usb_ports(self.ports@, 0).len() > 0 {
                        s@ == self.ports@[usb_ports(self.ports@, 0)[0]].port_name@
                    } else {
                        self.ports@.len() > 0 && s@ == self.ports@[0].port_name@
                    },
                    None => open && self.ports@.len() == 0,
                }
            }),
    {
        let name = self.selected_name(configured);
        if name.as_str().unicode_len() > 0 && !is_auto(name.as_str()) {
            return Some(name);
        }
        match resolve_monitor_port("auto", &self.ports) {
            Ok(s) => Some(s),
            Err(_) => None,
        }
    }
}

/// Whether the port to open is left to the program.
pub fn opens_any_port(port: &str) -> (r: bool)
    ensures
        r == (port@.len() == 0 || lowered(port@) == lowered("auto"@)),
{
    port.unicode_len() == 0 || is_auto(port)
}

/// The options for a serial line that the settings give.
pub open spec fn options_of(c: AppConfig) -> UartOptions {
    UartOptions {
        baudrate: if c.serial_baud < MIN_BAUD {
            MIN_BAUD
        } else {
            c.serial_baud
        },
        max_baudrate: if c.serial_speed > c.serial_baud {
            Some(c.serial_speed)
        } else {
            None
        },
        auto_enter: c.serial_auto_enter,
        ..usual_options()
    }
}

/// The options for a serial line that the settings give.
pub fn configured_uart_options(config: &AppConfig) -> (options: UartOptions)
    ensures
        options == options_of(*config),
{
    UartOptions {
        baudrate: if config.serial_baud < MIN_BAUD {
            MIN_BAUD
        } else {
            config.serial_baud
        },
        max_baudrate: if config.serial_speed > config.serial_baud {
            Some(config.serial_speed)
        } else {
            None
        },
        auto_enter: config.serial_auto_enter,
        ..UartOptions::default()
    }
}

/// The text that the user typed for the console, if it is worth sending.
pub fn typed_line(input: &str) -> (r: Option<String>)
    ensures
        match r {
            Some(s) => s@ == trimmed(input@) && s@.len() > 0,
            None => trimmed(input@).len() == 0,
        },
{
    let text = str_trim(input);
    if text.as_str().unicode_len() > 0 {
        Some(text)
    } else {
        None
    }
}

} // verus!
