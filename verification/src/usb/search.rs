//! Finding devices on the bus, opening one, and waiting for one to come back.
use vstd::prelude::*;

use crate::number::{dec, dec_text, push_dec};
use crate::platform::Platform;
use crate::text::{join, joined, joined_in_order, str_trim, string_texts, trimmed};
use crate::transport::done;

verus! {

/// The vendor number of a device in upgrade mode.
pub const AIC_VID: u16 = 0x33C3;

/// The product number of a device in upgrade mode.
pub const AIC_PID: u16 = 0x6677;

/// The endpoint for data to the device.
pub const BULK_OUT_EP: u8 = 0x02;

/// The endpoint for data from the device.
pub const BULK_IN_EP: u8 = 0x81;

/// How long a device that came back is left alone, in milliseconds.
pub const RECONNECT_SETTLE_DELAY: u64 = 120;

/// How long the host waits between two looks for a device, in milliseconds.
pub const RECONNECT_POLL: u64 = 100;

/// A device in upgrade mode.
#[derive(Clone, Debug)]
pub struct DeviceInfo<S = String> {
    pub bus_number: u8,
    pub address: u8,
    pub vendor_id: u16,
    pub product_id: u16,
    pub port_path: S,
    pub speed: S,
    pub ready: bool,
    pub status: Option<S>,
}

impl View for DeviceInfo {
    type V = DeviceInfo<Seq<char>>;

    open spec fn view(&self) -> DeviceInfo<Seq<char>> {
        DeviceInfo {
            bus_number: self.bus_number,
            address: self.address,
            vendor_id: self.vendor_id,
            product_id: self.product_id,
            port_path: self.port_path@,
            speed: self.speed@,
            ready: self.ready,
            status: match self.status {
                Some(s) => Some(s@),
                None => None,
            },
        }
    }
}

/// Any device on the bus.
#[derive(Clone, Debug)]
pub struct UsbDeviceInfo {
    pub bus_number: u8,
    pub address: u8,
    pub vendor_id: u16,
    pub product_id: u16,
    pub port_path: String,
    pub speed: String,
    pub class_code: u8,
    pub subclass_code: u8,
    pub protocol_code: u8,
}

/// Whether these numbers are those of a device in upgrade mode.
pub open spec fn upgrade_ids(vendor_id: u16, product_id: u16) -> bool {
    vendor_id == AIC_VID && product_id == AIC_PID
}

/// Whether these numbers are those of a device in upgrade mode.
pub fn is_upgrade_device(vendor_id: u16, product_id: u16) -> (r: bool)
    ensures
        r == upgrade_ids(vendor_id, product_id),
{
    vendor_id == AIC_VID && product_id == AIC_PID
}

/// The numbers of the ports that lead to a device, as text.
pub open spec fn path_text(ports: Seq<u8>) -> Seq<char> {
    joined(Seq::new(ports.len(), |i: int| dec(ports[i] as nat)), "-"@)
}

/// The numbers of the ports that lead to a device, as text.
pub fn port_path(ports: &[u8]) -> (s: String)
    ensures
        s@ == path_text(ports@),
{
    let mut parts: Vec<String> = Vec::new();
    let mut i: usize = 0;
    while i < ports.len()
        invariant
            i <= ports.len(),
            parts@.len() == i,
            forall|j: int| 0 <= j < i ==> (#[trigger] parts@[j])@ == dec(ports@[j] as nat),
        decreases ports.len() - i,
    {
        parts.push(dec_text(ports[i] as u64));
        i = i + 1;
    }
    assert(string_texts(parts@) =~= Seq::new(ports@.len(), |i: int| dec(ports@[i] as nat)));
    join(&parts, "-")
}

/// What a scan of the bus makes of one device: a device in upgrade mode is listed, as ready.
pub fn scanned_device(device: &UsbDeviceInfo) -> (r: Option<DeviceInfo>)
    ensures
        match r {
            Some(info) => upgrade_ids(device.vendor_id, device.product_id) && info@ == (
            DeviceInfo {
                bus_number: device.bus_number,
                address: device.address,
                vendor_id: device.vendor_id,
                product_id: device.product_id,
                port_path: device.port_path@,
                speed: device.speed@,
                ready: true,
                status: None::<Seq<char>>,
            }),
            None => !upgrade_ids(device.vendor_id, device.product_id),
        },
{
    if !is_upgrade_device(device.vendor_id, device.product_id) {
        return None;
    }
    Some(
        DeviceInfo {
            bus_number: device.bus_number,
            address: device.address,
            vendor_id: device.vendor_id,
            product_id: device.product_id,
            port_path: device.port_path.clone(),
            speed: device.speed.clone(),
            ready: true,
            status: None,
        },
    )
}

/// Whether a device in upgrade mode is at this place.
pub open spec fn device_at(devices: Seq<UsbDeviceInfo>, bus_number: u8, address: u8) -> bool {
    exists|i: int|
        0 <= i < devices.len() && upgrade_ids(
            (#[trigger] devices[i]).vendor_id,
            devices[i].product_id,
        ) && devices[i].bus_number == bus_number && devices[i].address == address
}

/// Whether a device in upgrade mode is at this place.
pub fn has_device_at(devices: &Vec<UsbDeviceInfo>, bus_number: u8, address: u8) -> (r: bool)
    ensures
        r == device_at(devices@, bus_number, address),
{
    let mut i: usize = 0;
    while i < devices.len()
        invariant
            i <= devices.len(),
            forall|j: int|
                0 <= j < i ==> !(upgrade_ids(
                    (#[trigger] devices@[j]).vendor_id,
                    devices@[j].product_id,
                ) && devices@[j].bus_number == bus_number && devices@[j].address == address),
        decreases devices.len() - i,
    {
        let d = &devices[i];
        if is_upgrade_device(d.vendor_id, d.product_id) && d.bus_number == bus_number
            && d.address == address {
            assert(devices@[i as int].address == address);
            return true;
        }
        i = i + 1;
    }
    false
}

// ---------------------------------------------------------------------------------------
// Opening
// ---------------------------------------------------------------------------------------
/// Why a device could not be used.
#[derive(Clone, Copy, Debug, Eq, PartialEq, Structural)]
pub enum OpenProblem {
    /// The system did not configure it.
    NotConfigured,
    /// It could not be opened.
    NotOpened,
}

/// What is said of a device that could not be used.
pub open spec fn open_problem_text(
    problem: OpenProblem,
    bus: u8,
    address: u8,
    why: Seq<char>,
) -> Seq<char> {
    "Found ArtInChip device at bus "@ + dec(bus as nat) + " address "@ + dec(address as nat) + (
    match problem {
        OpenProblem::NotConfigured =>
            ", but macOS has not configured it for USB transfers: "@,
        OpenProblem::NotOpened => ", but failed to open it: "@,
    }) + why
}

/// What is said of a device that could not be used.
pub fn open_problem(problem: OpenProblem, bus: u8, address: u8, why: &str) -> (s: String)
    ensures
        s@ == open_problem_text(problem, bus, address, why@),
{
    let mut s = "Found ArtInChip device at bus ".to_string();
    push_dec(&mut s, bus as u64);
    s.append(" address ");
    push_dec(&mut s, address as u64);
    match problem {
        OpenProblem::NotConfigured => s.append(
            ", but macOS has not configured it for USB transfers: ",
        ),
        OpenProblem::NotOpened => s.append(", but failed to open it: "),
    }
    s.append(why);
    s
}

/// The search for a device to open.
pub struct OpenSearch<S = String> {
    /// Where the device has to be, if that matters.
    pub location: Option<(u8, u8)>,
    /// How many devices matched so far.
    pub matched_count: usize,
    /// Why the last one that matched could not be used.
    pub last_open_error: Option<S>,
}

impl View for OpenSearch {
    type V = OpenSearch<Seq<char>>;

    open spec fn view(&self) -> OpenSearch<Seq<char>> {
        OpenSearch {
            location: self.location,
            matched_count: self.matched_count,
            last_open_error: match self.last_open_error {
                Some(e) => Some(e@),
                None => None,
            },
        }
    }
}

/// Whether a device is one to open.
pub open spec fn wanted(location: Option<(u8, u8)>, device: UsbDeviceInfo) -> bool {
    upgrade_ids(device.vendor_id, device.product_id) && match location {
        Some((bus, address)) => device.bus_number == bus && device.address == address,
        None => true,
    }
}

/// What is said where no device could be opened: why the last one that matched could not be
/// used, with their number where there were several, or that there was none.
pub open spec fn not_found_text(s: OpenSearch<Seq<char>>) -> Seq<char> {
    match s.last_open_error {
        Some(e) => if s.matched_count > 1 {
            e + " ("@ + dec(s.matched_count as nat) + " matching devices were detected)"@
        } else {
            e
        },
        None => match s.location {
            Some((bus, address)) => "No ArtInChip device found at bus "@ + dec(bus as nat)
                + " address "@ + dec(address as nat) + " (VID=0x33C3, PID=0x6677)"@,
            None => "No ArtInChip device found (VID=0x33C3, PID=0x6677)"@,
        },
    }
}

impl OpenSearch {
    /// A search for the device at `location`, or for any.
    pub fn new(location: Option<(u8, u8)>) -> (s: Self)
        ensures
            s@ == (OpenSearch {
                location,
                matched_count: 0usize,
                last_open_error: None::<Seq<char>>,
            }),
    {
        OpenSearch { location, matched_count: 0, last_open_error: None }
    }

    /// Whether to try this device; one that is tried is counted.
    pub fn consider(&mut self, device: &UsbDeviceInfo) -> (r: bool)
        requires
            old(self).matched_count < usize::MAX,
        ensures
            r == wanted(old(self).location, *device),
            final(self)@ == (OpenSearch {
                matched_count: if r {
                    (old(self).matched_count + 1) as usize
                } else {
                    old(self).matched_count
                },
                ..old(self)@
            }),
    {
        if !is_upgrade_device(device.vendor_id, device.product_id) {
            return false;
        }
        if let Some((bus, address)) = self.location {
            if device.bus_number != bus || device.address != address {
                return false;
            }
        }
        self.matched_count = self.matched_count + 1;
        true
    }

    /// Takes note of a device that could not be used. Where only this one would do, the search
    /// is over with the error; otherwise it goes on.
    pub fn failed(&mut self, problem: OpenProblem, device: &UsbDeviceInfo, why: &str) -> (r: Result<
        (),
        String,
    >)
        ensures
            ({
                let text = open_problem_text(
                    problem,
                    device.bus_number,
                    device.address,
                    why@,
                );
                if old(self).location is Some {
                    done(r) == Err::<(), Seq<char>>(text) && final(self)@ == old(self)@
                } else {
                    r is Ok && final(self)@ == (OpenSearch {
                        last_open_error: Some(text),
                        ..old(self)@
                    })
                }
            }),
    {
        let text = open_problem(problem, device.bus_number, device.address, why);
        if self.location.is_some() {
            return Err(text);
        }
        self.last_open_error = Some(text);
        Ok(())
    }

    /// Says why no device was opened.
    pub fn not_found(&self) -> (s: String)
        ensures
            s@ == not_found_text(self@),
    {
        match &self.last_open_error {
            Some(e) => {
                let mut s = e.clone();
                if self.matched_count > 1 {
                    s.append(" (");
                    push_dec(&mut s, self.matched_count as u64);
                    s.append(" matching devices were detected)");
                }
                s
            },
            None => match self.location {
                Some((bus, address)) => {
                    let mut s = "No ArtInChip device found at bus ".to_string();
                    push_dec(&mut s, bus as u64);
                    s.append(" address ");
                    push_dec(&mut s, address as u64);
                    s.append(" (VID=0x33C3, PID=0x6677)");
                    s
                },
                None => "No ArtInChip device found (VID=0x33C3, PID=0x6677)".to_string(),
            },
        }
    }
}

/// What is said of an error on opening. On macOS the system's blunt refusal is explained, with
/// what is known of the device's state.
pub fn format_usb_open_error(
    platform: Platform,
    is_other: bool,
    err: &str,
    state: &Option<String>,
) -> (s: String)
    ensures
        s@ == (if platform == Platform::MacOs && is_other {
            "Other error (macOS IOKit refused USBDeviceOpen"@ + (match state {
                Some(reason) => "; IOKit state: "@ + reason@,
                None => Seq::empty(),
            })
                + "; close other artinchip-flash/AiBurn instances, then unplug and reconnect the board)"@
        } else {
            err@
        }),
{
    if platform == Platform::MacOs && is_other {
        let mut note = String::new();
        if let Some(reason) = state {
            note = "; IOKit state: ".to_string();
            note.append(reason.as_str());
        }
        let mut s = "Other error (macOS IOKit refused USBDeviceOpen".to_string();
        s.append(note.as_str());
        s.append(
            "; close other artinchip-flash/AiBurn instances, then unplug and reconnect the board)",
        );
        return s;
    }
    err.to_string()
}

// ---------------------------------------------------------------------------------------
// Coming back
// ---------------------------------------------------------------------------------------
/// The wait for a device that resets itself: first it must go, then one must come.
pub struct ReconnectWait<S = String> {
    pub deadline: u64,
    /// Whether the device was seen to be gone.
    pub old_device_gone: bool,
    pub last_err: S,
}

impl View for ReconnectWait {
    type V = ReconnectWait<Seq<char>>;

    open spec fn view(&self) -> ReconnectWait<Seq<char>> {
        ReconnectWait {
            deadline: self.deadline,
            old_device_gone: self.old_device_gone,
            last_err: self.last_err@,
        }
    }
}

/// What to do next while a device is awaited.
pub enum ReconnectStep<S = String> {
    /// Look whether the device is still at its old place.
    Look,
    /// Try to open a device.
    Reopen,
    /// Wait a moment, then go on.
    Sleep,
    /// The device is back.
    Back,
    Expired(S),
}

impl View for ReconnectStep {
    type V = ReconnectStep<Seq<char>>;

    open spec fn view(&self) -> ReconnectStep<Seq<char>> {
        match *self {
            ReconnectStep::Look => ReconnectStep::Look,
            ReconnectStep::Reopen => ReconnectStep::Reopen,
            ReconnectStep::Sleep => ReconnectStep::Sleep,
            ReconnectStep::Back => ReconnectStep::Back,
            ReconnectStep::Expired(s) => ReconnectStep::Expired(s@),
        }
    }
}

/// What to do at `now`.
pub open spec fn reconnect_tick(w: ReconnectWait<Seq<char>>, now: u64) -> ReconnectStep<
    Seq<char>,
> {
    if now >= w.deadline {
        ReconnectStep::Expired("Timed out waiting for device reconnect: "@ + w.last_err)
    } else if w.old_device_gone {
        ReconnectStep::Reopen
    } else {
        ReconnectStep::Look
    }
}

impl ReconnectWait {
    /// Begins to wait at `now`.
    pub fn new(timeout: u64, now: u64) -> (w: Self)
        ensures
            w.deadline == (if now + timeout > u64::MAX {
                u64::MAX as int
            } else {
                now + timeout
            }),
            !w.old_device_gone,
            w.last_err@ == Seq::<char>::empty(),
    {
        let deadline: u64 = if timeout > u64::MAX - now {
            u64::MAX
        } else {
            now + timeout
        };
        ReconnectWait { deadline, old_device_gone: false, last_err: String::new() }
    }

    /// Says what to do at `now`.
    pub fn tick(&self, now: u64) -> (step: ReconnectStep)
        ensures
            step@ == reconnect_tick(self@, now),
    {
        if now >= self.deadline {
            let mut s = "Timed out waiting for device reconnect: ".to_string();
            s.append(self.last_err.as_str());
            return ReconnectStep::Expired(s);
        }
        if self.old_device_gone {
            ReconnectStep::Reopen
        } else {
            ReconnectStep::Look
        }
    }

    /// Goes on after a look at the old place.
    pub fn looked(&mut self, still_there: Result<bool, String>) -> (step: ReconnectStep)
        ensures
            match still_there {
                Ok(true) => final(self)@ == old(self)@ && step@ == ReconnectStep::<
                    Seq<char>,
                >::Sleep,
                Ok(false) => final(self)@ == (ReconnectWait {
                    old_device_gone: true,
                    ..old(self)@
                }) && step@ == ReconnectStep::<Seq<char>>::Reopen,
                Err(e) => final(self)@ == (ReconnectWait { last_err: e@, ..old(self)@ })
                    && step@ == ReconnectStep::<Seq<char>>::Sleep,
            },
    {
        match still_there {
            Ok(true) => ReconnectStep::Sleep,
            Ok(false) => {
                self.old_device_gone = true;
                ReconnectStep::Reopen
            },
            Err(e) => {
                self.last_err = e;
                ReconnectStep::Sleep
            },
        }
    }

    /// Goes on after an attempt to open a device.
    pub fn reopened(&mut self, result: Result<(), String>) -> (step: ReconnectStep)
        ensures
            match result {
                Ok(()) => final(self)@ == old(self)@ && step@ == ReconnectStep::<
                    Seq<char>,
                >::Back,
                Err(e) => final(self)@ == (ReconnectWait { last_err: e@, ..old(self)@ })
                    && step@ == ReconnectStep::<Seq<char>>::Sleep,
            },
    {
        match result {
            Ok(()) => ReconnectStep::Back,
            Err(e) => {
                self.last_err = e;
                ReconnectStep::Sleep
            },
        }
    }
}

// ---------------------------------------------------------------------------------------
// Draining and locking
// ---------------------------------------------------------------------------------------
/// Whether draining goes on after `n` more bytes came, `total` having come before: not when
/// nothing came, and not beyond `max_bytes`.
pub fn drain_goes_on(total: usize, n: usize, max_bytes: usize) -> (r: bool)
    ensures
        r == (n > 0 && total + n < max_bytes),
{
    n > 0 && total < max_bytes && n < max_bytes - total
}

/// Who holds the lock, from what the lock file says.
pub open spec fn owner_hint(owner: Option<Seq<char>>) -> Seq<char> {
    match owner {
        Some(text) => if trimmed(text).len() > 0 {
            " ("@ + trimmed(text) + ")."@
        } else {
            "."@
        },
        None => "."@,
    }
}

/// Who holds the lock, from what the lock file says.
pub fn lock_owner_hint(owner: &Option<String>) -> (s: String)
    ensures
        s@ == owner_hint(
            match owner {
                Some(text) => Some(text@),
                None => None,
            },
        ),
{
    if let Some(text) = owner {
        let bare = str_trim(text.as_str());
        if bare.as_str().unicode_len() > 0 {
            let mut s = " (".to_string();
            s.append(bare.as_str());
            s.append(").");
            return s;
        }
    }
    ".".to_string()
}

/// What is said where another instance holds the lock.
pub fn lock_held_error(owner: &Option<String>, path: &str) -> (s: String)
    ensures
        s@ == "Another artinchip-flash instance is using the ArtInChip USB device"@ + owner_hint(
            match owner {
                Some(text) => Some(text@),
                None => None,
            },
        ) + " Close the other CLI/GUI instance and retry. Lock: "@ + path@,
{
    let mut s = "Another artinchip-flash instance is using the ArtInChip USB device".to_string();
    s.append(lock_owner_hint(owner).as_str());
    s.append(" Close the other CLI/GUI instance and retry. Lock: ");
    s.append(path);
    s
}

// ---------------------------------------------------------------------------------------
// What holds of them
// ---------------------------------------------------------------------------------------
/// A device is in upgrade mode if and only if it has the vendor's number for that and the
/// product's; a search takes no other, and none but the one at its place where it has one.
pub proof fn only_upgrade_devices_are_wanted(location: Option<(u8, u8)>, device: UsbDeviceInfo)
    ensures
        upgrade_ids(device.vendor_id, device.product_id) <==> device.vendor_id == 0x33c3
            && device.product_id == 0x6677,
        wanted(None, device) <==> device.vendor_id == 0x33c3 && device.product_id == 0x6677,
        location matches Some((bus, address)) ==> (wanted(location, device) <==> wanted(
            None,
            device,
        ) && (device.bus_number, device.address) == (bus, address)),
{
}

/// A device is found at a place if and only if one of those on the bus would be taken there.
pub proof fn devices_are_found_where_they_are(
    devices: Seq<UsbDeviceInfo>,
    bus: u8,
    address: u8,
    i: int,
)
    ensures
        0 <= i < devices.len() && wanted(Some((bus, address)), devices[i]) ==> device_at(
            devices,
            bus,
            address,
        ),
        device_at(devices, bus, address) ==> exists|j: int|
            0 <= j < devices.len() && wanted(Some((bus, address)), #[trigger] devices[j]),
{
    if device_at(devices, bus, address) {
        let j = choose|j: int|
            0 <= j < devices.len() && upgrade_ids(
                (#[trigger] devices[j]).vendor_id,
                devices[j].product_id,
            ) && devices[j].bus_number == bus && devices[j].address == address;
        assert(wanted(Some((bus, address)), devices[j]));
    }
}

/// The path to a device is the path to the port before it and its own port behind a hyphen.
pub proof fn paths_grow_port_by_port(ports: Seq<u8>, port: u8)
    ensures
        path_text(Seq::empty()) == Seq::<char>::empty(),
        path_text(seq![port]) == dec(port as nat),
        ports.len() > 0 ==> path_text(ports.push(port)) == path_text(ports) + seq!['-'] + dec(
            port as nat,
        ),
{
    let list = Seq::new(ports.len(), |i: int| dec(ports[i] as nat));
    reveal_strlit("-");
    assert("-"@ =~= seq!['-']);
    joined_in_order(list, dec(port as nat), "-"@);
    let none = Seq::<u8>::empty();
    assert(Seq::new(none.len(), |i: int| dec(none[i] as nat)) =~= Seq::<Seq<char>>::empty());
    let one = seq![port];
    assert(Seq::new(one.len(), |i: int| dec(one[i] as nat)) =~= seq![dec(port as nat)]);
    let all = ports.push(port);
    assert(Seq::new(all.len(), |i: int| dec(all[i] as nat)) =~= list.push(dec(port as nat)));
}

/// What is said of a device that could not be used names its place, the reason last; whether the
/// system configured it is told apart.
pub proof fn open_problems_are_told(problem: OpenProblem, bus: u8, address: u8, why: Seq<char>)
    ensures
        open_problem_text(problem, bus, address, why) == "Found ArtInChip device at bus "@ + dec(
            bus as nat,
        ) + " address "@ + dec(address as nat) + (if problem == OpenProblem::NotConfigured {
            ", but macOS has not configured it for USB transfers: "@
        } else {
            ", but failed to open it: "@
        }) + why,
{
}

/// Where no device could be opened, the last one that matched tells why; how many there were is
/// told only where there were several. Where none matched, the place that was looked at is told.
pub proof fn failed_searches_are_told(s: OpenSearch<Seq<char>>)
    ensures
        s.last_open_error matches Some(e) ==> {
            &&& s.matched_count <= 1 ==> not_found_text(s) == e
            &&& s.matched_count > 1 ==> not_found_text(s) == e + " ("@ + dec(
                s.matched_count as nat,
            ) + " matching devices were detected)"@
        },
        s.last_open_error is None && s.location is None ==> not_found_text(s)
            == "No ArtInChip device found (VID=0x33C3, PID=0x6677)"@,
        s.last_open_error is None ==> (s.location matches Some((bus, address)) ==> not_found_text(s)
            == "No ArtInChip device found at bus "@ + dec(bus as nat) + " address "@ + dec(
            address as nat,
        ) + " (VID=0x33C3, PID=0x6677)"@),
{
}

/// A wait that is over says so and why; until then a device is opened only after the old one was
/// seen to be gone, and until that is so the old place is looked at.
pub proof fn old_device_must_go_first(w: ReconnectWait<Seq<char>>, now: u64)
    ensures
        now >= w.deadline <==> reconnect_tick(w, now) is Expired,
        reconnect_tick(w, now) matches ReconnectStep::Expired(text) ==> text
            == "Timed out waiting for device reconnect: "@ + w.last_err,
        reconnect_tick(w, now) is Reopen <==> now < w.deadline && w.old_device_gone,
        reconnect_tick(w, now) is Look <==> now < w.deadline && !w.old_device_gone,
{
}

/// The owner of a lock is told in brackets, without white space around it, if anything is known
/// of it.
pub proof fn lock_owners_are_named(text: Seq<char>)
    ensures
        owner_hint(None) == "."@,
        trimmed(text).len() == 0 ==> owner_hint(Some(text)) == "."@,
        trimmed(text).len() > 0 ==> owner_hint(Some(text)) == " ("@ + trimmed(text) + ")."@,
{
}

} // verus!
