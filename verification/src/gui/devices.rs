//! The devices that the windows list, and what may be started with them.
use vstd::prelude::*;

use crate::gui::labels::TransportKind;
use crate::usb::ioreg::device_views;
use crate::usb::search::DeviceInfo;

verus! {

/// The devices found by the last scan.
pub struct DeviceList {
    pub devices: Vec<DeviceInfo>,
    pub selected: Option<usize>,
    /// Whether a burn was started by itself for the devices that are there.
    pub auto_started: bool,
}

/// What follows a scan.
#[derive(Clone, Copy, Debug, Eq, PartialEq, Structural)]
pub enum AutoBurn {
    /// Nothing starts by itself.
    No,
    /// A burn starts.
    Start,
    /// A burn would start if a device were ready.
    Skipped,
}

/// How many of the devices from `k` on are ready.
pub open spec fn ready_from(devices: Seq<DeviceInfo<Seq<char>>>, k: int) -> int
    decreases devices.len() - k,
{
    if 0 <= k < devices.len() {
        (if devices[k].ready {
            1int
        } else {
            0int
        }) + ready_from(devices, k + 1)
    } else {
        0
    }
}

/// The first of the devices from `k` on that is ready.
pub open spec fn first_ready(devices: Seq<DeviceInfo<Seq<char>>>, k: int) -> Option<int>
    decreases devices.len() - k,
{
    if !(0 <= k < devices.len()) {
        None
    } else if devices[k].ready {
        Some(k)
    } else {
        first_ready(devices, k + 1)
    }
}

/// The device that is selected after a scan: the first that is ready, or else the first.
pub open spec fn selection(devices: Seq<DeviceInfo<Seq<char>>>) -> Option<int> {
    if devices.len() == 0 {
        None
    } else {
        match first_ready(devices, 0) {
            Some(k) => Some(k),
            None => Some(0),
        }
    }
}

/// What follows a scan.
pub open spec fn auto_burn_after(
    ready: int,
    wanted: bool,
    has_image: bool,
    auto_started: bool,
) -> AutoBurn {
    if wanted && !auto_started && has_image && ready > 0 {
        AutoBurn::Start
    } else if wanted && has_image && ready == 0 {
        AutoBurn::Skipped
    } else {
        AutoBurn::No
    }
}

proof fn lemma_ready(devices: Seq<DeviceInfo<Seq<char>>>, k: int)
    requires
        0 <= k <= devices.len(),
    ensures
        0 <= ready_from(devices, k) <= devices.len() - k,
        first_ready(devices, k) matches Some(i) ==> k <= i < devices.len() && devices[i].ready,
        ready_from(devices, k) == 0 ==> first_ready(devices, k) is None,
        first_ready(devices, k) is None ==> ready_from(devices, k) == 0,
    decreases devices.len() - k,
{
    if k < devices.len() {
        lemma_ready(devices, k + 1);
    }
}

impl DeviceList {
    /// No devices, and none selected.
    pub fn new() -> (list: Self)
        ensures
            device_views(list.devices@) == Seq::<DeviceInfo<Seq<char>>>::empty(),
            list.selected is None,
            !list.auto_started,
    {
        let devices: Vec<DeviceInfo> = Vec::new();
        assert(device_views(devices@) =~= Seq::<DeviceInfo<Seq<char>>>::empty());
        DeviceList { devices, selected: None, auto_started: false }
    }

    /// Takes the devices of a scan, and says how many are ready and whether a burn starts by
    /// itself: once for the devices that are there, where the user wants it, an image is loaded
    /// and a device is ready.
    pub fn apply_scan(&mut self, devices: Vec<DeviceInfo>, wanted: bool, has_image: bool) -> (r: (
        usize,
        AutoBurn,
    ))
        ensures
            final(self).devices@ == devices@,
            r.0 == ready_from(device_views(devices@), 0),
            match final(self).selected {
                Some(i) => selection(device_views(devices@)) == Some(i as int),
                None => selection(device_views(devices@)) is None,
            },
            r.1 == (if devices@.len() == 0 {
                AutoBurn::No
            } else {
                auto_burn_after(r.0 as int, wanted, has_image, old(self).auto_started)
            }),
            final(self).auto_started == (if devices@.len() == 0 {
                false
            } else {
                old(self).auto_started || r.1 == AutoBurn::Start
            }),
    {
        let ghost all = device_views(devices@);
        self.devices = devices;
        let mut ready: usize = 0;
        let mut first: Option<usize> = None;
        let mut k: usize = 0;
        while k < self.devices.len()
            invariant
                ready <= k <= self.devices.len(),
                all == device_views(self.devices@),
                ready + ready_from(all, k as int) == ready_from(all, 0),
                match first {
                    Some(i) => i < k && first_ready(all, 0) == Some(i as int),
                    None => first_ready(all, 0) == first_ready(all, k as int),
                },
                self.devices@ == devices@,
                self.auto_started == old(self).auto_started,
            decreases self.devices.len() - k,
        {
            assert(all[k as int] == self.devices@[k as int]@);
            if self.devices[k].ready {
                ready = ready + 1;
                if first.is_none() {
                    first = Some(k);
                }
            }
            k = k + 1;
        }
        if self.devices.len() == 0 {
            self.selected = None;
            self.auto_started = false;
            return (0, AutoBurn::No);
        }
        self.selected = match first {
            Some(i) => Some(i),
            None => Some(0),
        };
        let next = if wanted && !self.auto_started && has_image && ready > 0 {
            self.auto_started = true;
            AutoBurn::Start
        } else if wanted && has_image && ready == 0 {
            AutoBurn::Skipped
        } else {
            AutoBurn::No
        };
        (ready, next)
    }

    /// The device that is selected, if it is still there.
    pub fn selected_device(&self) -> (r: Option<&DeviceInfo>)
        ensures
            match r {
                Some(d) => self.selected matches Some(i) && i < self.devices@.len() && *d
                    == self.devices@[i as int],
                None => self.selected matches Some(i) ==> i >= self.devices@.len(),
            },
    {
        match self.selected {
            Some(i) => if i < self.devices.len() {
                Some(&self.devices[i])
            } else {
                None
            },
            None => None,
        }
    }
}

/// A scan selects a ready device whenever there is one, and selects none only where there is no
/// device at all.
pub proof fn ready_device_is_selected(devices: Seq<DeviceInfo<Seq<char>>>)
    ensures
        ready_from(devices, 0) > 0 ==> (selection(devices) matches Some(i) && 0 <= i
            < devices.len() && devices[i].ready),
        selection(devices) is None <==> devices.len() == 0,
{
    lemma_ready(devices, 0);
}

/// Whether work with a device may start.
pub enum Gate {
    /// Something is running already.
    Busy,
    /// No image is chosen.
    NoImage,
    /// The selected device is not ready.
    NotReady(usize),
    /// No device is selected, and none is ready.
    NoneReady,
    /// It may start, over the serial line.
    Serial,
    /// It may start, with this device or, where none is selected, with the first one.
    Usb(Option<(u8, u8)>),
}

/// Whether a device is selected that is there.
pub open spec fn selected_index(list: DeviceList) -> Option<int> {
    match list.selected {
        Some(i) => if i < list.devices@.len() {
            Some(i as int)
        } else {
            None
        },
        None => None,
    }
}

/// Whether work with a device may start.
pub open spec fn gate_for(
    list: DeviceList,
    busy: bool,
    transport: TransportKind,
    needs_image: bool,
    has_image: bool,
) -> Gate {
    if busy {
        Gate::Busy
    } else if needs_image && !has_image {
        Gate::NoImage
    } else if transport == TransportKind::Uart {
        Gate::Serial
    } else {
        match selected_index(list) {
            Some(i) => if list.devices@[i].ready {
                Gate::Usb(Some((list.devices@[i].bus_number, list.devices@[i].address)))
            } else {
                Gate::NotReady(i as usize)
            },
            None => if list.devices@.len() > 0 && first_ready(device_views(list.devices@), 0)
                is None {
                Gate::NoneReady
            } else {
                Gate::Usb(None)
            },
        }
    }
}

/// Whether work with a device may start: a burn needs an image, a look at the device does not.
pub fn start_gate(
    list: &DeviceList,
    busy: bool,
    transport: TransportKind,
    needs_image: bool,
    has_image: bool,
) -> (gate: Gate)
    ensures
        gate == gate_for(*list, busy, transport, needs_image, has_image),
{
    if busy {
        return Gate::Busy;
    }
    if needs_image && !has_image {
        return Gate::NoImage;
    }
    if transport == TransportKind::Uart {
        return Gate::Serial;
    }
    if let Some(i) = list.selected {
        if i < list.devices.len() {
            let d = &list.devices[i];
            return if d.ready {
                Gate::Usb(Some((d.bus_number, d.address)))
            } else {
                Gate::NotReady(i)
            };
        }
    }
    let ghost all = device_views(list.devices@);
    let mut k: usize = 0;
    while k < list.devices.len()
        invariant
            k <= list.devices.len(),
            all == device_views(list.devices@),
            first_ready(all, 0) == first_ready(all, k as int),
            selected_index(*list) is None,
            !busy && !(needs_image && !has_image) && transport != TransportKind::Uart,
        decreases list.devices.len() - k,
    {
        assert(all[k as int] == list.devices@[k as int]@);
        if list.devices[k].ready {
            return Gate::Usb(None);
        }
        k = k + 1;
    }
    if list.devices.len() > 0 {
        Gate::NoneReady
    } else {
        Gate::Usb(None)
    }
}

/// Nothing starts while something runs, no burn starts without an image, and over USB nothing
/// starts with a device that is not ready.
pub proof fn nothing_starts_wrongly(
    list: DeviceList,
    busy: bool,
    transport: TransportKind,
    needs_image: bool,
    has_image: bool,
)
    ensures
        ({
            let g = gate_for(list, busy, transport, needs_image, has_image);
            &&& g is Serial || g is Usb ==> !busy && (needs_image ==> has_image)
            &&& g matches Gate::Usb(Some((bus, address))) ==> exists|i: int|
                0 <= i < list.devices@.len() && (#[trigger] list.devices@[i]).ready
                    && list.devices@[i].bus_number == bus && list.devices@[i].address == address
        }),
{
}

} // verus!
