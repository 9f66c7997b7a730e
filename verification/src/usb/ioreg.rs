//! What macOS knows of USB devices, read from the output of its `ioreg` tool.
use vstd::prelude::*;
use vstd::slice::slice_subrange;

use crate::number::{
    dec, decimal_in, digit_value, hex_text, hex_wide, number_in, parse_decimal, parse_number,
    push_dec,
};
use crate::text::{
    begins, chars_of, contains_chars, cut_at_text, cut_text, join, joined, lines, lines_of,
    mentions, push_chars, same_chars, starts_with, string_texts, texts, trim, trimmed,
};
use crate::usb::search::{
    open_problem, open_problem_text, DeviceInfo, OpenProblem, AIC_PID, AIC_VID,
};

verus! {

/// What is known of a device so far.
#[derive(Clone, Copy, Debug, Eq, PartialEq, Structural)]
pub struct IoregUsbDevice {
    pub vendor_id: Option<u16>,
    pub product_id: Option<u16>,
    pub address: Option<u8>,
    pub location_id: Option<u32>,
    pub usb_speed: Option<u8>,
    pub configured: bool,
    pub has_interface: bool,
}

/// A device of which nothing is known.
pub open spec fn unknown_device() -> IoregUsbDevice {
    IoregUsbDevice {
        vendor_id: None,
        product_id: None,
        address: None,
        location_id: None,
        usb_speed: None,
        configured: false,
        has_interface: false,
    }
}

// ---------------------------------------------------------------------------------------
// Single properties
// ---------------------------------------------------------------------------------------
/// Whether a character may be part of a number: a hexadecimal digit, or the mark of one.
pub open spec fn number_char(c: char) -> bool {
    digit_value(c, 16) is Some || c == 'x' || c == 'X'
}

/// The front part of `s` that may be a number.
pub open spec fn number_front(s: Seq<char>) -> Seq<char>
    decreases s.len(),
{
    if s.len() == 0 || !number_char(s[0]) {
        Seq::empty()
    } else {
        seq![s[0]] + number_front(s.skip(1))
    }
}

/// The number that a front part stands for: hexadecimal behind its mark, decimal otherwise.
pub open spec fn marked_number(raw: Seq<char>) -> Option<nat> {
    if begins(raw, "0x"@) || begins(raw, "0X"@) {
        number_in(raw.skip(2), 16, u64::MAX as nat)
    } else {
        decimal_in(raw, u64::MAX as nat)
    }
}

/// The value of the property `key`, if `line` gives it as a number.
pub open spec fn ioreg_number(line: Seq<char>, key: Seq<char>) -> Option<nat> {
    match cut_text(line, "\""@ + key + "\" = "@) {
        None => None,
        Some((_, value)) => marked_number(number_front(trimmed(value))),
    }
}

proof fn lemma_number_front(s: Seq<char>, n: int)
    requires
        0 <= n <= s.len(),
        forall|i: int| 0 <= i < n ==> number_char(#[trigger] s[i]),
        n < s.len() ==> !number_char(s[n]),
    ensures
        number_front(s) == s.take(n),
    decreases n,
{
    if n > 0 {
        assert(number_char(s[0]));
        let rest = s.skip(1);
        assert forall|i: int| 0 <= i < n - 1 implies number_char(#[trigger] rest[i]) by {
            assert(number_char(s[i + 1]));
        }
        lemma_number_front(rest, n - 1);
        assert(seq![s[0]] + rest.take(n - 1) =~= s.take(n));
    } else {
        assert(s.take(0) =~= Seq::<char>::empty());
    }
}

/// The value of the property `key`, if `line` gives it as a number.
pub fn parse_ioreg_number(line: &[char], key: &str) -> (r: Option<u64>)
    ensures
        match r {
            Some(n) => ioreg_number(line@, key@) == Some(n as nat),
            None => ioreg_number(line@, key@) is None,
        },
{
    let mut pattern = "\"".to_string();
    pattern.append(key);
    pattern.append("\" = ");
    let pattern = chars_of(pattern.as_str());
    let value = match cut_at_text(line, pattern.as_slice()) {
        None => {
            return None;
        },
        Some((_, after)) => trim(after),
    };
    let mut n: usize = 0;
    while n < value.len() && is_number_char(value[n])
        invariant
            n <= value.len(),
            forall|i: int| 0 <= i < n ==> number_char(#[trigger] value@[i]),
        decreases value.len() - n,
    {
        n = n + 1;
    }
    proof {
        lemma_number_front(value@, n as int);
    }
    let raw = slice_subrange(value, 0, n);
    assert(raw@ =~= value@.take(n as int));
    proof {
        reveal_strlit("0x");
        reveal_strlit("0X");
    }
    if raw.len() >= 2 && raw[0] == '0' && (raw[1] == 'x' || raw[1] == 'X') {
        let digits = slice_subrange(raw, 2, raw.len());
        assert(digits@ =~= raw@.skip(2));
        assert(begins(raw@, "0x"@) || begins(raw@, "0X"@)) by {
            assert(raw@.take(2) =~= "0x"@ || raw@.take(2) =~= "0X"@);
        }
        parse_number(digits, 16, u64::MAX)
    } else {
        assert(!begins(raw@, "0x"@) && !begins(raw@, "0X"@)) by {
            if raw@.len() >= 2 {
                assert(raw@.take(2)[0] == raw@[0] && raw@.take(2)[1] == raw@[1]);
            }
        }
        parse_decimal(raw, u64::MAX)
    }
}

/// Whether a character may be part of a number.
fn is_number_char(c: char) -> (r: bool)
    ensures
        r == number_char(c),
{
    ('0' <= c && c <= '9') || ('a' <= c && c <= 'f') || ('A' <= c && c <= 'F') || c == 'x' || c
        == 'X'
}

/// The characters of `s`, each as a text of its own.
pub open spec fn single_chars(s: Seq<char>) -> Seq<Seq<char>> {
    Seq::new(s.len(), |i: int| seq![s[i]])
}

/// `s` without its leading zeros.
pub open spec fn without_zeros(s: Seq<char>) -> Seq<char>
    decreases s.len(),
{
    if s.len() > 0 && s[0] == '0' {
        without_zeros(s.skip(1))
    } else {
        s
    }
}

/// The ports that lead to a device, from the number by which macOS locates it: the digits of
/// its upper half.
pub open spec fn location_path(location_id: u32) -> Seq<char> {
    joined(single_chars(without_zeros(hex_wide((location_id / 65536) as nat, 4))), "-"@)
}

/// The ports that lead to a device, from the number by which macOS locates it.
pub fn location_id_to_port_path(location_id: u32) -> (s: String)
    ensures
        s@ == location_path(location_id),
{
    let path: u32 = location_id / 65536;
    let digits = chars_of(hex_text(path as u64, 4).as_str());
    let ghost all = digits@;
    let mut i: usize = 0;
    assert(all.skip(0) =~= all);
    while i < digits.len() && digits[i] == '0'
        invariant
            i <= digits.len(),
            all == digits@,
            without_zeros(all) == without_zeros(all.skip(i as int)),
        decreases digits.len() - i,
    {
        assert(all.skip(i as int).skip(1) =~= all.skip(i + 1));
        i = i + 1;
    }
    let ghost bare = all.skip(i as int);
    assert(without_zeros(all) == bare);
    let mut parts: Vec<String> = Vec::new();
    let ghost start = i as int;
    while i < digits.len()
        invariant
            0 <= start <= i <= digits.len(),
            all == digits@,
            bare == all.skip(start),
            parts@.len() == i - start,
            forall|j: int| 0 <= j < i - start ==> (#[trigger] parts@[j])@ == seq![bare[j]],
        decreases digits.len() - i,
    {
        let mut one = String::new();
        one.push(digits[i]);
        assert(one@ =~= seq![bare[i - start]]);
        parts.push(one);
        i = i + 1;
    }
    assert(string_texts(parts@) =~= single_chars(bare));
    join(&parts, "-")
}

/// The name of a speed.
pub open spec fn speed_text(speed: u8) -> Seq<char> {
    if speed == 1 {
        "Low/Full"@
    } else if speed == 2 {
        "Full"@
    } else if speed == 3 {
        "High"@
    } else if speed == 4 {
        "Super"@
    } else {
        "Unknown"@
    }
}

/// The name of a speed.
pub fn usb_speed_label(speed: u8) -> (s: &'static str)
    ensures
        s@ == speed_text(speed),
{
    match speed {
        1 => "Low/Full",
        2 => "Full",
        3 => "High",
        4 => "Super",
        _ => "Unknown",
    }
}

/// What keeps a device from being used, as a list.
pub open spec fn not_ready_reasons(configured: bool, has_interface: bool) -> Seq<Seq<char>> {
    (if configured {
        Seq::empty()
    } else {
        seq!["missing kUSBCurrentConfiguration"@]
    }) + (if has_interface {
        Seq::empty()
    } else {
        seq!["no IOUSBHostInterface endpoints"@]
    })
}

/// What is said of a device that cannot be used yet.
pub open spec fn not_ready_text(configured: bool, has_interface: bool) -> Option<Seq<char>> {
    if configured && has_interface {
        None
    } else {
        Some(
            joined(not_ready_reasons(configured, has_interface), ", "@)
                + ". Reconnect the board in upgrade mode, preferably directly to the Mac without a hub; if it persists, power-cycle the board or reboot macOS."@,
        )
    }
}

/// What is said of a device that cannot be used yet.
pub fn macos_not_ready_status(configured: bool, has_interface: bool) -> (r: Option<String>)
    ensures
        match r {
            Some(s) => not_ready_text(configured, has_interface) == Some(s@),
            None => not_ready_text(configured, has_interface) is None,
        },
{
    if configured && has_interface {
        return None;
    }
    let mut reasons: Vec<String> = Vec::new();
    if !configured {
        reasons.push("missing kUSBCurrentConfiguration".to_string());
    }
    if !has_interface {
        reasons.push("no IOUSBHostInterface endpoints".to_string());
    }
    assert(string_texts(reasons@) =~= not_ready_reasons(configured, has_interface));
    let mut s = join(&reasons, ", ");
    s.append(
        ". Reconnect the board in upgrade mode, preferably directly to the Mac without a hub; if it persists, power-cycle the board or reboot macOS.",
    );
    Some(s)
}

// ---------------------------------------------------------------------------------------
// The list of devices
// ---------------------------------------------------------------------------------------
/// The text that every property of a device begins with, from the line that names the device.
pub open spec fn property_prefix(line: Seq<char>) -> Seq<char> {
    let indent = match cut_text(line, "+-o "@) {
        Some((before, _)) => before,
        None => line,
    };
    indent + "  |"@
}

/// A reading of the output: the devices found, and the one that is being read with the text
/// that its properties begin with.
pub struct Reading {
    pub found: Seq<DeviceInfo<Seq<char>>>,
    pub current: Option<(IoregUsbDevice, Seq<char>)>,
}

/// A device in upgrade mode as it is listed.
pub open spec fn listed(device: IoregUsbDevice) -> DeviceInfo<Seq<char>> {
    let status = not_ready_text(device.configured, device.has_interface);
    DeviceInfo {
        bus_number: 0,
        address: match device.address {
            Some(n) => n,
            None => 0,
        },
        vendor_id: AIC_VID,
        product_id: AIC_PID,
        port_path: match device.location_id {
            Some(n) => location_path(n),
            None => Seq::empty(),
        },
        speed: match device.usb_speed {
            Some(n) => speed_text(n),
            None => "Unknown"@,
        },
        ready: status is None,
        status,
    }
}

/// The devices found, with one more if it is in upgrade mode.
pub open spec fn with_device(
    found: Seq<DeviceInfo<Seq<char>>>,
    device: IoregUsbDevice,
) -> Seq<DeviceInfo<Seq<char>>> {
    if device.vendor_id == Some(AIC_VID) && device.product_id == Some(AIC_PID) {
        found.push(listed(device))
    } else {
        found
    }
}

/// The devices found once the present one is complete.
pub open spec fn closed_off(r: Reading) -> Seq<DeviceInfo<Seq<char>>> {
    match r.current {
        Some((device, _)) => with_device(r.found, device),
        None => r.found,
    }
}

/// What a property line tells of a device. The first property that the line names counts.
pub open spec fn with_property(d: IoregUsbDevice, line: Seq<char>) -> IoregUsbDevice {
    if ioreg_number(line, "idVendor"@) is Some {
        IoregUsbDevice {
            vendor_id: Some(ioreg_number(line, "idVendor"@)->0 as u64 as u16),
            ..d
        }
    } else if ioreg_number(line, "idProduct"@) is Some {
        IoregUsbDevice {
            product_id: Some(ioreg_number(line, "idProduct"@)->0 as u64 as u16),
            ..d
        }
    } else if ioreg_number(line, "kUSBCurrentConfiguration"@) is Some {
        IoregUsbDevice { configured: true, ..d }
    } else if ioreg_number(line, "kUSBAddress"@) is Some {
        IoregUsbDevice {
            address: Some(ioreg_number(line, "kUSBAddress"@)->0 as u64 as u8),
            ..d
        }
    } else if ioreg_number(line, "USB Address"@) is Some {
        IoregUsbDevice {
            address: Some(ioreg_number(line, "USB Address"@)->0 as u64 as u8),
            ..d
        }
    } else if ioreg_number(line, "locationID"@) is Some {
        IoregUsbDevice {
            location_id: Some(ioreg_number(line, "locationID"@)->0 as u64 as u32),
            ..d
        }
    } else if ioreg_number(line, "USBSpeed"@) is Some {
        IoregUsbDevice {
            usb_speed: Some(ioreg_number(line, "USBSpeed"@)->0 as u64 as u8),
            ..d
        }
    } else {
        d
    }
}

/// The reading after one more line.
pub open spec fn read_line(r: Reading, line: Seq<char>) -> Reading {
    if mentions(line, "<class IOUSBHostDevice"@) {
        Reading {
            found: closed_off(r),
            current: Some((unknown_device(), property_prefix(line))),
        }
    } else {
        match r.current {
            None => r,
            Some((device, prefix)) => if mentions(line, "<class IOUSBHostInterface"@) {
                Reading {
                    current: Some(
                        (IoregUsbDevice { has_interface: true, ..device }, prefix),
                    ),
                    ..r
                }
            } else if line == prefix + " }"@ {
                Reading { found: closed_off(r), current: None }
            } else if !begins(line, prefix) {
                r
            } else {
                Reading { current: Some((with_property(device, line), prefix)), ..r }
            },
        }
    }
}

/// The reading after the first `n` lines.
pub open spec fn read_lines(list: Seq<Seq<char>>, n: nat) -> Reading
    decreases n,
{
    if n == 0 {
        Reading { found: Seq::empty(), current: None }
    } else {
        read_line(read_lines(list, (n - 1) as nat), list[n - 1])
    }
}

/// The devices in upgrade mode that the output tells of.
pub open spec fn ioreg_devices(output: Seq<char>) -> Seq<DeviceInfo<Seq<char>>> {
    let list = lines_of(output);
    closed_off(read_lines(list, list.len()))
}

/// The devices that a vector holds.
pub open spec fn device_views(list: Seq<DeviceInfo>) -> Seq<DeviceInfo<Seq<char>>> {
    Seq::new(list.len(), |i: int| list[i]@)
}

/// Lists a device, if it is in upgrade mode.
pub fn push_ioreg_device(found: &mut Vec<DeviceInfo>, device: IoregUsbDevice)
    ensures
        device_views(final(found)@) == with_device(device_views(old(found)@), device),
{
    let ghost before = found@;
    let vendor_ok = match device.vendor_id {
        Some(n) => n == AIC_VID,
        None => false,
    };
    let product_ok = match device.product_id {
        Some(n) => n == AIC_PID,
        None => false,
    };
    if !vendor_ok || !product_ok {
        return;
    }
    let status = macos_not_ready_status(device.configured, device.has_interface);
    let info = DeviceInfo {
        bus_number: 0,
        address: match device.address {
            Some(n) => n,
            None => 0,
        },
        vendor_id: AIC_VID,
        product_id: AIC_PID,
        port_path: match device.location_id {
            Some(n) => location_id_to_port_path(n),
            None => String::new(),
        },
        speed: match device.usb_speed {
            Some(n) => usb_speed_label(n).to_string(),
            None => "Unknown".to_string(),
        },
        ready: status.is_none(),
        status,
    };
    assert(info@ == listed(device));
    found.push(info);
    assert(device_views(found@) =~= device_views(before).push(listed(device)));
}

/// What a property line tells of a device.
fn take_property(d: IoregUsbDevice, line: &[char]) -> (r: IoregUsbDevice)
    ensures
        r == with_property(d, line@),
{
    if let Some(n) = parse_ioreg_number(line, "idVendor") {
        IoregUsbDevice { vendor_id: Some(n as u16), ..d }
    } else if let Some(n) = parse_ioreg_number(line, "idProduct") {
        IoregUsbDevice { product_id: Some(n as u16), ..d }
    } else if parse_ioreg_number(line, "kUSBCurrentConfiguration").is_some() {
        IoregUsbDevice { configured: true, ..d }
    } else if let Some(n) = parse_ioreg_number(line, "kUSBAddress") {
        IoregUsbDevice { address: Some(n as u8), ..d }
    } else if let Some(n) = parse_ioreg_number(line, "USB Address") {
        IoregUsbDevice { address: Some(n as u8), ..d }
    } else if let Some(n) = parse_ioreg_number(line, "locationID") {
        IoregUsbDevice { location_id: Some(n as u32), ..d }
    } else if let Some(n) = parse_ioreg_number(line, "USBSpeed") {
        IoregUsbDevice { usb_speed: Some(n as u8), ..d }
    } else {
        d
    }
}

/// The text that every property of a device begins with.
pub fn ioreg_device_property_prefix(line: &[char]) -> (v: Vec<char>)
    ensures
        v@ == property_prefix(line@),
{
    let mark = chars_of("+-o ");
    let indent = match cut_at_text(line, mark.as_slice()) {
        Some((before, _)) => before,
        None => line,
    };
    let mut v: Vec<char> = Vec::new();
    push_chars(&mut v, indent);
    push_chars(&mut v, chars_of("  |").as_slice());
    assert(v@ =~= property_prefix(line@));
    v
}

/// The devices in upgrade mode that the output tells of.
#[verifier::rlimit(40)]
pub fn parse_ioreg(output: &str) -> (found: Vec<DeviceInfo>)
    ensures
        device_views(found@) == ioreg_devices(output@),
{
    let list = lines(chars_of(output).as_slice());
    let device_mark = chars_of("<class IOUSBHostDevice");
    let interface_mark = chars_of("<class IOUSBHostInterface");
    let end_mark = chars_of(" }");
    let mut found: Vec<DeviceInfo> = Vec::new();
    let mut current: Option<(IoregUsbDevice, Vec<char>)> = None;
    let ghost all = lines_of(output@);
    let mut k: usize = 0;
    assert(device_views(found@) =~= Seq::<DeviceInfo<Seq<char>>>::empty());
    while k < list.len()
        invariant
            k <= list.len(),
            texts(list@) == all,
            device_mark@ == "<class IOUSBHostDevice"@,
            interface_mark@ == "<class IOUSBHostInterface"@,
            end_mark@ == " }"@,
            read_lines(all, k as nat) == (Reading {
                found: device_views(found@),
                current: match current {
                    Some((d, p)) => Some((d, p@)),
                    None => None,
                },
            }),
        decreases list.len() - k,
    {
        let line = list[k].as_slice();
        assert(all[k as int] == line@);
        if contains_chars(line, device_mark.as_slice()) {
            if let Some((device, _)) = current {
                push_ioreg_device(&mut found, device);
            }
            current = Some((new_device(), ioreg_device_property_prefix(line)));
        } else {
            match current {
                None => {
                    current = None;
                },
                Some((device, prefix)) => {
                    let mut end: Vec<char> = Vec::new();
                    push_chars(&mut end, prefix.as_slice());
                    push_chars(&mut end, end_mark.as_slice());
                    assert(end@ =~= prefix@ + " }"@);
                    if contains_chars(line, interface_mark.as_slice()) {
                        current = Some(
                            (IoregUsbDevice { has_interface: true, ..device }, prefix),
                        );
                    } else if same_chars(line, end.as_slice()) {
                        push_ioreg_device(&mut found, device);
                        current = None;
                    } else if !starts_with(line, prefix.as_slice()) {
                        current = Some((device, prefix));
                    } else {
                        current = Some((take_property(device, line), prefix));
                    }
                },
            }
        }
        k = k + 1;
    }
    if let Some((device, _)) = current {
        push_ioreg_device(&mut found, device);
    }
    found
}

/// A device of which nothing is known.
fn new_device() -> (d: IoregUsbDevice)
    ensures
        d == unknown_device(),
{
    IoregUsbDevice {
        vendor_id: None,
        product_id: None,
        address: None,
        location_id: None,
        usb_speed: None,
        configured: false,
        has_interface: false,
    }
}

// ---------------------------------------------------------------------------------------
// Whether a device can be opened
// ---------------------------------------------------------------------------------------
/// Whether a device is one that is asked for.
pub open spec fn in_place(device: DeviceInfo<Seq<char>>, location: Option<(u8, u8)>) -> bool {
    match location {
        Some((bus, address)) => device.bus_number == bus && device.address == address,
        None => true,
    }
}

/// The first device from `k` on that is asked for.
pub open spec fn first_in_place(
    devices: Seq<DeviceInfo<Seq<char>>>,
    location: Option<(u8, u8)>,
    k: int,
) -> Option<int>
    decreases devices.len() - k,
{
    if !(0 <= k < devices.len()) {
        None
    } else if in_place(devices[k], location) {
        Some(k)
    } else {
        first_in_place(devices, location, k + 1)
    }
}

/// Whether one of the devices that are asked for is ready.
pub open spec fn any_ready(
    devices: Seq<DeviceInfo<Seq<char>>>,
    location: Option<(u8, u8)>,
) -> bool {
    exists|i: int|
        0 <= i < devices.len() && in_place(#[trigger] devices[i], location) && devices[i].ready
}

/// What is said where none of the devices that are asked for is ready: why the first is not.
pub open spec fn preflight_text(
    devices: Seq<DeviceInfo<Seq<char>>>,
    location: Option<(u8, u8)>,
) -> Option<Seq<char>> {
    match first_in_place(devices, location, 0) {
        None => None,
        Some(k) => if any_ready(devices, location) {
            None
        } else {
            Some(
                open_problem_text(
                    OpenProblem::NotConfigured,
                    devices[k].bus_number,
                    devices[k].address,
                    match devices[k].status {
                        Some(s) => s,
                        None => "not ready"@,
                    },
                ),
            )
        },
    }
}

/// What is said where none of the devices that are asked for is ready.
pub fn macos_preflight_open_error(devices: &Vec<DeviceInfo>, location: Option<(u8, u8)>) -> (r:
    Option<String>)
    ensures
        match r {
            Some(s) => preflight_text(device_views(devices@), location) == Some(s@),
            None => preflight_text(device_views(devices@), location) is None,
        },
{
    let ghost all = device_views(devices@);
    let mut first: Option<usize> = None;
    let mut k: usize = 0;
    while k < devices.len()
        invariant
            k <= devices.len(),
            all == device_views(devices@),
            forall|i: int| 0 <= i < k ==> !(in_place(#[trigger] all[i], location) && all[i].ready),
            match first {
                None => first_in_place(all, location, 0) == first_in_place(
                    all,
                    location,
                    k as int,
                ),
                Some(i) => i < k && first_in_place(all, location, 0) == Some(i as int),
            },
        decreases devices.len() - k,
    {
        let d = &devices[k];
        assert(all[k as int] == d@);
        let here = match location {
            Some((bus, address)) => d.bus_number == bus && d.address == address,
            None => true,
        };
        if here {
            if d.ready {
                assert(in_place(all[k as int], location) && all[k as int].ready);
                return None;
            }
            if first.is_none() {
                first = Some(k);
            }
        }
        k = k + 1;
    }
    match first {
        None => None,
        Some(i) => {
            let d = &devices[i];
            assert(all[i as int] == d@);
            let why = match &d.status {
                Some(s) => s.clone(),
                None => "not ready".to_string(),
            };
            Some(
                open_problem(
                    OpenProblem::NotConfigured,
                    d.bus_number,
                    d.address,
                    why.as_str(),
                ),
            )
        },
    }
}

/// Whether a part of the output tells of the device in upgrade mode with this address.
pub open spec fn block_matches(block: Seq<char>, address: u8) -> bool {
    mentions(block, "\"idVendor\" = 13251"@) && mentions(block, "\"idProduct\" = 26231"@) && (
    mentions(block, "\"kUSBAddress\" = "@ + dec(address as nat)) || mentions(
        block,
        "\"USB Address\" = "@ + dec(address as nat),
    ))
}

/// Whether a part of the output tells of the device in upgrade mode with this address.
pub fn macos_block_matches_aic(block: &[char], address: u8) -> (r: bool)
    ensures
        r == block_matches(block@, address),
{
    let mut new_key = "\"kUSBAddress\" = ".to_string();
    push_dec(&mut new_key, address as u64);
    let mut old_key = "\"USB Address\" = ".to_string();
    push_dec(&mut old_key, address as u64);
    contains_chars(block, chars_of("\"idVendor\" = 13251").as_slice()) && contains_chars(
        block,
        chars_of("\"idProduct\" = 26231").as_slice(),
    ) && (contains_chars(block, chars_of(new_key.as_str()).as_slice()) || contains_chars(
        block,
        chars_of(old_key.as_str()).as_slice(),
    ))
}

/// The part of the output, cut at the lines that begin a device, that tells of the device in
/// upgrade mode with this address: `current` is the part before line `k`.
pub open spec fn block_from(
    list: Seq<Seq<char>>,
    k: int,
    current: Seq<char>,
    address: u8,
) -> Option<Seq<char>>
    decreases list.len() - k,
{
    if !(0 <= k < list.len()) {
        if block_matches(current, address) {
            Some(current)
        } else {
            None
        }
    } else {
        let line = list[k];
        let top = begins(line, "+-o "@);
        let opens = top && mentions(line, "<class IOUSBHostDevice"@);
        if opens && block_matches(current, address) {
            Some(current)
        } else {
            let kept = if opens {
                Seq::empty()
            } else {
                current
            };
            let next = if kept.len() > 0 || top {
                kept + line + "\n"@
            } else {
                kept
            };
            block_from(list, k + 1, next, address)
        }
    }
}

/// The part of the output that tells of the device in upgrade mode with this address.
pub fn find_macos_aic_device_block(output: &str, address: u8) -> (r: Option<Vec<char>>)
    ensures
        match r {
            Some(b) => block_from(lines_of(output@), 0, Seq::empty(), address) == Some(b@),
            None => block_from(lines_of(output@), 0, Seq::empty(), address) is None,
        },
{
    let list = lines(chars_of(output).as_slice());
    let top_mark = chars_of("+-o ");
    let device_mark = chars_of("<class IOUSBHostDevice");
    let newline = chars_of("\n");
    let ghost all = lines_of(output@);
    let mut current: Vec<char> = Vec::new();
    assert(current@ =~= Seq::<char>::empty());
    let mut k: usize = 0;
    while k < list.len()
        invariant
            k <= list.len(),
            texts(list@) == all,
            all == lines_of(output@),
            top_mark@ == "+-o "@,
            device_mark@ == "<class IOUSBHostDevice"@,
            newline@ == "\n"@,
            block_from(all, 0, Seq::empty(), address) == block_from(
                all,
                k as int,
                current@,
                address,
            ),
        decreases list.len() - k,
    {
        let line = list[k].as_slice();
        assert(all[k as int] == line@);
        let top = starts_with(line, top_mark.as_slice());
        if top && contains_chars(line, device_mark.as_slice()) {
            if macos_block_matches_aic(current.as_slice(), address) {
                return Some(current);
            }
            current = Vec::new();
            assert(current@ =~= Seq::<char>::empty());
        }
        if current.len() > 0 || top {
            push_chars(&mut current, line);
            push_chars(&mut current, newline.as_slice());
        }
        k = k + 1;
    }
    if macos_block_matches_aic(current.as_slice(), address) {
        Some(current)
    } else {
        None
    }
}

/// What keeps the device with this address from being used, if the output tells of it.
pub open spec fn device_problem(output: Seq<char>, address: u8) -> Option<Seq<char>> {
    match block_from(lines_of(output), 0, Seq::empty(), address) {
        None => None,
        Some(block) => not_ready_text(
            mentions(block, "\"kUSBCurrentConfiguration\" = "@),
            mentions(block, "<class IOUSBHostInterface"@),
        ),
    }
}

/// What keeps the device with this address from being used, if the output tells of it.
pub fn macos_check_device_ready(output: &str, address: u8) -> (r: Result<(), String>)
    ensures
        match r {
            Ok(()) => device_problem(output@, address) is None,
            Err(e) => device_problem(output@, address) == Some(e@),
        },
{
    match find_macos_aic_device_block(output, address) {
        None => Ok(()),
        Some(block) => {
            let configured = contains_chars(
                block.as_slice(),
                chars_of("\"kUSBCurrentConfiguration\" = ").as_slice(),
            );
            let has_interface = contains_chars(
                block.as_slice(),
                chars_of("<class IOUSBHostInterface").as_slice(),
            );
            match macos_not_ready_status(configured, has_interface) {
                Some(status) => Err(status),
                None => Ok(()),
            }
        },
    }
}

} // verus!
