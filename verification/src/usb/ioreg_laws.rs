//! What holds of the reading of macOS's list of devices.
use vstd::prelude::*;

use crate::app_config::laws::decimal_is_read_back;
use crate::number::{
    dec, digit_value, digits_value, hex, hex_wide, hexadecimal_is_read_back,
};
use crate::text::{
    begins, cut_text, cuts_are_made_first, joined, joined_in_order, lemma_trimmed_fixed, lines_of,
    mentions, stands_at,
};
use crate::usb::ioreg::{
    any_ready, block_from, device_problem, first_in_place, in_place, ioreg_devices, ioreg_number,
    listed, location_path, marked_number, not_ready_reasons, not_ready_text, number_char,
    number_front, preflight_text, property_prefix, read_line, read_lines, single_chars, speed_text,
    unknown_device, with_device, with_property, without_zeros, IoregUsbDevice, Reading,
};
use crate::usb::search::DeviceInfo;

verus! {

// ---------------------------------------------------------------------------------------
// Single properties
// ---------------------------------------------------------------------------------------
/// A line that gives a property as a number gives that number, in decimal as in hexadecimal.
pub proof fn property_numbers_are_read(key: Seq<char>, n: nat)
    requires
        n <= u64::MAX,
    ensures
        ioreg_number("\""@ + key + "\" = "@ + dec(n), key) == Some(n),
        ioreg_number("\""@ + key + "\" = "@ + ("0x"@ + hex(n)), key) == Some(n),
{
    let pat = "\""@ + key + "\" = "@;
    reveal_strlit("0x");
    reveal_strlit("0X");
    let d = dec(n);
    decimal_is_read_back(n);
    lemma_cut_behind(pat, d);
    assert('0' <= d[0] <= '9' && '0' <= d[d.len() - 1] <= '9');
    lemma_trimmed_fixed(d);
    lemma_all_front(d);
    if begins(d, "0x"@) || begins(d, "0X"@) {
        assert(d.take(2)[1] == d[1]);
        assert('0' <= d[1] <= '9');
        assert("0x"@[1] == 'x' && "0X"@[1] == 'X');
    }
    assert(marked_number(d) == Some(n));
    let x = "0x"@ + hex(n);
    hexadecimal_is_read_back(n, 0);
    assert(hex_wide(n, 0) == hex(n));
    lemma_cut_behind(pat, x);
    assert(x[0] == '0');
    assert(x.last() == hex(n).last());
    lemma_trimmed_fixed(x);
    assert forall|i: int| 0 <= i < x.len() implies number_char(#[trigger] x[i]) by {
        if i >= 2 {
            assert(x[i] == hex(n)[i - 2]);
        }
    }
    lemma_all_front(x);
    assert(x.take(2) =~= "0x"@);
    assert(x.skip(2) =~= hex(n));
    assert(marked_number(x) == Some(n));
}

proof fn lemma_cut_behind(pat: Seq<char>, value: Seq<char>)
    ensures
        cut_text(pat + value, pat) == Some((Seq::<char>::empty(), value)),
{
    let s = pat + value;
    assert(s.subrange(0, 0int + pat.len()) =~= pat);
    assert(stands_at(s, pat, 0));
    assert(s.take(0) =~= Seq::<char>::empty());
    assert(s.skip(0int + pat.len()) =~= value);
}

proof fn lemma_all_front(s: Seq<char>)
    requires
        forall|i: int| 0 <= i < s.len() ==> number_char(#[trigger] s[i]),
    ensures
        number_front(s) == s,
    decreases s.len(),
{
    if s.len() > 0 {
        let rest = s.skip(1);
        assert forall|i: int| 0 <= i < rest.len() implies number_char(#[trigger] rest[i]) by {
            assert(number_char(s[i + 1]));
        }
        assert(number_char(s[0]));
        lemma_all_front(rest);
        assert(seq![s[0]] + rest =~= s);
    }
}

/// A property line tells one thing of a device and leaves the rest: its numbers, that it is
/// configured, its address, its place or its speed.
pub proof fn one_property_is_told(d: IoregUsbDevice, line: Seq<char>, half: u16, byte: u8, whole: u32)
    ensures
        ({
            let r = with_property(d, line);
            let vendor = ioreg_number(line, "idVendor"@);
            let product = ioreg_number(line, "idProduct"@);
            let configuration = ioreg_number(line, "kUSBCurrentConfiguration"@);
            let address = ioreg_number(line, "kUSBAddress"@);
            let old_address = ioreg_number(line, "USB Address"@);
            let location = ioreg_number(line, "locationID"@);
            let speed = ioreg_number(line, "USBSpeed"@);
            let no_ids = vendor is None && product is None;
            let no_address = no_ids && configuration is None && address is None;
            &&& r.has_interface == d.has_interface
            &&& vendor == Some(half as nat) ==> r == (IoregUsbDevice {
                vendor_id: Some(half),
                ..d
            })
            &&& vendor is None ==> r.vendor_id == d.vendor_id
            &&& vendor is None && product == Some(half as nat) ==> r == (IoregUsbDevice {
                product_id: Some(half),
                ..d
            })
            &&& product is None ==> r.product_id == d.product_id
            &&& no_ids && configuration is Some ==> r == (IoregUsbDevice { configured: true, ..d })
            &&& configuration is None ==> r.configured == d.configured
            &&& no_ids && configuration is None && address == Some(byte as nat) ==> r == (
            IoregUsbDevice { address: Some(byte), ..d })
            &&& no_address && old_address == Some(byte as nat) ==> r == (IoregUsbDevice {
                address: Some(byte),
                ..d
            })
            &&& address is None && old_address is None ==> r.address == d.address
            &&& no_address && old_address is None && location == Some(whole as nat) ==> r == (
            IoregUsbDevice { location_id: Some(whole), ..d })
            &&& location is None ==> r.location_id == d.location_id
            &&& no_address && old_address is None && location is None && speed == Some(
                byte as nat,
            ) ==> r == (IoregUsbDevice { usb_speed: Some(byte), ..d })
            &&& speed is None ==> r.usb_speed == d.usb_speed
        }),
{
}

/// The path to a device spells the upper half of the number of its place: one hexadecimal digit
/// for each port, without leading zeros, with hyphens between them.
pub proof fn places_are_spelled_out(location_id: u32)
    ensures
        ({
            let path = location_path(location_id);
            let digits = Seq::new((path.len() + 1) / 2, |i: int| path[2 * i]);
            &&& digits_value(digits, 16) == Some((location_id / 65536) as nat)
            &&& digits.len() > 0 ==> digits[0] != '0'
            &&& forall|i: int| 0 <= i < path.len() && i % 2 == 1 ==> path[i] == '-'
        }),
{
    let n = (location_id / 65536) as nat;
    hexadecimal_is_read_back(n, 4);
    lemma_without_zeros(hex_wide(n, 4));
    let bare = without_zeros(hex_wide(n, 4));
    reveal_strlit("-");
    assert("-"@ =~= seq!['-']);
    lemma_single_joined(bare);
    let path = location_path(location_id);
    let digits = Seq::new((path.len() + 1) / 2, |i: int| path[2 * i]);
    assert(digits =~= bare);
}

proof fn lemma_without_zeros(s: Seq<char>)
    ensures
        digits_value(s, 16) is Some ==> digits_value(without_zeros(s), 16) == digits_value(s, 16),
        without_zeros(s).len() > 0 ==> without_zeros(s)[0] != '0',
    decreases s.len(),
{
    if s.len() > 0 && s[0] == '0' {
        lemma_leading_zero(s);
        lemma_without_zeros(s.skip(1));
    }
}

proof fn lemma_leading_zero(s: Seq<char>)
    requires
        s.len() > 0,
        s[0] == '0',
    ensures
        digits_value(s.skip(1), 16) == digits_value(s, 16),
    decreases s.len(),
{
    if s.len() == 1 {
        assert(s.drop_last() =~= Seq::<char>::empty());
        assert(s.skip(1) =~= Seq::<char>::empty());
        assert(digits_value(s.drop_last(), 16) == Some(0nat));
        assert(digit_value(s.last(), 16) == Some(0nat));
    } else {
        lemma_leading_zero(s.drop_last());
        assert(s.drop_last().skip(1) =~= s.skip(1).drop_last());
        assert(s.skip(1).last() == s.last());
    }
}

proof fn lemma_single_joined(s: Seq<char>)
    ensures
        ({
            let path = joined(single_chars(s), seq!['-']);
            &&& s.len() == 0 ==> path.len() == 0
            &&& s.len() > 0 ==> path.len() == 2 * s.len() - 1
            &&& forall|i: int| 0 <= i < s.len() ==> path[2 * i] == #[trigger] s[i]
            &&& forall|i: int| 0 <= i < path.len() && i % 2 == 1 ==> path[i] == '-'
        }),
    decreases s.len(),
{
    let list = single_chars(s);
    let sep = seq!['-'];
    let path = joined(list, sep);
    if s.len() == 1 {
        assert(path == seq![s[0]]);
    } else if s.len() > 1 {
        let front = s.drop_last();
        lemma_single_joined(front);
        assert(list.drop_last() =~= single_chars(front));
        let before = joined(single_chars(front), sep);
        assert(path == before + sep + seq![s.last()]);
        assert forall|i: int| 0 <= i < s.len() implies path[2 * i] == #[trigger] s[i] by {
            if i < front.len() {
                assert(before[2 * i] == front[i]);
            }
        }
        assert forall|i: int| 0 <= i < path.len() && i % 2 == 1 implies path[i] == '-' by {
            if i < before.len() {
                assert(before[i] == '-');
            }
        }
    }
}

/// The speeds have the names that the system gives them; any other is unknown.
pub proof fn speeds_are_named(speed: u8)
    ensures
        speed_text(speed) == (match speed {
            1 => "Low/Full"@,
            2 => "Full"@,
            3 => "High"@,
            4 => "Super"@,
            _ => "Unknown"@,
        }),
{
}

/// Nothing is said of a device that is configured and has endpoints; of any other it is said what
/// it lacks, first the configuration, and then what can be done.
pub proof fn unready_devices_are_explained(configured: bool, has_interface: bool)
    ensures
        ({
            let advice =
                ". Reconnect the board in upgrade mode, preferably directly to the Mac without a hub; if it persists, power-cycle the board or reboot macOS."@;
            not_ready_text(configured, has_interface) == (if configured && has_interface {
                None
            } else if configured {
                Some("no IOUSBHostInterface endpoints"@ + advice)
            } else if has_interface {
                Some("missing kUSBCurrentConfiguration"@ + advice)
            } else {
                Some(
                    "missing kUSBCurrentConfiguration"@ + ", "@
                        + "no IOUSBHostInterface endpoints"@ + advice,
                )
            })
        }),
{
    let a = "missing kUSBCurrentConfiguration"@;
    let b = "no IOUSBHostInterface endpoints"@;
    joined_in_order(seq![a], b, ", "@);
    joined_in_order(seq![a], a, ", "@);
    assert(not_ready_reasons(false, false) =~= seq![a].push(b));
    assert(not_ready_reasons(false, true) =~= seq![a]);
    assert(not_ready_reasons(true, false) =~= seq![b]);
}

// ---------------------------------------------------------------------------------------
// The list of devices
// ---------------------------------------------------------------------------------------
/// A device is listed with what its properties told; what they did not tell is zero, empty or
/// unknown, and it is ready if and only if nothing is lacking.
pub proof fn devices_are_listed_as_told(d: IoregUsbDevice)
    ensures
        ({
            let r = listed(d);
            &&& r.bus_number == 0
            &&& r.vendor_id == 0x33c3
            &&& r.product_id == 0x6677
            &&& d.address matches Some(n) ==> r.address == n
            &&& d.address is None ==> r.address == 0
            &&& d.location_id matches Some(n) ==> r.port_path == location_path(n)
            &&& d.location_id is None ==> r.port_path.len() == 0
            &&& d.usb_speed matches Some(n) ==> r.speed == speed_text(n)
            &&& d.usb_speed is None ==> r.speed == "Unknown"@
            &&& r.ready <==> d.configured && d.has_interface
            &&& r.status == not_ready_text(d.configured, d.has_interface)
        }),
{
}

/// Only a device with the numbers of one in upgrade mode is listed, behind those found before.
pub proof fn only_upgrade_devices_are_listed(
    found: Seq<DeviceInfo<Seq<char>>>,
    d: IoregUsbDevice,
)
    ensures
        with_device(found, d) == (if d.vendor_id == Some(0x33c3u16) && d.product_id == Some(
            0x6677u16,
        ) {
            found.push(listed(d))
        } else {
            found
        }),
{
}

/// How a line is taken: one that names a device closes the one before it and begins a new one;
/// an interface counts for the device that is being read; the closing bracket of its properties
/// closes it; another line counts only behind the text that its properties begin with. Outside a
/// device every line but one that names a device is passed over.
pub proof fn lines_are_taken_for_the_device(
    found: Seq<DeviceInfo<Seq<char>>>,
    device: IoregUsbDevice,
    prefix: Seq<char>,
    line: Seq<char>,
)
    ensures
        ({
            let outside = Reading { found, current: None };
            let inside = Reading { found, current: Some((device, prefix)) };
            let opens = mentions(line, "<class IOUSBHostDevice"@);
            let interface = mentions(line, "<class IOUSBHostInterface"@);
            let closes = line == prefix + " }"@;
            &&& opens ==> read_line(outside, line).found == found && read_line(inside, line).found
                == with_device(found, device) && (read_line(inside, line).current matches Some(
                (d, _),
            ) && d == unknown_device()) && read_line(outside, line).current == read_line(
                inside,
                line,
            ).current
            &&& !opens ==> read_line(outside, line) == outside
            &&& !opens && interface ==> read_line(inside, line) == (Reading {
                found,
                current: Some((IoregUsbDevice { has_interface: true, ..device }, prefix)),
            })
            &&& !opens && !interface && closes ==> read_line(inside, line) == (Reading {
                found: with_device(found, device),
                current: None,
            })
            &&& !opens && !interface && !closes && !begins(line, prefix) ==> read_line(
                inside,
                line,
            ) == inside
            &&& !opens && !interface && !closes && begins(line, prefix) ==> read_line(inside, line)
                == (Reading { found, current: Some((with_property(device, line), prefix)) })
        }),
{
}

/// A device of which nothing was told has no numbers and no place, and is neither configured nor
/// has it endpoints.
pub proof fn nothing_is_known_at_first()
    ensures
        ({
            let d = unknown_device();
            d.vendor_id is None && d.product_id is None && d.address is None && d.location_id
                is None && d.usb_speed is None && !d.configured && !d.has_interface
        }),
{
}

/// Whatever the output holds, every device that is found in it is one in upgrade mode, on bus
/// zero, and has a status if and only if it is not ready.
pub proof fn found_devices_are_upgrade_devices(output: Seq<char>, i: int)
    requires
        0 <= i < ioreg_devices(output).len(),
    ensures
        ({
            let d = ioreg_devices(output)[i];
            d.bus_number == 0 && d.vendor_id == 0x33c3 && d.product_id == 0x6677 && (d.ready
                <==> d.status is None)
        }),
{
    let list = lines_of(output);
    let r = read_lines(list, list.len());
    lemma_found(list, list.len());
    match r.current {
        Some((device, _)) => {
            lemma_one_more(r.found, device);
        },
        None => {},
    }
    assert(is_listed_device(ioreg_devices(output)[i]));
}

/// Whether a device is one in upgrade mode as it is listed.
pub open spec fn is_listed_device(d: DeviceInfo<Seq<char>>) -> bool {
    d.bus_number == 0 && d.vendor_id == 0x33c3 && d.product_id == 0x6677 && (d.ready <==> d.status
        is None)
}

/// Whether all devices are.
spec fn all_listed(found: Seq<DeviceInfo<Seq<char>>>) -> bool {
    forall|i: int| 0 <= i < found.len() ==> is_listed_device(#[trigger] found[i])
}

proof fn lemma_one_more(found: Seq<DeviceInfo<Seq<char>>>, d: IoregUsbDevice)
    requires
        all_listed(found),
    ensures
        all_listed(with_device(found, d)),
{
    assert(is_listed_device(listed(d)));
}

proof fn lemma_found(list: Seq<Seq<char>>, n: nat)
    ensures
        all_listed(read_lines(list, n).found),
    decreases n,
{
    if n > 0 {
        let r = read_lines(list, (n - 1) as nat);
        lemma_found(list, (n - 1) as nat);
        lemma_line(r, list[n - 1]);
    }
}

proof fn lemma_line(r: Reading, line: Seq<char>)
    requires
        all_listed(r.found),
    ensures
        all_listed(read_line(r, line).found),
{
    match r.current {
        Some((device, prefix)) => {
            lemma_one_more(r.found, device);
            lines_are_taken_for_the_device(r.found, device, prefix, line);
        },
        None => {},
    }
}

// ---------------------------------------------------------------------------------------
// Whether a device can be opened
// ---------------------------------------------------------------------------------------
/// The device that is looked at is the first one at the place that is asked for.
pub proof fn first_device_in_place_is_found(
    devices: Seq<DeviceInfo<Seq<char>>>,
    location: Option<(u8, u8)>,
    k: int,
)
    requires
        0 <= k,
    ensures
        match first_in_place(devices, location, k) {
            Some(i) => k <= i < devices.len() && in_place(devices[i], location) && forall|j: int|
                k <= j < i ==> !in_place(#[trigger] devices[j], location),
            None => forall|j: int|
                k <= j < devices.len() ==> !in_place(#[trigger] devices[j], location),
        },
    decreases devices.len() - k,
{
    if k < devices.len() {
        first_device_in_place_is_found(devices, location, k + 1);
    }
}

/// Opening is refused beforehand only where there are devices at the place and none of them is
/// ready; then the first of them tells why.
pub proof fn opening_is_refused_for_a_reason(
    devices: Seq<DeviceInfo<Seq<char>>>,
    location: Option<(u8, u8)>,
    i: int,
)
    ensures
        0 <= i < devices.len() && in_place(devices[i], location) && devices[i].ready
            ==> preflight_text(devices, location) is None,
        (forall|j: int| 0 <= j < devices.len() ==> !in_place(#[trigger] devices[j], location))
            ==> preflight_text(devices, location) is None,
        0 <= i < devices.len() && in_place(devices[i], location) && (forall|j: int|
            0 <= j < i ==> !in_place(#[trigger] devices[j], location)) && (forall|j: int|
            0 <= j < devices.len() && in_place(#[trigger] devices[j], location)
                ==> !devices[j].ready) ==> preflight_text(devices, location) == Some(
            "Found ArtInChip device at bus "@ + dec(devices[i].bus_number as nat) + " address "@
                + dec(devices[i].address as nat)
                + ", but macOS has not configured it for USB transfers: "@ + (
            match devices[i].status {
                Some(s) => s,
                None => "not ready"@,
            }),
        ),
        in_place(devices[i], None),
        forall|bus: u8, address: u8|
            in_place(devices[i], Some((bus, address))) <==> devices[i].bus_number == bus
                && devices[i].address == address,
{
    first_device_in_place_is_found(devices, location, 0);
    if 0 <= i < devices.len() && in_place(devices[i], location) && devices[i].ready {
        assert(any_ready(devices, location));
    }
}

/// The part of the output that is looked at for a device is one that names the numbers of an
/// upgrade device and the address.
pub proof fn looked_at_part_is_about_the_device(
    list: Seq<Seq<char>>,
    k: int,
    current: Seq<char>,
    address: u8,
)
    ensures
        block_from(list, k, current, address) matches Some(b) ==> {
            &&& mentions(b, "\"idVendor\" = 13251"@)
            &&& mentions(b, "\"idProduct\" = 26231"@)
            &&& mentions(b, "\"kUSBAddress\" = "@ + dec(address as nat)) || mentions(
                b,
                "\"USB Address\" = "@ + dec(address as nat),
            )
        },
    decreases list.len() - k,
{
    if 0 <= k < list.len() {
        let line = list[k];
        let top = begins(line, "+-o "@);
        let opens = top && mentions(line, "<class IOUSBHostDevice"@);
        let kept = if opens {
            Seq::empty()
        } else {
            current
        };
        let next = if kept.len() > 0 || top {
            kept + line + "\n"@
        } else {
            kept
        };
        looked_at_part_is_about_the_device(list, k + 1, next, address);
    }
}

/// A device is kept from being used only by what its part of the output lacks.
pub proof fn problems_are_what_is_lacking(output: Seq<char>, address: u8, block: Seq<char>)
    requires
        block_from(lines_of(output), 0, Seq::empty(), address) == Some(block),
    ensures
        device_problem(output, address) is None <==> mentions(
            block,
            "\"kUSBCurrentConfiguration\" = "@,
        ) && mentions(block, "<class IOUSBHostInterface"@),
        device_problem(output, address) == not_ready_text(
            mentions(block, "\"kUSBCurrentConfiguration\" = "@),
            mentions(block, "<class IOUSBHostInterface"@),
        ),
{
}

/// The output is read line by line, from the first on; the device that is being read when it ends
/// counts too.
pub proof fn output_is_read_line_by_line(output: Seq<char>, list: Seq<Seq<char>>, n: nat)
    ensures
        read_lines(list, 0).found.len() == 0 && read_lines(list, 0).current is None,
        n < list.len() ==> read_lines(list, n + 1) == read_line(
            read_lines(list, n),
            list[n as int],
        ),
        ({
            let all = lines_of(output);
            let r = read_lines(all, all.len());
            ioreg_devices(output) == match r.current {
                Some((device, _)) => with_device(r.found, device),
                None => r.found,
            }
        }),
{
}

/// The properties of a device begin with what stands before its mark, two blanks and a bar.
pub proof fn properties_are_indented(indent: Seq<char>, rest: Seq<char>)
    requires
        forall|j: int|
            0 <= j < indent.len() ==> !stands_at(indent + "+-o "@ + rest, "+-o "@, j),
    ensures
        property_prefix(indent + "+-o "@ + rest) == indent + "  |"@,
{
    let mark = "+-o "@;
    let line = indent + mark + rest;
    cuts_are_made_first(line, mark);
    assert(line.subrange(indent.len() as int, (indent.len() + mark.len()) as int) =~= mark);
    assert(stands_at(line, mark, indent.len() as int));
    match cut_text(line, mark) {
        Some((before, after)) => {
            if before.len() < indent.len() {
                assert(line.subrange(before.len() as int, (before.len() + mark.len()) as int) =~= mark);
                assert(stands_at(line, mark, before.len() as int));
            }
            assert(before.len() == indent.len());
            assert(before =~= indent) by {
                assert forall|i: int| 0 <= i < before.len() implies before[i] == indent[i] by {
                    assert(line[i] == before[i]);
                    assert(line[i] == indent[i]);
                }
            }
        },
        None => {},
    }
}

/// Whether a part of the output is about the upgrade device at an address.
pub open spec fn is_about(part: Seq<char>, address: u8) -> bool {
    &&& mentions(part, "\"idVendor\" = 13251"@)
    &&& mentions(part, "\"idProduct\" = 26231"@)
    &&& mentions(part, "\"kUSBAddress\" = "@ + dec(address as nat)) || mentions(
        part,
        "\"USB Address\" = "@ + dec(address as nat),
    )
}

/// Whether a line at the top of the output names a device.
pub open spec fn names_device(line: Seq<char>) -> bool {
    begins(line, "+-o "@) && mentions(line, "<class IOUSBHostDevice"@)
}

/// The lines from `a` up to `b`, each with its end.
pub open spec fn lines_between(list: Seq<Seq<char>>, a: int, b: int) -> Seq<char>
    decreases b - a,
{
    if a >= b {
        Seq::empty()
    } else {
        list[a] + "\n"@ + lines_between(list, a + 1, b)
    }
}

/// The output is looked through device by device: the part of one goes from the line that names
/// it up to the line that names the next, or to the end. The first part that is about the address
/// is the one that counts, whole; where none is, there is none. What stands before the tree is
/// passed over.
pub proof fn parts_are_looked_through(
    list: Seq<Seq<char>>,
    before: Seq<char>,
    a: int,
    b: int,
    address: u8,
)
    requires
        0 <= a < b <= list.len(),
        names_device(list[a]),
        forall|j: int| a < j < b ==> !names_device(#[trigger] list[j]),
        b == list.len() || names_device(list[b]),
        !is_about(before, address),
    ensures
        ({
            let part = lines_between(list, a, b);
            block_from(list, a, before, address) == (if is_about(part, address) {
                Some(part)
            } else if b == list.len() {
                None
            } else {
                block_from(list, b, part, address)
            })
        }),
        (forall|j: int| 0 <= j < a ==> !begins(#[trigger] list[j], "+-o "@)) ==> block_from(
            list,
            0,
            Seq::empty(),
            address,
        ) == block_from(list, a, Seq::empty(), address),
{
    reveal_strlit("\n");
    let first = list[a] + "\n"@;
    assert(Seq::<char>::empty() + list[a] + "\n"@ =~= first);
    lemma_part_grows(list, a + 1, b, first, address);
    assert(first + lines_between(list, a + 1, b) =~= lines_between(list, a, b));
    if forall|j: int| 0 <= j < a ==> !begins(#[trigger] list[j], "+-o "@) {
        lemma_front_is_passed_over(list, 0, a, address);
    }
}

proof fn lemma_part_grows(
    list: Seq<Seq<char>>,
    k: int,
    b: int,
    current: Seq<char>,
    address: u8,
)
    requires
        0 <= k <= b <= list.len(),
        current.len() > 0,
        forall|j: int| k <= j < b ==> !names_device(#[trigger] list[j]),
    ensures
        block_from(list, k, current, address) == block_from(
            list,
            b,
            current + lines_between(list, k, b),
            address,
        ),
    decreases b - k,
{
    if k < b {
        let next = current + list[k] + "\n"@;
        assert(!names_device(list[k]));
        lemma_part_grows(list, k + 1, b, next, address);
        assert(next + lines_between(list, k + 1, b) =~= current + lines_between(list, k, b));
    } else {
        assert(current + lines_between(list, k, b) =~= current);
    }
}

proof fn lemma_front_is_passed_over(list: Seq<Seq<char>>, k: int, a: int, address: u8)
    requires
        0 <= k <= a <= list.len(),
        forall|j: int| k <= j < a ==> !begins(#[trigger] list[j], "+-o "@),
    ensures
        block_from(list, k, Seq::empty(), address) == block_from(list, a, Seq::empty(), address),
    decreases a - k,
{
    if k < a {
        assert(!begins(list[k], "+-o "@));
        lemma_front_is_passed_over(list, k + 1, a, address);
    }
}

} // verus!
