//! Lines that list ports, devices and the components of an image.
use vstd::prelude::*;

use crate::device::plan::{ComponentKind, FirmwareComponent};
use crate::number::{dec, dec_text, hex_wide, push_dec, push_hex};
use crate::protocol::commands::FwcMeta;
use crate::standalone::{ready_text, ready_word};
use crate::text::string_texts;
use crate::uart::ports::SerialPortInfo;
use crate::usb::search::{is_upgrade_device, upgrade_ids, DeviceInfo, UsbDeviceInfo};

verus! {

/// `s` with blanks behind it, up to `width` characters.
pub open spec fn padded(s: Seq<char>, width: nat) -> Seq<char> {
    if s.len() < width {
        s + Seq::new((width - s.len()) as nat, |i: int| ' ')
    } else {
        s
    }
}

/// Appends `s` with blanks behind it, up to `width` characters.
pub fn push_padded(out: &mut String, s: &str, width: usize)
    ensures
        final(out)@ == old(out)@ + padded(s@, width as nat),
{
    let ghost start = out@;
    let len: usize = s.unicode_len();
    out.append(s);
    let mut missing: usize = if len < width {
        width - len
    } else {
        0
    };
    let ghost all = missing as nat;
    assert(out@ =~= start + s@ + Seq::new(0, |i: int| ' '));
    while missing > 0
        invariant
            missing <= all,
            out@ == start + s@ + Seq::new((all - missing) as nat, |i: int| ' '),
        decreases missing,
    {
        out.push(' ');
        missing = missing - 1;
        assert(out@ =~= start + s@ + Seq::new((all - missing) as nat, |i: int| ' '));
    }
    assert(out@ =~= start + padded(s@, width as nat));
}

/// A serial port in the list of ports.
pub open spec fn serial_row(port: SerialPortInfo) -> Seq<char> {
    "  "@ + padded(port.port_name@, 32) + " type="@ + padded(port.port_type@, 9) + (match (
        port.vid,
        port.pid,
    ) {
        (Some(vid), Some(pid)) => " usb="@ + hex_wide(vid as nat, 4) + ":"@ + hex_wide(
            pid as nat,
            4,
        ),
        _ => Seq::empty(),
    }) + (match port.product {
        Some(product) => " "@ + product@,
        None => Seq::empty(),
    })
}

/// A serial port in the list of ports.
pub fn serial_port_line(port: &SerialPortInfo) -> (s: String)
    ensures
        s@ == serial_row(*port),
{
    let mut usb = String::new();
    if let (Some(vid), Some(pid)) = (port.vid, port.pid) {
        usb = " usb=".to_string();
        push_hex(&mut usb, vid as u64, 4);
        usb.append(":");
        push_hex(&mut usb, pid as u64, 4);
    }
    let mut product = String::new();
    if let Some(name) = &port.product {
        product = " ".to_string();
        product.append(name.as_str());
    }
    let mut s = "  ".to_string();
    push_padded(&mut s, port.port_name.as_str(), 32);
    s.append(" type=");
    push_padded(&mut s, port.port_type.as_str(), 9);
    s.append(usb.as_str());
    s.append(product.as_str());
    s
}

/// A device in the list of all devices on the bus.
pub open spec fn usb_row(d: UsbDeviceInfo) -> Seq<char> {
    "  bus="@ + padded(dec(d.bus_number as nat), 3) + " address="@ + padded(
        dec(d.address as nat),
        3,
    ) + " "@ + hex_wide(d.vendor_id as nat, 4) + ":"@ + hex_wide(d.product_id as nat, 4)
        + " class="@ + hex_wide(d.class_code as nat, 2) + "/"@ + hex_wide(
        d.subclass_code as nat,
        2,
    ) + "/"@ + hex_wide(d.protocol_code as nat, 2) + " speed="@ + padded(d.speed@, 10)
        + " path="@ + d.port_path@ + (if upgrade_ids(d.vendor_id, d.product_id) {
        "  <-- ArtInChip upgrade"@
    } else {
        ""@
    })
}

/// A device in the list of all devices on the bus; one in upgrade mode is marked.
pub fn usb_device_line(d: &UsbDeviceInfo) -> (s: String)
    ensures
        s@ == usb_row(*d),
{
    let mut s = "  bus=".to_string();
    push_padded(&mut s, dec_text(d.bus_number as u64).as_str(), 3);
    s.append(" address=");
    push_padded(&mut s, dec_text(d.address as u64).as_str(), 3);
    s.append(" ");
    push_hex(&mut s, d.vendor_id as u64, 4);
    s.append(":");
    push_hex(&mut s, d.product_id as u64, 4);
    s.append(" class=");
    push_hex(&mut s, d.class_code as u64, 2);
    s.append("/");
    push_hex(&mut s, d.subclass_code as u64, 2);
    s.append("/");
    push_hex(&mut s, d.protocol_code as u64, 2);
    s.append(" speed=");
    push_padded(&mut s, d.speed.as_str(), 10);
    s.append(" path=");
    s.append(d.port_path.as_str());
    s.append(
        if is_upgrade_device(d.vendor_id, d.product_id) {
            "  <-- ArtInChip upgrade"
        } else {
            ""
        },
    );
    s
}

/// A device in upgrade mode in the list of a scan.
pub open spec fn scan_row(d: DeviceInfo<Seq<char>>) -> Seq<char> {
    "  bus="@ + dec(d.bus_number as nat) + " address="@ + dec(d.address as nat) + " path="@
        + d.port_path + " vid=0x"@ + hex_wide(d.vendor_id as nat, 4) + " pid=0x"@ + hex_wide(
        d.product_id as nat,
        4,
    ) + " speed="@ + d.speed + " status="@ + ready_text(d.ready) + (match d.status {
        Some(status) => "\n    "@ + status,
        None => Seq::empty(),
    })
}

/// A device in upgrade mode in the list of a scan; what keeps it from being used stands on a
/// line of its own.
pub fn scan_line(d: &DeviceInfo) -> (s: String)
    ensures
        s@ == scan_row(d@),
{
    let mut note = String::new();
    if let Some(status) = &d.status {
        note = "\n    ".to_string();
        note.append(status.as_str());
    }
    let mut s = "  bus=".to_string();
    push_dec(&mut s, d.bus_number as u64);
    s.append(" address=");
    push_dec(&mut s, d.address as u64);
    s.append(" path=");
    s.append(d.port_path.as_str());
    s.append(" vid=0x");
    push_hex(&mut s, d.vendor_id as u64, 4);
    s.append(" pid=0x");
    push_hex(&mut s, d.product_id as u64, 4);
    s.append(" speed=");
    s.append(d.speed.as_str());
    s.append(" status=");
    s.append(ready_word(d.ready));
    s.append(note.as_str());
    s
}

// ---------------------------------------------------------------------------------------
// The components of an image
// ---------------------------------------------------------------------------------------
/// The name of the part that a component plays.
pub open spec fn kind_text(kind: ComponentKind) -> Seq<char> {
    match kind {
        ComponentKind::Updater => "Updater"@,
        ComponentKind::ImageInfo => "ImageInfo"@,
        ComponentKind::Target => "Target"@,
        ComponentKind::Other => "Other"@,
    }
}

/// A component in the plan of a burn.
pub open spec fn plan_row(kind: ComponentKind, meta: FwcMeta, selected: bool) -> Seq<char> {
    "  "@ + kind_text(kind) + ": "@ + meta.name@ + " partition="@ + meta.partition@ + " selected="@
        + (if selected {
        "true"@
    } else {
        "false"@
    })
}

/// The plan of a burn, a line for each component.
pub fn plan_rows(plan: &[FirmwareComponent<'_>]) -> (rows: Vec<String>)
    ensures
        string_texts(rows@) == Seq::new(
            plan@.len(),
            |i: int| plan_row(plan@[i].kind, *plan@[i].meta, plan@[i].selected),
        ),
{
    let mut rows: Vec<String> = Vec::new();
    let mut i: usize = 0;
    while i < plan.len()
        invariant
            i <= plan.len(),
            rows@.len() == i,
            forall|j: int|
                0 <= j < i ==> (#[trigger] rows@[j])@ == plan_row(
                    plan@[j].kind,
                    *plan@[j].meta,
                    plan@[j].selected,
                ),
        decreases plan.len() - i,
    {
        let component = &plan[i];
        let mut s = "  ".to_string();
        s.append(
            match component.kind {
                ComponentKind::Updater => "Updater",
                ComponentKind::ImageInfo => "ImageInfo",
                ComponentKind::Target => "Target",
                ComponentKind::Other => "Other",
            },
        );
        s.append(": ");
        s.append(component.meta.name_str());
        s.append(" partition=");
        s.append(component.meta.partition_str());
        s.append(" selected=");
        s.append(
            if component.selected {
                "true"
            } else {
                "false"
            },
        );
        rows.push(s);
        i = i + 1;
    }
    assert(string_texts(rows@) =~= Seq::new(
        plan@.len(),
        |i: int| plan_row(plan@[i].kind, *plan@[i].meta, plan@[i].selected),
    ));
    rows
}

// ---------------------------------------------------------------------------------------
// What holds of them
// ---------------------------------------------------------------------------------------
/// Text that is filled up begins with the text, goes on with blanks, and is as wide as asked for,
/// or as the text where that is wider.
pub proof fn padding_is_blank(s: Seq<char>, width: nat)
    ensures
        padded(s, width).take(s.len() as int) == s,
        forall|i: int| s.len() <= i < padded(s, width).len() ==> padded(s, width)[i] == ' ',
        padded(s, width).len() == (if s.len() < width {
            width
        } else {
            s.len()
        }),
{
    assert(padded(s, width).take(s.len() as int) =~= s);
}

/// A row of the list of serial ports tells its name and kind, and, where they are known, both of
/// its numbers and the product, each at its place.
pub proof fn serial_rows_tell_the_port(port: SerialPortInfo)
    ensures
        ({
            let front = "  "@ + padded(port.port_name@, 32) + " type="@ + padded(
                port.port_type@,
                9,
            );
            let numbers = match (port.vid, port.pid) {
                (Some(vid), Some(pid)) => front + " usb="@ + hex_wide(vid as nat, 4) + ":"@
                    + hex_wide(pid as nat, 4),
                _ => front,
            };
            serial_row(port) == match port.product {
                Some(product) => numbers + " "@ + product@,
                None => numbers,
            }
        }),
{
    let front = "  "@ + padded(port.port_name@, 32) + " type="@ + padded(port.port_type@, 9);
    match (port.vid, port.pid) {
        (Some(vid), Some(pid)) => {
            let numbers = front + " usb="@ + hex_wide(vid as nat, 4) + ":"@ + hex_wide(
                pid as nat,
                4,
            );
            match port.product {
                Some(product) => {
                    assert(serial_row(port) =~= numbers + " "@ + product@);
                },
                None => {
                    assert(serial_row(port) =~= numbers);
                },
            }
        },
        _ => {
            match port.product {
                Some(product) => {
                    assert(serial_row(port) =~= front + " "@ + product@);
                },
                None => {
                    assert(serial_row(port) =~= front);
                },
            }
        },
    }
}

/// A row of the list of all devices ends in the mark if and only if the device is in upgrade mode,
/// and what stands before is the same text whatever the device.
pub proof fn upgrade_devices_are_marked(d: UsbDeviceInfo)
    ensures
        ({
            let row = "  bus="@ + padded(dec(d.bus_number as nat), 3) + " address="@ + padded(
                dec(d.address as nat),
                3,
            ) + " "@ + hex_wide(d.vendor_id as nat, 4) + ":"@ + hex_wide(d.product_id as nat, 4)
                + " class="@ + hex_wide(d.class_code as nat, 2) + "/"@ + hex_wide(
                d.subclass_code as nat,
                2,
            ) + "/"@ + hex_wide(d.protocol_code as nat, 2) + " speed="@ + padded(d.speed@, 10)
                + " path="@ + d.port_path@;
            usb_row(d) == if d.vendor_id == 0x33c3 && d.product_id == 0x6677 {
                row + "  <-- ArtInChip upgrade"@
            } else {
                row
            }
        }),
{
    let row = "  bus="@ + padded(dec(d.bus_number as nat), 3) + " address="@ + padded(
        dec(d.address as nat),
        3,
    ) + " "@ + hex_wide(d.vendor_id as nat, 4) + ":"@ + hex_wide(d.product_id as nat, 4)
        + " class="@ + hex_wide(d.class_code as nat, 2) + "/"@ + hex_wide(
        d.subclass_code as nat,
        2,
    ) + "/"@ + hex_wide(d.protocol_code as nat, 2) + " speed="@ + padded(d.speed@, 10)
        + " path="@ + d.port_path@;
    reveal_strlit("");
    if !(d.vendor_id == 0x33c3 && d.product_id == 0x6677) {
        assert(usb_row(d) =~= row);
    }
}

/// What keeps a device from being used stands below its row, behind four blanks, and nowhere
/// else.
pub proof fn scan_rows_note_the_status(d: DeviceInfo<Seq<char>>, status: Seq<char>)
    ensures
        scan_row(DeviceInfo { status: Some(status), ..d }) == scan_row(
            DeviceInfo { status: None, ..d },
        ) + seq!['\n', ' ', ' ', ' ', ' '] + status,
        scan_row(DeviceInfo { status: None, ..d }) == "  bus="@ + dec(d.bus_number as nat)
            + " address="@ + dec(d.address as nat) + " path="@ + d.port_path + " vid=0x"@
            + hex_wide(d.vendor_id as nat, 4) + " pid=0x"@ + hex_wide(d.product_id as nat, 4)
            + " speed="@ + d.speed + " status="@ + ready_text(d.ready),
{
    reveal_strlit("\n    ");
    assert("\n    "@ =~= seq!['\n', ' ', ' ', ' ', ' ']);
    let bare = scan_row(DeviceInfo { status: None, ..d });
    assert(bare + Seq::<char>::empty() =~= bare);
    assert(bare =~= "  bus="@ + dec(d.bus_number as nat) + " address="@ + dec(d.address as nat)
        + " path="@ + d.port_path + " vid=0x"@ + hex_wide(d.vendor_id as nat, 4) + " pid=0x"@
        + hex_wide(d.product_id as nat, 4) + " speed="@ + d.speed + " status="@ + ready_text(
        d.ready,
    ));
    assert(scan_row(DeviceInfo { status: Some(status), ..d }) =~= bare + ("\n    "@ + status));
    assert(bare + ("\n    "@ + status) =~= bare + seq!['\n', ' ', ' ', ' ', ' '] + status);
}

/// A row of the plan names the part that a component plays, the component and its partition, and
/// says whether it takes part.
pub proof fn plan_rows_tell_the_part(meta: FwcMeta, selected: bool)
    ensures
        ({
            let rest = ": "@ + meta.name@ + " partition="@ + meta.partition@ + (if selected {
                " selected=true"@
            } else {
                " selected=false"@
            });
            &&& plan_row(ComponentKind::Updater, meta, selected) == "  Updater"@ + rest
            &&& plan_row(ComponentKind::ImageInfo, meta, selected) == "  ImageInfo"@ + rest
            &&& plan_row(ComponentKind::Target, meta, selected) == "  Target"@ + rest
            &&& plan_row(ComponentKind::Other, meta, selected) == "  Other"@ + rest
        }),
{
    reveal_strlit("  ");
    reveal_strlit("Updater");
    reveal_strlit("ImageInfo");
    reveal_strlit("Target");
    reveal_strlit("Other");
    reveal_strlit("  Updater");
    reveal_strlit("  ImageInfo");
    reveal_strlit("  Target");
    reveal_strlit("  Other");
    reveal_strlit(" selected=");
    reveal_strlit("true");
    reveal_strlit("false");
    reveal_strlit(" selected=true");
    reveal_strlit(" selected=false");
    let rest = ": "@ + meta.name@ + " partition="@ + meta.partition@ + (if selected {
        " selected=true"@
    } else {
        " selected=false"@
    });
    assert("  "@ + "Updater"@ =~= "  Updater"@);
    assert("  "@ + "ImageInfo"@ =~= "  ImageInfo"@);
    assert("  "@ + "Target"@ =~= "  Target"@);
    assert("  "@ + "Other"@ =~= "  Other"@);
    assert(" selected="@ + "true"@ =~= " selected=true"@);
    assert(" selected="@ + "false"@ =~= " selected=false"@);
    lemma_plan_row(ComponentKind::Updater, meta, selected);
    lemma_plan_row(ComponentKind::ImageInfo, meta, selected);
    lemma_plan_row(ComponentKind::Target, meta, selected);
    lemma_plan_row(ComponentKind::Other, meta, selected);
}

proof fn lemma_plan_row(kind: ComponentKind, meta: FwcMeta, selected: bool)
    ensures
        plan_row(kind, meta, selected) == ("  "@ + kind_text(kind)) + (": "@ + meta.name@
            + " partition="@ + meta.partition@ + (" selected="@ + (if selected {
            "true"@
        } else {
            "false"@
        }))),
{
    assert(plan_row(kind, meta, selected) =~= ("  "@ + kind_text(kind)) + (": "@ + meta.name@
        + " partition="@ + meta.partition@ + (" selected="@ + (if selected {
        "true"@
    } else {
        "false"@
    }))));
}

} // verus!
