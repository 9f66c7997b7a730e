use artinchip_flash::platform::Platform;
use artinchip_flash::protocol::cbw_csw::AicCsw;
use artinchip_flash::transport::CswPolicy;
use artinchip_flash::usb::bulk::{
    check_csw, data_phase_again, find_csw_signature, is_bulk_write_start_timeout, judge_status,
    read_command, scan_csw, unexpected_csw_error, write_command, BulkWrite, CswReader, DataReader,
    ReadFailure, ReadStep, WriteStep,
};
use artinchip_flash::usb::search::{
    drain_goes_on, format_usb_open_error, has_device_at, is_upgrade_device, lock_held_error,
    lock_owner_hint, port_path, scanned_device, OpenProblem, OpenSearch, ReconnectStep,
    ReconnectWait, UsbDeviceInfo,
};
use artinchip_flash::usb::txn::{BulkAction, BulkReadTxn, BulkWriteTxn};

fn csw(tag: u32, status: u8) -> Vec<u8> {
    let mut b = b"USBS".to_vec();
    b.extend_from_slice(&tag.to_le_bytes());
    b.extend_from_slice(&5u32.to_le_bytes());
    b.push(status);
    b
}

#[test]
fn wrappers_are_found_among_stale_bytes() {
    assert_eq!(find_csw_signature(b"xxUSBSy"), Some(2));
    assert_eq!(find_csw_signature(b"USB"), None);
    let mut buf = b"junk".to_vec();
    buf.extend(csw(1, 0));
    buf.extend_from_slice(b"more");
    buf.extend(csw(2, 0));
    buf.extend_from_slice(b"next");
    let found = scan_csw(&mut buf, 2).unwrap();
    assert_eq!(found.tag_val(), 2);
    assert_eq!(buf, b"next".to_vec());
    let mut buf = b"0123456US".to_vec();
    assert!(scan_csw(&mut buf, 2).is_none());
    assert_eq!(buf, b"6US".to_vec());
    let mut buf = b"abUSBS12".to_vec();
    assert!(scan_csw(&mut buf, 2).is_none());
    assert_eq!(buf, b"USBS12".to_vec());
}

#[test]
fn status_reader_waits_for_its_wrapper() {
    let r = CswReader::new(7, CswPolicy::Required, 1000);
    let mut buf: Vec<u8> = Vec::new();
    assert!(matches!(r.step(&mut buf, 1000), ReadStep::Read(500)));
    assert!(r.failed(&mut buf, ReadFailure::Timeout).is_none());
    assert!(matches!(r.step(&mut buf, 30900), ReadStep::Read(100)));
    match r.step(&mut buf, 31000) {
        ReadStep::Done(Err(e)) => assert_eq!(e, "No CSW for tag 7 before timeout"),
        _ => panic!("the time is over"),
    }
    buf.extend_from_slice(b"USBS1");
    match r.step(&mut buf, 31000) {
        ReadStep::Done(Err(e)) => {
            assert_eq!(e, "Timed out waiting for 13 buffered bytes (have 5)")
        }
        _ => panic!("the time is over"),
    }
    match r.failed(&mut buf, ReadFailure::Gone("Pipe".to_string())) {
        Some(Err(e)) => assert_eq!(e, "IN EP read failed: Pipe"),
        _ => panic!("the status is required"),
    }
    let mut buf = csw(7, 0);
    match r.step(&mut buf, 99999) {
        ReadStep::Done(Ok(Some(c))) => assert_eq!(c.tag_val(), 7),
        _ => panic!("the wrapper is there"),
    }
}

#[test]
fn missing_status_is_tolerated_where_allowed() {
    let r = CswReader::new(7, CswPolicy::AllowMissing, 0);
    let mut buf = b"ab".to_vec();
    assert!(matches!(r.step(&mut buf, 0), ReadStep::Read(500)));
    assert!(matches!(r.failed(&mut buf, ReadFailure::Timeout), Some(Ok(None))));
    let gone = ReadFailure::Gone("x".to_string());
    assert!(matches!(r.failed(&mut buf, gone), Some(Ok(None))));
    match r.failed(&mut buf, ReadFailure::Other("x".to_string())) {
        Some(Err(e)) => assert_eq!(e, "IN EP read failed: x"),
        _ => panic!("other failures count"),
    }
    assert_eq!(buf, b"ab".to_vec());
    assert!(matches!(r.step(&mut buf, 500), ReadStep::Done(Ok(None))));
    let mut buf = b"USBS".to_vec();
    assert!(r.failed(&mut buf, ReadFailure::Timeout).is_none());
    let other = ReadFailure::Other("x".to_string());
    assert!(matches!(r.failed(&mut buf, other), Some(Ok(None))));
    assert!(buf.is_empty());
    let mut buf = b"USBS".to_vec();
    assert!(matches!(r.step(&mut buf, 501), ReadStep::Done(Ok(None))));
    assert!(buf.is_empty());
}

#[test]
fn data_reader_takes_what_it_needs() {
    let r = DataReader::new(3, 0);
    let mut buf = b"ab".to_vec();
    assert!(matches!(r.step(&mut buf, 100), ReadStep::Read(29900)));
    assert_eq!(
        r.failed(&buf, ReadFailure::Timeout),
        "Bulk read timed out with 2/3 bytes buffered"
    );
    assert_eq!(r.failed(&buf, ReadFailure::Other("x".to_string())), "Bulk read failed: x");
    match r.step(&mut buf, 30000) {
        ReadStep::Done(Err(e)) => assert_eq!(e, "Bulk read timed out with 2/3 bytes buffered"),
        _ => panic!("the time is over"),
    }
    buf.extend_from_slice(b"cd");
    match r.step(&mut buf, 30000) {
        ReadStep::Done(Ok(d)) => assert_eq!(d, b"abc".to_vec()),
        _ => panic!("the data is there"),
    }
    assert_eq!(buf, b"d".to_vec());
    assert_eq!(
        unexpected_csw_error(&csw(9, 1)).unwrap(),
        "Bulk read timed out: device returned CSW instead of DATA (tag=9, status=1, residue=5, \
         buffered=13)"
    );
    assert!(unexpected_csw_error(b"USBS").is_none());
    assert!(unexpected_csw_error(&[0; 20]).is_none());
}

#[test]
fn writes_go_out_in_pieces() {
    let mut w = BulkWrite::new(100_000);
    assert!(matches!(w.begin(), WriteStep::Write(0, 65536)));
    assert!(matches!(w.step(Ok(65536)), WriteStep::Write(65536, 100_000)));
    assert!(matches!(w.step(Ok(4464)), WriteStep::Write(70_000, 100_000)));
    match w.step(Err("Pipe error".to_string())) {
        WriteStep::Done(Err(e)) => {
            assert_eq!(e, "Bulk write failed at 70000/100000: Pipe error")
        }
        _ => panic!("a failed write ends it"),
    }
    match w.step(Ok(0)) {
        WriteStep::Done(Err(e)) => assert_eq!(e, "Bulk write made no progress"),
        _ => panic!("no progress ends it"),
    }
    assert!(matches!(w.step(Ok(30_000)), WriteStep::Done(Ok(()))));
    assert!(matches!(BulkWrite::new(0).begin(), WriteStep::Done(Ok(()))));
}

#[test]
fn data_phase_is_tried_again_while_it_does_not_start() {
    let e = "Bulk write failed at 0/512: Operation timed out";
    assert!(is_bulk_write_start_timeout(e, 512));
    assert!(!is_bulk_write_start_timeout(e, 51));
    assert!(!is_bulk_write_start_timeout("Bulk write failed at 1/512: Operation timed out", 512));
    assert!(data_phase_again(e, 512, 4999, 5000));
    assert!(!data_phase_again(e, 512, 5000, 5000));
}

#[test]
fn statuses_are_judged() {
    let good = AicCsw::from_bytes(&csw(3, 0)).unwrap();
    assert!(check_csw(&good, 3).is_ok());
    assert_eq!(check_csw(&good, 4).unwrap_err(), "CSW tag mismatch: got 3, expected 4");
    let bad = AicCsw::from_bytes(&csw(3, 2)).unwrap();
    assert_eq!(check_csw(&bad, 3).unwrap_err(), "CSW failed: status=2 residue=5");
    assert_eq!(
        judge_status(Ok(None), 3, CswPolicy::Required).err().unwrap(),
        "CSW unexpectedly missing"
    );
    assert!(judge_status(Ok(None), 3, CswPolicy::AllowMissing).unwrap().is_none());
    assert_eq!(
        judge_status(Err("e".to_string()), 3, CswPolicy::AllowMissing).err().unwrap(),
        "e"
    );
}

#[test]
fn transactions_run_in_order() {
    let (mut t, cbw) = BulkWriteTxn::begin(0xc8, 16, CswPolicy::Required);
    assert_eq!(cbw, write_command(0xc8, 16));
    assert!(matches!(t.step(Ok(())), BulkAction::WriteData));
    assert!(matches!(t.step(Ok(())), BulkAction::ReadStatus));
    let got = AicCsw::from_bytes(&csw(0xc8, 0)).unwrap();
    assert!(t.finish(Ok(Some(got))).unwrap().is_some());
    let (mut t, _) = BulkWriteTxn::begin(1, 0, CswPolicy::Required);
    assert!(matches!(t.step(Ok(())), BulkAction::ReadStatus));
    match t.step(Err("x".to_string())) {
        BulkAction::Fail(e) => assert_eq!(e, "x"),
        _ => panic!("a failed write ends it"),
    }
    let (t, cbw) = BulkReadTxn::begin(5, 64, CswPolicy::Required);
    assert_eq!(cbw, read_command(5, 64));
    assert!(matches!(t.step(Ok(())), BulkAction::ReadData(64)));
    assert_eq!(
        t.finish(vec![1], Ok(None)).unwrap_err(),
        "CSW unexpectedly missing"
    );
    let got = AicCsw::from_bytes(&csw(5, 0)).unwrap();
    assert_eq!(t.finish(vec![1], Ok(Some(got))).unwrap(), vec![1]);
}

fn usb(bus: u8, address: u8, vid: u16, pid: u16) -> UsbDeviceInfo {
    UsbDeviceInfo {
        bus_number: bus,
        address,
        vendor_id: vid,
        product_id: pid,
        port_path: port_path(&[1, 12]),
        speed: "High".to_string(),
        class_code: 0,
        subclass_code: 0,
        protocol_code: 0,
    }
}

#[test]
fn devices_are_recognised() {
    assert!(is_upgrade_device(0x33c3, 0x6677));
    assert!(!is_upgrade_device(0x33c3, 0x6678));
    let d = usb(1, 2, 0x33c3, 0x6677);
    let info = scanned_device(&d).unwrap();
    assert_eq!((info.port_path.as_str(), info.ready), ("1-12", true));
    assert!(scanned_device(&usb(1, 2, 1, 2)).is_none());
    assert!(has_device_at(&vec![usb(3, 3, 1, 1), d.clone()], 1, 2));
    assert!(!has_device_at(&vec![d], 1, 3));
    assert_eq!(port_path(&[]), "");
}

#[test]
fn opening_reports_what_was_in_the_way() {
    let a = usb(1, 2, 0x33c3, 0x6677);
    let b = usb(1, 3, 0x33c3, 0x6677);
    let mut s = OpenSearch::new(None);
    assert_eq!(s.not_found(), "No ArtInChip device found (VID=0x33C3, PID=0x6677)");
    assert!(!s.consider(&usb(1, 1, 1, 1)));
    assert!(s.consider(&a));
    s.failed(OpenProblem::NotOpened, &a, "Access denied").unwrap();
    assert_eq!(
        s.not_found(),
        "Found ArtInChip device at bus 1 address 2, but failed to open it: Access denied"
    );
    assert!(s.consider(&b));
    s.failed(OpenProblem::NotConfigured, &b, "x").unwrap();
    assert_eq!(
        s.not_found(),
        "Found ArtInChip device at bus 1 address 3, but macOS has not configured it for USB \
         transfers: x (2 matching devices were detected)"
    );
    let mut s = OpenSearch::new(Some((1, 3)));
    assert!(!s.consider(&a));
    assert!(s.consider(&b));
    assert!(s.failed(OpenProblem::NotOpened, &b, "y").is_err());
    assert_eq!(
        s.not_found(),
        "No ArtInChip device found at bus 1 address 3 (VID=0x33C3, PID=0x6677)"
    );
    assert_eq!(format_usb_open_error(Platform::Linux, true, "Other error", &None), "Other error");
    assert_eq!(
        format_usb_open_error(Platform::MacOs, true, "Other error", &Some("s".to_string())),
        "Other error (macOS IOKit refused USBDeviceOpen; IOKit state: s; close other \
         artinchip-flash/AiBurn instances, then unplug and reconnect the board)"
    );
    assert_eq!(format_usb_open_error(Platform::MacOs, false, "Access", &None), "Access");
}

#[test]
fn reconnect_waits_for_the_old_device_to_go() {
    let mut w = ReconnectWait::new(1000, 0);
    assert!(matches!(w.tick(0), ReconnectStep::Look));
    assert!(matches!(w.looked(Ok(true)), ReconnectStep::Sleep));
    assert!(matches!(w.looked(Err("bus".to_string())), ReconnectStep::Sleep));
    match w.tick(1000) {
        ReconnectStep::Expired(e) => {
            assert_eq!(e, "Timed out waiting for device reconnect: bus")
        }
        _ => panic!("the time is over"),
    }
    assert!(matches!(w.looked(Ok(false)), ReconnectStep::Reopen));
    assert!(matches!(w.tick(100), ReconnectStep::Reopen));
    assert!(matches!(w.reopened(Err("no".to_string())), ReconnectStep::Sleep));
    assert!(matches!(w.reopened(Ok(())), ReconnectStep::Back));
}

#[test]
fn draining_is_bounded() {
    assert!(drain_goes_on(0, 10, 100));
    assert!(!drain_goes_on(0, 0, 100));
    assert!(!drain_goes_on(90, 10, 100));
    assert!(!drain_goes_on(usize::MAX, 10, usize::MAX));
}

#[test]
fn lock_holder_is_named() {
    assert_eq!(lock_owner_hint(&None), ".");
    assert_eq!(lock_owner_hint(&Some(" \n".to_string())), ".");
    assert_eq!(
        lock_held_error(&Some("pid=5\n".to_string()), "/l"),
        "Another artinchip-flash instance is using the ArtInChip USB device (pid=5). Close the \
         other CLI/GUI instance and retry. Lock: /l"
    );
}
