use artinchip_flash::uart::console::push_console_char;
use artinchip_flash::uart::frame::{
    crc16_ccitt, frame_slices, frame_status, pack_frame, FrameStatus, LONG_FRAME_DATA, SOH, STX,
};

#[test]
fn crc16_matches_xmodem_reference() {
    assert_eq!(crc16_ccitt(b"123456789"), 0x31C3);
    assert_eq!(crc16_ccitt(b""), 0x0000);
}

#[test]
fn console_helper_drops_probe_echo_run() {
    let mut line = String::new();
    push_console_char(&mut line, b'C');
    push_console_char(&mut line, b'C');
    assert_eq!(line, "CC");
    push_console_char(&mut line, b'h');
    assert_eq!(line, "h");
    push_console_char(&mut line, b'i');
    assert_eq!(line, "hi");
}

#[test]
fn packs_short_frame_with_big_endian_crc() {
    let frame = pack_frame(3, &[0xAA, 0xBB]);
    let crc = crc16_ccitt(&[0xAA, 0xBB]);
    assert_eq!(frame[0], SOH);
    assert_eq!(frame[1], 3);
    assert_eq!(frame[2], 255 - 3);
    assert_eq!(frame[3], 2);
    assert_eq!(&frame[4..6], &[0xAA, 0xBB]);
    assert_eq!(frame[6], (crc >> 8) as u8);
    assert_eq!(frame[7], (crc & 0xFF) as u8);
}

#[test]
fn packs_long_frame_for_full_block() {
    let data = vec![0x5A; LONG_FRAME_DATA];
    let frame = pack_frame(9, &data);
    assert_eq!(frame[0], STX);
    assert_eq!(frame[1], 9);
    assert_eq!(frame[2], 255 - 9);
    assert_eq!(frame.len(), LONG_FRAME_DATA + 5);
    assert_eq!(&frame[3..3 + LONG_FRAME_DATA], &data[..]);
}

#[test]
fn frame_slices_use_long_frames_then_short_ones() {
    let data = vec![0u8; 2000];
    let slices = frame_slices(&data);
    assert_eq!(
        slices.iter().map(|s| s.len()).collect::<Vec<_>>(),
        vec![1024, 176, 176, 176, 176, 176, 96]
    );
    assert_eq!(slices.iter().map(|s| s.len()).sum::<usize>(), 2000);

    let exact = vec![0u8; LONG_FRAME_DATA];
    assert_eq!(
        frame_slices(&exact)
            .iter()
            .map(|s| s.len())
            .collect::<Vec<_>>(),
        vec![1024]
    );

    let tiny = [0u8; 1];
    assert_eq!(frame_slices(&tiny).len(), 1);
    assert!(frame_slices(&[]).is_empty());
}

#[test]
fn frames_unpack_to_what_was_packed() {
    for len in [0usize, 1, 175, 176, 1024] {
        let data: Vec<u8> = (0..len).map(|i| (i * 7) as u8).collect();
        let frame = pack_frame(200, &data);
        for n in 1..frame.len() {
            assert!(matches!(frame_status(&frame[..n]), FrameStatus::More));
        }
        match frame_status(&frame) {
            FrameStatus::Good(got) => assert_eq!(got, data),
            _ => panic!("frame of {} bytes was not accepted", len),
        }
    }
}

#[test]
fn damaged_frames_are_refused() {
    let good = pack_frame(1, &[1, 2, 3]);
    let mut bad_crc = good.clone();
    let last = bad_crc.len() - 1;
    bad_crc[last] ^= 1;
    assert!(matches!(frame_status(&bad_crc), FrameStatus::Bad));
    let mut bad_blk = good.clone();
    bad_blk[2] ^= 1;
    assert!(matches!(frame_status(&bad_blk), FrameStatus::Bad));
    let mut too_long = good;
    too_long[3] = 177;
    assert!(matches!(frame_status(&too_long), FrameStatus::Bad));
}

#[test]
fn echo_run_is_bounded_and_control_bytes_are_dropped() {
    let mut line = String::new();
    for _ in 0..100 {
        push_console_char(&mut line, b'C');
    }
    assert_eq!(line.len(), 32);
    push_console_char(&mut line, 0x07);
    assert_eq!(line, "");
    push_console_char(&mut line, b'o');
    push_console_char(&mut line, b'C');
    push_console_char(&mut line, b' ');
    push_console_char(&mut line, 0x80);
    assert_eq!(line, "oC ");
}
