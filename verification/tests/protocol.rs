use artinchip_flash::protocol::cbw_csw::{
    AicCbw, AicCsw, CmdHeader, HwInfo, RespHeader, AIC_UPG_SIGN_UPGR, AIC_USB_SIGN_USBS,
    RESP_MIN_HDR_LEN, TRANS_LAYER_CMD_READ, TRANS_LAYER_CMD_WRITE,
};

#[test]
fn parses_csw_status_and_tag() {
    let mut bytes = [0u8; 13];
    bytes[0..4].copy_from_slice(&AIC_USB_SIGN_USBS.to_le_bytes());
    bytes[4..8].copy_from_slice(&7u32.to_le_bytes());
    bytes[12] = 0;

    let csw = AicCsw::from_bytes(&bytes).unwrap();
    assert!(csw.is_ok());
    assert_eq!(csw.tag_val(), 7);
    assert_eq!(csw.status_val(), 0);
}

#[test]
fn parses_minimal_upg_response_header() {
    let mut bytes = [0u8; RESP_MIN_HDR_LEN];
    bytes[0..4].copy_from_slice(&AIC_UPG_SIGN_UPGR.to_le_bytes());
    bytes[4] = 1;
    bytes[5] = 1;
    bytes[6] = 0x16;
    bytes[7] = 0;
    bytes[8..12].copy_from_slice(&64u32.to_le_bytes());

    let resp = RespHeader::from_bytes(&bytes).unwrap();
    assert!(resp.is_ok());
    assert_eq!(resp.command(), 0x16);
    assert_eq!(resp.data_length_val(), 64);
}

#[test]
fn builds_official_compatible_upg_command_header() {
    let hdr = CmdHeader::new(0x12, 30480);
    assert_eq!(hdr.to_bytes().len(), 16);
    assert_eq!(
        hdr.to_bytes(),
        [
            0x55, 0x50, 0x47, 0x43, 0x01, 0x01, 0x12, 0x00, 0x10, 0x77, 0x00, 0x00, 0x66, 0xc8,
            0x59, 0x43,
        ]
    );
}

#[test]
fn builds_official_compatible_cbw_command_length() {
    let write = AicCbw::new_write(0xc8, 16);
    assert_eq!(write.to_bytes()[14], 1);
    assert_eq!(write.to_bytes()[15], TRANS_LAYER_CMD_WRITE);

    let read = AicCbw::new_read(0xc9, 16);
    assert_eq!(read.to_bytes()[12], 0x80);
    assert_eq!(read.to_bytes()[14], 1);
    assert_eq!(read.to_bytes()[15], TRANS_LAYER_CMD_READ);
}

#[test]
fn cbw_holds_tag_and_length() {
    let cbw = AicCbw::new_write(0x0102_0304, 0x0a0b_0c0d);
    let mut expected = vec![
        0x55, 0x53, 0x42, 0x43, 4, 3, 2, 1, 0x0d, 0x0c, 0x0b, 0x0a, 0, 0, 1, 1,
    ];
    expected.resize(31, 0);
    assert_eq!(cbw.to_bytes(), &expected[..]);
}

#[test]
fn short_packets_are_refused() {
    assert!(AicCsw::from_bytes(&[0; 12]).is_none());
    assert!(RespHeader::from_bytes(&[0; 15]).is_none());
    assert!(HwInfo::from_bytes(&[0; 103]).is_none());
}

#[test]
fn csw_residue_and_failure_are_read() {
    let mut bytes = [0u8; 13];
    bytes[0..4].copy_from_slice(&AIC_USB_SIGN_USBS.to_le_bytes());
    bytes[8..12].copy_from_slice(&300u32.to_le_bytes());
    bytes[12] = 1;
    let csw = AicCsw::from_bytes(&bytes).unwrap();
    assert_eq!(csw.data_residue_val(), 300);
    assert!(!csw.is_ok());
    bytes[0] = 0;
    bytes[12] = 0;
    assert!(!AicCsw::from_bytes(&bytes).unwrap().is_ok());
}

#[test]
fn hardware_report_fields() {
    let mut bytes = vec![0u8; 110];
    bytes[0..5].copy_from_slice(b"HWINF");
    bytes[8..12].copy_from_slice(&2u32.to_le_bytes());
    bytes[12..16].copy_from_slice(&3u32.to_le_bytes());
    bytes[16..20].copy_from_slice(&4u32.to_le_bytes());
    for i in 0..4u32 {
        let off = 48 + 4 * i as usize;
        bytes[off..off + 4].copy_from_slice(&(0x1111_0000 + i).to_le_bytes());
    }
    let info = HwInfo::from_bytes(&bytes).unwrap();
    assert_eq!(info.magic_str(), "HWINF");
    assert_eq!(info.init_mode(), 2);
    assert_eq!(info.curr_mode(), 3);
    assert_eq!(info.boot_stage(), 4);
    assert_eq!(
        info.chipid_val(),
        [0x1111_0000, 0x1111_0001, 0x1111_0002, 0x1111_0003]
    );
    bytes[0] = 0xff;
    assert_eq!(HwInfo::from_bytes(&bytes).unwrap().magic_str(), "");
}
