//! Transaction wrappers and the headers of upgrade commands and responses.
use vstd::array::array_as_slice;
use vstd::prelude::*;
use vstd::slice::slice_subrange;
use vstd::utf8::{decode_utf8, valid_utf8};

use crate::codec::{copy_bytes, from_le32, le32, le32_at, lemma_le32, to_le32, utf8_text, zeros};
use crate::text::{chars_of, drop_trailing, string_of, without_trailing};

verus! {

/// The signature of a command wrapper, "USBC".
pub const AIC_USB_SIGN_USBC: u32 = 0x43425355;

/// The signature of a status wrapper, "USBS".
pub const AIC_USB_SIGN_USBS: u32 = 0x53425355;

/// The magic number of a command header, "UPGC".
pub const AIC_UPG_SIGN_UPGC: u32 = 0x43475055;

/// The magic number of a response header, "UPGR".
pub const AIC_UPG_SIGN_UPGR: u32 = 0x52475055;

/// The transfer command for data to the device.
pub const TRANS_LAYER_CMD_WRITE: u8 = 0x01;

/// The transfer command for data from the device.
pub const TRANS_LAYER_CMD_READ: u8 = 0x02;

/// The length of a response header.
pub const RESP_MIN_HDR_LEN: usize = 16;

/// The length of a response header with its older tail.
pub const RESP_LEGACY_HDR_LEN: usize = 24;

/// The length of a command header.
pub const CMD_HDR_LEN: usize = 16;

/// The length of a command block wrapper.
pub const CBW_LEN: usize = 31;

/// The length of a command status wrapper.
pub const CSW_LEN: usize = 13;

/// The length of the hardware information that a device reports.
pub const HWINFO_LEN: usize = 104;

/// CBW - Command Block Wrapper (31 bytes)
pub struct AicCbw {
    bytes: [u8; CBW_LEN],
}

impl View for AicCbw {
    type V = Seq<u8>;

    closed spec fn view(&self) -> Seq<u8> {
        self.bytes@
    }
}

/// A command block wrapper: signature, tag and length of the data, then the direction flag, the
/// unit, the length of the command and the command itself, filled up with zeros.
pub open spec fn cbw_bytes(tag: u32, data_len: u32, flags: u8, command: u8) -> Seq<u8> {
    le32(AIC_USB_SIGN_USBC) + le32(tag) + le32(data_len) + seq![flags, 0, 1, command] + zeros(15)
}

/// Builds a command block wrapper.
fn build_cbw(tag: u32, data_len: u32, flags: u8, command: u8) -> (bytes: [u8; CBW_LEN])
    ensures
        bytes@ == cbw_bytes(tag, data_len, flags, command),
{
    let s = to_le32(AIC_USB_SIGN_USBC);
    let t = to_le32(tag);
    let n = to_le32(data_len);
    let bytes: [u8; CBW_LEN] = [
        s[0],
        s[1],
        s[2],
        s[3],
        t[0],
        t[1],
        t[2],
        t[3],
        n[0],
        n[1],
        n[2],
        n[3],
        flags,
        0,
        1,
        command,
        0,
        0,
        0,
        0,
        0,
        0,
        0,
        0,
        0,
        0,
        0,
        0,
        0,
        0,
        0,
    ];
    assert(bytes@ =~= cbw_bytes(tag, data_len, flags, command));
    bytes
}

impl AicCbw {
    /// The wrapper of a transfer of `data_len` bytes to the device.
    pub fn new_write(tag: u32, data_len: u32) -> (cbw: Self)
        ensures
            cbw@ == cbw_bytes(tag, data_len, 0, TRANS_LAYER_CMD_WRITE),
    {
        AicCbw { bytes: build_cbw(tag, data_len, 0, TRANS_LAYER_CMD_WRITE) }
    }

    /// The wrapper of a transfer of `data_len` bytes from the device.
    pub fn new_read(tag: u32, data_len: u32) -> (cbw: Self)
        ensures
            cbw@ == cbw_bytes(tag, data_len, 0x80, TRANS_LAYER_CMD_READ),
    {
        AicCbw { bytes: build_cbw(tag, data_len, 0x80, TRANS_LAYER_CMD_READ) }
    }

    /// The bytes as they go over the wire.
    pub fn to_bytes(&self) -> (b: &[u8])
        ensures
            b@ == self@,
            b@.len() == CBW_LEN,
    {
        array_as_slice(&self.bytes)
    }
}

/// What a device reads from a wrapper is what the host put into it.
pub proof fn cbw_fields(tag: u32, data_len: u32, flags: u8, command: u8)
    ensures
        cbw_bytes(tag, data_len, flags, command).len() == CBW_LEN,
        le32_at(cbw_bytes(tag, data_len, flags, command), 0) == AIC_USB_SIGN_USBC,
        le32_at(cbw_bytes(tag, data_len, flags, command), 4) == tag,
        le32_at(cbw_bytes(tag, data_len, flags, command), 8) == data_len,
        cbw_bytes(tag, data_len, flags, command)[12] == flags,
        cbw_bytes(tag, data_len, flags, command)[14] == 1,
        cbw_bytes(tag, data_len, flags, command)[15] == command,
{
    let b = cbw_bytes(tag, data_len, flags, command);
    assert(b.subrange(0, 4) =~= le32(AIC_USB_SIGN_USBC));
    assert(b.subrange(4, 8) =~= le32(tag));
    assert(b.subrange(8, 12) =~= le32(data_len));
    lemma_le32(AIC_USB_SIGN_USBC, b, 0);
    lemma_le32(tag, b, 4);
    lemma_le32(data_len, b, 8);
}

/// CSW - Command Status Wrapper (13 bytes)
#[derive(Clone, Debug)]
pub struct AicCsw {
    bytes: [u8; CSW_LEN],
}

impl View for AicCsw {
    type V = Seq<u8>;

    closed spec fn view(&self) -> Seq<u8> {
        self.bytes@
    }
}

/// Whether the bytes of a status wrapper report success.
pub open spec fn csw_ok(b: Seq<u8>) -> bool {
    le32_at(b, 0) == AIC_USB_SIGN_USBS && b[12] == 0
}

impl AicCsw {
    /// The wrapper at the front of `bytes`, if they are long enough to hold one.
    pub fn from_bytes(bytes: &[u8]) -> (r: Option<Self>)
        ensures
            match r {
                Some(csw) => bytes@.len() >= CSW_LEN && csw@ == bytes@.take(CSW_LEN as int),
                None => bytes@.len() < CSW_LEN,
            },
    {
        if bytes.len() < CSW_LEN {
            return None;
        }
        let b: [u8; CSW_LEN] = [
            bytes[0],
            bytes[1],
            bytes[2],
            bytes[3],
            bytes[4],
            bytes[5],
            bytes[6],
            bytes[7],
            bytes[8],
            bytes[9],
            bytes[10],
            bytes[11],
            bytes[12],
        ];
        assert(b@ =~= bytes@.take(CSW_LEN as int));
        Some(AicCsw { bytes: b })
    }

    /// The signature.
    pub fn signature(&self) -> (n: u32)
        ensures
            n == le32_at(self@, 0),
    {
        from_le32(array_as_slice(&self.bytes), 0)
    }

    /// The tag of the command that the status belongs to.
    pub fn tag_val(&self) -> (n: u32)
        ensures
            n == le32_at(self@, 4),
    {
        from_le32(array_as_slice(&self.bytes), 4)
    }

    /// How many bytes were not transferred.
    pub fn data_residue_val(&self) -> (n: u32)
        ensures
            n == le32_at(self@, 8),
    {
        from_le32(array_as_slice(&self.bytes), 8)
    }

    /// The status; zero is success.
    pub fn status_val(&self) -> (n: u8)
        ensures
            n == self@[12],
    {
        self.bytes[12]
    }

    /// Whether the signature is right and the status is success.
    pub fn is_ok(&self) -> (r: bool)
        ensures
            r == csw_ok(self@),
    {
        self.signature() == AIC_USB_SIGN_USBS && self.status_val() == 0
    }
}

/// UPG Command Header (16 bytes)
pub struct CmdHeader {
    pub bytes: [u8; CMD_HDR_LEN],
}

/// The checksum of a command header: the sum of its first three words.
pub open spec fn cmd_checksum(command: u8, data_length: u32) -> u32 {
    ((AIC_UPG_SIGN_UPGC + (65536 * command + 257) + data_length) % 0x1_0000_0000) as u32
}

/// A command header: magic, protocol, version, command, a reserved byte, the length of the data
/// and the checksum.
pub open spec fn cmd_bytes(command: u8, data_length: u32) -> Seq<u8> {
    le32(AIC_UPG_SIGN_UPGC) + seq![1u8, 1u8, command, 0u8] + le32(data_length) + le32(
        cmd_checksum(command, data_length),
    )
}

impl CmdHeader {
    /// The header of a command that `data_length` bytes follow.
    pub fn new(command: u8, data_length: u32) -> (hdr: Self)
        ensures
            hdr.bytes@ == cmd_bytes(command, data_length),
    {
        let word: u32 = 65536 * (command as u32) + 257;
        let sum: u32 = AIC_UPG_SIGN_UPGC.wrapping_add(word).wrapping_add(data_length);
        assert(sum == cmd_checksum(command, data_length));
        let m = to_le32(AIC_UPG_SIGN_UPGC);
        let n = to_le32(data_length);
        let c = to_le32(sum);
        let bytes: [u8; CMD_HDR_LEN] = [
            m[0],
            m[1],
            m[2],
            m[3],
            1,
            1,
            command,
            0,
            n[0],
            n[1],
            n[2],
            n[3],
            c[0],
            c[1],
            c[2],
            c[3],
        ];
        assert(bytes@ =~= cmd_bytes(command, data_length));
        CmdHeader { bytes }
    }

    /// The bytes as they go over the wire.
    pub fn to_bytes(&self) -> (b: &[u8])
        ensures
            b@ == self.bytes@,
            b@.len() == CMD_HDR_LEN,
    {
        array_as_slice(&self.bytes)
    }
}

/// What a device reads from a command header is what the host put into it, and the last word is
/// the sum of the three before it.
pub proof fn cmd_fields(command: u8, data_length: u32)
    ensures
        cmd_bytes(command, data_length).len() == CMD_HDR_LEN,
        le32_at(cmd_bytes(command, data_length), 0) == AIC_UPG_SIGN_UPGC,
        cmd_bytes(command, data_length)[6] == command,
        le32_at(cmd_bytes(command, data_length), 8) == data_length,
        le32_at(cmd_bytes(command, data_length), 12) == (le32_at(
            cmd_bytes(command, data_length),
            0,
        ) + le32_at(cmd_bytes(command, data_length), 4) + le32_at(
            cmd_bytes(command, data_length),
            8,
        )) % 0x1_0000_0000,
{
    let b = cmd_bytes(command, data_length);
    assert(b.subrange(0, 4) =~= le32(AIC_UPG_SIGN_UPGC));
    assert(b.subrange(8, 12) =~= le32(data_length));
    assert(b.subrange(12, 16) =~= le32(cmd_checksum(command, data_length)));
    lemma_le32(AIC_UPG_SIGN_UPGC, b, 0);
    lemma_le32(data_length, b, 8);
    lemma_le32(cmd_checksum(command, data_length), b, 12);
    assert(le32_at(b, 4) == 65536 * command + 257);
}

/// UPG Response Header.
///
/// Devices answer with 16 bytes; older ones pad the header to 24. Parsing goes by the stable
/// 16-byte prefix, and callers tolerate the padding.
#[derive(Clone, Debug)]
pub struct RespHeader {
    bytes: [u8; RESP_MIN_HDR_LEN],
}

impl View for RespHeader {
    type V = Seq<u8>;

    closed spec fn view(&self) -> Seq<u8> {
        self.bytes@
    }
}

/// Whether the bytes of a response header report success.
pub open spec fn resp_ok(b: Seq<u8>) -> bool {
    le32_at(b, 0) == AIC_UPG_SIGN_UPGR && b[7] == 0
}

impl RespHeader {
    /// The header at the front of `bytes`, if they are long enough to hold one.
    pub fn from_bytes(bytes: &[u8]) -> (r: Option<Self>)
        ensures
            match r {
                Some(resp) => bytes@.len() >= RESP_MIN_HDR_LEN && resp@ == bytes@.take(
                    RESP_MIN_HDR_LEN as int,
                ),
                None => bytes@.len() < RESP_MIN_HDR_LEN,
            },
    {
        if bytes.len() < RESP_MIN_HDR_LEN {
            return None;
        }
        let b: [u8; RESP_MIN_HDR_LEN] = [
            bytes[0],
            bytes[1],
            bytes[2],
            bytes[3],
            bytes[4],
            bytes[5],
            bytes[6],
            bytes[7],
            bytes[8],
            bytes[9],
            bytes[10],
            bytes[11],
            bytes[12],
            bytes[13],
            bytes[14],
            bytes[15],
        ];
        assert(b@ =~= bytes@.take(RESP_MIN_HDR_LEN as int));
        Some(RespHeader { bytes: b })
    }

    /// The magic number.
    pub fn magic(&self) -> (n: u32)
        ensures
            n == le32_at(self@, 0),
    {
        from_le32(array_as_slice(&self.bytes), 0)
    }

    /// The protocol number.
    pub fn protocol(&self) -> (n: u8)
        ensures
            n == self@[4],
    {
        self.bytes[4]
    }

    /// The protocol version.
    pub fn version(&self) -> (n: u8)
        ensures
            n == self@[5],
    {
        self.bytes[5]
    }

    /// The command that is answered.
    pub fn command(&self) -> (n: u8)
        ensures
            n == self@[6],
    {
        self.bytes[6]
    }

    /// The status; zero is success.
    pub fn status_val(&self) -> (n: u8)
        ensures
            n == self@[7],
    {
        self.bytes[7]
    }

    /// How many bytes follow.
    pub fn data_length_val(&self) -> (n: u32)
        ensures
            n == le32_at(self@, 8),
    {
        from_le32(array_as_slice(&self.bytes), 8)
    }

    /// The checksum.
    pub fn checksum_val(&self) -> (n: u32)
        ensures
            n == le32_at(self@, 12),
    {
        from_le32(array_as_slice(&self.bytes), 12)
    }

    /// Whether the signature is right and the status is success.
    pub fn is_ok(&self) -> (r: bool)
        ensures
            r == resp_ok(self@),
    {
        self.magic() == AIC_UPG_SIGN_UPGR && self.status_val() == 0
    }
}

/// HWINFO response data
pub struct HwInfo {
    bytes: Vec<u8>,
}

impl View for HwInfo {
    type V = Seq<u8>;

    closed spec fn view(&self) -> Seq<u8> {
        self.bytes@
    }
}

/// The magic of a hardware report: the text of its first eight bytes without trailing zeros,
/// or nothing where they are not UTF-8.
pub open spec fn hw_magic(b: Seq<u8>) -> Seq<char> {
    if valid_utf8(b.take(8)) {
        without_trailing(decode_utf8(b.take(8)), '\0')
    } else {
        Seq::empty()
    }
}

/// The four words of the chip's identity.
pub open spec fn hw_chip_id(b: Seq<u8>) -> Seq<u32> {
    seq![le32_at(b, 48), le32_at(b, 52), le32_at(b, 56), le32_at(b, 60)]
}

impl HwInfo {
    /// A report is at least 104 bytes long; what follows is kept.
    #[verifier::type_invariant]
    spec fn long_enough(self) -> bool {
        self.bytes@.len() >= HWINFO_LEN
    }

    /// The report that `bytes` hold, where there are enough of them.
    pub fn from_bytes(bytes: &[u8]) -> (r: Option<Self>)
        ensures
            match r {
                Some(info) => bytes@.len() >= HWINFO_LEN && info@ == bytes@,
                None => bytes@.len() < HWINFO_LEN,
            },
    {
        if bytes.len() < HWINFO_LEN {
            return None;
        }
        Some(HwInfo { bytes: copy_bytes(bytes) })
    }

    /// The magic word as text.
    pub fn magic_str(&self) -> (s: String)
        ensures
            s@ == hw_magic(self@),
    {
        proof {
            use_type_invariant(self);
        }
        let front = slice_subrange(self.bytes.as_slice(), 0, 8);
        assert(front@ =~= self@.take(8));
        match utf8_text(front) {
            Some(s) => string_of(drop_trailing(chars_of(s.as_str()).as_slice(), '\0')),
            None => String::new(),
        }
    }

    /// The four words of the chip number.
    pub fn chipid_val(&self) -> (ids: [u32; 4])
        ensures
            ids@ == hw_chip_id(self@),
    {
        proof {
            use_type_invariant(self);
        }
        let b = self.bytes.as_slice();
        let ids: [u32; 4] = [
            from_le32(b, 48),
            from_le32(b, 52),
            from_le32(b, 56),
            from_le32(b, 60),
        ];
        assert(ids@ =~= hw_chip_id(self@));
        ids
    }

    /// The mode that the device started in.
    pub fn init_mode(&self) -> (n: u32)
        ensures
            n == le32_at(self@, 8),
    {
        proof {
            use_type_invariant(self);
        }
        from_le32(self.bytes.as_slice(), 8)
    }

    /// The mode that the device is in.
    pub fn curr_mode(&self) -> (n: u32)
        ensures
            n == le32_at(self@, 12),
    {
        proof {
            use_type_invariant(self);
        }
        from_le32(self.bytes.as_slice(), 12)
    }

    /// The stage of booting that answers.
    pub fn boot_stage(&self) -> (n: u32)
        ensures
            n == le32_at(self@, 16),
    {
        proof {
            use_type_invariant(self);
        }
        from_le32(self.bytes.as_slice(), 16)
    }
}

/// A status wrapper reports success if and only if it begins with the letters USBS and its status
/// is zero; a response does if and only if it begins with the letters UPGR and its status is zero.
pub proof fn successes_are_signed(b: Seq<u8>)
    ensures
        b.len() >= 13 ==> (csw_ok(b) <==> b.take(4) == seq![0x55u8, 0x53, 0x42, 0x53] && b[12]
            == 0),
        b.len() >= 16 ==> (resp_ok(b) <==> b.take(4) == seq![0x55u8, 0x50, 0x47, 0x52] && b[7]
            == 0),
{
    if b.len() >= 4 {
        let f = b.take(4);
        assert(f[0] == b[0] && f[1] == b[1] && f[2] == b[2] && f[3] == b[3]);
        if f != seq![0x55u8, 0x53, 0x42, 0x53] {
            assert(!(f =~= seq![0x55u8, 0x53, 0x42, 0x53]));
        }
        if f != seq![0x55u8, 0x50, 0x47, 0x52] {
            assert(!(f =~= seq![0x55u8, 0x50, 0x47, 0x52]));
        }
    }
}

} // verus!
