//! A device and its single commands.
use vstd::prelude::*;

use crate::codec::{from_le32, le32_at, push_bytes, push_zeros, to_le32, utf8_lossy};
use crate::device::talk::{
    announced, block_size_talk, cfg_bytes, cfg_talk, chunk_talk, end_talk, header_talk,
    hwinfo_talk, indented, info_lines, info_talk, log_talk, media_talk, meta_talk, number_talk,
    order_talk, query_talk, response_talk, shell_talk, show_talk, silent, sized_order_talk,
    speed_talk, write_talk, Profile, DRAIN_BYTES, DRAIN_MILLIS, HEADER_RECONNECT_MILLIS,
};
use crate::number::{push_dec, push_hex};
use crate::protocol::cbw_csw::{CmdHeader, HwInfo, RespHeader, HWINFO_LEN, RESP_MIN_HDR_LEN};
use crate::protocol::commands::FwcMeta;
use crate::text::{
    chars_of, drop_trailing, join, str_contains, string_of, string_texts, without_trailing,
};
use crate::transport::{
    done, extends, paused, read_outcome, reconnected, CswPolicy, Exchange, Link, UpgTransport,
};

verus! {

/// Transport independent UPG device.
///
/// Holds the command/burn protocol; the transport only moves CBW/CSW transactions between host
/// and device.
pub struct UpgDevice<T: UpgTransport> {
    transport: T,
    profile: Profile,
}

/// A device on the USB bus is one whose command headers are repeated after a reconnect.
pub type AicDevice<T> = UpgDevice<T>;

/// The outcome of asking for a text.
pub open spec fn text_outcome(r: Result<String, String>) -> Result<Seq<char>, Seq<char>> {
    match r {
        Ok(s) => Ok(s@),
        Err(e) => Err(e@),
    }
}

/// The outcome of asking for a number.
pub open spec fn number_outcome(r: Result<u32, String>) -> Result<u32, Seq<char>> {
    match r {
        Ok(n) => Ok(n),
        Err(e) => Err(e@),
    }
}

/// The outcome of asking for the hardware report.
pub open spec fn hwinfo_outcome(r: Result<HwInfo, String>) -> Result<Seq<u8>, Seq<char>> {
    match r {
        Ok(info) => Ok(info@),
        Err(e) => Err(e@),
    }
}

impl<T: UpgTransport> UpgDevice<T> {
    /// The requests made so far, with their outcomes.
    pub open spec fn history(&self) -> Seq<Exchange> {
        self.carrier().history()
    }

    /// The length of the history.
    pub open spec fn at(&self) -> int {
        self.history().len() as int
    }

    /// The command numbers that the device goes by, and whether headers are repeated.
    pub closed spec fn profile(&self) -> Profile {
        self.profile
    }

    /// What the transport says of itself.
    pub open spec fn link(&self) -> Link {
        self.carrier().link()
    }

    /// The transport itself.
    pub closed spec fn carrier(&self) -> T {
        self.transport
    }

    /// Whether this is `before` after some more requests.
    pub open spec fn follows(&self, before: &Self) -> bool {
        &&& self.profile() == before.profile()
        &&& self.link() == before.link()
        &&& extends(self.history(), before.history())
    }

    /// A device behind `transport`.
    pub fn new(transport: T, profile: Profile) -> (device: Self)
        ensures
            device.history() == transport.history(),
            device.link() == transport.link(),
            device.profile() == profile,
            device.carrier() == transport,
    {
        UpgDevice { transport, profile }
    }

    /// The transport, for dealings that are not commands.
    pub fn transport_mut(&mut self) -> (transport: &mut T)
        ensures
            *transport == old(self).carrier(),
            final(self).carrier() == *final(transport),
            final(self).profile() == old(self).profile(),
    {
        &mut self.transport
    }

    /// Gives the transport back.
    pub fn into_transport(self) -> (transport: T)
        ensures
            transport == self.carrier(),
    {
        self.transport
    }

    /// The name of the transport.
    pub fn transport_name(&self) -> (s: &'static str)
        ensures
            s@ == self.link().name,
    {
        self.transport.transport_name()
    }

    /// The most that one write transaction may carry.
    pub(crate) fn write_limit(&self, block_size: u32) -> (n: usize)
        ensures
            n == (self.link().write_limit)(block_size),
    {
        self.transport.max_write_chunk(block_size)
    }

    /// Waits without talking to the device.
    pub(crate) fn pause(&mut self, millis: u64)
        ensures
            final(self).follows(old(self)),
            forall|h: Seq<Exchange>|
                extends(h, final(self).history()) ==> #[trigger] paused(
                    h,
                    old(self).at(),
                    millis,
                ) == Some(final(self).at()),
    {
        self.transport.pause(millis);
    }

    /// Waits until the device is reachable again.
    pub(crate) fn reconnect(&mut self, timeout: u64) -> (r: Result<(), String>)
        ensures
            final(self).follows(old(self)),
            forall|h: Seq<Exchange>|
                extends(h, final(self).history()) ==> #[trigger] reconnected(
                    h,
                    old(self).at(),
                    timeout,
                ) == Some((final(self).at(), done(r))),
    {
        self.transport.reconnect(timeout)
    }

    // ── High-level protocol helpers ────────────────────────────────────
    /// One write of which only success counts.
    fn write(&mut self, payload: &[u8], policy: CswPolicy) -> (r: Result<(), String>)
        ensures
            final(self).follows(old(self)),
            forall|h: Seq<Exchange>|
                extends(h, final(self).history()) ==> #[trigger] write_talk(
                    h,
                    old(self).at(),
                    payload@,
                    policy,
                ) == Some((final(self).at(), done(r))),
    {
        match self.transport.write_txn(payload, policy) {
            Ok(_) => Ok(()),
            Err(e) => Err(e),
        }
    }

    /// Send only a command header (no payload, no response read).
    /// Used as first step in multi-transaction commands.
    pub(crate) fn send_hdr(&mut self, cmd: u8, data_len: u32) -> (r: Result<(), String>)
        ensures
            final(self).follows(old(self)),
            forall|h: Seq<Exchange>|
                extends(h, final(self).history()) ==> #[trigger] header_talk(
                    old(self).profile(),
                    h,
                    old(self).at(),
                    cmd,
                    data_len,
                ) == Some((final(self).at(), done(r))),
    {
        let hdr = CmdHeader::new(cmd, data_len);
        match self.write(hdr.to_bytes(), CswPolicy::Required) {
            Ok(()) => Ok(()),
            Err(e) => {
                let again = str_contains(e.as_str(), "Bulk write failed at 0/31") || str_contains(
                    e.as_str(),
                    "Pipe",
                );
                if self.profile.repeat_headers && again {
                    match self.transport.reconnect(HEADER_RECONNECT_MILLIS) {
                        Ok(()) => self.write(hdr.to_bytes(), CswPolicy::Required),
                        Err(why) => Err(why),
                    }
                } else {
                    Err(e)
                }
            },
        }
    }

    /// A command with data, all of whose answers must come.
    fn cmd_hdr_data_resp(&mut self, cmd: u8, payload: &[u8], resp_extra: u32) -> (r: Result<
        Vec<u8>,
        String,
    >)
        ensures
            final(self).follows(old(self)),
            forall|h: Seq<Exchange>|
                extends(h, final(self).history()) ==> #[trigger] order_talk(
                    old(self).profile(),
                    h,
                    old(self).at(),
                    cmd,
                    payload@,
                    resp_extra,
                    CswPolicy::Required,
                ) == Some((final(self).at(), read_outcome(r))),
    {
        self.cmd_hdr_data_resp_policy(cmd, payload, resp_extra, CswPolicy::Required)
    }

    /// A command with data.
    fn cmd_hdr_data_resp_policy(
        &mut self,
        cmd: u8,
        payload: &[u8],
        resp_extra: u32,
        policy: CswPolicy,
    ) -> (r: Result<Vec<u8>, String>)
        ensures
            final(self).follows(old(self)),
            forall|h: Seq<Exchange>|
                extends(h, final(self).history()) ==> #[trigger] order_talk(
                    old(self).profile(),
                    h,
                    old(self).at(),
                    cmd,
                    payload@,
                    resp_extra,
                    policy,
                ) == Some((final(self).at(), read_outcome(r))),
    {
        match self.send_hdr(cmd, payload.len() as u32) {
            Ok(()) => {},
            Err(e) => {
                return Err(e);
            },
        }
        let csw = match self.transport.write_txn(payload, policy) {
            Ok(csw) => csw,
            Err(e) => {
                return Err(e);
            },
        };
        if policy == CswPolicy::AllowMissing && csw.is_none() {
            return Ok(Vec::new());
        }
        self.read_upg_response(cmd, resp_extra, policy)
    }

    /// A command whose data is preceded by its length.
    fn cmd_hdr_len_prefixed_data_resp(&mut self, cmd: u8, payload: &[u8], resp_extra: u32) -> (r:
        Result<Vec<u8>, String>)
        requires
            payload@.len() + 4 <= usize::MAX,
        ensures
            final(self).follows(old(self)),
            forall|h: Seq<Exchange>|
                extends(h, final(self).history()) ==> #[trigger] sized_order_talk(
                    old(self).profile(),
                    h,
                    old(self).at(),
                    cmd,
                    payload@,
                    resp_extra,
                ) == Some((final(self).at(), read_outcome(r))),
    {
        match self.send_hdr(cmd, (payload.len() + 4) as u32) {
            Ok(()) => {},
            Err(e) => {
                return Err(e);
            },
        }
        match self.write(to_le32(payload.len() as u32).as_slice(), CswPolicy::Required) {
            Ok(()) => {},
            Err(e) => {
                return Err(e);
            },
        }
        match self.write(payload, CswPolicy::Required) {
            Ok(()) => {},
            Err(e) => {
                return Err(e);
            },
        }
        self.read_upg_response(cmd, resp_extra, CswPolicy::Required)
    }

    /// A command without data.
    fn cmd_hdr_resp(&mut self, cmd: u8, resp_extra: u32) -> (r: Result<Vec<u8>, String>)
        ensures
            final(self).follows(old(self)),
            forall|h: Seq<Exchange>|
                extends(h, final(self).history()) ==> #[trigger] query_talk(
                    old(self).profile(),
                    h,
                    old(self).at(),
                    cmd,
                    resp_extra,
                ) == Some((final(self).at(), read_outcome(r))),
    {
        match self.send_hdr(cmd, 0) {
            Ok(()) => {},
            Err(e) => {
                return Err(e);
            },
        }
        self.read_upg_response(cmd, resp_extra, CswPolicy::Required)
    }

    /// Reads the response to a command.
    ///
    /// The 16-byte RESP packet is read first, the optional data packet separately: reading both
    /// in one transaction makes some bootloaders answer with a failed CSW only.
    pub(crate) fn read_upg_response(
        &mut self,
        cmd: u8,
        expected_payload_len: u32,
        policy: CswPolicy,
    ) -> (r: Result<Vec<u8>, String>)
        ensures
            final(self).follows(old(self)),
            forall|h: Seq<Exchange>|
                extends(h, final(self).history()) ==> #[trigger] response_talk(
                    h,
                    old(self).at(),
                    cmd,
                    expected_payload_len,
                    policy,
                ) == Some((final(self).at(), read_outcome(r))),
    {
        let header_data = match self.transport.read_txn(RESP_MIN_HDR_LEN as u32, policy) {
            Ok(data) => data,
            Err(e) => {
                if policy == CswPolicy::AllowMissing {
                    return Ok(Vec::new());
                }
                return Err(e);
            },
        };
        let declared: u32 = match parse_resp_header(cmd, header_data.as_slice()) {
            Ok(header) => header.data_length_val(),
            Err(e) => {
                return Err(e);
            },
        };
        let len: u32 = if declared > 0 {
            declared
        } else {
            expected_payload_len
        };
        if len == 0 {
            return Ok(Vec::new());
        }
        match self.transport.read_txn(len, policy) {
            Ok(data) => Ok(data),
            Err(e) => {
                if policy == CswPolicy::AllowMissing {
                    Ok(Vec::new())
                } else {
                    Err(e)
                }
            },
        }
    }

    // ── Public API ─────────────────────────────────────────────────────
    /// The hardware report of the device.
    pub fn get_hwinfo(&mut self) -> (r: Result<HwInfo, String>)
        ensures
            final(self).follows(old(self)),
            forall|h: Seq<Exchange>|
                extends(h, final(self).history()) ==> #[trigger] hwinfo_talk(
                    old(self).profile(),
                    h,
                    old(self).at(),
                ) == Some((final(self).at(), hwinfo_outcome(r))),
    {
        let payload = match self.cmd_hdr_resp(self.profile.codes.get_hwinfo, HWINFO_LEN as u32) {
            Ok(payload) => payload,
            Err(e) => {
                return Err(e);
            },
        };
        match HwInfo::from_bytes(payload.as_slice()) {
            Some(info) => Ok(info),
            None => {
                let mut e = "Failed to parse HWINFO (".to_string();
                push_dec(&mut e, payload.len() as u64);
                e.append(" payload bytes)");
                Err(e)
            },
        }
    }

    /// The report on the device as text.
    pub fn device_info_text(&mut self) -> (r: Result<String, String>)
        ensures
            final(self).follows(old(self)),
            forall|h: Seq<Exchange>|
                extends(h, final(self).history()) ==> #[trigger] info_talk(
                    old(self).profile(),
                    h,
                    old(self).at(),
                ) == Some((final(self).at(), text_outcome(r))),
    {
        let hwinfo = match self.get_hwinfo() {
            Ok(info) => info,
            Err(e) => {
                return Err(e);
            },
        };
        let media = match self.get_storage_media() {
            Ok(name) => Some(name),
            Err(_) => None,
        };
        Ok(join(&hwinfo_lines(&hwinfo, &media), "\n"))
    }

    /// Chooses the upgrade mode.
    pub fn set_upg_cfg(&mut self, mode: u8) -> (r: Result<(), String>)
        ensures
            final(self).follows(old(self)),
            forall|h: Seq<Exchange>|
                extends(h, final(self).history()) ==> #[trigger] cfg_talk(
                    old(self).profile(),
                    h,
                    old(self).at(),
                    mode,
                ) == Some((final(self).at(), done(r))),
    {
        let cfg = upg_cfg(mode);
        match self.cmd_hdr_len_prefixed_data_resp(
            self.profile.codes.set_upg_cfg,
            cfg.as_slice(),
            0,
        ) {
            Ok(_) => Ok(()),
            Err(e) => Err(e),
        }
    }

    /// Chooses the upgrade mode that rewrites the whole medium.
    pub(crate) fn set_full_disk_mode(&mut self) -> (r: Result<(), String>)
        ensures
            final(self).follows(old(self)),
            forall|h: Seq<Exchange>|
                extends(h, final(self).history()) ==> #[trigger] cfg_talk(
                    old(self).profile(),
                    h,
                    old(self).at(),
                    old(self).profile().codes.full_disk_upgrade,
                ) == Some((final(self).at(), done(r))),
    {
        self.set_upg_cfg(self.profile.codes.full_disk_upgrade)
    }

    /// Announces a firmware component.
    pub fn set_fwc_meta(&mut self, meta: &FwcMeta) -> (r: Result<(), String>)
        ensures
            final(self).follows(old(self)),
            forall|h: Seq<Exchange>|
                extends(h, final(self).history()) ==> #[trigger] meta_talk(
                    old(self).profile(),
                    h,
                    old(self).at(),
                    meta.record@,
                ) == Some((final(self).at(), done(r))),
    {
        match self.cmd_hdr_data_resp(self.profile.codes.set_fwc_meta, meta.to_bytes(), 0) {
            Ok(_) => Ok(()),
            Err(e) => Err(e),
        }
    }

    /// A number of four bytes, asked for by `cmd`.
    fn get_number(&mut self, cmd: u8, what: &str) -> (r: Result<u32, String>)
        ensures
            final(self).follows(old(self)),
            forall|h: Seq<Exchange>|
                extends(h, final(self).history()) ==> #[trigger] number_talk(
                    old(self).profile(),
                    h,
                    old(self).at(),
                    cmd,
                    what@,
                ) == Some((final(self).at(), number_outcome(r))),
    {
        let payload = match self.cmd_hdr_resp(cmd, 4) {
            Ok(payload) => payload,
            Err(e) => {
                return Err(e);
            },
        };
        if payload.len() < 4 {
            let mut e = what.to_string();
            e.append(" response too short: ");
            push_dec(&mut e, payload.len() as u64);
            e.append(" bytes");
            return Err(e);
        }
        Ok(from_le32(payload.as_slice(), 0))
    }

    /// The block size of the medium.
    pub fn get_block_size(&mut self) -> (r: Result<u32, String>)
        ensures
            final(self).follows(old(self)),
            forall|h: Seq<Exchange>|
                extends(h, final(self).history()) ==> #[trigger] block_size_talk(
                    old(self).profile(),
                    h,
                    old(self).at(),
                ) == Some((final(self).at(), number_outcome(r))),
    {
        self.get_number(self.profile.codes.get_block_size, "Block size")
    }

    /// Announces the data of a component.
    pub(crate) fn start_fwc_data(&mut self, total_len: u32) -> (r: Result<(), String>)
        ensures
            final(self).follows(old(self)),
            forall|h: Seq<Exchange>|
                extends(h, final(self).history()) ==> #[trigger] header_talk(
                    old(self).profile(),
                    h,
                    old(self).at(),
                    old(self).profile().codes.send_fwc_data,
                    total_len,
                ) == Some((final(self).at(), done(r))),
    {
        self.send_hdr(self.profile.codes.send_fwc_data, total_len)
    }

    /// Sends one piece of a component's data.
    pub(crate) fn write_fwc_data_chunk(&mut self, chunk: &[u8], policy: CswPolicy) -> (r: Result<
        (),
        String,
    >)
        ensures
            final(self).follows(old(self)),
            forall|h: Seq<Exchange>|
                extends(h, final(self).history()) ==> #[trigger] chunk_talk(
                    h,
                    old(self).at(),
                    chunk@,
                    policy,
                ) == Some((final(self).at(), done(r))),
    {
        match self.transport.write_txn(chunk, policy) {
            Ok(csw) => {
                if policy == CswPolicy::AllowMissing && csw.is_none() {
                    let _ = self.transport.drain_rx(DRAIN_MILLIS, DRAIN_BYTES);
                }
                Ok(())
            },
            Err(e) => Err(e),
        }
    }

    /// Reads the response to a component's data.
    pub(crate) fn finish_fwc_data(&mut self, policy: CswPolicy) -> (r: Result<(), String>)
        ensures
            final(self).follows(old(self)),
            forall|h: Seq<Exchange>|
                extends(h, final(self).history()) ==> silent(
                    #[trigger] response_talk(
                        h,
                        old(self).at(),
                        old(self).profile().codes.send_fwc_data,
                        0,
                        policy,
                    ),
                ) == Some((final(self).at(), done(r))),
    {
        match self.read_upg_response(self.profile.codes.send_fwc_data, 0, policy) {
            Ok(_) => Ok(()),
            Err(e) => Err(e),
        }
    }

    /// Ends the upgrade.
    pub fn set_upg_end(&mut self) -> (r: Result<(), String>)
        ensures
            final(self).follows(old(self)),
            forall|h: Seq<Exchange>|
                extends(h, final(self).history()) ==> #[trigger] end_talk(
                    old(self).profile(),
                    h,
                    old(self).at(),
                ) == Some((final(self).at(), done(r))),
    {
        let mut payload = to_le32(32);
        push_zeros(&mut payload, 32);
        match self.cmd_hdr_data_resp_policy(
            self.profile.codes.set_upg_end,
            payload.as_slice(),
            0,
            CswPolicy::AllowMissing,
        ) {
            Ok(_) => Ok(()),
            Err(e) => Err(e),
        }
    }

    /// Runs a shell command on the device.
    pub fn run_shell(&mut self, cmd_str: &str) -> (r: Result<(), String>)
        ensures
            final(self).follows(old(self)),
            forall|h: Seq<Exchange>|
                extends(h, final(self).history()) ==> #[trigger] shell_talk(
                    old(self).profile(),
                    h,
                    old(self).at(),
                    cmd_str@,
                ) == Some((final(self).at(), done(r))),
    {
        let cmd_bytes = cmd_str.as_bytes();
        let mut payload = to_le32(cmd_bytes.len() as u32);
        push_bytes(&mut payload, cmd_bytes);
        match self.cmd_hdr_data_resp(self.profile.codes.run_shell_str, payload.as_slice(), 0) {
            Ok(_) => Ok(()),
            Err(e) => Err(e),
        }
    }

    /// Resets the device.
    pub fn reset(&mut self) -> (r: Result<(), String>)
        ensures
            final(self).follows(old(self)),
            forall|h: Seq<Exchange>|
                extends(h, final(self).history()) ==> #[trigger] shell_talk(
                    old(self).profile(),
                    h,
                    old(self).at(),
                    "reset"@,
                ) == Some((final(self).at(), done(r))),
    {
        self.run_shell("reset")
    }

    /// The name of the storage medium.
    pub fn get_storage_media(&mut self) -> (r: Result<String, String>)
        ensures
            final(self).follows(old(self)),
            forall|h: Seq<Exchange>|
                extends(h, final(self).history()) ==> #[trigger] media_talk(
                    old(self).profile(),
                    h,
                    old(self).at(),
                ) == Some((final(self).at(), text_outcome(r))),
    {
        match self.cmd_hdr_resp(self.profile.codes.get_storage_media, 64) {
            Ok(payload) => Ok(media_name(utf8_lossy(payload.as_slice()).as_str())),
            Err(e) => Err(e),
        }
    }

    /// The log that the device keeps.
    pub fn get_device_log(&mut self) -> (r: Result<String, String>)
        ensures
            final(self).follows(old(self)),
            forall|h: Seq<Exchange>|
                extends(h, final(self).history()) ==> #[trigger] log_talk(
                    old(self).profile(),
                    h,
                    old(self).at(),
                ) == Some((final(self).at(), text_outcome(r))),
    {
        let size: u32 = match self.get_number(self.profile.codes.get_log_size, "Log size") {
            Ok(size) => size,
            Err(e) => {
                return Err(e);
            },
        };
        if size == 0 {
            return Ok(String::new());
        }
        match self.cmd_hdr_resp(self.profile.codes.get_log_data, size) {
            Ok(data) => Ok(utf8_lossy(data.as_slice())),
            Err(e) => Err(e),
        }
    }

    /// Negotiate a higher UART baudrate with the bootloader (`SET_UART_ARGS`). The probe after
    /// it does not decide.
    pub fn set_max_baudrate(&mut self, baudrate: u32) -> (r: Result<(), String>)
        ensures
            final(self).follows(old(self)),
            forall|h: Seq<Exchange>|
                extends(h, final(self).history()) ==> #[trigger] speed_talk(
                    old(self).profile(),
                    h,
                    old(self).at(),
                    baudrate,
                ) == Some((final(self).at(), done(r))),
    {
        match self.transport.set_uart_baudrate(baudrate) {
            Ok(()) => {},
            Err(e) => {
                return Err(e);
            },
        }
        let _ = self.get_hwinfo();
        Ok(())
    }

    /// The lines of the hardware report, indented for display.
    pub fn show_info(&mut self) -> (r: Result<Vec<String>, String>)
        ensures
            final(self).follows(old(self)),
            forall|h: Seq<Exchange>|
                extends(h, final(self).history()) ==> #[trigger] show_talk(
                    old(self).profile(),
                    h,
                    old(self).at(),
                ) == Some(
                    (
                        final(self).at(),
                        match r {
                            Ok(lines) => Ok(string_texts(lines@)),
                            Err(e) => Err(e@),
                        },
                    ),
                ),
    {
        match self.get_hwinfo() {
            Ok(hwinfo) => Ok(indent(&hwinfo_lines(&hwinfo, &None))),
            Err(e) => Err(e),
        }
    }
}

/// Every line with two blanks in front.
fn indent(lines: &Vec<String>) -> (r: Vec<String>)
    ensures
        string_texts(r@) == indented(string_texts(lines@)),
{
    let mut r: Vec<String> = Vec::new();
    let mut i: usize = 0;
    while i < lines.len()
        invariant
            i <= lines.len(),
            r@.len() == i,
            forall|j: int| 0 <= j < i ==> (#[trigger] r@[j])@ == "  "@ + lines@[j]@,
        decreases lines.len() - i,
    {
        let mut line = "  ".to_string();
        line.append(lines[i].as_str());
        r.push(line);
        i = i + 1;
    }
    assert(string_texts(r@) =~= indented(string_texts(lines@)));
    r
}

/// Parse the 16-byte UPG response packet.
pub fn parse_resp_header(expected_cmd: u8, data: &[u8]) -> (r: Result<RespHeader, String>)
    ensures
        match r {
            Ok(header) => header@ == data@.take(RESP_MIN_HDR_LEN as int) && announced(
                expected_cmd,
                data@,
            ) == Ok::<u32, Seq<char>>(le32_at(header@, 8)),
            Err(e) => announced(expected_cmd, data@) == Err::<u32, Seq<char>>(e@),
        },
{
    match RespHeader::from_bytes(data) {
        None => Err("Response too short".to_string()),
        Some(resp) => {
            if !resp.is_ok() {
                let mut e = "Command 0x".to_string();
                push_hex(&mut e, expected_cmd as u64, 2);
                e.append(" failed, status: ");
                push_dec(&mut e, resp.status_val() as u64);
                e.append(", magic=0x");
                push_hex(&mut e, resp.magic() as u64, 8);
                return Err(e);
            }
            Ok(resp)
        },
    }
}

/// The name of a medium out of a field that is filled up with zeros.
pub fn media_name(field: &str) -> (name: String)
    ensures
        name@ == without_trailing(field@, '\0'),
{
    string_of(drop_trailing(chars_of(field).as_slice(), '\0'))
}

/// The upgrade configuration for `mode`.
fn upg_cfg(mode: u8) -> (v: Vec<u8>)
    ensures
        v@ == cfg_bytes(mode),
{
    let reserved: [u8; 31] = [
        0xea, 0x00, 0x00, 0xbc, 0xf5, 0x44, 0x04, 0x50, 0xf5, 0x44, 0x04, 0x01, 0x00, 0x00, 0x00,
        0x18, 0x73, 0xdf, 0x05, 0x50, 0xf5, 0x44, 0x04, 0x40, 0xfe, 0xf1, 0x00, 0x18, 0x73, 0xdf,
        0x05,
    ];
    let mut v: Vec<u8> = Vec::new();
    v.push(mode);
    push_bytes(&mut v, vstd::array::array_as_slice(&reserved));
    assert(v@ =~= cfg_bytes(mode));
    v
}

/// The lines of a hardware report, and of the storage medium where it is known.
pub fn hwinfo_lines(hwinfo: &HwInfo, media: &Option<String>) -> (lines: Vec<String>)
    ensures
        string_texts(lines@) == info_lines(
            hwinfo@,
            match media {
                Some(name) => Some(name@),
                None => None,
            },
        ),
{
    let ids = hwinfo.chipid_val();
    let mut magic = "Magic:        ".to_string();
    magic.append(hwinfo.magic_str().as_str());
    let mut init = "Init mode:    0x".to_string();
    push_hex(&mut init, hwinfo.init_mode() as u64, 0);
    let mut current = "Current mode: 0x".to_string();
    push_hex(&mut current, hwinfo.curr_mode() as u64, 0);
    let mut stage = "Boot stage:   ".to_string();
    push_dec(&mut stage, hwinfo.boot_stage() as u64);
    let mut chip = "Chip ID:      ".to_string();
    push_hex(&mut chip, ids[0] as u64, 8);
    chip.append(" ");
    push_hex(&mut chip, ids[1] as u64, 8);
    chip.append(" ");
    push_hex(&mut chip, ids[2] as u64, 8);
    chip.append(" ");
    push_hex(&mut chip, ids[3] as u64, 8);
    let mut lines: Vec<String> = Vec::new();
    lines.push(magic);
    lines.push(init);
    lines.push(current);
    lines.push(stage);
    lines.push(chip);
    if let Some(name) = media {
        let mut line = "Storage media: ".to_string();
        line.append(name.as_str());
        lines.push(line);
    }
    assert(string_texts(lines@) =~= info_lines(
        hwinfo@,
        match media {
            Some(name) => Some(name@),
            None => None,
        },
    ));
    lines
}

} // verus!
