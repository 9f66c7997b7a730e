//! What each command says to a device, read off the history of a transport.
//!
//! A function here takes a history and a position in it. If what stands there is the
//! conversation of the command, it gives the position behind the conversation and the
//! command's result; otherwise it gives nothing. So it fixes both the requests that a command
//! makes, each from the answers before it, and what the command makes of the answers.
use vstd::prelude::*;
use vstd::utf8::encode_utf8;

use crate::codec::{le32, le32_at, lossy_text, zeros};
use crate::number::{dec, hex, hex_wide};
use crate::protocol::cbw_csw::{
    cmd_bytes, hw_chip_id, hw_magic, resp_ok, HWINFO_LEN, RESP_MIN_HDR_LEN,
};
use crate::protocol::commands::CommandSet;
use crate::text::{joined, mentions, without_trailing};
use crate::transport::{baudrate_set, drained, reconnected, was_read, wrote, CswPolicy, Exchange};

verus! {

/// How a device is spoken to.
#[derive(Clone, Copy, Debug, Eq, PartialEq, Structural)]
pub struct Profile {
    /// The codes of the commands.
    pub codes: CommandSet,
    /// Whether a command header that the link refused is sent once more after a reconnect.
    pub repeat_headers: bool,
}

/// How long a header that is to be repeated waits for the device, in milliseconds.
pub const HEADER_RECONNECT_MILLIS: u64 = 10_000;

/// How long, in milliseconds, and how far stale bytes are discarded after a missing CSW.
pub const DRAIN_MILLIS: u64 = 50;

/// How many stray bytes are read away at most.
pub const DRAIN_BYTES: usize = 65536;

/// A position behind a conversation and the result of the command.
pub type Talk<R> = Option<(int, Result<R, Seq<char>>)>;

/// Whether a header is sent again after this error: the link refused the wrapper outright.
pub open spec fn header_worth_repeating(e: Seq<char>) -> bool {
    mentions(e, "Bulk write failed at 0/31"@) || mentions(e, "Pipe"@)
}

/// A write of which only success counts.
pub open spec fn write_talk(
    h: Seq<Exchange>,
    i: int,
    payload: Seq<u8>,
    policy: CswPolicy,
) -> Talk<()> {
    match wrote(h, i, payload, policy) {
        None => None,
        Some((j, Ok(_))) => Some((j, Ok(()))),
        Some((j, Err(e))) => Some((j, Err(e))),
    }
}

/// A command header.
pub open spec fn header_talk(
    p: Profile,
    h: Seq<Exchange>,
    i: int,
    cmd: u8,
    data_len: u32,
) -> Talk<()> {
    let header = cmd_bytes(cmd, data_len);
    match write_talk(h, i, header, CswPolicy::Required) {
        Some((j, Err(e))) => if p.repeat_headers && header_worth_repeating(e) {
            match reconnected(h, j, HEADER_RECONNECT_MILLIS) {
                None => None,
                Some((k, Ok(()))) => write_talk(h, k, header, CswPolicy::Required),
                Some((k, Err(why))) => Some((k, Err(why))),
            }
        } else {
            Some((j, Err(e)))
        },
        other => other,
    }
}

/// Why a command failed whose response header reports a failure.
pub open spec fn refusal_text(cmd: u8, status: u8, magic: u32) -> Seq<char> {
    "Command 0x"@ + hex_wide(cmd as nat, 2) + " failed, status: "@ + dec(status as nat)
        + ", magic=0x"@ + hex_wide(magic as nat, 8)
}

/// The length of the data that a response header announces.
pub open spec fn announced(cmd: u8, data: Seq<u8>) -> Result<u32, Seq<char>> {
    if data.len() < RESP_MIN_HDR_LEN {
        Err("Response too short"@)
    } else if !resp_ok(data) {
        Err(refusal_text(cmd, data[7], le32_at(data, 0)))
    } else {
        Ok(le32_at(data, 8))
    }
}

/// The response to a command: the header, then as many bytes as it announces, or as many as
/// the command is known to give back where it announces none. Where the policy allows it, what
/// does not come is taken to be empty.
pub open spec fn response_talk(
    h: Seq<Exchange>,
    i: int,
    cmd: u8,
    usual_len: u32,
    policy: CswPolicy,
) -> Talk<Seq<u8>> {
    match was_read(h, i, RESP_MIN_HDR_LEN as u32, policy) {
        None => None,
        Some((j, Err(e))) => if policy == CswPolicy::AllowMissing {
            Some((j, Ok(Seq::empty())))
        } else {
            Some((j, Err(e)))
        },
        Some((j, Ok(data))) => match announced(cmd, data) {
            Err(e) => Some((j, Err(e))),
            Ok(declared) => {
                let len = if declared > 0 {
                    declared
                } else {
                    usual_len
                };
                if len == 0 {
                    Some((j, Ok(Seq::empty())))
                } else {
                    match was_read(h, j, len, policy) {
                        Some((k, Err(e))) => if policy == CswPolicy::AllowMissing {
                            Some((k, Ok(Seq::empty())))
                        } else {
                            Some((k, Err(e)))
                        },
                        other => other,
                    }
                }
            },
        },
    }
}

/// A command without data.
pub open spec fn query_talk(
    p: Profile,
    h: Seq<Exchange>,
    i: int,
    cmd: u8,
    usual_len: u32,
) -> Talk<Seq<u8>> {
    match header_talk(p, h, i, cmd, 0) {
        None => None,
        Some((j, Err(e))) => Some((j, Err(e))),
        Some((j, Ok(()))) => response_talk(h, j, cmd, usual_len, CswPolicy::Required),
    }
}

/// A command with data. Under a policy that allows it, a missing CSW after the data ends the
/// command.
pub open spec fn order_talk(
    p: Profile,
    h: Seq<Exchange>,
    i: int,
    cmd: u8,
    payload: Seq<u8>,
    usual_len: u32,
    policy: CswPolicy,
) -> Talk<Seq<u8>> {
    match header_talk(p, h, i, cmd, payload.len() as u32) {
        None => None,
        Some((j, Err(e))) => Some((j, Err(e))),
        Some((j, Ok(()))) => match wrote(h, j, payload, policy) {
            None => None,
            Some((k, Err(e))) => Some((k, Err(e))),
            Some((k, Ok(csw))) => if policy == CswPolicy::AllowMissing && csw is None {
                Some((k, Ok(Seq::empty())))
            } else {
                response_talk(h, k, cmd, usual_len, policy)
            },
        },
    }
}

/// A command whose data is preceded by its length, in a write of its own.
pub open spec fn sized_order_talk(
    p: Profile,
    h: Seq<Exchange>,
    i: int,
    cmd: u8,
    payload: Seq<u8>,
    usual_len: u32,
) -> Talk<Seq<u8>> {
    match header_talk(p, h, i, cmd, (payload.len() + 4) as u32) {
        None => None,
        Some((j, Err(e))) => Some((j, Err(e))),
        Some((j, Ok(()))) => match write_talk(
            h,
            j,
            le32(payload.len() as u32),
            CswPolicy::Required,
        ) {
            None => None,
            Some((k, Err(e))) => Some((k, Err(e))),
            Some((k, Ok(()))) => match write_talk(h, k, payload, CswPolicy::Required) {
                None => None,
                Some((l, Err(e))) => Some((l, Err(e))),
                Some((l, Ok(()))) => response_talk(h, l, cmd, usual_len, CswPolicy::Required),
            },
        },
    }
}

/// A command of which only success counts.
pub open spec fn silent(t: Talk<Seq<u8>>) -> Talk<()> {
    match t {
        None => None,
        Some((j, Ok(_))) => Some((j, Ok(()))),
        Some((j, Err(e))) => Some((j, Err(e))),
    }
}

/// The hardware report.
pub open spec fn hwinfo_talk(p: Profile, h: Seq<Exchange>, i: int) -> Talk<Seq<u8>> {
    match query_talk(p, h, i, p.codes.get_hwinfo, HWINFO_LEN as u32) {
        Some((j, Ok(payload))) => if payload.len() < HWINFO_LEN {
            Some(
                (
                    j,
                    Err(
                        "Failed to parse HWINFO ("@ + dec(payload.len()) + " payload bytes)"@,
                    ),
                ),
            )
        } else {
            Some((j, Ok(payload)))
        },
        other => other,
    }
}

/// The name of the storage medium.
pub open spec fn media_talk(p: Profile, h: Seq<Exchange>, i: int) -> Talk<Seq<char>> {
    match query_talk(p, h, i, p.codes.get_storage_media, 64) {
        None => None,
        Some((j, Err(e))) => Some((j, Err(e))),
        Some((j, Ok(payload))) => Some((j, Ok(without_trailing(lossy_text(payload), '\0')))),
    }
}

/// The lines of a hardware report, and of the storage medium where it is known.
pub open spec fn info_lines(hw: Seq<u8>, media: Option<Seq<char>>) -> Seq<Seq<char>> {
    let id = hw_chip_id(hw);
    let lines = seq![
        "Magic:        "@ + hw_magic(hw),
        "Init mode:    0x"@ + hex(le32_at(hw, 8) as nat),
        "Current mode: 0x"@ + hex(le32_at(hw, 12) as nat),
        "Boot stage:   "@ + dec(le32_at(hw, 16) as nat),
        "Chip ID:      "@ + hex_wide(id[0] as nat, 8) + " "@ + hex_wide(id[1] as nat, 8) + " "@
            + hex_wide(id[2] as nat, 8) + " "@ + hex_wide(id[3] as nat, 8),
    ];
    match media {
        Some(name) => lines.push("Storage media: "@ + name),
        None => lines,
    }
}

/// The report on a device as text. A medium that cannot be read is left out.
pub open spec fn info_talk(p: Profile, h: Seq<Exchange>, i: int) -> Talk<Seq<char>> {
    match hwinfo_talk(p, h, i) {
        None => None,
        Some((j, Err(e))) => Some((j, Err(e))),
        Some((j, Ok(hw))) => match media_talk(p, h, j) {
            None => None,
            Some((k, media)) => Some((k, Ok(joined(info_lines(hw, media.ok()), "\n"@)))),
        },
    }
}

/// Every line with two blanks in front.
pub open spec fn indented(lines: Seq<Seq<char>>) -> Seq<Seq<char>> {
    Seq::new(lines.len(), |i: int| "  "@ + lines[i])
}

/// The hardware report as lines for display.
pub open spec fn show_talk(p: Profile, h: Seq<Exchange>, i: int) -> Talk<Seq<Seq<char>>> {
    match hwinfo_talk(p, h, i) {
        None => None,
        Some((j, Err(e))) => Some((j, Err(e))),
        Some((j, Ok(hw))) => Some((j, Ok(indented(info_lines(hw, None))))),
    }
}

/// A change of the line's speed, and a probe after it that does not decide.
pub open spec fn speed_talk(p: Profile, h: Seq<Exchange>, i: int, baudrate: u32) -> Talk<()> {
    match baudrate_set(h, i, baudrate) {
        None => None,
        Some((j, Err(e))) => Some((j, Err(e))),
        Some((j, Ok(()))) => match hwinfo_talk(p, h, j) {
            None => None,
            Some((k, _)) => Some((k, Ok(()))),
        },
    }
}

/// A number of four bytes, asked for by `cmd`; `what` names it where the answer is too short.
pub open spec fn number_talk(
    p: Profile,
    h: Seq<Exchange>,
    i: int,
    cmd: u8,
    what: Seq<char>,
) -> Talk<u32> {
    match query_talk(p, h, i, cmd, 4) {
        None => None,
        Some((j, Err(e))) => Some((j, Err(e))),
        Some((j, Ok(payload))) => if payload.len() < 4 {
            Some((j, Err(what + " response too short: "@ + dec(payload.len()) + " bytes"@)))
        } else {
            Some((j, Ok(le32_at(payload, 0))))
        },
    }
}

/// The block size of the medium.
pub open spec fn block_size_talk(p: Profile, h: Seq<Exchange>, i: int) -> Talk<u32> {
    number_talk(p, h, i, p.codes.get_block_size, "Block size"@)
}

/// The log of the device: its size first, then, where it is not empty, the log.
pub open spec fn log_talk(p: Profile, h: Seq<Exchange>, i: int) -> Talk<Seq<char>> {
    match number_talk(p, h, i, p.codes.get_log_size, "Log size"@) {
        None => None,
        Some((j, Err(e))) => Some((j, Err(e))),
        Some((j, Ok(size))) => if size == 0 {
            Some((j, Ok(Seq::empty())))
        } else {
            match query_talk(p, h, j, p.codes.get_log_data, size) {
                None => None,
                Some((k, Err(e))) => Some((k, Err(e))),
                Some((k, Ok(data))) => Some((k, Ok(lossy_text(data)))),
            }
        },
    }
}

/// The reserved part of an upgrade configuration, as the vendor's tool sends it.
pub open spec fn cfg_reserved() -> Seq<u8> {
    seq![
        0xea, 0x00, 0x00, 0xbc, 0xf5, 0x44, 0x04, 0x50, 0xf5, 0x44, 0x04, 0x01, 0x00, 0x00, 0x00,
        0x18, 0x73, 0xdf, 0x05, 0x50, 0xf5, 0x44, 0x04, 0x40, 0xfe, 0xf1, 0x00, 0x18, 0x73, 0xdf,
        0x05,
    ]
}

/// An upgrade configuration.
pub open spec fn cfg_bytes(mode: u8) -> Seq<u8> {
    seq![mode] + cfg_reserved()
}

/// Choosing the upgrade mode.
pub open spec fn cfg_talk(p: Profile, h: Seq<Exchange>, i: int, mode: u8) -> Talk<()> {
    silent(sized_order_talk(p, h, i, p.codes.set_upg_cfg, cfg_bytes(mode), 0))
}

/// The end of an upgrade: the device may reset before it answers.
pub open spec fn end_talk(p: Profile, h: Seq<Exchange>, i: int) -> Talk<()> {
    silent(
        order_talk(
            p,
            h,
            i,
            p.codes.set_upg_end,
            le32(32) + zeros(32),
            0,
            CswPolicy::AllowMissing,
        ),
    )
}

/// A shell command, preceded by the number of its bytes.
pub open spec fn shell_bytes(command: Seq<char>) -> Seq<u8> {
    le32(encode_utf8(command).len() as u32) + encode_utf8(command)
}

/// Running a shell command.
pub open spec fn shell_talk(p: Profile, h: Seq<Exchange>, i: int, command: Seq<char>) -> Talk<()> {
    silent(
        order_talk(
            p,
            h,
            i,
            p.codes.run_shell_str,
            shell_bytes(command),
            0,
            CswPolicy::Required,
        ),
    )
}

/// Announcing a firmware component by its record.
pub open spec fn meta_talk(p: Profile, h: Seq<Exchange>, i: int, record: Seq<u8>) -> Talk<()> {
    silent(order_talk(p, h, i, p.codes.set_fwc_meta, record, 0, CswPolicy::Required))
}

/// One piece of a component's data. Where a CSW may be missing and is, stale bytes are
/// discarded; whether that succeeds does not matter.
pub open spec fn chunk_talk(
    h: Seq<Exchange>,
    i: int,
    chunk: Seq<u8>,
    policy: CswPolicy,
) -> Talk<()> {
    match wrote(h, i, chunk, policy) {
        None => None,
        Some((j, Err(e))) => Some((j, Err(e))),
        Some((j, Ok(csw))) => if policy == CswPolicy::AllowMissing && csw is None {
            match drained(h, j, DRAIN_MILLIS, DRAIN_BYTES) {
                None => None,
                Some((k, _)) => Some((k, Ok(()))),
            }
        } else {
            Some((j, Ok(())))
        },
    }
}

} // verus!
