//! What carries transactions between host and device.
use vstd::prelude::*;

use crate::protocol::cbw_csw::AicCsw;

verus! {

/// Policy for the trailing CSW of a transaction.
///
/// During the updater stage the device may reset before it can answer the final command, so
/// callers can opt into tolerating a missing CSW.
#[derive(Clone, Copy, Debug, Eq, PartialEq, Structural)]
pub enum CswPolicy {
    Required,
    AllowMissing,
}

/// One request to a transport, with what came back.
#[verifier::ext_equal]
pub enum Exchange {
    Write {
        payload: Seq<u8>,
        policy: CswPolicy,
        outcome: Result<Option<Seq<u8>>, Seq<char>>,
    },
    Read { len: u32, policy: CswPolicy, outcome: Result<Seq<u8>, Seq<char>> },
    Reconnect { timeout: u64, outcome: Result<(), Seq<char>> },
    Drain { timeout: u64, max_bytes: usize, outcome: Result<(), Seq<char>> },
    Baudrate { baudrate: u32, outcome: Result<(), Seq<char>> },
    Pause { millis: u64 },
}

/// What does not change while a transport is in use.
pub struct Link {
    pub name: Seq<char>,
    pub write_limit: spec_fn(u32) -> usize,
}

/// The outcome of a write: the status wrapper, if one came.
pub open spec fn write_outcome(r: Result<Option<AicCsw>, String>) -> Result<
    Option<Seq<u8>>,
    Seq<char>,
> {
    match r {
        Ok(Some(csw)) => Ok(Some(csw@)),
        Ok(None) => Ok(None),
        Err(e) => Err(e@),
    }
}

/// The outcome of a read: the bytes.
pub open spec fn read_outcome(r: Result<Vec<u8>, String>) -> Result<Seq<u8>, Seq<char>> {
    match r {
        Ok(data) => Ok(data@),
        Err(e) => Err(e@),
    }
}

/// The outcome of an operation that gives nothing back.
pub open spec fn done(r: Result<(), String>) -> Result<(), Seq<char>> {
    match r {
        Ok(()) => Ok(()),
        Err(e) => Err(e@),
    }
}

/// Transport abstraction for the ArtInChip UPG protocol.
///
/// Implementations only need to provide the CBW/CSW transaction primitives; all UPG command and
/// burn logic lives in [`crate::device::command::UpgDevice`]. Times are in milliseconds.
///
/// An implementation in ordinary code leaves `history` and `link` as they stand here; one that is
/// verified replaces both, since its methods have to keep what they promise.
pub trait UpgTransport {
    /// The requests made so far, with their outcomes.
    open spec fn history(&self) -> Seq<Exchange> {
        Seq::empty()
    }

    /// What stays as it is from call to call.
    open spec fn link(&self) -> Link {
        arbitrary()
    }

    /// Full write transaction: CBW -> data -> CSW.
    fn write_txn(&mut self, payload: &[u8], policy: CswPolicy) -> (r: Result<
        Option<AicCsw>,
        String,
    >)
        ensures
            final(self).link() == old(self).link(),
            final(self).history() == old(self).history().push(
                Exchange::Write { payload: payload@, policy, outcome: write_outcome(r) },
            ),
    ;

    /// Full read transaction: CBW -> data -> CSW. Returns the data payload.
    fn read_txn(&mut self, read_len: u32, policy: CswPolicy) -> (r: Result<Vec<u8>, String>)
        ensures
            final(self).link() == old(self).link(),
            final(self).history() == old(self).history().push(
                Exchange::Read { len: read_len, policy, outcome: read_outcome(r) },
            ),
    ;

    /// Wait until the device is reachable again after a reset/reboot.
    fn reconnect(&mut self, timeout: u64) -> (r: Result<(), String>)
        ensures
            final(self).link() == old(self).link(),
            final(self).history() == old(self).history().push(
                Exchange::Reconnect { timeout, outcome: done(r) },
            ),
    ;

    /// Discard stale inbound bytes (used when a CSW went missing).
    fn drain_rx(&mut self, timeout: u64, max_bytes: usize) -> (r: Result<(), String>)
        ensures
            final(self).link() == old(self).link(),
            final(self).history() == old(self).history().push(
                Exchange::Drain { timeout, max_bytes, outcome: done(r) },
            ),
    ;

    /// Wait without talking to the device.
    fn pause(&mut self, millis: u64)
        ensures
            final(self).link() == old(self).link(),
            final(self).history() == old(self).history().push(Exchange::Pause { millis }),
    ;

    /// Human readable transport name for logs.
    fn transport_name(&self) -> (s: &'static str)
        ensures
            s@ == self.link().name,
    ;

    /// Maximum payload size for a single write transaction.
    ///
    /// UART limits this because the device slices transfers into 64 KiB buffers and uses a small
    /// RX ring buffer with stop-and-wait framing.
    fn max_write_chunk(&self, block_size: u32) -> (n: usize)
        ensures
            n == (self.link().write_limit)(block_size),
    ;

    /// Negotiate a higher UART baudrate (`SET_UART_ARGS`) when supported.
    fn set_uart_baudrate(&mut self, baudrate: u32) -> (r: Result<(), String>)
        ensures
            final(self).link() == old(self).link(),
            final(self).history() == old(self).history().push(
                Exchange::Baudrate { baudrate, outcome: done(r) },
            ),
    ;
}

/// What a transport answers that cannot change its speed.
pub fn baudrate_unsupported() -> (r: Result<(), String>)
    ensures
        done(r) == Err::<(), Seq<char>>(
            "this transport does not support UART baudrate negotiation"@,
        ),
{
    Err("this transport does not support UART baudrate negotiation".to_string())
}

/// What a transport answers that has nothing to discard.
pub fn nothing_to_drain() -> (r: Result<(), String>)
    ensures
        done(r) == Ok::<(), Seq<char>>(()),
{
    Ok(())
}

// ---------------------------------------------------------------------------------------
// Reading a history
// ---------------------------------------------------------------------------------------
/// Whether `h` goes on from `base`.
pub open spec fn extends(h: Seq<Exchange>, base: Seq<Exchange>) -> bool {
    &&& base.len() <= h.len()
    &&& forall|k: int| 0 <= k < base.len() ==> h[k] == base[k]
}

/// The outcome of the exchange at `i`, if it is a write of `payload`.
pub open spec fn wrote(h: Seq<Exchange>, i: int, payload: Seq<u8>, policy: CswPolicy) -> Option<
    (int, Result<Option<Seq<u8>>, Seq<char>>),
> {
    if 0 <= i < h.len() {
        match h[i] {
            Exchange::Write { payload: p, policy: q, outcome } => if p == payload && q == policy {
                Some((i + 1, outcome))
            } else {
                None
            },
            _ => None,
        }
    } else {
        None
    }
}

/// The outcome of the exchange at `i`, if it is a read of `len` bytes.
pub open spec fn was_read(h: Seq<Exchange>, i: int, len: u32, policy: CswPolicy) -> Option<
    (int, Result<Seq<u8>, Seq<char>>),
> {
    if 0 <= i < h.len() {
        match h[i] {
            Exchange::Read { len: n, policy: q, outcome } => if n == len && q == policy {
                Some((i + 1, outcome))
            } else {
                None
            },
            _ => None,
        }
    } else {
        None
    }
}

/// The outcome of the exchange at `i`, if it is a wait for the device with this time limit.
pub open spec fn reconnected(h: Seq<Exchange>, i: int, timeout: u64) -> Option<
    (int, Result<(), Seq<char>>),
> {
    if 0 <= i < h.len() {
        match h[i] {
            Exchange::Reconnect { timeout: t, outcome } => if t == timeout {
                Some((i + 1, outcome))
            } else {
                None
            },
            _ => None,
        }
    } else {
        None
    }
}

/// The outcome of the exchange at `i`, if it discards stale bytes with these limits.
pub open spec fn drained(h: Seq<Exchange>, i: int, timeout: u64, max_bytes: usize) -> Option<
    (int, Result<(), Seq<char>>),
> {
    if 0 <= i < h.len() {
        match h[i] {
            Exchange::Drain { timeout: t, max_bytes: n, outcome } => if t == timeout && n
                == max_bytes {
                Some((i + 1, outcome))
            } else {
                None
            },
            _ => None,
        }
    } else {
        None
    }
}

/// The outcome of the exchange at `i`, if it is a change to this speed.
pub open spec fn baudrate_set(h: Seq<Exchange>, i: int, baudrate: u32) -> Option<
    (int, Result<(), Seq<char>>),
> {
    if 0 <= i < h.len() {
        match h[i] {
            Exchange::Baudrate { baudrate: b, outcome } => if b == baudrate {
                Some((i + 1, outcome))
            } else {
                None
            },
            _ => None,
        }
    } else {
        None
    }
}

/// The position behind the exchange at `i`, if it is a pause of this length.
pub open spec fn paused(h: Seq<Exchange>, i: int, millis: u64) -> Option<int> {
    if 0 <= i < h.len() && h[i] == (Exchange::Pause { millis }) {
        Some(i + 1)
    } else {
        None
    }
}

} // verus!
