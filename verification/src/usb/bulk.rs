//! Transactions over bulk endpoints.
//!
//! Bytes come in pieces of any size, and a device that was interrupted may still send what
//! belongs to an earlier transaction. What comes in is collected in a buffer; the readers here
//! say when to read on and what the buffer amounts to.
use vstd::prelude::*;
use vstd::slice::slice_subrange;

use crate::codec::{copy_bytes, le32, le32_at, lemma_le32};
use crate::number::{dec, push_dec};
use crate::protocol::cbw_csw::{
    cbw_bytes, csw_ok, AicCbw, AicCsw, AIC_USB_SIGN_USBS, CSW_LEN, TRANS_LAYER_CMD_READ,
    TRANS_LAYER_CMD_WRITE,
};
use crate::text::{mentions, str_contains};
use crate::transport::{done, read_outcome, write_outcome, CswPolicy};

verus! {

/// How long a transfer may take, in milliseconds.
pub const TIMEOUT_MILLIS: u64 = 30_000;

/// How long a single wait for a status wrapper is, and a whole one where it may be missing.
pub const SHORT_TIMEOUT_MILLIS: u64 = 500;

/// The most that is written at once.
pub const BULK_WRITE_CHUNK: usize = 65536;

/// How long a data phase that does not start is tried again, and how long the host waits
/// before each try.
pub const START_WRITE_RETRY_TIMEOUT: u64 = 5000;

/// How long to wait before the first write is tried again, in milliseconds.
pub const START_WRITE_RETRY_DELAY: u64 = 100;

// ---------------------------------------------------------------------------------------
// Finding the status wrapper
// ---------------------------------------------------------------------------------------
/// Whether the signature of a status wrapper stands in `b` at `i`.
pub open spec fn signed_at(b: Seq<u8>, i: int) -> bool {
    &&& 0 <= i
    &&& i + 4 <= b.len()
    &&& b.subrange(i, i + 4) == le32(AIC_USB_SIGN_USBS)
}

/// The first place from `i` on where the signature of a status wrapper stands.
pub open spec fn signature_from(b: Seq<u8>, i: int) -> Option<int>
    decreases b.len() - i,
{
    if !(0 <= i < b.len()) {
        None
    } else if signed_at(b, i) {
        Some(i)
    } else {
        signature_from(b, i + 1)
    }
}

proof fn lemma_signature_from(b: Seq<u8>, i: int)
    requires
        0 <= i,
    ensures
        signature_from(b, i) matches Some(p) ==> i <= p && signed_at(b, p),
    decreases b.len() - i,
{
    if i < b.len() && !signed_at(b, i) {
        lemma_signature_from(b, i + 1);
    }
}

/// The first place where the signature of a status wrapper stands.
pub fn find_csw_signature(b: &[u8]) -> (r: Option<usize>)
    ensures
        match r {
            Some(p) => signature_from(b@, 0) == Some(p as int) && p + 4 <= b@.len(),
            None => signature_from(b@, 0) is None,
        },
{
    let mut i: usize = 0;
    while i < b.len()
        invariant
            i <= b.len(),
            signature_from(b@, 0) == signature_from(b@, i as int),
        decreases b.len() - i,
    {
        if b.len() - i >= 4 && b[i] == 0x55 && b[i + 1] == 0x53 && b[i + 2] == 0x42 && b[i + 3]
            == 0x53 {
            assert(b@.subrange(i as int, i + 4) =~= le32(AIC_USB_SIGN_USBS));
            return Some(i);
        }
        proof {
            if signed_at(b@, i as int) {
                let s = b@.subrange(i as int, i + 4);
                assert(s[0] == b@[i as int] && s[1] == b@[i + 1] && s[2] == b@[i + 2] && s[3]
                    == b@[i + 3]);
            }
        }
        i = i + 1;
    }
    None
}

/// What is left of a buffer that holds no signature: its end may be the beginning of one.
pub open spec fn loose_end(b: Seq<u8>) -> Seq<u8> {
    if b.len() > 3 {
        b.skip(b.len() - 3)
    } else {
        b
    }
}

/// The status wrapper of the transaction `tag` that `b` holds, and what is left of `b`: bytes
/// before a signature are stale, and so are whole wrappers with other tags. Where the wrapper
/// did not come yet, what is left begins with the part of it that did.
pub open spec fn scanned(b: Seq<u8>, tag: u32) -> (Seq<u8>, Option<Seq<u8>>)
    decreases b.len(),
    via scanned_decreases
{
    match signature_from(b, 0) {
        None => (loose_end(b), None),
        Some(p) => {
            let w = b.skip(p);
            if w.len() < CSW_LEN {
                (w, None)
            } else if le32_at(w, 4) == tag {
                (w.skip(CSW_LEN as int), Some(w.take(CSW_LEN as int)))
            } else {
                scanned(w.skip(CSW_LEN as int), tag)
            }
        },
    }
}

#[via_fn]
proof fn scanned_decreases(b: Seq<u8>, tag: u32) {
    lemma_signature_from(b, 0);
}

/// Looks for the status wrapper of the transaction `tag`, and drops what is stale.
pub fn scan_csw(buf: &mut Vec<u8>, tag: u32) -> (r: Option<AicCsw>)
    ensures
        ({
            let (rest, found) = scanned(old(buf)@, tag);
            &&& final(buf)@ == rest
            &&& match r {
                Some(csw) => found == Some(csw@),
                None => found is None,
            }
        }),
{
    let ghost start = buf@;
    loop
        invariant
            scanned(start, tag) == scanned(buf@, tag),
            start == old(buf)@,
        decreases buf@.len(),
    {
        match find_csw_signature(buf.as_slice()) {
            None => {
                if buf.len() > 3 {
                    let end = slice_subrange(buf.as_slice(), buf.len() - 3, buf.len());
                    let kept = copy_bytes(end);
                    assert(kept@ =~= loose_end(buf@));
                    *buf = kept;
                }
                return None;
            },
            Some(p) => {
                let ghost b = buf@;
                let rest = copy_bytes(slice_subrange(buf.as_slice(), p, buf.len()));
                assert(rest@ =~= b.skip(p as int));
                *buf = rest;
                if buf.len() < CSW_LEN {
                    return None;
                }
                let found = AicCsw::from_bytes(buf.as_slice());
                let after = copy_bytes(
                    slice_subrange(buf.as_slice(), CSW_LEN, buf.len()),
                );
                assert(after@ =~= buf@.skip(CSW_LEN as int));
                let ghost w = buf@;
                *buf = after;
                match found {
                    Some(csw) => {
                        assert(le32_at(csw@, 4) == le32_at(w, 4));
                        if csw.tag_val() == tag {
                            return Some(csw);
                        }
                    },
                    None => {},
                }
            },
        }
    }
}

/// Only a status wrapper with the right tag is ever taken for the answer.
pub proof fn answer_has_the_tag(b: Seq<u8>, tag: u32)
    ensures
        scanned(b, tag).1 matches Some(csw) ==> csw.len() == CSW_LEN && le32_at(csw, 4) == tag
            && le32_at(csw, 0) == AIC_USB_SIGN_USBS,
    decreases b.len(),
{
    lemma_signature_from(b, 0);
    match signature_from(b, 0) {
        None => {},
        Some(p) => {
            let w = b.skip(p);
            if w.len() >= CSW_LEN {
                if le32_at(w, 4) == tag {
                    assert(w.take(CSW_LEN as int).subrange(0, 4) =~= b.subrange(p, p + 4));
                    lemma_le32(AIC_USB_SIGN_USBS, w.take(CSW_LEN as int), 0);
                } else {
                    answer_has_the_tag(w.skip(CSW_LEN as int), tag);
                }
            }
        },
    }
}

/// A status wrapper left over from an earlier transaction does not change what is found behind
/// it.
pub proof fn stale_wrapper_is_skipped(stale: Seq<u8>, b: Seq<u8>, tag: u32)
    requires
        stale.len() == CSW_LEN,
        signed_at(stale, 0),
        le32_at(stale, 4) != tag,
    ensures
        scanned(stale + b, tag) == scanned(b, tag),
{
    let all = stale + b;
    assert(all.subrange(0, 4) =~= stale.subrange(0, 4));
    assert(signed_at(all, 0));
    assert(all.skip(0) =~= all);
    assert(all.skip(CSW_LEN as int) =~= b);
    assert(le32_at(all, 4) == le32_at(stale, 4));
}

/// The answer to the present transaction is found at once when it comes first, whatever
/// follows.
pub proof fn fresh_wrapper_is_found(csw: Seq<u8>, b: Seq<u8>, tag: u32)
    requires
        csw.len() == CSW_LEN,
        signed_at(csw, 0),
        le32_at(csw, 4) == tag,
    ensures
        scanned(csw + b, tag) == (b, Some(csw)),
{
    let all = csw + b;
    assert(all.subrange(0, 4) =~= csw.subrange(0, 4));
    assert(signed_at(all, 0));
    assert(all.skip(0) =~= all);
    assert(all.skip(CSW_LEN as int) =~= b);
    assert(all.take(CSW_LEN as int) =~= csw);
    assert(le32_at(all, 4) == le32_at(csw, 4));
}

// ---------------------------------------------------------------------------------------
// Reading
// ---------------------------------------------------------------------------------------
/// Why a read gave nothing.
pub enum ReadFailure<S = String> {
    Timeout,
    /// The pipe is broken or the device is gone.
    Gone(S),
    Other(S),
}

impl View for ReadFailure {
    type V = ReadFailure<Seq<char>>;

    open spec fn view(&self) -> ReadFailure<Seq<char>> {
        match *self {
            ReadFailure::Timeout => ReadFailure::Timeout,
            ReadFailure::Gone(e) => ReadFailure::Gone(e@),
            ReadFailure::Other(e) => ReadFailure::Other(e@),
        }
    }
}

/// What a reader does next.
pub enum ReadStep<R> {
    /// Read what comes within this many milliseconds.
    Read(u64),
    Done(R),
}

/// What reading a status wrapper comes to.
pub type CswResult = Result<Option<AicCsw>, String>;

/// A step of reading a status wrapper, with its bytes and texts as sequences.
pub open spec fn csw_step_view(step: ReadStep<CswResult>) -> ReadStep<
    Result<Option<Seq<u8>>, Seq<char>>,
> {
    match step {
        ReadStep::Read(ms) => ReadStep::Read(ms),
        ReadStep::Done(r) => ReadStep::Done(write_outcome(r)),
    }
}

/// The time until `deadline`, but no more than `most`.
pub open spec fn time_left(now: u64, deadline: u64, most: u64) -> u64 {
    if now >= deadline {
        0
    } else if deadline - now < most {
        (deadline - now) as u64
    } else {
        most
    }
}

fn remaining(now: u64, deadline: u64, most: u64) -> (ms: u64)
    ensures
        ms == time_left(now, deadline, most),
{
    if now >= deadline {
        0
    } else if deadline - now < most {
        deadline - now
    } else {
        most
    }
}

/// Reading the status wrapper of a transaction.
pub struct CswReader {
    pub tag: u32,
    pub policy: CswPolicy,
    pub deadline: u64,
}

/// What the reader of a status wrapper does at `now` with the buffer `b`, and what is left of
/// the buffer. Where the wrapper may be missing, neither its absence nor a part of it that is
/// never completed is an error.
pub open spec fn csw_reader_step(r: CswReader, b: Seq<u8>, now: u64) -> (
    Seq<u8>,
    ReadStep<Result<Option<Seq<u8>>, Seq<char>>>,
) {
    let (rest, found) = scanned(b, r.tag);
    match found {
        Some(csw) => (rest, ReadStep::Done(Ok(Some(csw)))),
        None => if now < r.deadline {
            (rest, ReadStep::Read(time_left(now, r.deadline, SHORT_TIMEOUT_MILLIS)))
        } else if r.policy == CswPolicy::AllowMissing {
            (
                if signed_at(rest, 0) {
                    Seq::empty()
                } else {
                    rest
                },
                ReadStep::Done(Ok(None)),
            )
        } else if signed_at(rest, 0) {
            (rest, ReadStep::Done(Err(short_text(rest.len()))))
        } else {
            (
                rest,
                ReadStep::Done(
                    Err("No CSW for tag "@ + dec(r.tag as nat) + " before timeout"@),
                ),
            )
        },
    }
}

/// What is said of a wrapper that was not completed.
pub open spec fn short_text(have: nat) -> Seq<char> {
    "Timed out waiting for 13 buffered bytes (have "@ + dec(have) + ")"@
}

/// What the reader of a status wrapper does after a read that gave nothing: nothing where the
/// time for a single wait was over, unless the wrapper may be missing. `b` is the buffer as the
/// reader left it.
pub open spec fn csw_reader_failed(r: CswReader, b: Seq<u8>, why: ReadFailure<Seq<char>>) -> (
    Seq<u8>,
    Option<Result<Option<Seq<u8>>, Seq<char>>>,
) {
    if signed_at(b, 0) {
        match why {
            ReadFailure::Timeout => (b, None),
            ReadFailure::Gone(e) | ReadFailure::Other(e) => if r.policy
                == CswPolicy::AllowMissing {
                (Seq::empty(), Some(Ok(None)))
            } else {
                (b, Some(Err("IN EP read failed: "@ + e)))
            },
        }
    } else {
        match why {
            ReadFailure::Timeout => if r.policy == CswPolicy::AllowMissing {
                (b, Some(Ok(None)))
            } else {
                (b, None)
            },
            ReadFailure::Gone(e) => if r.policy == CswPolicy::AllowMissing {
                (b, Some(Ok(None)))
            } else {
                (b, Some(Err("IN EP read failed: "@ + e)))
            },
            ReadFailure::Other(e) => (b, Some(Err("IN EP read failed: "@ + e))),
        }
    }
}

impl CswReader {
    /// Begins to read at `now`.
    pub fn new(tag: u32, policy: CswPolicy, now: u64) -> (r: Self)
        ensures
            r.tag == tag,
            r.policy == policy,
            r.deadline == ({
                let all = now + if policy == CswPolicy::AllowMissing {
                    SHORT_TIMEOUT_MILLIS
                } else {
                    TIMEOUT_MILLIS
                };
                if all > u64::MAX {
                    u64::MAX as int
                } else {
                    all
                }
            }),
    {
        let timeout: u64 = if policy == CswPolicy::AllowMissing {
            SHORT_TIMEOUT_MILLIS
        } else {
            TIMEOUT_MILLIS
        };
        let deadline: u64 = if timeout > u64::MAX - now {
            u64::MAX
        } else {
            now + timeout
        };
        CswReader { tag, policy, deadline }
    }

    /// Says what to do at `now`.
    pub fn step(&self, buf: &mut Vec<u8>, now: u64) -> (step: ReadStep<CswResult>)
        ensures
            (final(buf)@, csw_step_view(step)) == csw_reader_step(*self, old(buf)@, now),
    {
        match scan_csw(buf, self.tag) {
            Some(csw) => ReadStep::Done(Ok(Some(csw))),
            None => {
                if now < self.deadline {
                    return ReadStep::Read(remaining(now, self.deadline, SHORT_TIMEOUT_MILLIS));
                }
                let begun = starts_signed(buf.as_slice());
                if self.policy == CswPolicy::AllowMissing {
                    if begun {
                        *buf = Vec::new();
                        assert(buf@ =~= Seq::<u8>::empty());
                    }
                    return ReadStep::Done(Ok(None));
                }
                let e = if begun {
                    let mut e = "Timed out waiting for 13 buffered bytes (have ".to_string();
                    push_dec(&mut e, buf.len() as u64);
                    e.append(")");
                    e
                } else {
                    let mut e = "No CSW for tag ".to_string();
                    push_dec(&mut e, self.tag as u64);
                    e.append(" before timeout");
                    e
                };
                ReadStep::Done(Err(e))
            },
        }
    }

    /// Says what a read that gave nothing comes to; nothing where the reader goes on.
    pub fn failed(&self, buf: &mut Vec<u8>, why: ReadFailure) -> (r: Option<CswResult>)
        ensures
            (
                final(buf)@,
                match r {
                    Some(result) => Some(write_outcome(result)),
                    None => None,
                },
            ) == csw_reader_failed(*self, old(buf)@, why@),
    {
        let begun = starts_signed(buf.as_slice());
        let missing_ok = self.policy == CswPolicy::AllowMissing;
        match why {
            ReadFailure::Timeout => {
                if !begun && missing_ok {
                    Some(Ok(None))
                } else {
                    None
                }
            },
            ReadFailure::Gone(e) => {
                if missing_ok {
                    if begun {
                        *buf = Vec::new();
                        assert(buf@ =~= Seq::<u8>::empty());
                    }
                    Some(Ok(None))
                } else {
                    Some(Err(in_failed(e.as_str())))
                }
            },
            ReadFailure::Other(e) => {
                if begun && missing_ok {
                    *buf = Vec::new();
                    assert(buf@ =~= Seq::<u8>::empty());
                    Some(Ok(None))
                } else {
                    Some(Err(in_failed(e.as_str())))
                }
            },
        }
    }
}

/// What is said of a read that failed.
fn in_failed(e: &str) -> (s: String)
    ensures
        s@ == "IN EP read failed: "@ + e@,
{
    let mut s = "IN EP read failed: ".to_string();
    s.append(e);
    s
}

/// Whether the signature of a status wrapper stands at the front.
fn starts_signed(b: &[u8]) -> (r: bool)
    ensures
        r == signed_at(b@, 0),
{
    let r = b.len() >= 4 && b[0] == 0x55 && b[1] == 0x53 && b[2] == 0x42 && b[3] == 0x53;
    proof {
        if b@.len() >= 4 {
            let s = b@.subrange(0, 4);
            assert(s[0] == b@[0] && s[1] == b@[1] && s[2] == b@[2] && s[3] == b@[3]);
            if r {
                assert(s =~= le32(AIC_USB_SIGN_USBS));
            }
        }
    }
    r
}

/// What is said where a status wrapper came in place of data.
pub open spec fn wrapper_for_data(b: Seq<u8>) -> Option<Seq<char>> {
    if b.len() < CSW_LEN || !signed_at(b, 0) {
        None
    } else {
        Some(
            "Bulk read timed out: device returned CSW instead of DATA (tag="@ + dec(
                le32_at(b, 4) as nat,
            ) + ", status="@ + dec(b[12] as nat) + ", residue="@ + dec(le32_at(b, 8) as nat)
                + ", buffered="@ + dec(b.len()) + ")"@,
        )
    }
}

/// What is said where a status wrapper came in place of data.
pub fn unexpected_csw_error(b: &[u8]) -> (r: Option<String>)
    ensures
        match r {
            Some(s) => wrapper_for_data(b@) == Some(s@),
            None => wrapper_for_data(b@) is None,
        },
{
    if !starts_signed(b) {
        return None;
    }
    match AicCsw::from_bytes(b) {
        None => None,
        Some(csw) => {
            let mut s =
                "Bulk read timed out: device returned CSW instead of DATA (tag=".to_string();
            push_dec(&mut s, csw.tag_val() as u64);
            s.append(", status=");
            push_dec(&mut s, csw.status_val() as u64);
            s.append(", residue=");
            push_dec(&mut s, csw.data_residue_val() as u64);
            s.append(", buffered=");
            push_dec(&mut s, b.len() as u64);
            s.append(")");
            Some(s)
        },
    }
}

/// What is said of data that did not come in time.
pub open spec fn data_late(b: Seq<u8>, len: usize) -> Seq<char> {
    match wrapper_for_data(b) {
        Some(s) => s,
        None => "Bulk read timed out with "@ + dec(b.len()) + "/"@ + dec(len as nat)
            + " bytes buffered"@,
    }
}

fn late_data(b: &[u8], len: usize) -> (s: String)
    ensures
        s@ == data_late(b@, len),
{
    match unexpected_csw_error(b) {
        Some(s) => s,
        None => {
            let mut s = "Bulk read timed out with ".to_string();
            push_dec(&mut s, b.len() as u64);
            s.append("/");
            push_dec(&mut s, len as u64);
            s.append(" bytes buffered");
            s
        },
    }
}

/// Reading the data of a transaction.
pub struct DataReader {
    pub len: usize,
    pub deadline: u64,
}

/// A step of reading data, with its bytes and texts as sequences.
pub open spec fn data_step_view(step: ReadStep<Result<Vec<u8>, String>>) -> ReadStep<
    Result<Seq<u8>, Seq<char>>,
> {
    match step {
        ReadStep::Read(ms) => ReadStep::Read(ms),
        ReadStep::Done(r) => ReadStep::Done(read_outcome(r)),
    }
}

/// What the reader of data does at `now` with the buffer `b`, and what is left of the buffer:
/// the data is taken off its front as soon as all of it came.
pub open spec fn data_reader_step(r: DataReader, b: Seq<u8>, now: u64) -> (
    Seq<u8>,
    ReadStep<Result<Seq<u8>, Seq<char>>>,
) {
    if b.len() >= r.len {
        (b.skip(r.len as int), ReadStep::Done(Ok(b.take(r.len as int))))
    } else if now >= r.deadline {
        (b, ReadStep::Done(Err(data_late(b, r.len))))
    } else {
        (b, ReadStep::Read(time_left(now, r.deadline, TIMEOUT_MILLIS)))
    }
}

impl DataReader {
    /// Begins to read `len` bytes at `now`.
    pub fn new(len: usize, now: u64) -> (r: Self)
        ensures
            r.len == len,
            r.deadline == (if now + TIMEOUT_MILLIS > u64::MAX {
                u64::MAX as int
            } else {
                now + TIMEOUT_MILLIS
            }),
    {
        let deadline: u64 = if now > u64::MAX - TIMEOUT_MILLIS {
            u64::MAX
        } else {
            now + TIMEOUT_MILLIS
        };
        DataReader { len, deadline }
    }

    /// Says what to do at `now`.
    pub fn step(&self, buf: &mut Vec<u8>, now: u64) -> (step: ReadStep<Result<Vec<u8>, String>>)
        ensures
            (final(buf)@, data_step_view(step)) == data_reader_step(*self, old(buf)@, now),
    {
        if buf.len() >= self.len {
            let data = copy_bytes(slice_subrange(buf.as_slice(), 0, self.len));
            let rest = copy_bytes(slice_subrange(buf.as_slice(), self.len, buf.len()));
            assert(data@ =~= buf@.take(self.len as int));
            assert(rest@ =~= buf@.skip(self.len as int));
            *buf = rest;
            return ReadStep::Done(Ok(data));
        }
        if now >= self.deadline {
            return ReadStep::Done(Err(late_data(buf.as_slice(), self.len)));
        }
        ReadStep::Read(remaining(now, self.deadline, TIMEOUT_MILLIS))
    }

    /// Says why a read that gave nothing ends the transaction.
    pub fn failed(&self, buf: &Vec<u8>, why: ReadFailure) -> (s: String)
        ensures
            s@ == (match why@ {
                ReadFailure::Timeout => data_late(buf@, self.len),
                ReadFailure::Gone(e) | ReadFailure::Other(e) => "Bulk read failed: "@ + e,
            }),
    {
        match why {
            ReadFailure::Timeout => late_data(buf.as_slice(), self.len),
            ReadFailure::Gone(e) | ReadFailure::Other(e) => {
                let mut s = "Bulk read failed: ".to_string();
                s.append(e.as_str());
                s
            },
        }
    }
}

// ---------------------------------------------------------------------------------------
// Writing
// ---------------------------------------------------------------------------------------
/// Writing `len` bytes, `written` of which are through.
pub struct BulkWrite {
    pub len: usize,
    pub written: usize,
}

/// What a writer does next.
pub enum WriteStep<S = String> {
    /// Write the bytes of this range.
    Write(usize, usize),
    Done(Result<(), S>),
}

impl View for WriteStep {
    type V = WriteStep<Seq<char>>;

    open spec fn view(&self) -> WriteStep<Seq<char>> {
        match *self {
            WriteStep::Write(from, to) => WriteStep::Write(from, to),
            WriteStep::Done(r) => WriteStep::Done(done(r)),
        }
    }
}

/// The next bytes to write.
pub open spec fn write_next(w: BulkWrite) -> WriteStep<Seq<char>> {
    if w.written >= w.len {
        WriteStep::Done(Ok(()))
    } else if w.len - w.written < BULK_WRITE_CHUNK {
        WriteStep::Write(w.written, w.len)
    } else {
        WriteStep::Write(w.written, (w.written + BULK_WRITE_CHUNK) as usize)
    }
}

/// What is said of a write that failed.
pub open spec fn write_failure(w: BulkWrite, e: Seq<char>) -> Seq<char> {
    "Bulk write failed at "@ + dec(w.written as nat) + "/"@ + dec(w.len as nat) + ": "@ + e
}

/// What a writer does after its last write.
pub open spec fn write_step(w: BulkWrite, outcome: Result<usize, Seq<char>>) -> (
    BulkWrite,
    WriteStep<Seq<char>>,
) {
    match outcome {
        Err(e) => (w, WriteStep::Done(Err(write_failure(w, e)))),
        Ok(n) => if n == 0 {
            (w, WriteStep::Done(Err("Bulk write made no progress"@)))
        } else {
            let v = BulkWrite {
                written: if w.written + n < w.len {
                    (w.written + n) as usize
                } else {
                    w.len
                },
                ..w
            };
            (v, write_next(v))
        },
    }
}

impl BulkWrite {
    /// A write of `len` bytes, of which none has gone out.
    pub fn new(len: usize) -> (w: Self)
        ensures
            w.len == len,
            w.written == 0,
    {
        BulkWrite { len, written: 0 }
    }

    /// The next bytes to write.
    pub fn begin(&self) -> (step: WriteStep)
        ensures
            step@ == write_next(*self),
    {
        if self.written >= self.len {
            WriteStep::Done(Ok(()))
        } else if self.len - self.written < BULK_WRITE_CHUNK {
            WriteStep::Write(self.written, self.len)
        } else {
            WriteStep::Write(self.written, self.written + BULK_WRITE_CHUNK)
        }
    }

    /// Says what to do after the last write.
    pub fn step(&mut self, outcome: Result<usize, String>) -> (step: WriteStep)
        requires
            old(self).written <= old(self).len,
        ensures
            final(self).written <= final(self).len,
            (*final(self), step@) == write_step(
                *old(self),
                match outcome {
                    Ok(n) => Ok(n),
                    Err(e) => Err(e@),
                },
            ),
    {
        match outcome {
            Err(e) => {
                let mut s = "Bulk write failed at ".to_string();
                push_dec(&mut s, self.written as u64);
                s.append("/");
                push_dec(&mut s, self.len as u64);
                s.append(": ");
                s.append(e.as_str());
                WriteStep::Done(Err(s))
            },
            Ok(n) => {
                if n == 0 {
                    return WriteStep::Done(Err("Bulk write made no progress".to_string()));
                }
                self.written = if n < self.len - self.written {
                    self.written + n
                } else {
                    self.len
                };
                self.begin()
            },
        }
    }
}

/// Every write makes progress: the ranges follow one another without a gap, and the last one
/// ends with the data.
pub proof fn writes_follow_one_another(w: BulkWrite, n: usize)
    requires
        w.written < w.len,
        0 < n,
        write_next(w) matches WriteStep::Write(from, to) && n <= to - from,
    ensures
        write_next(w) matches WriteStep::Write(from, to) && from == w.written && from < to
            <= w.len && to - from <= BULK_WRITE_CHUNK && write_step(w, Ok(n)).0.written == from
            + n,
{
}

/// Whether an error says that a data phase of `len` bytes did not even start.
pub fn is_bulk_write_start_timeout(err: &str, len: usize) -> (r: bool)
    ensures
        r == mentions(err@, start_timeout_text(len)),
{
    let mut pat = "Bulk write failed at 0/".to_string();
    push_dec(&mut pat, len as u64);
    pat.append(": Operation timed out");
    str_contains(err, pat.as_str())
}

/// What an error says where a data phase of `len` bytes did not even start.
pub open spec fn start_timeout_text(len: usize) -> Seq<char> {
    "Bulk write failed at 0/"@ + dec(len as nat) + ": Operation timed out"@
}

/// Whether a data phase that ended with `err` is tried again at `now`.
pub fn data_phase_again(err: &str, len: usize, now: u64, deadline: u64) -> (r: bool)
    ensures
        r == (mentions(err@, start_timeout_text(len)) && now < deadline),
{
    is_bulk_write_start_timeout(err, len) && now < deadline
}

// ---------------------------------------------------------------------------------------
// Transactions
// ---------------------------------------------------------------------------------------
/// What a status wrapper means for the transaction `tag`.
pub open spec fn csw_check(csw: Seq<u8>, tag: u32) -> Result<(), Seq<char>> {
    if le32_at(csw, 4) != tag {
        Err(
            "CSW tag mismatch: got "@ + dec(le32_at(csw, 4) as nat) + ", expected "@ + dec(
                tag as nat,
            ),
        )
    } else if !csw_ok(csw) {
        Err(
            "CSW failed: status="@ + dec(csw[12] as nat) + " residue="@ + dec(
                le32_at(csw, 8) as nat,
            ),
        )
    } else {
        Ok(())
    }
}

/// What a status wrapper means for the transaction `expected_tag`.
pub fn check_csw(csw: &AicCsw, expected_tag: u32) -> (r: Result<(), String>)
    ensures
        done(r) == csw_check(csw@, expected_tag),
{
    if csw.tag_val() != expected_tag {
        let mut e = "CSW tag mismatch: got ".to_string();
        push_dec(&mut e, csw.tag_val() as u64);
        e.append(", expected ");
        push_dec(&mut e, expected_tag as u64);
        return Err(e);
    }
    if !csw.is_ok() {
        let mut e = "CSW failed: status=".to_string();
        push_dec(&mut e, csw.status_val() as u64);
        e.append(" residue=");
        push_dec(&mut e, csw.data_residue_val() as u64);
        return Err(e);
    }
    Ok(())
}

/// What the status of a transaction comes to: the wrapper must report success, and may be
/// missing only where the policy allows it.
pub open spec fn status_verdict(
    read: Result<Option<Seq<u8>>, Seq<char>>,
    tag: u32,
    policy: CswPolicy,
) -> Result<Option<Seq<u8>>, Seq<char>> {
    match read {
        Err(e) => Err(e),
        Ok(None) => if policy == CswPolicy::Required {
            Err("CSW unexpectedly missing"@)
        } else {
            Ok(None)
        },
        Ok(Some(csw)) => match csw_check(csw, tag) {
            Err(e) => Err(e),
            Ok(()) => Ok(Some(csw)),
        },
    }
}

/// What the status of a transaction comes to.
pub fn judge_status(read: CswResult, tag: u32, policy: CswPolicy) -> (r: CswResult)
    ensures
        write_outcome(r) == status_verdict(write_outcome(read), tag, policy),
{
    match read {
        Err(e) => Err(e),
        Ok(None) => {
            if policy == CswPolicy::Required {
                Err("CSW unexpectedly missing".to_string())
            } else {
                Ok(None)
            }
        },
        Ok(Some(csw)) => match check_csw(&csw, tag) {
            Err(e) => Err(e),
            Ok(()) => Ok(Some(csw)),
        },
    }
}

/// The wrapper that opens a write transaction.
pub fn write_command(tag: u32, payload_len: usize) -> (v: Vec<u8>)
    ensures
        v@ == cbw_bytes(tag, payload_len as u32, 0, TRANS_LAYER_CMD_WRITE),
{
    copy_bytes(AicCbw::new_write(tag, payload_len as u32).to_bytes())
}

/// The wrapper that opens a read transaction.
pub fn read_command(tag: u32, read_len: u32) -> (v: Vec<u8>)
    ensures
        v@ == cbw_bytes(tag, read_len, 0x80, TRANS_LAYER_CMD_READ),
{
    copy_bytes(AicCbw::new_read(tag, read_len).to_bytes())
}

} // verus!
