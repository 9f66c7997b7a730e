//! What holds of transactions over bulk endpoints.
use vstd::prelude::*;

use crate::codec::{le32, le32_at};
use crate::device::delivery::word;
use crate::number::dec;
use crate::protocol::cbw_csw::{
    cbw_bytes, cbw_fields, AIC_USB_SIGN_USBS, CSW_LEN, TRANS_LAYER_CMD_READ, TRANS_LAYER_CMD_WRITE,
};
use crate::transport::CswPolicy;
use crate::usb::bulk::{
    answer_has_the_tag, csw_check, csw_reader_failed, csw_reader_step, data_late, data_reader_step,
    loose_end, scanned, signature_from, signed_at, start_timeout_text, status_verdict, time_left,
    wrapper_for_data, write_failure, write_next, write_step, BulkWrite, CswReader, DataReader,
    ReadFailure, ReadStep, WriteStep,
};

verus! {

// ---------------------------------------------------------------------------------------
// Wrappers
// ---------------------------------------------------------------------------------------
/// The bytes of a wrapper that opens a transaction, one by one: the letters USBC, tag and length,
/// least significant byte first, the direction, and a command of one byte.
pub proof fn wrappers_are_laid_out(tag: u32, len: u32)
    ensures
        ({
            let w = cbw_bytes(tag, len, 0, TRANS_LAYER_CMD_WRITE);
            let r = cbw_bytes(tag, len, 0x80, TRANS_LAYER_CMD_READ);
            &&& w.len() == 31 && r.len() == 31
            &&& w[0] == 0x55 && w[1] == 0x53 && w[2] == 0x42 && w[3] == 0x43
            &&& word(w, 4) == tag && word(w, 8) == len
            &&& w[12] == 0 && w[13] == 0 && w[14] == 1 && w[15] == 1
            &&& forall|i: int| 16 <= i < 31 ==> w[i] == 0
            &&& forall|i: int|
                0 <= i < 31 && i != 12 && i != 15 ==> r[i] == #[trigger] w[i]
            &&& r[12] == 0x80 && r[15] == 2
        }),
{
    let w = cbw_bytes(tag, len, 0, TRANS_LAYER_CMD_WRITE);
    cbw_fields(tag, len, 0, TRANS_LAYER_CMD_WRITE);
    cbw_fields(tag, len, 0x80, TRANS_LAYER_CMD_READ);
    assert(le32_at(w, 4) == word(w, 4));
    assert(le32_at(w, 8) == word(w, 8));
}

/// Whether `b` begins with the letters that sign a status wrapper.
pub open spec fn is_signed(b: Seq<u8>) -> bool {
    b.len() >= 4 && b[0] == 0x55 && b[1] == 0x53 && b[2] == 0x42 && b[3] == 0x53
}

proof fn lemma_signed(b: Seq<u8>, i: int)
    requires
        0 <= i <= b.len(),
    ensures
        signed_at(b, i) <==> is_signed(b.skip(i)),
{
    let s = b.skip(i);
    if i + 4 <= b.len() {
        let t = b.subrange(i, i + 4);
        assert(t[0] == s[0] && t[1] == s[1] && t[2] == s[2] && t[3] == s[3]);
        let sign = le32(AIC_USB_SIGN_USBS);
        assert(sign[0] == 0x55 && sign[1] == 0x53 && sign[2] == 0x42 && sign[3] == 0x53);
        if is_signed(s) {
            assert(t =~= sign);
        }
    }
}

/// Whether `b` is a status wrapper for the transaction `tag`.
pub open spec fn is_wrapper(b: Seq<u8>, tag: u32) -> bool {
    b.len() == 13 && is_signed(b) && word(b, 4) == tag
}

proof fn lemma_first_signature(b: Seq<u8>, i: int)
    requires
        0 <= i,
    ensures
        match signature_from(b, i) {
            Some(p) => i <= p < b.len() && signed_at(b, p) && forall|j: int|
                i <= j < p ==> !signed_at(b, j),
            None => forall|j: int| i <= j ==> !signed_at(b, j),
        },
    decreases b.len() - i,
{
    if i < b.len() && !signed_at(b, i) {
        lemma_first_signature(b, i + 1);
    }
}

proof fn lemma_signature_at(b: Seq<u8>, i: int, p: int)
    requires
        0 <= i <= p < b.len(),
        signed_at(b, p),
        forall|j: int| i <= j < p ==> !signed_at(b, j),
    ensures
        signature_from(b, i) == Some(p),
    decreases p - i,
{
    if i < p {
        assert(!signed_at(b, i));
        lemma_signature_at(b, i + 1, p);
    }
}

proof fn lemma_no_signature(b: Seq<u8>, i: int)
    requires
        0 <= i,
        forall|j: int| i <= j ==> !signed_at(b, j),
    ensures
        signature_from(b, i) is None,
    decreases b.len() - i,
{
    if i < b.len() {
        lemma_no_signature(b, i + 1);
    }
}

/// The status wrapper of a transaction is found behind bytes that mean nothing, whole and
/// unchanged, and what came behind it is kept.
pub proof fn wrappers_are_found_behind_noise(
    noise: Seq<u8>,
    csw: Seq<u8>,
    more: Seq<u8>,
    tag: u32,
)
    requires
        is_wrapper(csw, tag),
        forall|j: int|
            0 <= j < noise.len() ==> !is_signed((noise + csw + more).skip(j)),
    ensures
        scanned(noise + csw + more, tag) == (more, Some(csw)),
{
    let b = noise + csw + more;
    let p = noise.len() as int;
    assert(b.skip(p)[0] == csw[0] && b.skip(p)[1] == csw[1] && b.skip(p)[2] == csw[2] && b.skip(
        p,
    )[3] == csw[3]);
    lemma_signed(b, p);
    assert forall|j: int| 0 <= j < p implies !signed_at(b, j) by {
        lemma_signed(b, j);
    }
    lemma_signature_at(b, 0, p);
    let w = b.skip(p);
    assert(w.take(13) =~= csw);
    assert(w.skip(13) =~= more);
    assert(le32_at(w, 4) == word(csw, 4)) by {
        assert(w[4] == csw[4] && w[5] == csw[5] && w[6] == csw[6] && w[7] == csw[7]);
    }
}

/// Looking for a wrapper that has not come yet drops nothing that could belong to it: whatever
/// comes later, the same is found as if nothing had been dropped.
pub proof fn looking_loses_nothing(b: Seq<u8>, more: Seq<u8>, tag: u32)
    requires
        scanned(b, tag).1 is None,
    ensures
        scanned(b + more, tag) == scanned(scanned(b, tag).0 + more, tag),
    decreases b.len(),
{
    let all = b + more;
    lemma_first_signature(b, 0);
    match signature_from(b, 0) {
        None => {
            if b.len() > 3 {
                let cut = b.len() - 3;
                let rest = loose_end(b) + more;
                assert(rest =~= all.skip(cut));
                assert forall|j: int| 0 <= j < cut implies !signed_at(all, j) by {
                    assert(!signed_at(b, j));
                    assert(all.subrange(j, j + 4) =~= b.subrange(j, j + 4));
                }
                lemma_drop_front(all, cut, tag);
            }
        },
        Some(p) => {
            let w = b.skip(p);
            lemma_same_signature(b, more, p);
            assert(all.skip(p) =~= w + more);
            lemma_skip_to(all, p, tag);
            if w.len() >= CSW_LEN {
                assert(le32_at(w + more, 4) == le32_at(w, 4));
                assert((w + more).skip(CSW_LEN as int) =~= w.skip(CSW_LEN as int) + more);
                looking_loses_nothing(w.skip(CSW_LEN as int), more, tag);
                lemma_signed_front(w + more, tag);
            }
        },
    }
}

proof fn lemma_same_signature(b: Seq<u8>, more: Seq<u8>, p: int)
    requires
        signature_from(b, 0) == Some(p),
    ensures
        signature_from(b + more, 0) == Some(p),
        signed_at((b + more).skip(p), 0),
{
    let all = b + more;
    lemma_first_signature(b, 0);
    assert(all.subrange(p, p + 4) =~= b.subrange(p, p + 4));
    assert forall|j: int| 0 <= j < p implies !signed_at(all, j) by {
        assert(all.subrange(j, j + 4) =~= b.subrange(j, j + 4));
        assert(!signed_at(b, j));
    }
    lemma_signature_at(all, 0, p);
    assert(all.skip(p).subrange(0, 4) =~= all.subrange(p, p + 4));
}

/// What is found from a signature on is what is found in the whole.
proof fn lemma_skip_to(b: Seq<u8>, p: int, tag: u32)
    requires
        signature_from(b, 0) == Some(p),
    ensures
        scanned(b, tag) == scanned(b.skip(p), tag),
{
    lemma_first_signature(b, 0);
    let w = b.skip(p);
    assert(w.subrange(0, 4) =~= b.subrange(p, p + 4));
    assert(signature_from(w, 0) == Some(0int));
    assert(w.skip(0) =~= w);
}

proof fn lemma_signed_front(w: Seq<u8>, tag: u32)
    requires
        signed_at(w, 0),
        w.len() >= CSW_LEN,
        le32_at(w, 4) != tag,
    ensures
        scanned(w, tag) == scanned(w.skip(CSW_LEN as int), tag),
{
    assert(w.skip(0) =~= w);
    assert(signature_from(w, 0) == Some(0int));
}

/// Bytes at which no signature stands can be dropped.
proof fn lemma_drop_front(b: Seq<u8>, cut: int, tag: u32)
    requires
        0 <= cut <= b.len(),
        forall|j: int| 0 <= j < cut ==> !signed_at(b, j),
        b.len() - cut >= 3,
    ensures
        scanned(b, tag) == scanned(b.skip(cut), tag),
{
    let r = b.skip(cut);
    lemma_first_signature(b, 0);
    match signature_from(b, 0) {
        Some(p) => {
            assert(cut <= p);
            assert(r.subrange(p - cut, p - cut + 4) =~= b.subrange(p, p + 4));
            assert forall|j: int| 0 <= j < p - cut implies !signed_at(r, j) by {
                assert(!signed_at(b, j + cut));
                assert(r.subrange(j, j + 4) =~= b.subrange(j + cut, j + cut + 4));
            }
            lemma_signature_at(r, 0, p - cut);
            assert(r.skip(p - cut) =~= b.skip(p));
        },
        None => {
            assert forall|j: int| 0 <= j implies !signed_at(r, j) by {
                assert(!signed_at(b, j + cut));
                if j + 4 <= r.len() {
                    assert(r.subrange(j, j + 4) =~= b.subrange(j + cut, j + cut + 4));
                }
            }
            lemma_no_signature(r, 0);
            assert(loose_end(r) =~= loose_end(b));
        },
    }
}

/// What a status wrapper means: success if and only if it is signed, has the transaction's tag
/// and a status of zero. Otherwise the tag is told where it is another, and else the status and
/// how much was left over.
pub proof fn statuses_are_judged_by_tag_and_status(csw: Seq<u8>, tag: u32)
    requires
        csw.len() == 13,
    ensures
        csw_check(csw, tag) is Ok <==> is_wrapper(csw, tag) && csw[12] == 0,
        word(csw, 4) != tag ==> csw_check(csw, tag) == Err::<(), Seq<char>>(
            "CSW tag mismatch: got "@ + dec(word(csw, 4) as nat) + ", expected "@ + dec(
                tag as nat,
            ),
        ),
        word(csw, 4) == tag && csw[12] != 0 ==> csw_check(csw, tag) == Err::<(), Seq<char>>(
            "CSW failed: status="@ + dec(csw[12] as nat) + " residue="@ + dec(
                word(csw, 8) as nat,
            ),
        ),
{
    assert(le32_at(csw, 0) == word(csw, 0));
    assert(le32_at(csw, 4) == word(csw, 4));
    assert(le32_at(csw, 8) == word(csw, 8));
    lemma_sign_word(csw);
}

proof fn lemma_sign_word(b: Seq<u8>)
    requires
        b.len() >= 4,
    ensures
        word(b, 0) == 0x53425355 <==> is_signed(b),
{
}

/// The status of a transaction: an error stays what it is, and a missing wrapper is let pass only
/// where the policy allows it.
pub proof fn missing_status_is_judged_by_the_policy(
    why: Seq<char>,
    tag: u32,
    policy: CswPolicy,
    csw: Seq<u8>,
)
    ensures
        status_verdict(Err(why), tag, policy) == Err::<Option<Seq<u8>>, Seq<char>>(why),
        status_verdict(Ok(None), tag, CswPolicy::AllowMissing) == Ok::<
            Option<Seq<u8>>,
            Seq<char>,
        >(None),
        status_verdict(Ok(None), tag, CswPolicy::Required) == Err::<Option<Seq<u8>>, Seq<char>>(
            "CSW unexpectedly missing"@,
        ),
        csw.len() == 13 && is_wrapper(csw, tag) && csw[12] == 0 ==> status_verdict(
            Ok(Some(csw)),
            tag,
            policy,
        ) == Ok::<Option<Seq<u8>>, Seq<char>>(Some(csw)),
        csw.len() == 13 && !(is_wrapper(csw, tag) && csw[12] == 0) ==> status_verdict(
            Ok(Some(csw)),
            tag,
            policy,
        ) is Err,
{
    if csw.len() == 13 {
        statuses_are_judged_by_tag_and_status(csw, tag);
    }
}

// ---------------------------------------------------------------------------------------
// Reading
// ---------------------------------------------------------------------------------------
/// A wait lasts until the deadline, but no longer than one may.
pub proof fn waits_end_with_the_deadline(now: u64, deadline: u64, most: u64)
    ensures
        now >= deadline ==> time_left(now, deadline, most) == 0,
        now < deadline ==> time_left(now, deadline, most) <= most && now + time_left(
            now,
            deadline,
            most,
        ) <= deadline && (time_left(now, deadline, most) == most || now + time_left(
            now,
            deadline,
            most,
        ) == deadline),
{
}

/// The reader of a status wrapper gives the wrapper of its transaction as soon as it came, reads
/// on until its deadline where it did not, half a second at a time, and then fails, or lets the
/// wrapper be missing where that is allowed.
pub proof fn status_readers_wait_for_their_wrapper(r: CswReader, b: Seq<u8>, now: u64)
    ensures
        ({
            let (rest, step) = csw_reader_step(r, b, now);
            let (left, found) = scanned(b, r.tag);
            &&& found matches Some(csw) ==> step == ReadStep::Done(
                Ok::<Option<Seq<u8>>, Seq<char>>(Some(csw)),
            ) && rest == left && csw.len() == 13 && word(csw, 4) == r.tag
            &&& found is None && now < r.deadline ==> rest == left && (step matches ReadStep::Read(
                ms,
            ) && 0 < ms <= 500 && now + ms <= r.deadline && (ms == 500 || now + ms == r.deadline))
            &&& found is None && now >= r.deadline && r.policy == CswPolicy::AllowMissing ==> step
                == ReadStep::Done(Ok::<Option<Seq<u8>>, Seq<char>>(None)) && rest == (if is_signed(
                left,
            ) {
                Seq::empty()
            } else {
                left
            })
            &&& found is None && now >= r.deadline && r.policy == CswPolicy::Required ==> rest
                == left && step == ReadStep::Done(
                Err::<Option<Seq<u8>>, Seq<char>>(
                    if is_signed(left) {
                        "Timed out waiting for 13 buffered bytes (have "@ + dec(left.len()) + ")"@
                    } else {
                        "No CSW for tag "@ + dec(r.tag as nat) + " before timeout"@
                    },
                ),
            )
        }),
{
    answer_has_the_tag(b, r.tag);
    let (left, found) = scanned(b, r.tag);
    match found {
        Some(csw) => {
            assert(le32_at(csw, 4) == word(csw, 4));
        },
        None => {},
    }
    assert(left.skip(0) =~= left);
    lemma_signed(left, 0);
}

/// A read that gave nothing: where the wrapper is required, the reader goes on after a wait that
/// was over and fails with the reason otherwise. Where it may be missing it is missing, unless a
/// part of it came and there is still hope, or something else than the device's absence failed
/// before any of it came.
pub proof fn failed_reads_are_judged(r: CswReader, b: Seq<u8>, e: Seq<char>)
    ensures
        r.policy == CswPolicy::Required ==> {
            &&& csw_reader_failed(r, b, ReadFailure::Timeout) == (
                b,
                None::<Result<Option<Seq<u8>>, Seq<char>>>,
            )
            &&& csw_reader_failed(r, b, ReadFailure::Gone(e)) == (
                b,
                Some(Err::<Option<Seq<u8>>, Seq<char>>("IN EP read failed: "@ + e)),
            )
            &&& csw_reader_failed(r, b, ReadFailure::Other(e)) == csw_reader_failed(
                r,
                b,
                ReadFailure::Gone(e),
            )
        },
        r.policy == CswPolicy::AllowMissing ==> {
            let missing = Some(Ok::<Option<Seq<u8>>, Seq<char>>(None));
            let none = Seq::<u8>::empty();
            &&& is_signed(b) ==> {
                &&& csw_reader_failed(r, b, ReadFailure::Gone(e)) == (none, missing)
                &&& csw_reader_failed(r, b, ReadFailure::Other(e)) == (none, missing)
                &&& csw_reader_failed(r, b, ReadFailure::Timeout) == (
                    b,
                    None::<Result<Option<Seq<u8>>, Seq<char>>>,
                )
            }
            &&& !is_signed(b) ==> {
                &&& csw_reader_failed(r, b, ReadFailure::Gone(e)) == (b, missing)
                &&& csw_reader_failed(r, b, ReadFailure::Timeout) == (b, missing)
                &&& csw_reader_failed(r, b, ReadFailure::Other(e)) == (
                    b,
                    Some(Err::<Option<Seq<u8>>, Seq<char>>("IN EP read failed: "@ + e)),
                )
            }
        },
{
    assert(b.skip(0) =~= b);
    lemma_signed(b, 0);
}

/// The reader of data takes exactly as many bytes as it is to read off the front of what came,
/// and leaves the rest; until they came it reads on, and at its deadline it says what came.
pub proof fn data_readers_take_the_front(r: DataReader, b: Seq<u8>, now: u64)
    ensures
        ({
            let (rest, step) = data_reader_step(r, b, now);
            &&& b.len() >= r.len ==> (step matches ReadStep::Done(Ok(data)) && data.len() == r.len
                && data + rest == b)
            &&& b.len() < r.len && now < r.deadline ==> rest == b && (step matches ReadStep::Read(
                ms,
            ) && 0 < ms <= 30_000 && now + ms <= r.deadline && (ms == 30_000 || now + ms
                == r.deadline))
            &&& b.len() < r.len && now >= r.deadline ==> rest == b && (step matches ReadStep::Done(
                Err(e),
            ) && e == data_late(b, r.len))
        }),
{
    if b.len() >= r.len {
        assert(b.take(r.len as int) + b.skip(r.len as int) =~= b);
    }
}

/// Data that is late is told by how much of it came; where a status wrapper came in its place,
/// what that says is told.
pub proof fn late_data_is_explained(b: Seq<u8>, len: usize)
    ensures
        is_signed(b) && b.len() >= 13 ==> data_late(b, len)
            == "Bulk read timed out: device returned CSW instead of DATA (tag="@ + dec(
            word(b, 4) as nat,
        ) + ", status="@ + dec(b[12] as nat) + ", residue="@ + dec(word(b, 8) as nat)
            + ", buffered="@ + dec(b.len()) + ")"@,
        !(is_signed(b) && b.len() >= 13) ==> data_late(b, len) == "Bulk read timed out with "@
            + dec(b.len()) + "/"@ + dec(len as nat) + " bytes buffered"@,
        wrapper_for_data(b) is Some <==> is_signed(b) && b.len() >= 13,
{
    assert(b.skip(0) =~= b);
    lemma_signed(b, 0);
    if b.len() >= 13 {
        assert(le32_at(b, 4) == word(b, 4));
        assert(le32_at(b, 8) == word(b, 8));
    }
}

// ---------------------------------------------------------------------------------------
// Writing
// ---------------------------------------------------------------------------------------
/// What is written next are the bytes behind those that are through, sixty-four kibibytes at most
/// and never fewer than are left below that; a write is over if and only if none is left.
pub proof fn writes_take_what_is_left(w: BulkWrite)
    requires
        w.written <= w.len,
    ensures
        w.written == w.len ==> write_next(w) == WriteStep::Done(Ok::<(), Seq<char>>(())),
        w.written < w.len ==> (write_next(w) matches WriteStep::Write(from, to) && from
            == w.written && to <= w.len && (to == w.len || to == from + 65536) && to - from
            <= 65536),
{
}

/// After a write as many bytes are through as were written; one that wrote none, or failed, ends
/// it, and says how far it came.
pub proof fn writes_count_what_is_through(w: BulkWrite, n: usize, e: Seq<char>)
    requires
        w.written <= w.len,
    ensures
        write_step(w, Err(e)).1 == WriteStep::Done(
            Err::<(), Seq<char>>(
                "Bulk write failed at "@ + dec(w.written as nat) + "/"@ + dec(w.len as nat)
                    + ": "@ + e,
            ),
        ),
        write_step(w, Ok(0)).1 == WriteStep::Done(
            Err::<(), Seq<char>>("Bulk write made no progress"@),
        ),
        write_step(w, Err(e)).0 == w,
        write_step(w, Ok(0)).0 == w,
        0 < n <= w.len - w.written ==> write_step(w, Ok(n)).0 == (BulkWrite {
            len: w.len,
            written: (w.written + n) as usize,
        }),
        n > w.len - w.written ==> write_step(w, Ok(n)).0 == (BulkWrite {
            len: w.len,
            written: w.len,
        }),
        0 < n ==> write_step(w, Ok(n)).0.len == w.len && write_step(w, Ok(n)).0.written <= w.len
            && write_step(w, Ok(n)).1 == write_next(write_step(w, Ok(n)).0),
{
}

/// A data phase that did not start is known by its error: none of its bytes went out in time.
pub proof fn unstarted_writes_are_known(len: usize)
    ensures
        write_failure(BulkWrite { len, written: 0 }, "Operation timed out"@) == start_timeout_text(
            len,
        ),
{
    let text = "Operation timed out"@;
    reveal_strlit("Bulk write failed at ");
    reveal_strlit("/");
    reveal_strlit(": ");
    reveal_strlit("Operation timed out");
    reveal_strlit("Bulk write failed at 0/");
    reveal_strlit(": Operation timed out");
    assert(dec(0) =~= seq!['0']);
    assert("Bulk write failed at "@ + dec(0) + "/"@ =~= "Bulk write failed at 0/"@);
    assert(": "@ + text =~= ": Operation timed out"@);
    assert(write_failure(BulkWrite { len, written: 0 }, text) =~= "Bulk write failed at 0/"@
        + dec(len as nat) + (": "@ + text));
}

} // verus!
