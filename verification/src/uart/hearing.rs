//! Receiving a frame out of what comes over the line: noise, damaged copies and an intact one.
use vstd::prelude::*;

use crate::codec::{be16, be16_at};
use crate::uart::frame::{
    crc16, fits_frame, packed, packed_frame_unpacks, status_of, FrameStatus, ACK,
    LONG_FRAME_DATA, NAK, SOH, STX,
};
use crate::uart::wire::{fresh_reception, reception_step, Reception, WireAction, WireEvent};

verus! {

/// A reception over a line on which every write succeeds.
#[verifier::ext_equal]
pub struct Hearing {
    pub state: Reception<Seq<u8>, Seq<char>>,
    /// What was written so far.
    pub written: Seq<u8>,
    /// What the reception came to; from then on nothing is read.
    pub outcome: Option<Result<Seq<u8>, Seq<char>>>,
}

/// A reception that has heard and written nothing.
pub open spec fn fresh_hearing(port_name: Seq<char>) -> Hearing {
    Hearing { state: fresh_reception(port_name), written: Seq::empty(), outcome: None }
}

/// After a byte came in, and what is to be written for it was written.
pub open spec fn hear_byte(l: Hearing, b: u8) -> Hearing {
    if l.outcome is Some {
        l
    } else {
        let (heard, action) = reception_step(l.state, WireEvent::Byte(b));
        match action {
            WireAction::Write(bytes) => {
                let (told, next) = reception_step(heard, WireEvent::Written);
                Hearing {
                    state: told,
                    written: l.written + bytes,
                    outcome: match next {
                        WireAction::Done(r) => Some(r),
                        _ => None,
                    },
                }
            },
            WireAction::Done(r) => Hearing { state: heard, outcome: Some(r), ..l },
            _ => Hearing { state: heard, ..l },
        }
    }
}

/// After the bytes of `bytes` came in, one after the other.
pub open spec fn hear(l: Hearing, bytes: Seq<u8>) -> Hearing
    decreases bytes.len(),
{
    if bytes.len() == 0 {
        l
    } else {
        hear_byte(hear(l, bytes.drop_last()), bytes.last())
    }
}

/// Whether no frame begins in `bytes`.
pub open spec fn is_noise(bytes: Seq<u8>) -> bool {
    forall|i: int| 0 <= i < bytes.len() ==> #[trigger] bytes[i] != SOH && bytes[i] != STX
}

/// Whether `copy` is the frame that carries `data` but for its checksum.
pub open spec fn is_damaged(copy: Seq<u8>, blk: u8, data: Seq<u8>) -> bool {
    let whole = packed(blk, data);
    &&& copy.len() == whole.len()
    &&& copy.take(whole.len() - 2) == whole.take(whole.len() - 2)
    &&& copy != whole
}

/// The bytes of tries that failed: each is noise and a damaged copy behind it.
pub open spec fn failed_tries(tries: Seq<(Seq<u8>, Seq<u8>)>) -> Seq<u8>
    decreases tries.len(),
{
    if tries.len() == 0 {
        Seq::empty()
    } else {
        failed_tries(tries.drop_last()) + tries.last().0 + tries.last().1
    }
}

/// `n` refusals.
pub open spec fn refusals(n: nat) -> Seq<u8> {
    Seq::new(n, |i: int| NAK)
}

/// What is heard after `a` and then `b` is heard after both.
proof fn lemma_hear_both(l: Hearing, a: Seq<u8>, b: Seq<u8>)
    ensures
        hear(l, a + b) == hear(hear(l, a), b),
    decreases b.len(),
{
    if b.len() == 0 {
        assert(a + b =~= a);
    } else {
        assert((a + b).drop_last() =~= a + b.drop_last());
        assert((a + b).last() == b.last());
        lemma_hear_both(l, a, b.drop_last());
    }
}

/// A reception that awaits a frame, with `written` written so far.
spec fn awaiting(port_name: Seq<char>, written: Seq<u8>) -> Hearing {
    Hearing { state: fresh_reception(port_name), written, outcome: None }
}

/// Noise changes nothing.
proof fn lemma_noise(port_name: Seq<char>, written: Seq<u8>, noise: Seq<u8>)
    requires
        is_noise(noise),
    ensures
        hear(awaiting(port_name, written), noise) == awaiting(port_name, written),
    decreases noise.len(),
{
    if noise.len() > 0 {
        let front = noise.drop_last();
        assert forall|i: int| 0 <= i < front.len() implies #[trigger] front[i] != SOH && front[i]
            != STX by {
            assert(front[i] == noise[i]);
        }
        lemma_noise(port_name, written, front);
        let b = noise[noise.len() - 1];
        assert(b != SOH && b != STX);
    }
}

/// A frame that is incomplete up to its last byte is collected in silence.
proof fn lemma_collected(port_name: Seq<char>, written: Seq<u8>, b: Seq<u8>, n: int)
    requires
        0 <= n < b.len(),
        b[0] == SOH || b[0] == STX,
        forall|k: int|
            0 <= k < b.len() ==> status_of(#[trigger] b.take(k)) == FrameStatus::<Seq<u8>>::More,
    ensures
        hear(awaiting(port_name, written), b.take(n)) == (Hearing {
            state: Reception { port_name, frame: b.take(n), result: None },
            written,
            outcome: None,
        }),
    decreases n,
{
    let t = b.take(n);
    if n > 0 {
        lemma_collected(port_name, written, b, n - 1);
        assert(t.drop_last() =~= b.take(n - 1));
        assert(t.last() == b[n - 1]);
        assert(b.take(n - 1).push(b[n - 1]) =~= t);
    } else {
        assert(t =~= Seq::<u8>::empty());
    }
}

/// A damaged copy is incomplete up to its last byte, and with it the damage shows.
proof fn lemma_damage_shows(copy: Seq<u8>, blk: u8, data: Seq<u8>)
    requires
        fits_frame(data),
        is_damaged(copy, blk, data),
    ensures
        copy[0] == SOH || copy[0] == STX,
        status_of(copy) == FrameStatus::<Seq<u8>>::Bad,
        forall|k: int|
            0 <= k < copy.len() ==> status_of(#[trigger] copy.take(k))
                == FrameStatus::<Seq<u8>>::More,
{
    let whole = packed(blk, data);
    let head: int = if data.len() == LONG_FRAME_DATA {
        3
    } else {
        4
    };
    let len = data.len() as int;
    assert(whole.len() == head + len + 2);
    assert forall|i: int| 0 <= i < head + len implies copy[i] == whole[i] by {
        assert(copy.take(head + len)[i] == whole.take(head + len)[i]);
    }
    assert(copy.subrange(head, head + len) =~= data);
    let crc = crc16(data);
    assert(whole[head + len] == be16(crc)[0] && whole[head + len + 1] == be16(crc)[1]);
    if be16_at(copy, head + len) == crc {
        assert(copy[head + len] == whole[head + len]);
        assert(copy[head + len + 1] == whole[head + len + 1]);
        assert(copy =~= whole);
    }
    assert forall|k: int| 0 <= k < copy.len() implies status_of(#[trigger] copy.take(k))
        == FrameStatus::<Seq<u8>>::More by {
        let t = copy.take(k);
        if k > 0 {
            assert(t[0] == copy[0]);
        }
        if k >= head {
            assert(t[1] == copy[1] && t[2] == copy[2]);
            if head == 4 {
                assert(t[3] == copy[3]);
            }
        }
    }
}

/// A damaged copy is refused, and the next one awaited.
proof fn lemma_damaged(
    port_name: Seq<char>,
    written: Seq<u8>,
    copy: Seq<u8>,
    blk: u8,
    data: Seq<u8>,
)
    requires
        fits_frame(data),
        is_damaged(copy, blk, data),
    ensures
        hear(awaiting(port_name, written), copy) == awaiting(port_name, written.push(NAK)),
{
    lemma_damage_shows(copy, blk, data);
    let n = copy.len() - 1;
    lemma_collected(port_name, written, copy, n);
    assert(copy.drop_last() =~= copy.take(n));
    assert(copy.take(n).push(copy.last()) =~= copy);
    assert(written + seq![NAK] =~= written.push(NAK));
}

/// Receiving undoes packing, whatever came before: noise is passed over, every damaged copy of
/// the frame is refused and asked for again, and the intact one is acknowledged and gives the
/// data that was put in. No damaged copy is acknowledged, and none is given back.
pub proof fn damaged_frames_are_asked_for_again(
    port_name: Seq<char>,
    blk: u8,
    data: Seq<u8>,
    tries: Seq<(Seq<u8>, Seq<u8>)>,
    noise: Seq<u8>,
)
    requires
        fits_frame(data),
        forall|i: int|
            0 <= i < tries.len() ==> is_noise((#[trigger] tries[i]).0) && is_damaged(
                tries[i].1,
                blk,
                data,
            ),
        is_noise(noise),
    ensures
        hear(fresh_hearing(port_name), failed_tries(tries)) == (Hearing {
            state: fresh_reception(port_name),
            written: refusals(tries.len()),
            outcome: None,
        }),
        ({
            let end = hear(
                fresh_hearing(port_name),
                failed_tries(tries) + noise + packed(blk, data),
            );
            &&& end.written == refusals(tries.len()).push(ACK)
            &&& end.outcome == Some(Ok::<Seq<u8>, Seq<char>>(data))
        }),
{
    lemma_tries(port_name, blk, data, tries);
    let start = fresh_hearing(port_name);
    let no = refusals(tries.len());
    let b = packed(blk, data);
    lemma_hear_both(start, failed_tries(tries), noise);
    lemma_noise(port_name, no, noise);
    lemma_hear_both(start, failed_tries(tries) + noise, b);
    packed_frame_unpacks(blk, data);
    let n = b.len() - 1;
    lemma_collected(port_name, no, b, n);
    assert(b.drop_last() =~= b.take(n));
    assert(b.take(n).push(b.last()) =~= b);
    assert(no + seq![ACK] =~= no.push(ACK));
}

proof fn lemma_tries(
    port_name: Seq<char>,
    blk: u8,
    data: Seq<u8>,
    tries: Seq<(Seq<u8>, Seq<u8>)>,
)
    requires
        fits_frame(data),
        forall|i: int|
            0 <= i < tries.len() ==> is_noise((#[trigger] tries[i]).0) && is_damaged(
                tries[i].1,
                blk,
                data,
            ),
    ensures
        hear(fresh_hearing(port_name), failed_tries(tries)) == awaiting(
            port_name,
            refusals(tries.len()),
        ),
    decreases tries.len(),
{
    let start = fresh_hearing(port_name);
    if tries.len() == 0 {
        assert(refusals(0) =~= Seq::<u8>::empty());
    } else {
        let front = tries.drop_last();
        let last = tries[tries.len() - 1];
        assert forall|i: int| 0 <= i < front.len() implies is_noise((#[trigger] front[i]).0)
            && is_damaged(front[i].1, blk, data) by {
            assert(front[i] == tries[i]);
        }
        lemma_tries(port_name, blk, data, front);
        let no = refusals(front.len());
        lemma_hear_both(start, failed_tries(front), last.0);
        lemma_noise(port_name, no, last.0);
        lemma_hear_both(start, failed_tries(front) + last.0, last.1);
        lemma_damaged(port_name, no, last.1, blk, data);
        assert(no.push(NAK) =~= refusals(tries.len()));
    }
}

/// What a reception acknowledges is a frame whose checksum is right: the data that it gives is
/// what stands in the frame, and its checksum stands behind it. Until then the frame is
/// incomplete.
pub proof fn only_sound_frames_are_acknowledged(
    s: Reception<Seq<u8>, Seq<char>>,
    event: WireEvent<Seq<char>>,
)
    requires
        status_of(s.frame) is More,
    ensures
        ({
            let (t, action) = reception_step(s, event);
            if action == WireAction::<Seq<u8>, Seq<char>>::Write(seq![ACK]) {
                &&& t.result matches Some(Ok(data)) && status_of(t.frame) == FrameStatus::Good(
                    data,
                ) && crc16(data) == be16_at(t.frame, t.frame.len() - 2)
            } else {
                status_of(t.frame) is More
            }
        }),
{
    assert(seq![NAK][0] != seq![ACK][0]);
    match event {
        WireEvent::Byte(b) => {
            let frame = s.frame.push(b);
            if s.frame.len() > 0 {
                assert(frame[0] == s.frame[0]);
            }
            if s.frame.len() > 3 {
                assert(frame[1] == s.frame[1] && frame[2] == s.frame[2] && frame[3] == s.frame[3]);
            }
        },
        _ => {},
    }
}

} // verus!
