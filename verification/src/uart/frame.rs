//! Frames on the serial line.
//!
//! The layout is defined by the bootloader:
//! - short: `SOH blk 255-blk len data(<=176) crc16-be`
//! - long:  `STX blk 255-blk data(==1024) crc16-be`
use vstd::prelude::*;
use vstd::slice::slice_subrange;

use crate::codec::{be16, be16_at, copy_bytes, from_be16, lemma_be16, push_bytes, to_be16};

verus! {

/// Begins a short frame.
pub const SOH: u8 = 0x01;

/// Begins a long frame.
pub const STX: u8 = 0x02;

/// Acknowledges.
pub const ACK: u8 = 0x06;

/// Asks for the direction to the device.
pub const DC1_SEND: u8 = 0x11;

/// Asks for the direction from the device.
pub const DC2_RECV: u8 = 0x12;

/// Asks for a frame again.
pub const NAK: u8 = 0x15;

/// Begins a boot keyword.
pub const SYN: u8 = 0x16;

/// Breaks off.
pub const CAN: u8 = 0x18;

/// The greeting of a device in upgrade mode.
pub const SIG_A: u8 = 0x41;

/// Asks whether anyone is there.
pub const SIG_C: u8 = 0x43;

/// How many bytes a long frame carries.
pub const LONG_FRAME_DATA: usize = 1024;

/// How many bytes a short frame carries.
pub const SHORT_FRAME_DATA: usize = 176;

// ---------------------------------------------------------------------------------------
// Checksum
// ---------------------------------------------------------------------------------------
/// One step of the division by the generator polynomial.
pub open spec fn crc_shift(crc: u16) -> u16 {
    if crc & 0x8000 != 0 {
        (crc << 1) ^ 0x1021
    } else {
        crc << 1
    }
}

/// `n` steps of the division.
pub open spec fn crc_shifts(crc: u16, n: nat) -> u16
    decreases n,
{
    if n == 0 {
        crc
    } else {
        crc_shift(crc_shifts(crc, (n - 1) as nat))
    }
}

/// The CRC-16 of `data`: the remainder by x^16 + x^12 + x^5 + 1, most significant bit first,
/// from zero.
pub open spec fn crc16(data: Seq<u8>) -> u16
    decreases data.len(),
{
    if data.len() == 0 {
        0
    } else {
        crc_shifts(crc16(data.drop_last()) ^ ((data.last() as u16) << 8), 8)
    }
}

/// The CRC-16 of `data`.
pub fn crc16_ccitt(data: &[u8]) -> (crc: u16)
    ensures
        crc == crc16(data@),
{
    let mut crc: u16 = 0;
    let mut i: usize = 0;
    while i < data.len()
        invariant
            i <= data.len(),
            crc == crc16(data@.take(i as int)),
        decreases data.len() - i,
    {
        let ghost before = crc;
        crc = crc ^ ((data[i] as u16) << 8);
        let ghost mixed = crc;
        let mut k: usize = 0;
        while k < 8
            invariant
                k <= 8,
                crc == crc_shifts(mixed, k as nat),
            decreases 8 - k,
        {
            if crc & 0x8000 != 0 {
                crc = (crc << 1) ^ 0x1021;
            } else {
                crc = crc << 1;
            }
            k = k + 1;
        }
        proof {
            let next = data@.take(i + 1);
            assert(next.drop_last() =~= data@.take(i as int));
            assert(next.last() == data@[i as int]);
        }
        i = i + 1;
    }
    assert(data@.take(data.len() as int) =~= data@);
    crc
}

// ---------------------------------------------------------------------------------------
// Packing
// ---------------------------------------------------------------------------------------
/// The frame that carries `data` as block `blk`.
pub open spec fn packed(blk: u8, data: Seq<u8>) -> Seq<u8> {
    let inverse = (255 - blk) as u8;
    if data.len() == LONG_FRAME_DATA {
        seq![STX, blk, inverse] + data + be16(crc16(data))
    } else {
        seq![SOH, blk, inverse, data.len() as u8] + data + be16(crc16(data))
    }
}

/// The frame that carries `data` as block `blk`.
pub fn pack_frame(blk: u8, data: &[u8]) -> (frame: Vec<u8>)
    ensures
        frame@ == packed(blk, data@),
{
    let mut frame: Vec<u8> = Vec::new();
    if data.len() == LONG_FRAME_DATA {
        frame.push(STX);
        frame.push(blk);
        frame.push(255 - blk);
        assert(frame@ =~= seq![STX, blk, (255 - blk) as u8]);
    } else {
        frame.push(SOH);
        frame.push(blk);
        frame.push(255 - blk);
        frame.push(data.len() as u8);
        assert(frame@ =~= seq![SOH, blk, (255 - blk) as u8, data@.len() as u8]);
    }
    push_bytes(&mut frame, data);
    push_bytes(&mut frame, to_be16(crc16_ccitt(data)).as_slice());
    frame
}

/// How much of `remaining` bytes goes into the next frame.
pub open spec fn slice_len(remaining: nat) -> nat {
    if remaining >= LONG_FRAME_DATA {
        LONG_FRAME_DATA as nat
    } else if remaining >= SHORT_FRAME_DATA {
        SHORT_FRAME_DATA as nat
    } else {
        remaining
    }
}

/// `data` cut into what single frames carry: long frames as long as they can be filled, then
/// short ones.
pub open spec fn sliced(data: Seq<u8>) -> Seq<Seq<u8>>
    decreases data.len(),
{
    if data.len() == 0 {
        Seq::empty()
    } else {
        let n = slice_len(data.len()) as int;
        seq![data.take(n)] + sliced(data.skip(n))
    }
}

/// The bytes that a list of slices holds.
pub open spec fn slice_bytes(list: Seq<&[u8]>) -> Seq<Seq<u8>> {
    Seq::new(list.len(), |i: int| list[i]@)
}

/// `data` cut into what single frames carry.
pub fn frame_slices(data: &[u8]) -> (slices: Vec<&[u8]>)
    ensures
        slice_bytes(slices@) == sliced(data@),
{
    let mut slices: Vec<&[u8]> = Vec::new();
    let mut offset: usize = 0;
    assert(slice_bytes(slices@) =~= Seq::<Seq<u8>>::empty());
    assert(data@.skip(0) =~= data@);
    assert(Seq::<Seq<u8>>::empty() + sliced(data@) =~= sliced(data@));
    while offset < data.len()
        invariant
            offset <= data.len(),
            sliced(data@) == slice_bytes(slices@) + sliced(data@.skip(offset as int)),
        decreases data.len() - offset,
    {
        let remaining: usize = data.len() - offset;
        let len: usize = if remaining >= LONG_FRAME_DATA {
            LONG_FRAME_DATA
        } else if remaining >= SHORT_FRAME_DATA {
            SHORT_FRAME_DATA
        } else {
            remaining
        };
        let piece = slice_subrange(data, offset, offset + len);
        let ghost before = slice_bytes(slices@);
        let ghost rest = data@.skip(offset as int);
        slices.push(piece);
        proof {
            assert(slice_bytes(slices@) =~= before.push(piece@));
            assert(piece@ =~= rest.take(len as int));
            assert(rest.skip(len as int) =~= data@.skip(offset + len));
            assert(before + (seq![piece@] + sliced(data@.skip(offset + len)))
                =~= slice_bytes(slices@) + sliced(data@.skip(offset + len)));
        }
        offset = offset + len;
    }
    assert(data@.skip(offset as int) =~= Seq::<u8>::empty());
    assert(slice_bytes(slices@) + Seq::<Seq<u8>>::empty() =~= slice_bytes(slices@));
    slices
}

/// The pieces one after the other.
pub open spec fn concat(list: Seq<Seq<u8>>) -> Seq<u8>
    decreases list.len(),
{
    if list.len() == 0 {
        Seq::empty()
    } else {
        list[0] + concat(list.skip(1))
    }
}

/// Whether a frame can carry `data` so that the other side can tell it.
pub open spec fn fits_frame(data: Seq<u8>) -> bool {
    data.len() == LONG_FRAME_DATA || data.len() <= SHORT_FRAME_DATA
}

/// The slices of a buffer are the buffer: nothing is lost, added or moved, every slice fits a
/// frame, and none is empty.
pub proof fn slices_make_the_buffer(data: Seq<u8>)
    ensures
        concat(sliced(data)) == data,
        forall|i: int|
            0 <= i < sliced(data).len() ==> fits_frame(#[trigger] sliced(data)[i]) && sliced(
                data,
            )[i].len() > 0,
    decreases data.len(),
{
    if data.len() > 0 {
        let n = slice_len(data.len()) as int;
        let rest = data.skip(n);
        slices_make_the_buffer(rest);
        assert(sliced(data).skip(1) =~= sliced(rest));
        assert(data.take(n) + rest =~= data);
        assert forall|i: int| 0 <= i < sliced(data).len() implies fits_frame(
            #[trigger] sliced(data)[i],
        ) && sliced(data)[i].len() > 0 by {
            if i > 0 {
                assert(sliced(data)[i] == sliced(rest)[i - 1]);
            }
        }
    } else {
        assert(concat(sliced(data)) =~= data);
    }
}

// ---------------------------------------------------------------------------------------
// Unpacking
// ---------------------------------------------------------------------------------------
/// What the bytes of a frame received so far amount to.
pub enum FrameStatus<D = Vec<u8>> {
    /// More bytes must come.
    More,
    /// The frame is damaged; the sender is to repeat it.
    Bad,
    /// The frame is complete and carries this data.
    Good(D),
}

impl View for FrameStatus {
    type V = FrameStatus<Seq<u8>>;

    open spec fn view(&self) -> FrameStatus<Seq<u8>> {
        match *self {
            FrameStatus::More => FrameStatus::More,
            FrameStatus::Bad => FrameStatus::Bad,
            FrameStatus::Good(data) => FrameStatus::Good(data@),
        }
    }
}

/// What the bytes `b` of a frame, which begin with `SOH` or `STX`, amount to.
pub open spec fn status_of(b: Seq<u8>) -> FrameStatus<Seq<u8>> {
    let long = b.len() > 0 && b[0] == STX;
    let head: int = if long {
        3
    } else {
        4
    };
    if b.len() < head {
        FrameStatus::More
    } else if b[1] + b[2] != 255 {
        FrameStatus::Bad
    } else {
        let len: int = if long {
            LONG_FRAME_DATA as int
        } else {
            b[3] as int
        };
        if !long && len > SHORT_FRAME_DATA {
            FrameStatus::Bad
        } else if b.len() < head + len + 2 {
            FrameStatus::More
        } else if crc16(b.subrange(head, head + len)) != be16_at(b, head + len) {
            FrameStatus::Bad
        } else {
            FrameStatus::Good(b.subrange(head, head + len))
        }
    }
}

/// What the bytes of a frame amount to.
pub fn frame_status(b: &[u8]) -> (r: FrameStatus)
    ensures
        r@ == status_of(b@),
{
    let long = b.len() > 0 && b[0] == STX;
    let head: usize = if long {
        3
    } else {
        4
    };
    if b.len() < head {
        return FrameStatus::More;
    }
    if b[1] as u16 + b[2] as u16 != 255 {
        return FrameStatus::Bad;
    }
    let len: usize = if long {
        LONG_FRAME_DATA
    } else {
        b[3] as usize
    };
    if !long && len > SHORT_FRAME_DATA {
        return FrameStatus::Bad;
    }
    if b.len() < head + len + 2 {
        return FrameStatus::More;
    }
    let data = slice_subrange(b, head, head + len);
    if crc16_ccitt(data) != from_be16(b, head + len) {
        return FrameStatus::Bad;
    }
    FrameStatus::Good(copy_bytes(data))
}

/// What is packed can be unpacked: a frame is incomplete up to its last byte, and with it the
/// frame carries the data that was put in.
pub proof fn packed_frame_unpacks(blk: u8, data: Seq<u8>)
    requires
        fits_frame(data),
    ensures
        packed(blk, data)[0] == SOH || packed(blk, data)[0] == STX,
        status_of(packed(blk, data)) == FrameStatus::Good(data),
        forall|n: int|
            0 <= n < packed(blk, data).len() ==> status_of(#[trigger] packed(blk, data).take(n))
                == FrameStatus::<Seq<u8>>::More,
{
    let b = packed(blk, data);
    let head: int = if b[0] == STX {
        3
    } else {
        4
    };
    let len = data.len() as int;
    assert(b.len() == head + len + 2);
    assert(b.subrange(head, head + len) =~= data);
    assert(b.subrange(head + len, head + len + 2) =~= be16(crc16(data)));
    lemma_be16(crc16(data), b, head + len);
    assert forall|n: int| 0 <= n < b.len() implies status_of(#[trigger] b.take(n))
        == FrameStatus::<Seq<u8>>::More by {
        let t = b.take(n);
        if n > 0 {
            assert(t[0] == b[0]);
        }
        if n >= head {
            assert(t[1] == b[1] && t[2] == b[2]);
            if head == 4 {
                assert(t[3] == b[3]);
            }
        }
    }
}

// ---------------------------------------------------------------------------------------
// What the checksum is for
// ---------------------------------------------------------------------------------------
/// A byte that arrives as another one is noticed: the checksum of the data is then another one,
/// wherever the byte stands. No data have a checksum of zero.
pub proof fn wrong_bytes_are_noticed(data: Seq<u8>, k: int, b: u8)
    requires
        0 <= k < data.len(),
        data[k] != b,
    ensures
        crc16(data.update(k, b)) != crc16(data),
        crc16(Seq::empty()) == 0,
    decreases data.len(),
{
    let other = data.update(k, b);
    let front = crc16(data.drop_last());
    if k == data.len() - 1 {
        assert(other.drop_last() =~= data.drop_last());
        let x: u8 = data.last();
        assert(x != b ==> front ^ ((x as u16) << 8) != front ^ ((b as u16) << 8)) by (bit_vector);
        lemma_shifts_differ(front ^ ((b as u16) << 8), front ^ ((x as u16) << 8), 8);
    } else {
        wrong_bytes_are_noticed(data.drop_last(), k, b);
        assert(other.drop_last() =~= data.drop_last().update(k, b));
        let changed = crc16(other.drop_last());
        let x: u8 = data.last();
        assert(other.last() == x);
        assert(changed != front ==> changed ^ ((x as u16) << 8) != front ^ ((x as u16) << 8))
            by (bit_vector);
        lemma_shifts_differ(changed ^ ((x as u16) << 8), front ^ ((x as u16) << 8), 8);
    }
}

proof fn lemma_shifts_differ(a: u16, b: u16, n: nat)
    requires
        a != b,
    ensures
        crc_shifts(a, n) != crc_shifts(b, n),
    decreases n,
{
    if n > 0 {
        lemma_shifts_differ(a, b, (n - 1) as nat);
        let x: u16 = crc_shifts(a, (n - 1) as nat);
        let y: u16 = crc_shifts(b, (n - 1) as nat);
        assert(x != y ==> crc_shift(x) != crc_shift(y)) by (bit_vector);
    }
}

} // verus!
