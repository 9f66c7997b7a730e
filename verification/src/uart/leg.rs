//! One leg of a transaction: a buffer sent to the device, or received from it.
use vstd::prelude::*;

use crate::codec::{copy_bytes, push_bytes};
use crate::number::{dec, push_dec};
use crate::uart::frame::{
    concat, fits_frame, frame_slices, pack_frame, packed, packed_frame_unpacks, slice_bytes,
    sliced, slices_make_the_buffer, status_of, FrameStatus, ACK, DC1_SEND, DC2_RECV,
};
use crate::uart::wire::{
    fresh_reception, one_byte, prompt_step, reception_step, Prompt, Purpose, Reception, WireAction,
    WireEvent,
};

verus! {

/// The size of the device's buffer: after so many bytes it must be told again to send.
pub const DEVICE_SLICE: usize = 65536;

/// The number of the block after `blk`.
pub open spec fn next_block(blk: u8) -> u8 {
    if blk == 255 {
        0
    } else {
        (blk + 1) as u8
    }
}

/// A prompt that was not made yet.
pub open spec fn fresh_prompt(bytes: Seq<u8>, purpose: Purpose) -> Prompt<Seq<u8>, Seq<char>> {
    Prompt { bytes, purpose, tries: 0, last_err: Seq::empty(), greeting: false }
}

// ---------------------------------------------------------------------------------------
// Sending
// ---------------------------------------------------------------------------------------
/// Sending a buffer.
pub struct Sending {
    /// The number of the block that goes out next.
    pub blk: u8,
    /// What the frames after the present one carry.
    pub queue: Seq<Seq<u8>>,
    pub prompt: Prompt<Seq<u8>, Seq<char>>,
    /// Whether there is anything to send.
    pub wanted: bool,
}

/// The beginning of sending `data`: the device is told to listen.
pub open spec fn sending(blk: u8, data: Seq<u8>) -> Sending {
    Sending {
        blk,
        queue: sliced(data),
        prompt: fresh_prompt(seq![DC1_SEND], Purpose::SwitchToSend),
        wanted: data.len() > 0,
    }
}

/// What the sender does after `event`: once the device listens, the frames go out one after the
/// other, each when the one before it was acknowledged.
pub open spec fn sending_step(s: Sending, event: WireEvent<Seq<char>>) -> (
    Sending,
    WireAction<Seq<u8>, Seq<char>>,
) {
    if !s.wanted {
        (s, WireAction::Done(Ok(Seq::empty())))
    } else {
        match prompt_step(s.prompt, event) {
            (p, WireAction::Done(Ok(_))) => {
                let blk = if p.purpose == Purpose::Frame {
                    next_block(s.blk)
                } else {
                    s.blk
                };
                if s.queue.len() == 0 {
                    (Sending { blk, prompt: p, ..s }, WireAction::Done(Ok(Seq::empty())))
                } else {
                    let (next, action) = prompt_step(
                        fresh_prompt(packed(blk, s.queue[0]), Purpose::Frame),
                        WireEvent::Begin,
                    );
                    (Sending { blk, queue: s.queue.skip(1), prompt: next, ..s }, action)
                }
            },
            (p, action) => (Sending { prompt: p, ..s }, action),
        }
    }
}

/// The bytes that a list of vectors holds.
pub open spec fn vec_bytes(list: Seq<Vec<u8>>) -> Seq<Seq<u8>> {
    Seq::new(list.len(), |i: int| list[i]@)
}

/// A buffer on its way to the device.
pub struct SendLeg {
    blk: u8,
    slices: Vec<Vec<u8>>,
    next: usize,
    prompt: Prompt,
    wanted: bool,
}

impl View for SendLeg {
    type V = Sending;

    closed spec fn view(&self) -> Sending {
        Sending {
            blk: self.blk,
            queue: vec_bytes(self.slices@).skip(self.next as int),
            prompt: self.prompt@,
            wanted: self.wanted,
        }
    }
}

impl SendLeg {
    #[verifier::type_invariant]
    spec fn in_range(self) -> bool {
        self.next <= self.slices@.len()
    }

    /// Begins to send `data`, the first frame of it as block `blk`.
    pub fn new(blk: u8, data: &[u8]) -> (leg: Self)
        ensures
            leg@ == sending(blk, data@),
    {
        let parts = frame_slices(data);
        let mut slices: Vec<Vec<u8>> = Vec::new();
        let mut i: usize = 0;
        while i < parts.len()
            invariant
                i <= parts.len(),
                slices@.len() == i,
                forall|j: int| 0 <= j < i ==> (#[trigger] slices@[j])@ == parts@[j]@,
            decreases parts.len() - i,
        {
            slices.push(copy_bytes(parts[i]));
            i = i + 1;
        }
        let leg = SendLeg {
            blk,
            slices,
            next: 0,
            prompt: Prompt::new(one_byte(DC1_SEND), Purpose::SwitchToSend),
            wanted: data.len() > 0,
        };
        assert(vec_bytes(leg.slices@).skip(0) =~= slice_bytes(parts@));
        leg
    }

    /// The number of the block that goes out next.
    pub fn block(&self) -> (blk: u8)
        ensures
            blk == self@.blk,
    {
        self.blk
    }

    /// Says what to do after `event`.
    pub fn step(&mut self, event: WireEvent) -> (action: WireAction)
        ensures
            (final(self)@, action@) == sending_step(old(self)@, event@),
    {
        proof {
            use_type_invariant(&*self);
        }
        if !self.wanted {
            return done_empty();
        }
        let mut prompt = Prompt::new(Vec::new(), Purpose::Frame);
        std::mem::swap(&mut prompt, &mut self.prompt);
        let action = prompt.step(event);
        match action {
            WireAction::Done(Ok(_)) => {
                if prompt.purpose == Purpose::Frame {
                    self.blk = if self.blk == 255 {
                        0
                    } else {
                        self.blk + 1
                    };
                }
                if self.next == self.slices.len() {
                    self.prompt = prompt;
                    return done_empty();
                }
                let ghost queue = vec_bytes(self.slices@).skip(self.next as int);
                let data = self.slices[self.next].as_slice();
                let mut frame = Prompt::new(pack_frame(self.blk, data), Purpose::Frame);
                let first = frame.step(WireEvent::Begin);
                assert(queue[0] == data@);
                self.next = self.next + 1;
                assert(vec_bytes(self.slices@).skip(self.next as int) =~= queue.skip(1));
                self.prompt = frame;
                first
            },
            other => {
                self.prompt = prompt;
                other
            },
        }
    }
}

/// Success that gives nothing back.
fn done_empty() -> (action: WireAction)
    ensures
        action@ == (WireAction::<Seq<u8>, Seq<char>>::Done(Ok(Seq::empty()))),
{
    let nothing: Vec<u8> = Vec::new();
    assert(nothing@ =~= Seq::<u8>::empty());
    WireAction::Done(Ok(nothing))
}

// ---------------------------------------------------------------------------------------
// Receiving
// ---------------------------------------------------------------------------------------
/// The present dealing of a receiver.
pub enum Dealing<B = Vec<u8>, S = String> {
    Switch(Prompt<B, S>),
    Frame(Reception<B, S>),
}

impl View for Dealing {
    type V = Dealing<Seq<u8>, Seq<char>>;

    open spec fn view(&self) -> Dealing<Seq<u8>, Seq<char>> {
        match *self {
            Dealing::Switch(p) => Dealing::Switch(p@),
            Dealing::Frame(r) => Dealing::Frame(r@),
        }
    }
}

/// Receiving a buffer.
pub struct Receiving {
    pub port_name: Seq<char>,
    /// How many bytes are to come.
    pub len: usize,
    /// What came so far.
    pub out: Seq<u8>,
    /// How much had come when the device was last told to send.
    pub switched_at: int,
    pub dealing: Dealing<Seq<u8>, Seq<char>>,
}

/// Telling the device to send.
pub open spec fn switch_to_recv() -> Prompt<Seq<u8>, Seq<char>> {
    fresh_prompt(seq![DC2_RECV], Purpose::SwitchToRecv)
}

/// The beginning of receiving `len` bytes: the device is told to send.
pub open spec fn receiving(port_name: Seq<char>, len: usize) -> Receiving {
    Receiving {
        port_name,
        len,
        out: Seq::empty(),
        switched_at: 0,
        dealing: Dealing::Switch(switch_to_recv()),
    }
}

/// Why a buffer is refused that has grown too long.
pub open spec fn too_much_text(have: nat, more: nat, len: usize) -> Seq<char> {
    "Device sent more data than expected ("@ + dec(have) + " + "@ + dec(more) + " > "@ + dec(
        len as nat,
    ) + ")"@
}

/// The next frame.
pub open spec fn next_frame(s: Receiving) -> (Receiving, WireAction<Seq<u8>, Seq<char>>) {
    let (r, action) = reception_step(fresh_reception(s.port_name), WireEvent::Begin);
    (Receiving { dealing: Dealing::Frame(r), ..s }, action)
}

/// What the receiver does with the data of a frame: more than was asked for is an error; where
/// more is to come, the device is told again to send whenever its buffer is through.
pub open spec fn taken_in(s: Receiving, chunk: Seq<u8>) -> (
    Receiving,
    WireAction<Seq<u8>, Seq<char>>,
) {
    if s.out.len() + chunk.len() > s.len {
        (s, WireAction::Done(Err(too_much_text(s.out.len(), chunk.len(), s.len))))
    } else {
        let t = Receiving { out: s.out + chunk, ..s };
        if t.out.len() == t.len {
            (t, WireAction::Done(Ok(t.out)))
        } else if t.out.len() - t.switched_at >= DEVICE_SLICE {
            let (p, action) = prompt_step(switch_to_recv(), WireEvent::Begin);
            (
                Receiving { switched_at: t.out.len() as int, dealing: Dealing::Switch(p), ..t },
                action,
            )
        } else {
            next_frame(t)
        }
    }
}

/// What the receiver does after `event`.
pub open spec fn receiving_step(s: Receiving, event: WireEvent<Seq<char>>) -> (
    Receiving,
    WireAction<Seq<u8>, Seq<char>>,
) {
    if s.len == 0 {
        (s, WireAction::Done(Ok(Seq::empty())))
    } else {
        match s.dealing {
            Dealing::Switch(p) => match prompt_step(p, event) {
                (q, WireAction::Done(Ok(_))) => next_frame(s),
                (q, action) => (Receiving { dealing: Dealing::Switch(q), ..s }, action),
            },
            Dealing::Frame(r) => match reception_step(r, event) {
                (q, WireAction::Done(Ok(chunk))) => taken_in(
                    Receiving { dealing: Dealing::Frame(q), ..s },
                    chunk,
                ),
                (q, action) => (Receiving { dealing: Dealing::Frame(q), ..s }, action),
            },
        }
    }
}

/// A buffer on its way from the device.
pub struct RecvLeg {
    port_name: String,
    len: usize,
    out: Vec<u8>,
    switched_at: usize,
    dealing: Dealing,
}

impl View for RecvLeg {
    type V = Receiving;

    closed spec fn view(&self) -> Receiving {
        Receiving {
            port_name: self.port_name@,
            len: self.len,
            out: self.out@,
            switched_at: self.switched_at as int,
            dealing: self.dealing@,
        }
    }
}

impl RecvLeg {
    /// No more came than was asked for, and the last switch lies behind.
    #[verifier::type_invariant]
    spec fn in_range(self) -> bool {
        self.switched_at <= self.out@.len() <= self.len
    }

    /// Begins to receive `len` bytes.
    pub fn new(port_name: &str, len: usize) -> (leg: Self)
        ensures
            leg@ == receiving(port_name@, len),
    {
        let out: Vec<u8> = Vec::new();
        assert(out@ =~= Seq::<u8>::empty());
        RecvLeg {
            port_name: port_name.to_string(),
            len,
            out,
            switched_at: 0,
            dealing: Dealing::Switch(Prompt::new(one_byte(DC2_RECV), Purpose::SwitchToRecv)),
        }
    }

    /// Awaits the next frame.
    fn await_frame(&mut self) -> (action: WireAction)
        ensures
            (final(self)@, action@) == next_frame(old(self)@),
    {
        proof {
            use_type_invariant(&*self);
        }
        let mut r = Reception::new(self.port_name.as_str());
        let action = r.step(WireEvent::Begin);
        self.dealing = Dealing::Frame(r);
        action
    }

    /// Takes in the data of a frame.
    fn take_in(&mut self, chunk: Vec<u8>) -> (action: WireAction)
        ensures
            (final(self)@, action@) == taken_in(old(self)@, chunk@),
    {
        proof {
            use_type_invariant(&*self);
        }
        if chunk.len() > self.len - self.out.len() {
            return WireAction::Done(
                Err(too_much(self.out.len(), chunk.len(), self.len)),
            );
        }
        let switched_at: usize = self.switched_at;
        let mut out: Vec<u8> = Vec::new();
        self.switched_at = 0;
        std::mem::swap(&mut out, &mut self.out);
        push_bytes(&mut out, chunk.as_slice());
        self.out = out;
        self.switched_at = switched_at;
        if self.out.len() == self.len {
            WireAction::Done(Ok(copy_bytes(self.out.as_slice())))
        } else if self.out.len() - self.switched_at >= DEVICE_SLICE {
            let mut p = Prompt::new(one_byte(DC2_RECV), Purpose::SwitchToRecv);
            let action = p.step(WireEvent::Begin);
            self.switched_at = self.out.len();
            self.dealing = Dealing::Switch(p);
            action
        } else {
            self.await_frame()
        }
    }

    /// Says what to do after `event`.
    pub fn step(&mut self, event: WireEvent) -> (action: WireAction)
        ensures
            (final(self)@, action@) == receiving_step(old(self)@, event@),
    {
        proof {
            use_type_invariant(&*self);
        }
        if self.len == 0 {
            return done_empty();
        }
        let mut dealing = Dealing::Frame(Reception::new(""));
        std::mem::swap(&mut dealing, &mut self.dealing);
        match dealing {
            Dealing::Switch(mut p) => {
                let action = p.step(event);
                self.dealing = Dealing::Switch(p);
                match action {
                    WireAction::Done(Ok(_)) => self.await_frame(),
                    other => other,
                }
            },
            Dealing::Frame(mut r) => {
                let action = r.step(event);
                self.dealing = Dealing::Frame(r);
                match action {
                    WireAction::Done(Ok(chunk)) => self.take_in(chunk),
                    other => other,
                }
            },
        }
    }
}

/// Why a buffer is refused that has grown too long.
fn too_much(have: usize, more: usize, len: usize) -> (s: String)
    ensures
        s@ == too_much_text(have as nat, more as nat, len),
{
    let mut s = "Device sent more data than expected (".to_string();
    push_dec(&mut s, have as u64);
    s.append(" + ");
    push_dec(&mut s, more as u64);
    s.append(" > ");
    push_dec(&mut s, len as u64);
    s.append(")");
    s
}

// ---------------------------------------------------------------------------------------
// What holds of them
// ---------------------------------------------------------------------------------------
/// The frames that carry `slices` as consecutive blocks from `blk` on.
pub open spec fn numbered(blk: u8, slices: Seq<Seq<u8>>) -> Seq<Seq<u8>>
    decreases slices.len(),
{
    if slices.len() == 0 {
        Seq::empty()
    } else {
        seq![packed(blk, slices[0])] + numbered(next_block(blk), slices.skip(1))
    }
}

/// What the sender still writes if everything is acknowledged at once, the present prompt
/// too.
pub open spec fn smooth_writes(s: Sending) -> Seq<Seq<u8>>
    decreases s.queue.len(),
{
    if s.queue.len() == 0 {
        Seq::empty()
    } else {
        match sending_step(s, WireEvent::Byte(ACK)) {
            (t, WireAction::Write(bytes)) => if t.queue.len() < s.queue.len() {
                seq![bytes] + smooth_writes(t)
            } else {
                Seq::empty()
            },
            _ => Seq::empty(),
        }
    }
}

proof fn lemma_smooth_writes(s: Sending)
    requires
        s.wanted,
        !s.prompt.greeting,
    ensures
        smooth_writes(s) == numbered(
            if s.prompt.purpose == Purpose::Frame {
                next_block(s.blk)
            } else {
                s.blk
            },
            s.queue,
        ),
    decreases s.queue.len(),
{
    if s.queue.len() > 0 {
        let t = sending_step(s, WireEvent::Byte(ACK)).0;
        lemma_smooth_writes(t);
    }
}

/// On a line where everything is acknowledged at once, the frames of a buffer go out in order,
/// once each, as consecutive blocks.
pub proof fn frames_go_out_in_order(blk: u8, data: Seq<u8>)
    requires
        data.len() > 0,
    ensures
        smooth_writes(sending(blk, data)) == numbered(blk, sliced(data)),
{
    lemma_smooth_writes(sending(blk, data));
}

/// What a receiver comes to that takes in `chunks` one after the other, if it comes to an end.
pub open spec fn taken_all(s: Receiving, chunks: Seq<Seq<u8>>) -> Option<
    Result<Seq<u8>, Seq<char>>,
>
    decreases chunks.len(),
{
    if chunks.len() == 0 {
        None
    } else {
        match taken_in(s, chunks[0]) {
            (_, WireAction::Done(r)) => Some(r),
            (t, _) => taken_all(t, chunks.skip(1)),
        }
    }
}

proof fn lemma_taken_all(s: Receiving, chunks: Seq<Seq<u8>>)
    requires
        chunks.len() > 0,
        forall|i: int| 0 <= i < chunks.len() ==> (#[trigger] chunks[i]).len() > 0,
        s.out.len() + concat(chunks).len() == s.len,
    ensures
        taken_all(s, chunks) == Some(Ok::<Seq<u8>, Seq<char>>(s.out + concat(chunks))),
    decreases chunks.len(),
{
    let rest = chunks.skip(1);
    assert(s.out + (chunks[0] + concat(rest)) =~= (s.out + chunks[0]) + concat(rest));
    if rest.len() == 0 {
        assert(concat(rest) =~= Seq::<u8>::empty());
        assert(s.out + chunks[0] =~= s.out + concat(chunks));
    } else {
        assert(rest[0].len() > 0);
        assert(concat(rest) =~= rest[0] + concat(rest.skip(1)));
        let t = taken_in(s, chunks[0]).0;
        assert(t.out == s.out + chunks[0]);
        assert forall|i: int| 0 <= i < rest.len() implies (#[trigger] rest[i]).len() > 0 by {
            assert(chunks[i + 1].len() > 0);
        }
        lemma_taken_all(t, rest);
    }
}

/// A receiver that takes in the slices of a buffer ends with the buffer.
pub proof fn slices_are_received(port_name: Seq<char>, len: usize, data: Seq<u8>)
    requires
        data.len() == len,
        len > 0,
    ensures
        taken_all(receiving(port_name, len), sliced(data)) == Some(
            Ok::<Seq<u8>, Seq<char>>(data),
        ),
{
    slices_make_the_buffer(data);
    lemma_taken_all(receiving(port_name, len), sliced(data));
    assert(Seq::<u8>::empty() + data =~= data);
}

proof fn lemma_numbered_unpack(blk: u8, slices: Seq<Seq<u8>>, i: int)
    requires
        0 <= i < slices.len(),
        fits_frame(slices[i]),
    ensures
        numbered(blk, slices).len() == slices.len(),
        status_of(numbered(blk, slices)[i]) == FrameStatus::Good(slices[i]),
    decreases slices.len(),
{
    let rest = slices.skip(1);
    if i == 0 {
        packed_frame_unpacks(blk, slices[0]);
        if rest.len() > 0 {
            lemma_numbered_len(next_block(blk), rest);
        }
    } else {
        lemma_numbered_unpack(next_block(blk), rest, i - 1);
        assert(numbered(blk, slices)[i] == numbered(next_block(blk), rest)[i - 1]);
    }
}

proof fn lemma_numbered_len(blk: u8, slices: Seq<Seq<u8>>)
    ensures
        numbered(blk, slices).len() == slices.len(),
    decreases slices.len(),
{
    if slices.len() > 0 {
        lemma_numbered_len(next_block(blk), slices.skip(1));
    }
}

/// What goes in at one end of the line comes out at the other: the frames that the sender writes
/// unpack, each for itself, to slices that make a receiver end with the buffer that was sent.
pub proof fn buffers_cross_the_line(port_name: Seq<char>, len: usize, blk: u8, data: Seq<u8>)
    requires
        data.len() == len,
        len > 0,
    ensures
        smooth_writes(sending(blk, data)).len() == sliced(data).len(),
        forall|i: int|
            0 <= i < sliced(data).len() ==> status_of(
                #[trigger] smooth_writes(sending(blk, data))[i],
            ) == FrameStatus::Good(sliced(data)[i]),
        taken_all(receiving(port_name, len), sliced(data)) == Some(
            Ok::<Seq<u8>, Seq<char>>(data),
        ),
{
    frames_go_out_in_order(blk, data);
    slices_make_the_buffer(data);
    slices_are_received(port_name, len, data);
    lemma_numbered_len(blk, sliced(data));
    assert forall|i: int| 0 <= i < sliced(data).len() implies status_of(
        #[trigger] smooth_writes(sending(blk, data))[i],
    ) == FrameStatus::Good(sliced(data)[i]) by {
        assert(fits_frame(sliced(data)[i]));
        lemma_numbered_unpack(blk, sliced(data), i);
    }
}

} // verus!
