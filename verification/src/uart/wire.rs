//! Single dealings on the serial line: prompting the device until it acknowledges, and
//! receiving a frame.
//!
//! Each is a machine. Told what came of its last action, it says what to do next; whoever owns
//! the port does it and reports back.
use vstd::prelude::*;

use crate::codec::copy_bytes;
use crate::number::{hex_wide, push_hex};
use crate::uart::frame::{
    fits_frame, frame_status, packed, packed_frame_unpacks, status_of, FrameStatus, ACK, NAK,
    SIG_A, SOH, STX,
};

verus! {

/// How often the device is prompted before it is given up.
pub const MAX_FRAME_RETRIES: usize = 12;

/// What came of the last action.
pub enum WireEvent<S = String> {
    /// Nothing was done yet.
    Begin,
    Written,
    WriteFailed(S),
    Byte(u8),
    /// No byte came in time, or reading failed.
    NoByte(S),
}

impl View for WireEvent {
    type V = WireEvent<Seq<char>>;

    open spec fn view(&self) -> WireEvent<Seq<char>> {
        match *self {
            WireEvent::Begin => WireEvent::Begin,
            WireEvent::Written => WireEvent::Written,
            WireEvent::WriteFailed(e) => WireEvent::WriteFailed(e@),
            WireEvent::Byte(b) => WireEvent::Byte(b),
            WireEvent::NoByte(e) => WireEvent::NoByte(e@),
        }
    }
}

/// What to do next.
pub enum WireAction<B = Vec<u8>, S = String> {
    /// Write the bytes and report whether that succeeded.
    Write(B),
    /// Wait for a byte as long as an acknowledgement may take.
    ReadAck,
    /// Wait for a byte until the time for the whole frame is over.
    ReadData,
    /// The dealing is over. It gave these bytes, or failed.
    Done(Result<B, S>),
}

impl View for WireAction {
    type V = WireAction<Seq<u8>, Seq<char>>;

    open spec fn view(&self) -> WireAction<Seq<u8>, Seq<char>> {
        match *self {
            WireAction::Write(b) => WireAction::Write(b@),
            WireAction::ReadAck => WireAction::ReadAck,
            WireAction::ReadData => WireAction::ReadData,
            WireAction::Done(Ok(b)) => WireAction::Done(Ok(b@)),
            WireAction::Done(Err(e)) => WireAction::Done(Err(e@)),
        }
    }
}

/// What the device is prompted for.
#[derive(Clone, Copy, Debug, Eq, PartialEq, Structural)]
pub enum Purpose {
    /// To listen.
    SwitchToSend,
    /// To talk.
    SwitchToRecv,
    /// To take a frame.
    Frame,
}

/// The name of a direction.
pub open spec fn direction(purpose: Purpose) -> Seq<char> {
    if purpose == Purpose::SwitchToRecv {
        "recv"@
    } else {
        "send"@
    }
}

/// Prompting the device: the same bytes are written until it acknowledges them.
pub struct Prompt<B = Vec<u8>, S = String> {
    pub bytes: B,
    pub purpose: Purpose,
    /// How many times the bytes were written.
    pub tries: usize,
    /// Why the last try came to nothing.
    pub last_err: S,
    /// Whether the last action was a courtesy to a device that announced itself.
    pub greeting: bool,
}

impl View for Prompt {
    type V = Prompt<Seq<u8>, Seq<char>>;

    open spec fn view(&self) -> Prompt<Seq<u8>, Seq<char>> {
        Prompt {
            bytes: self.bytes@,
            purpose: self.purpose,
            tries: self.tries,
            last_err: self.last_err@,
            greeting: self.greeting,
        }
    }
}

/// Why a try came to nothing that was answered by `byte`.
pub open spec fn odd_answer(purpose: Purpose, byte: u8) -> Seq<char> {
    if purpose == Purpose::Frame {
        if byte == NAK {
            "device replied NAK"@
        } else if byte == SIG_A {
            "device announced SIG_A"@
        } else {
            "unexpected 0x"@ + hex_wide(byte as nat, 2) + " while waiting for ACK"@
        }
    } else {
        "unexpected 0x"@ + hex_wide(byte as nat, 2) + " while switching to "@ + direction(
            purpose,
        ) + " mode"@
    }
}

/// Why a prompt failed whose tries all came to nothing.
pub open spec fn prompt_failure(purpose: Purpose, last_err: Seq<char>) -> Seq<char> {
    if purpose == Purpose::Frame {
        "Frame not acknowledged after 12 tries: "@ + last_err
    } else {
        "Failed to switch UART to "@ + direction(purpose) + " mode: "@ + last_err
    }
}

/// The next try, if there is one left.
pub open spec fn retried(s: Prompt<Seq<u8>, Seq<char>>) -> (
    Prompt<Seq<u8>, Seq<char>>,
    WireAction<Seq<u8>, Seq<char>>,
) {
    if s.tries >= MAX_FRAME_RETRIES {
        (s, WireAction::Done(Err(prompt_failure(s.purpose, s.last_err))))
    } else {
        (
            Prompt { tries: (s.tries + 1) as usize, greeting: false, ..s },
            WireAction::Write(s.bytes),
        )
    }
}

/// What a prompt does after `event`.
pub open spec fn prompt_step(
    s: Prompt<Seq<u8>, Seq<char>>,
    event: WireEvent<Seq<char>>,
) -> (Prompt<Seq<u8>, Seq<char>>, WireAction<Seq<u8>, Seq<char>>) {
    if s.greeting {
        retried(s)
    } else {
        match event {
            WireEvent::Begin => retried(s),
            WireEvent::Written => (s, WireAction::ReadAck),
            WireEvent::WriteFailed(e) => (s, WireAction::Done(Err(e))),
            WireEvent::NoByte(e) => retried(Prompt { last_err: e, ..s }),
            WireEvent::Byte(b) => if b == ACK {
                (s, WireAction::Done(Ok(Seq::empty())))
            } else {
                let missed = Prompt { last_err: odd_answer(s.purpose, b), ..s };
                if s.purpose == Purpose::Frame && b == SIG_A {
                    (Prompt { greeting: true, ..missed }, WireAction::Write(seq![ACK]))
                } else {
                    retried(missed)
                }
            },
        }
    }
}

impl Prompt {
    /// A prompt that was not made yet.
    pub fn new(bytes: Vec<u8>, purpose: Purpose) -> (s: Self)
        ensures
            s@ == (Prompt {
                bytes: bytes@,
                purpose,
                tries: 0usize,
                last_err: Seq::<char>::empty(),
                greeting: false,
            }),
    {
        Prompt { bytes, purpose, tries: 0, last_err: String::new(), greeting: false }
    }

    /// Makes the next try, if there is one left.
    fn retry(&mut self) -> (action: WireAction)
        ensures
            (final(self)@, action@) == retried(old(self)@),
    {
        if self.tries >= MAX_FRAME_RETRIES {
            return WireAction::Done(Err(prompt_failed(self.purpose, &self.last_err)));
        }
        self.tries = self.tries + 1;
        self.greeting = false;
        WireAction::Write(copy_bytes(self.bytes.as_slice()))
    }

    /// Says what to do after `event`.
    pub fn step(&mut self, event: WireEvent) -> (action: WireAction)
        ensures
            (final(self)@, action@) == prompt_step(old(self)@, event@),
    {
        if self.greeting {
            return self.retry();
        }
        match event {
            WireEvent::Begin => self.retry(),
            WireEvent::Written => WireAction::ReadAck,
            WireEvent::WriteFailed(e) => WireAction::Done(Err(e)),
            WireEvent::NoByte(e) => {
                self.last_err = e;
                self.retry()
            },
            WireEvent::Byte(b) => {
                if b == ACK {
                    let nothing: Vec<u8> = Vec::new();
                    assert(nothing@ =~= Seq::<u8>::empty());
                    return WireAction::Done(Ok(nothing));
                }
                self.last_err = answered_oddly(self.purpose, b);
                if self.purpose == Purpose::Frame && b == SIG_A {
                    self.greeting = true;
                    let mut ack: Vec<u8> = Vec::new();
                    ack.push(ACK);
                    assert(ack@ =~= seq![ACK]);
                    return WireAction::Write(ack);
                }
                self.retry()
            },
        }
    }
}

/// The name of a direction.
fn direction_name(purpose: Purpose) -> (s: &'static str)
    ensures
        s@ == direction(purpose),
{
    if purpose == Purpose::SwitchToRecv {
        "recv"
    } else {
        "send"
    }
}

/// Why a try came to nothing that was answered by `byte`.
fn answered_oddly(purpose: Purpose, byte: u8) -> (s: String)
    ensures
        s@ == odd_answer(purpose, byte),
{
    if purpose == Purpose::Frame && byte == NAK {
        return "device replied NAK".to_string();
    }
    if purpose == Purpose::Frame && byte == SIG_A {
        return "device announced SIG_A".to_string();
    }
    let mut s = "unexpected 0x".to_string();
    push_hex(&mut s, byte as u64, 2);
    if purpose == Purpose::Frame {
        s.append(" while waiting for ACK");
    } else {
        s.append(" while switching to ");
        s.append(direction_name(purpose));
        s.append(" mode");
    }
    s
}

/// Why a prompt failed whose tries all came to nothing.
fn prompt_failed(purpose: Purpose, last_err: &String) -> (s: String)
    ensures
        s@ == prompt_failure(purpose, last_err@),
{
    if purpose == Purpose::Frame {
        let mut s = "Frame not acknowledged after 12 tries: ".to_string();
        s.append(last_err.as_str());
        s
    } else {
        let mut s = "Failed to switch UART to ".to_string();
        s.append(direction_name(purpose));
        s.append(" mode: ");
        s.append(last_err.as_str());
        s
    }
}

// ---------------------------------------------------------------------------------------
// Receiving a frame
// ---------------------------------------------------------------------------------------
/// Receiving a frame: bytes are collected from `SOH` or `STX` on. A damaged frame is refused,
/// and the next one awaited.
pub struct Reception<B = Vec<u8>, S = String> {
    pub port_name: S,
    /// The bytes of the frame so far.
    pub frame: B,
    /// What the reception comes to once the device is told.
    pub result: Option<Result<B, S>>,
}

impl View for Reception {
    type V = Reception<Seq<u8>, Seq<char>>;

    open spec fn view(&self) -> Reception<Seq<u8>, Seq<char>> {
        Reception {
            port_name: self.port_name@,
            frame: self.frame@,
            result: match self.result {
                Some(Ok(data)) => Some(Ok(data@)),
                Some(Err(e)) => Some(Err(e@)),
                None => None,
            },
        }
    }
}

/// Why a reception failed that `frame` was received of when no more bytes came.
pub open spec fn reception_failure(
    port_name: Seq<char>,
    frame: Seq<u8>,
    e: Seq<char>,
) -> Seq<char> {
    if frame.len() == 0 {
        "Timed out waiting for a frame on '"@ + port_name + "': "@ + e
    } else {
        e
    }
}

/// What a reception does after `event`.
pub open spec fn reception_step(
    s: Reception<Seq<u8>, Seq<char>>,
    event: WireEvent<Seq<char>>,
) -> (Reception<Seq<u8>, Seq<char>>, WireAction<Seq<u8>, Seq<char>>) {
    match event {
        WireEvent::Begin => (s, WireAction::ReadData),
        WireEvent::Written => match s.result {
            Some(r) => (s, WireAction::Done(r)),
            None => (s, WireAction::ReadData),
        },
        WireEvent::WriteFailed(e) => match s.result {
            Some(Ok(_)) => (s, WireAction::Done(Err(e))),
            Some(Err(why)) => (s, WireAction::Done(Err(why))),
            None => (s, WireAction::ReadData),
        },
        WireEvent::NoByte(e) => (
            Reception {
                result: Some(Err(reception_failure(s.port_name, s.frame, e))),
                ..s
            },
            WireAction::Write(seq![NAK]),
        ),
        WireEvent::Byte(b) => if s.frame.len() == 0 && b != SOH && b != STX {
            (s, WireAction::ReadData)
        } else {
            let frame = s.frame.push(b);
            match status_of(frame) {
                FrameStatus::More => (Reception { frame, ..s }, WireAction::ReadData),
                FrameStatus::Bad => (
                    Reception { frame: Seq::empty(), ..s },
                    WireAction::Write(seq![NAK]),
                ),
                FrameStatus::Good(data) => (
                    Reception { frame, result: Some(Ok(data)), ..s },
                    WireAction::Write(seq![ACK]),
                ),
            }
        },
    }
}

/// One byte as a vector.
pub(crate) fn one_byte(b: u8) -> (v: Vec<u8>)
    ensures
        v@ == seq![b],
{
    let mut v: Vec<u8> = Vec::new();
    v.push(b);
    assert(v@ =~= seq![b]);
    v
}

impl Reception {
    /// A reception that did not begin yet.
    pub fn new(port_name: &str) -> (s: Self)
        ensures
            s@ == (Reception {
                port_name: port_name@,
                frame: Seq::<u8>::empty(),
                result: None::<Result<Seq<u8>, Seq<char>>>,
            }),
    {
        let frame: Vec<u8> = Vec::new();
        assert(frame@ =~= Seq::<u8>::empty());
        Reception { port_name: port_name.to_string(), frame, result: None }
    }

    /// Says what to do once the device was told, or could not be.
    fn conclude(&self, failure: Option<String>) -> (action: WireAction)
        ensures
            (self@, action@) == reception_step(
                self@,
                match failure {
                    Some(e) => WireEvent::WriteFailed(e@),
                    None => WireEvent::Written,
                },
            ),
    {
        match &self.result {
            None => WireAction::ReadData,
            Some(Err(why)) => WireAction::Done(Err(why.clone())),
            Some(Ok(data)) => match failure {
                Some(e) => WireAction::Done(Err(e)),
                None => WireAction::Done(Ok(copy_bytes(data.as_slice()))),
            },
        }
    }

    /// Says what to do after `event`.
    pub fn step(&mut self, event: WireEvent) -> (action: WireAction)
        ensures
            (final(self)@, action@) == reception_step(old(self)@, event@),
    {
        match event {
            WireEvent::Begin => WireAction::ReadData,
            WireEvent::Written => self.conclude(None),
            WireEvent::WriteFailed(e) => self.conclude(Some(e)),
            WireEvent::NoByte(e) => {
                if self.frame.len() == 0 {
                    let mut s = "Timed out waiting for a frame on '".to_string();
                    s.append(self.port_name.as_str());
                    s.append("': ");
                    s.append(e.as_str());
                    self.result = Some(Err(s));
                } else {
                    self.result = Some(Err(e));
                }
                WireAction::Write(one_byte(NAK))
            },
            WireEvent::Byte(b) => {
                if self.frame.len() == 0 && b != SOH && b != STX {
                    return WireAction::ReadData;
                }
                self.frame.push(b);
                match frame_status(self.frame.as_slice()) {
                    FrameStatus::More => WireAction::ReadData,
                    FrameStatus::Bad => {
                        self.frame = Vec::new();
                        assert(self.frame@ =~= Seq::<u8>::empty());
                        WireAction::Write(one_byte(NAK))
                    },
                    FrameStatus::Good(data) => {
                        self.result = Some(Ok(data));
                        WireAction::Write(one_byte(ACK))
                    },
                }
            },
        }
    }
}

// ---------------------------------------------------------------------------------------
// What holds of them
// ---------------------------------------------------------------------------------------
/// A prompt succeeds on an acknowledgement and on nothing else, and it is made at most as often
/// as is allowed: each time its bytes are written, a try is counted.
pub proof fn prompt_is_bounded(
    s: Prompt<Seq<u8>, Seq<char>>,
    event: WireEvent<Seq<char>>,
)
    requires
        s.tries <= MAX_FRAME_RETRIES,
    ensures
        prompt_step(s, event).0.tries <= MAX_FRAME_RETRIES,
        prompt_step(s, event).0.bytes == s.bytes,
        prompt_step(s, event).1 is Write ==> prompt_step(s, event).0.tries == s.tries + 1 || (
        prompt_step(s, event).0.greeting && prompt_step(s, event).1 == (WireAction::<
            Seq<u8>,
            Seq<char>,
        >::Write(seq![ACK]))),
        prompt_step(s, event).1 matches WireAction::Done(Ok(_)) ==> event == (WireEvent::<
            Seq<char>,
        >::Byte(ACK)),
{
}

/// A reception that did not begin yet.
pub open spec fn fresh_reception(port_name: Seq<char>) -> Reception<Seq<u8>, Seq<char>> {
    Reception { port_name, frame: Seq::empty(), result: None }
}

/// A reception after the bytes of `bytes` came in.
pub open spec fn fed(s: Reception<Seq<u8>, Seq<char>>, bytes: Seq<u8>) -> Reception<
    Seq<u8>,
    Seq<char>,
>
    decreases bytes.len(),
{
    if bytes.len() == 0 {
        s
    } else {
        reception_step(fed(s, bytes.drop_last()), WireEvent::Byte(bytes.last())).0
    }
}

/// What one side packs, the other side receives: the bytes of a frame are acknowledged with
/// the last one and not before, and give the data that was put in.
pub proof fn reception_takes_packed_frame(port_name: Seq<char>, blk: u8, data: Seq<u8>, n: int)
    requires
        fits_frame(data),
        0 <= n <= packed(blk, data).len(),
    ensures
        ({
            let s = fed(fresh_reception(port_name), packed(blk, data).take(n));
            &&& s.frame == packed(blk, data).take(n)
            &&& s.result == (if n == packed(blk, data).len() {
                Some(Ok::<Seq<u8>, Seq<char>>(data))
            } else {
                None
            })
        }),
    decreases n,
{
    let b = packed(blk, data);
    packed_frame_unpacks(blk, data);
    let t = b.take(n);
    if n > 0 {
        assert(t.drop_last() =~= b.take(n - 1));
        assert(t.last() == b[n - 1]);
        reception_takes_packed_frame(port_name, blk, data, n - 1);
        assert(b.take(n - 1).push(b[n - 1]) =~= t);
        if n == b.len() {
            assert(t =~= b);
        }
        if n == 1 {
            assert(b.take(0).len() == 0);
        }
    } else {
        assert(t =~= Seq::<u8>::empty());
    }
}

} // verus!
