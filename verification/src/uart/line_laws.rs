//! What holds of the dealings on the serial line, byte by byte.
use vstd::prelude::*;

use crate::number::{dec, hex_wide};
use crate::uart::frame::{crc16, packed, slice_len, sliced};
use crate::uart::leg::{
    next_block, receiving, receiving_step, sending, sending_step, taken_in, Dealing, Receiving,
    Sending,
};
use crate::uart::wire::{
    fresh_reception, prompt_step, reception_step, Prompt, Purpose, Reception, WireAction,
    WireEvent,
};

verus! {

// ---------------------------------------------------------------------------------------
// Frames
// ---------------------------------------------------------------------------------------
/// The bytes of a frame, one by one. A long one begins with two, a short one with one and carries
/// its length; the number of the block follows, then its complement, and behind the data stands
/// the checksum, most significant byte first.
pub proof fn frames_are_laid_out(blk: u8, data: Seq<u8>)
    ensures
        ({
            let f = packed(blk, data);
            let n = f.len() as int;
            &&& f[1] == blk
            &&& f[1] + f[2] == 255
            &&& 256 * f[n - 2] + f[n - 1] == crc16(data)
            &&& data.len() == 1024 ==> n == 1029 && f[0] == 2 && f.subrange(3, 1027) == data
            &&& data.len() <= 176 ==> n == data.len() + 6 && f[0] == 1 && f[3] == data.len()
                && f.subrange(4, n - 2) == data
        }),
{
    let f = packed(blk, data);
    let n = f.len() as int;
    if data.len() == 1024 {
        assert(f.subrange(3, 1027) =~= data);
    } else if data.len() <= 176 {
        assert(f.subrange(4, n - 2) =~= data);
    }
}

/// Data is cut off the front of a buffer: a kibibyte while there is one, then what a short frame
/// carries while there is so much, then what is left.
pub proof fn slices_are_as_long_as_they_can_be(data: Seq<u8>)
    requires
        data.len() > 0,
    ensures
        ({
            let n: int = if data.len() >= 1024 {
                1024
            } else if data.len() >= 176 {
                176
            } else {
                data.len() as int
            };
            sliced(data) == seq![data.take(n)] + sliced(data.skip(n))
        }),
{
    assert(slice_len(data.len()) > 0);
}

// ---------------------------------------------------------------------------------------
// Prompts
// ---------------------------------------------------------------------------------------
/// What is said of a prompt that was made twelve times in vain.
pub open spec fn given_up(purpose: Purpose, why: Seq<char>) -> Seq<char> {
    match purpose {
        Purpose::Frame => "Frame not acknowledged after 12 tries: "@ + why,
        Purpose::SwitchToRecv => "Failed to switch UART to "@ + "recv"@ + " mode: "@ + why,
        Purpose::SwitchToSend => "Failed to switch UART to "@ + "send"@ + " mode: "@ + why,
    }
}

/// Whether a prompt was made once more, after `why` kept the last one from success, or was given
/// up after the twelfth time.
pub open spec fn made_again(
    s: Prompt<Seq<u8>, Seq<char>>,
    why: Seq<char>,
    t: Prompt<Seq<u8>, Seq<char>>,
    action: WireAction<Seq<u8>, Seq<char>>,
) -> bool {
    if s.tries < 12 {
        &&& action == (WireAction::<Seq<u8>, Seq<char>>::Write(s.bytes))
        &&& t == (Prompt {
            bytes: s.bytes,
            purpose: s.purpose,
            tries: (s.tries + 1) as usize,
            last_err: why,
            greeting: false,
        })
    } else {
        action == WireAction::<Seq<u8>, Seq<char>>::Done(Err(given_up(s.purpose, why)))
    }
}

/// What a prompt does: it writes its bytes and awaits an answer; an acknowledgement ends it, a
/// failure to write fails it, and anything else, or nothing, has it made again.
pub proof fn prompts_are_made_until_acknowledged(
    s: Prompt<Seq<u8>, Seq<char>>,
    why: Seq<char>,
    byte: u8,
)
    requires
        !s.greeting,
    ensures
        ({
            let (t, action) = prompt_step(s, WireEvent::Begin);
            made_again(s, s.last_err, t, action)
        }),
        prompt_step(s, WireEvent::Written) == (s, WireAction::<Seq<u8>, Seq<char>>::ReadAck),
        prompt_step(s, WireEvent::WriteFailed(why)) == (
            s,
            WireAction::<Seq<u8>, Seq<char>>::Done(Err(why)),
        ),
        ({
            let (t, action) = prompt_step(s, WireEvent::NoByte(why));
            made_again(s, why, t, action)
        }),
        prompt_step(s, WireEvent::Byte(0x06)) == (
            s,
            WireAction::<Seq<u8>, Seq<char>>::Done(Ok(Seq::empty())),
        ),
        s.purpose != Purpose::Frame && byte != 0x06 ==> ({
            let (t, action) = prompt_step(s, WireEvent::Byte(byte));
            made_again(
                s,
                "unexpected 0x"@ + hex_wide(byte as nat, 2) + " while switching to "@ + (
                if s.purpose == Purpose::SwitchToRecv {
                    "recv"@
                } else {
                    "send"@
                }) + " mode"@,
                t,
                action,
            )
        }),
        s.purpose == Purpose::Frame && byte != 0x06 && byte != 0x41 ==> ({
            let (t, action) = prompt_step(s, WireEvent::Byte(byte));
            made_again(
                s,
                if byte == 0x15 {
                    "device replied NAK"@
                } else {
                    "unexpected 0x"@ + hex_wide(byte as nat, 2) + " while waiting for ACK"@
                },
                t,
                action,
            )
        }),
{
}

/// A device that announces itself in place of an acknowledgement is greeted with one, and then
/// the frame is sent again, whatever came of the greeting.
pub proof fn announcements_are_greeted(
    s: Prompt<Seq<u8>, Seq<char>>,
    event: WireEvent<Seq<char>>,
)
    requires
        !s.greeting,
        s.purpose == Purpose::Frame,
    ensures
        ({
            let (t, action) = prompt_step(s, WireEvent::Byte(0x41));
            let (u, next) = prompt_step(t, event);
            &&& action == (WireAction::<Seq<u8>, Seq<char>>::Write(seq![0x06u8]))
            &&& t.tries == s.tries && t.bytes == s.bytes && t.purpose == s.purpose
            &&& made_again(t, "device announced SIG_A"@, u, next)
        }),
{
}

// ---------------------------------------------------------------------------------------
// Receptions
// ---------------------------------------------------------------------------------------
/// What a reception does around the bytes: it awaits them, it refuses what did not come whole, and
/// once the device was told it comes to the data of the frame, or to the reason of the refusal.
pub proof fn receptions_end_as_they_told(
    s: Reception<Seq<u8>, Seq<char>>,
    data: Seq<u8>,
    why: Seq<char>,
    other: Seq<char>,
)
    ensures
        reception_step(s, WireEvent::Begin) == (s, WireAction::<Seq<u8>, Seq<char>>::ReadData),
        ({
            let (t, action) = reception_step(s, WireEvent::NoByte(why));
            &&& action == (WireAction::<Seq<u8>, Seq<char>>::Write(seq![0x15u8]))
            &&& t.frame == s.frame
            &&& t.result == Some(
                Err::<Seq<u8>, Seq<char>>(
                    if s.frame.len() == 0 {
                        "Timed out waiting for a frame on '"@ + s.port_name + "': "@ + why
                    } else {
                        why
                    },
                ),
            )
        }),
        s.result is None ==> reception_step(s, WireEvent::Written) == (
            s,
            WireAction::<Seq<u8>, Seq<char>>::ReadData,
        ) && reception_step(s, WireEvent::WriteFailed(why)) == (
            s,
            WireAction::<Seq<u8>, Seq<char>>::ReadData,
        ),
        s.result == Some(Ok::<Seq<u8>, Seq<char>>(data)) ==> reception_step(
            s,
            WireEvent::Written,
        ).1 == (WireAction::<Seq<u8>, Seq<char>>::Done(Ok(data))) && reception_step(
            s,
            WireEvent::WriteFailed(why),
        ).1 == (WireAction::<Seq<u8>, Seq<char>>::Done(Err(why))),
        s.result == Some(Err::<Seq<u8>, Seq<char>>(why)) ==> reception_step(
            s,
            WireEvent::Written,
        ).1 == (WireAction::<Seq<u8>, Seq<char>>::Done(Err(why))) && reception_step(
            s,
            WireEvent::WriteFailed(other),
        ).1 == (WireAction::<Seq<u8>, Seq<char>>::Done(Err(why))),
{
}

/// Before a frame only the two bytes that can begin one count.
pub proof fn only_frames_are_begun(s: Reception<Seq<u8>, Seq<char>>, byte: u8)
    requires
        s.frame.len() == 0,
    ensures
        byte != 1 && byte != 2 ==> reception_step(s, WireEvent::Byte(byte)) == (
            s,
            WireAction::<Seq<u8>, Seq<char>>::ReadData,
        ),
{
}

// ---------------------------------------------------------------------------------------
// Buffers
// ---------------------------------------------------------------------------------------
/// Blocks are numbered one after the other, and begin anew behind the last number.
pub proof fn blocks_are_numbered_in_turn(blk: u8)
    ensures
        next_block(blk) as int == (blk + 1) % 256,
{
}

/// A prompt that was not made yet, for these bytes and this purpose.
pub open spec fn is_fresh(
    p: Prompt<Seq<u8>, Seq<char>>,
    bytes: Seq<u8>,
    purpose: Purpose,
) -> bool {
    p.bytes == bytes && p.purpose == purpose && p.tries == 0 && p.last_err.len() == 0
        && !p.greeting
}

/// A buffer is sent by telling the device to listen first; one that is empty is not sent at all.
pub proof fn devices_are_told_to_listen(blk: u8, data: Seq<u8>, event: WireEvent<Seq<char>>)
    ensures
        is_fresh(sending(blk, data).prompt, seq![0x11u8], Purpose::SwitchToSend),
        sending(blk, data).blk == blk,
        data.len() == 0 ==> sending_step(sending(blk, data), event).1 == (WireAction::<
            Seq<u8>,
            Seq<char>,
        >::Done(Ok(Seq::empty()))),
        data.len() > 0 ==> sending_step(sending(blk, data), WireEvent::Begin).1 == (WireAction::<
            Seq<u8>,
            Seq<char>,
        >::Write(seq![0x11u8])),
{
}

/// What the sender does once the present prompt was acknowledged: the next slice goes out in a
/// frame with the next number, or the sending is over; a frame that was acknowledged counts, a
/// switch does not. Until then the prompt decides.
pub proof fn slices_go_out_one_by_one(s: Sending, event: WireEvent<Seq<char>>)
    requires
        s.wanted,
        !s.prompt.greeting,
    ensures
        ({
            let (t, action) = sending_step(s, WireEvent::Byte(0x06));
            let blk = if s.prompt.purpose == Purpose::Frame {
                ((s.blk + 1) % 256) as u8
            } else {
                s.blk
            };
            &&& t.blk == blk
            &&& s.queue.len() == 0 ==> action == (WireAction::<Seq<u8>, Seq<char>>::Done(
                Ok(Seq::empty()),
            ))
            &&& s.queue.len() > 0 ==> action == (WireAction::<Seq<u8>, Seq<char>>::Write(
                packed(blk, s.queue[0]),
            )) && t.queue == s.queue.skip(1) && t.prompt.purpose == Purpose::Frame
                && t.prompt.bytes == packed(blk, s.queue[0]) && t.prompt.tries == 1
                && !t.prompt.greeting
        }),
        event != (WireEvent::<Seq<char>>::Byte(0x06)) ==> sending_step(s, event).1 == prompt_step(
            s.prompt,
            event,
        ).1 && sending_step(s, event).0 == (Sending {
            prompt: prompt_step(s.prompt, event).0,
            ..s
        }),
{
}

/// A buffer is received by telling the device to send first; one of no bytes is there at once.
pub proof fn devices_are_told_to_send(port_name: Seq<char>, len: usize, event: WireEvent<Seq<char>>)
    ensures
        receiving(port_name, len).dealing matches Dealing::Switch(p) && is_fresh(
            p,
            seq![0x12u8],
            Purpose::SwitchToRecv,
        ),
        receiving(port_name, len).out.len() == 0,
        len == 0 ==> receiving_step(receiving(port_name, len), event).1 == (WireAction::<
            Seq<u8>,
            Seq<char>,
        >::Done(Ok(Seq::empty()))),
        len > 0 ==> receiving_step(receiving(port_name, len), WireEvent::Begin).1 == (WireAction::<
            Seq<u8>,
            Seq<char>,
        >::Write(seq![0x12u8])),
{
}

/// What a frame carries goes behind what came before; more than was asked for is refused, all of
/// it ends the reception, and less has the next frame awaited, once the device was told to send
/// again where another sixty-four kibibytes came since it last was.
pub proof fn frames_are_taken_in(s: Receiving, chunk: Seq<u8>)
    ensures
        ({
            let (t, action) = taken_in(s, chunk);
            let have = s.out.len() + chunk.len();
            &&& have > s.len ==> t == s && action == (WireAction::<Seq<u8>, Seq<char>>::Done(
                Err(
                    "Device sent more data than expected ("@ + dec(s.out.len()) + " + "@ + dec(
                        chunk.len(),
                    ) + " > "@ + dec(s.len as nat) + ")"@,
                ),
            ))
            &&& have == s.len ==> action == (WireAction::<Seq<u8>, Seq<char>>::Done(
                Ok(s.out + chunk),
            ))
            &&& have < s.len ==> t.out == s.out + chunk && t.len == s.len && t.port_name
                == s.port_name
            &&& have < s.len && have - s.switched_at < 65536 ==> t.switched_at == s.switched_at
                && t.dealing == Dealing::Frame(fresh_reception(s.port_name)) && action == (
            WireAction::<Seq<u8>, Seq<char>>::ReadData)
            &&& have < s.len && have - s.switched_at >= 65536 ==> t.switched_at == have && action
                == (WireAction::<Seq<u8>, Seq<char>>::Write(seq![0x12u8])) && (t.dealing matches
                Dealing::Switch(p) && p.bytes == seq![0x12u8] && p.purpose
                == Purpose::SwitchToRecv && p.tries == 1 && !p.greeting)
        }),
{
}

/// Once the device is told to send, a frame is awaited; until then the prompt decides, and after
/// it the reception of the frame does.
pub proof fn receivers_wait_for_frames(
    s: Receiving,
    p: Prompt<Seq<u8>, Seq<char>>,
    r: Reception<Seq<u8>, Seq<char>>,
    event: WireEvent<Seq<char>>,
)
    requires
        s.len > 0,
    ensures
        s.dealing == (Dealing::<Seq<u8>, Seq<char>>::Switch(p)) && !p.greeting ==> {
            &&& receiving_step(s, WireEvent::Byte(0x06)) == (
                Receiving { dealing: Dealing::Frame(fresh_reception(s.port_name)), ..s },
                WireAction::<Seq<u8>, Seq<char>>::ReadData,
            )
            &&& event != (WireEvent::<Seq<char>>::Byte(0x06)) ==> receiving_step(s, event) == (
                Receiving { dealing: Dealing::Switch(prompt_step(p, event).0), ..s },
                prompt_step(p, event).1,
            )
        },
        s.dealing == (Dealing::<Seq<u8>, Seq<char>>::Frame(r)) ==> match reception_step(r, event) {
            (q, WireAction::Done(Ok(chunk))) => receiving_step(s, event) == taken_in(
                Receiving { dealing: Dealing::Frame(q), ..s },
                chunk,
            ),
            (q, action) => receiving_step(s, event) == (
                Receiving { dealing: Dealing::Frame(q), ..s },
                action,
            ),
        },
{
}

} // verus!
