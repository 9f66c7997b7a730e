//! What holds of the console, of the monitor and of the way to a device behind a port.
use vstd::prelude::*;

use crate::app_config::laws::decimal_is_read_back;
use crate::codec::lossy_text;
use crate::number::{dec, digits_value, second_fraction, span_text, zero_padded};
use crate::text::{mentions, trimmed};
use crate::uart::console::{
    console_line, console_step, not_answered_text, only_echo, probe_due, protocol_step, reply_to,
    silence_text, Awaited, Heard, KeywordReply,
};
use crate::uart::monitor::{keyword_output, monitor_step, MonitorOutput, MonitorState};
use crate::uart::ports::{
    connect_step, port_type_text, usb_ports, usual_options, ConnectAction, ConnectStage,
    PortConnect, PortKind, SerialPortInfo,
};

verus! {

// ---------------------------------------------------------------------------------------
// The console
// ---------------------------------------------------------------------------------------
/// How a console line grows: echoed probes at its beginning are kept, up to a limit, until
/// anything else comes, which drops them; behind anything else every byte that can be printed is
/// kept, and none that cannot.
pub proof fn echoes_are_dropped(line: Seq<char>, byte: u8)
    ensures
        only_echo(line) <==> forall|i: int| 0 <= i < line.len() ==> line[i] == 'C',
        only_echo(line) && byte == 0x43 && line.len() < 32 ==> console_line(line, byte)
            == line.push('C'),
        only_echo(line) && byte == 0x43 && line.len() >= 32 ==> console_line(line, byte) == line,
        only_echo(line) && byte != 0x43 && 0x20 <= byte <= 0x7e ==> console_line(line, byte)
            == seq![byte as char],
        only_echo(line) && !(0x20 <= byte <= 0x7e) ==> console_line(line, byte).len() == 0,
        !only_echo(line) && 0x20 <= byte <= 0x7e ==> console_line(line, byte) == line.push(
            byte as char,
        ),
        !only_echo(line) && !(0x20 <= byte <= 0x7e) ==> console_line(line, byte) == line,
{
    if only_echo(line) && byte != 0x43 && 0x20 <= byte <= 0x7e {
        assert(console_line(line, byte) =~= seq![byte as char]);
    }
}

/// What a byte means on the console: the mark of a keyword, nothing, the end of a line, which is
/// shown without white space around it if anything is left then, or one more character.
pub proof fn console_bytes_are_told_apart(line: Seq<char>, byte: u8)
    ensures
        console_step(line, 0x16) == (line, Heard::<Seq<char>>::Keyword),
        console_step(line, 0x0d) == (line, Heard::<Seq<char>>::Nothing),
        console_step(line, 0x0a) == (
            Seq::<char>::empty(),
            if trimmed(line).len() > 0 {
                Heard::Line(trimmed(line))
            } else {
                Heard::Nothing
            },
        ),
        byte != 0x16 && byte != 0x0d && byte != 0x0a ==> console_step(line, byte) == (
            console_line(line, byte),
            Heard::<Seq<char>>::Nothing,
        ),
{
}

/// What a byte means while the device is awaited in upgrade mode: an acknowledgement says that it
/// is ready, and what the line holds is shown; an announcement is a greeting; a keyword or the
/// end of a line are what they are on the console; and a line that grows long is shown as it is.
pub proof fn protocol_bytes_are_told_apart(line: Seq<char>, byte: u8)
    ensures
        protocol_step(line, 0x06) == (
            Seq::<char>::empty(),
            Heard::Ready(
                if trimmed(line).len() > 0 {
                    Some(trimmed(line))
                } else {
                    None
                },
            ),
        ),
        protocol_step(line, 0x41) == (line, Heard::<Seq<char>>::Greeting),
        byte == 0x16 || byte == 0x0d || byte == 0x0a ==> protocol_step(line, byte) == console_step(
            line,
            byte,
        ),
        byte != 0x06 && byte != 0x41 && byte != 0x16 && byte != 0x0d && byte != 0x0a ==> {
            let next = console_line(line, byte);
            &&& next.len() < 160 ==> protocol_step(line, byte) == (
                next,
                Heard::<Seq<char>>::Nothing,
            )
            &&& next.len() >= 160 ==> protocol_step(line, byte) == (
                Seq::<char>::empty(),
                if trimmed(next).len() > 0 {
                    Heard::Line(trimmed(next))
                } else {
                    Heard::Nothing
                },
            )
        },
{
}

/// A boot keyword is acknowledged if and only if it asks for the upgrade, shown if it says
/// anything else, and passed over if it is blank.
pub proof fn keywords_are_told_apart(text: Seq<char>)
    ensures
        mentions(text, "AIBURN"@) ==> reply_to(text) == KeywordReply::Acknowledge(trimmed(text)),
        !mentions(text, "AIBURN"@) && trimmed(text).len() > 0 ==> reply_to(text)
            == KeywordReply::Show(trimmed(text)),
        !mentions(text, "AIBURN"@) && trimmed(text).len() == 0 ==> reply_to(text) == (
        KeywordReply::<Seq<char>>::Nothing),
{
}

/// A device is probed at first, and again every two hundred milliseconds.
pub proof fn probes_are_spaced(last: u64, now: u64)
    ensures
        probe_due(None, now),
        probe_due(Some(last), now) <==> now >= last + 200,
{
}

/// What is said of a device that did not answer names the port and, where it was awaited for the
/// first time, how long it was.
pub proof fn silence_is_told(port_name: Seq<char>, timeout: u64)
    ensures
        silence_text(Awaited::Handshake, port_name, timeout) == "UART device did not answer on '"@
            + port_name + "' within "@ + span_text(timeout as nat),
        silence_text(Awaited::Reconnect, port_name, timeout)
            == "Timed out waiting for UART device reconnect on '"@ + port_name + "'"@,
        silence_text(Awaited::UpgradeMode, port_name, timeout) == "Device on '"@ + port_name
            + "' did not enter UART upgrade mode within "@ + span_text(timeout as nat)
            + ". Make sure this is the console UART (115200 8N1), run `aicupg gotobl` on the device, or reset the board while this tool waits"@,
        not_answered_text(port_name, timeout) == silence_text(
            Awaited::Handshake,
            port_name,
            timeout,
        )
            + ". Check that this is the console UART (115200 8N1), then either run `aicupg gotobl` on the device, reset the board while this tool waits, or allow auto-enter mode"@,
{
}

/// A span of time can be read off its text: milliseconds below a second; otherwise the seconds,
/// and behind a point as many digits of the rest as it takes.
pub proof fn spans_can_be_read(millis: nat)
    ensures
        span_text(0) == "0ns"@,
        0 < millis < 1000 ==> span_text(millis) == dec(millis) + "ms"@,
        millis >= 1000 && millis % 1000 == 0 ==> span_text(millis) == dec(millis / 1000) + "s"@,
        millis >= 1000 && millis % 1000 != 0 ==> {
            let rest = millis % 1000;
            let digits = second_fraction(rest);
            &&& span_text(millis) == dec(millis / 1000) + "."@ + digits + "s"@
            &&& 1 <= digits.len() <= 3
            &&& digits.last() != '0'
            &&& digits_value(digits, 10) matches Some(n) && rest == (if digits.len() == 1 {
                100 * n
            } else if digits.len() == 2 {
                10 * n
            } else {
                n
            })
        },
{
    if millis >= 1000 && millis % 1000 != 0 {
        let rest = millis % 1000;
        if rest % 100 == 0 {
            lemma_digits(rest / 100, 1);
            assert(rest / 100 % 10 != 0);
        } else if rest % 10 == 0 {
            lemma_digits(rest / 10, 2);
            assert(rest / 10 % 10 != 0);
        } else {
            lemma_digits(rest, 3);
        }
    }
}

proof fn lemma_digits(n: nat, width: nat)
    requires
        1 <= width <= 3,
        n > 0,
        width == 1 ==> n < 10,
        width == 2 ==> n < 100,
        width == 3 ==> n < 1000,
    ensures
        zero_padded(dec(n), width).len() == width,
        digits_value(zero_padded(dec(n), width), 10) == Some(n),
        n % 10 != 0 ==> zero_padded(dec(n), width).last() != '0',
        width == 1 ==> zero_padded(dec(n), width) == dec(n),
{
    decimal_is_read_back(n);
    assert(dec(n / 100).len() >= 1 && dec(n / 10).len() >= 1) by {
        decimal_is_read_back(n / 100);
        decimal_is_read_back(n / 10);
    }
    assert(n < 10 ==> dec(n).len() == 1);
    assert(10 <= n < 100 ==> dec(n).len() == 2) by {
        assert(n / 10 < 10 || n >= 100);
    }
    assert(100 <= n < 1000 ==> dec(n).len() == 3) by {
        if 100 <= n < 1000 {
            assert(dec(n / 10).len() == dec(n / 10 / 10).len() + 1);
            assert(n / 10 / 10 < 10);
        }
    }
    let s = dec(n);
    if s.len() < width {
        crate::number::zeros_keep_the_value(s, (width - s.len()) as nat);
    }
    assert(zero_padded(s, width).last() == s.last());
}

// ---------------------------------------------------------------------------------------
// The monitor
// ---------------------------------------------------------------------------------------
/// What a monitor does with a byte outside a keyword: a line is shown as it is where it is not
/// blank, and begins anew; a tab is a blank, what can be printed is kept, and the rest dropped.
pub proof fn monitored_lines_are_shown(line: Seq<char>, byte: u8)
    ensures
        ({
            let s = MonitorState { line, keyword: None::<Seq<u8>> };
            let (t, out) = monitor_step(s, byte);
            &&& byte == 0x16 ==> t == (MonitorState { line, keyword: Some(Seq::<u8>::empty()) })
                && out is Nothing
            &&& byte == 0x0d || byte == 0x0a ==> t == (MonitorState {
                line: Seq::<char>::empty(),
                keyword: None::<Seq<u8>>,
            }) && (if trimmed(line).len() > 0 {
                out == MonitorOutput::Text(line)
            } else {
                out is Nothing
            })
            &&& byte == 0x09 ==> t == (MonitorState {
                line: line.push(' '),
                keyword: None::<Seq<u8>>,
            }) && out is Nothing
            &&& 0x20 <= byte <= 0x7e ==> t == (MonitorState {
                line: line.push(byte as char),
                keyword: None::<Seq<u8>>,
            }) && out is Nothing
            &&& byte < 0x20 && byte != 0x16 && byte != 0x0d && byte != 0x0a && byte != 0x09 || byte
                > 0x7e ==> t == s && out is Nothing
        }),
{
}

/// What a monitor does with a byte inside a keyword: it is collected, from the mark on, up to the
/// end of the line or to twenty-five bytes, and then answered; the line is left alone.
pub proof fn monitored_keywords_are_answered(line: Seq<char>, k: Seq<u8>, byte: u8)
    ensures
        ({
            let s = MonitorState { line, keyword: Some(k) };
            let (t, out) = monitor_step(s, byte);
            &&& t.line == line
            &&& byte == 0x16 ==> t.keyword == Some(Seq::<u8>::empty()) && out is Nothing
            &&& byte != 0x16 && byte != 0x0a && k.len() < 24 ==> t.keyword == Some(k.push(byte))
                && out is Nothing
            &&& byte != 0x16 && (byte == 0x0a || k.len() >= 24) ==> t.keyword is None && out
                == keyword_output(lossy_text(k.push(byte)))
        }),
{
}

/// A keyword that asks for the upgrade is acknowledged, and that is shown with the keyword; any
/// other is shown as the device's words, unless it is blank.
pub proof fn monitored_keywords_are_shown(text: Seq<char>)
    ensures
        mentions(text, "AIBURN"@) ==> keyword_output(text) == MonitorOutput::Acknowledge(
            "[monitor] acknowledged boot keyword '"@ + trimmed(text) + "'"@,
        ),
        !mentions(text, "AIBURN"@) && trimmed(text).len() > 0 ==> keyword_output(text)
            == MonitorOutput::Text("[device] "@ + trimmed(text)),
        !mentions(text, "AIBURN"@) && trimmed(text).len() == 0 ==> keyword_output(text) is Nothing,
{
}

// ---------------------------------------------------------------------------------------
// Ports
// ---------------------------------------------------------------------------------------
/// The usual options: the speed of the console, none to negotiate, six seconds for a first
/// answer, two for an acknowledgement, thirty for data, and up to twenty for the way into upgrade
/// mode, which may be asked for.
pub proof fn usual_options_are_these()
    ensures
        ({
            let o = usual_options();
            o.baudrate == 115200 && o.max_baudrate is None && o.connect_timeout == 6000
                && o.ack_timeout == 2000 && o.data_timeout == 30_000 && o.auto_enter
                && o.enter_timeout == 20_000
        }),
{
}

/// Every bus has a name of its own.
pub proof fn buses_are_named(kind: PortKind)
    ensures
        port_type_text(kind) == "usb"@ <==> kind == PortKind::Usb,
        port_type_text(kind) == "pci"@ <==> kind == PortKind::Pci,
        port_type_text(kind) == "bluetooth"@ <==> kind == PortKind::Bluetooth,
        port_type_text(kind) == "unknown"@ <==> kind == PortKind::Unknown,
{
    reveal_strlit("usb");
    reveal_strlit("pci");
    reveal_strlit("bluetooth");
    reveal_strlit("unknown");
    assert("usb"@[0] == 'u' && "pci"@[0] == 'p' && "bluetooth"@[0] == 'b');
    assert("usb"@.len() == 3 && "unknown"@.len() == 7);
}

/// The ports on the USB bus are exactly those that say so, in their order, each once.
pub proof fn usb_ports_are_found(ports: Seq<SerialPortInfo>, k: int)
    requires
        0 <= k,
    ensures
        forall|n: int|
            0 <= n < usb_ports(ports, k).len() ==> k <= #[trigger] usb_ports(ports, k)[n]
                < ports.len() && ports[usb_ports(ports, k)[n]].port_type@ == "usb"@,
        forall|m: int, n: int|
            0 <= m < n < usb_ports(ports, k).len() ==> usb_ports(ports, k)[m] < usb_ports(
                ports,
                k,
            )[n],
        forall|i: int|
            k <= i < ports.len() && (#[trigger] ports[i]).port_type@ == "usb"@ ==> usb_ports(
                ports,
                k,
            ).contains(i),
    decreases ports.len() - k,
{
    if k < ports.len() {
        usb_ports_are_found(ports, k + 1);
        let rest = usb_ports(ports, k + 1);
        let all = usb_ports(ports, k);
        if ports[k].port_type@ == "usb"@ {
            assert(all == seq![k] + rest);
            assert(all[0] == k);
            assert forall|i: int|
                k <= i < ports.len() && (#[trigger] ports[i]).port_type@
                    == "usb"@ implies all.contains(i) by {
                if i > k {
                    let n = choose|n: int| 0 <= n < rest.len() && rest[n] == i;
                    assert(all[n + 1] == i);
                }
            }
            assert forall|n: int| 0 <= n < all.len() implies k <= #[trigger] all[n] < ports.len()
                && ports[all[n]].port_type@ == "usb"@ by {
                if n > 0 {
                    assert(all[n] == rest[n - 1]);
                }
            }
            assert forall|m: int, n: int| 0 <= m < n < all.len() implies all[m] < all[n] by {
                assert(all[n] == rest[n - 1]);
                if m > 0 {
                    assert(all[m] == rest[m - 1]);
                }
            }
        }
    }
}

/// The way to a device behind a port, step by step: one that answers, at first or after it was
/// talked into upgrade mode, is asked for its report; one that gave it is reached, at a higher
/// speed where one is wanted; and any other failure ends the way with its own words.
pub proof fn devices_are_reached_step_by_step(s: PortConnect<Seq<char>>, why: Seq<char>)
    ensures
        ({
            let (ok, after_ok) = connect_step(s, Ok(()));
            let (err, after_err) = connect_step(s, Err(why));
            let faster = s.options.max_baudrate matches Some(n) && n > s.options.baudrate;
            &&& ok.port_name == s.port_name && err.port_name == s.port_name
            &&& s.stage == ConnectStage::Handshake || s.stage == ConnectStage::Entering ==> ok.stage
                == ConnectStage::Probing && after_ok is Probe
            &&& s.stage == ConnectStage::Handshake && s.options.auto_enter ==> after_err == (
            ConnectAction::<Seq<char>>::Enter(s.options.enter_timeout)) && err.stage
                == ConnectStage::Entering
            &&& s.stage == ConnectStage::Handshake && !s.options.auto_enter ==> after_err == (
            ConnectAction::Done(
                Err::<(), Seq<char>>(
                    "UART device did not answer on '"@ + s.port_name + "' within "@ + span_text(
                        s.options.connect_timeout as nat,
                    )
                        + ". Check that this is the console UART (115200 8N1), then either run `aicupg gotobl` on the device, reset the board while this tool waits, or allow auto-enter mode"@,
                ),
            ))
            &&& s.stage != ConnectStage::Handshake ==> after_err == (ConnectAction::Done(
                Err::<(), Seq<char>>(why),
            ))
            &&& s.stage == ConnectStage::Probing && !faster ==> after_ok == (ConnectAction::Done(
                Ok::<(), Seq<char>>(()),
            ))
            &&& s.stage == ConnectStage::Negotiating ==> after_ok == (ConnectAction::Done(
                Ok::<(), Seq<char>>(()),
            ))
        }),
        s.stage == ConnectStage::Probing ==> (s.options.max_baudrate matches Some(n) ==> (n
            > s.options.baudrate ==> connect_step(s, Ok(())).1 == (ConnectAction::<
            Seq<char>,
        >::Negotiate(n)) && connect_step(s, Ok(())).0.stage == ConnectStage::Negotiating)),
{
}

} // verus!
