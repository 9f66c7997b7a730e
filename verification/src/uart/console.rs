//! The device's console on the serial line, and the way from it into upgrade mode.
use vstd::prelude::*;

use crate::codec::{lossy_text, utf8_lossy};
use crate::number::{push_span, span_text};
use crate::text::{chars_of, mentions, stands_at, str_contains, str_trim, trimmed};
use crate::uart::frame::{ACK, SIG_A, SIG_C, SYN};

verus! {

/// How often the device is probed, in milliseconds.
pub const HANDSHAKE_INTERVAL: u64 = 200;

/// How long a single wait for a byte is, in milliseconds.
pub const PORT_POLL_SLICE: u64 = 50;

/// The longest run of echoed probes that is kept.
pub const ECHO_RUN: usize = 32;

/// The length from which on a console line is shown without waiting for its end.
pub const LONG_LINE: usize = 160;

/// The longest boot keyword.
pub const KEYWORD_LEN: usize = 32;

// ---------------------------------------------------------------------------------------
// Console text
// ---------------------------------------------------------------------------------------
/// Whether a byte is shown: a printable character or a blank.
pub open spec fn shown(byte: u8) -> bool {
    0x20 <= byte <= 0x7e
}

/// Whether a line holds nothing but echoed probes.
pub open spec fn only_echo(line: Seq<char>) -> bool {
    forall|i: int| 0 <= i < line.len() ==> line[i] == 'C'
}

/// A console line after one more byte. A run of echoed probes at its beginning is dropped when
/// anything else comes, and is not kept beyond a limit.
pub open spec fn console_line(line: Seq<char>, byte: u8) -> Seq<char> {
    if only_echo(line) && byte == SIG_C {
        if line.len() < ECHO_RUN {
            line.push('C')
        } else {
            line
        }
    } else {
        let kept = if only_echo(line) {
            Seq::empty()
        } else {
            line
        };
        if shown(byte) {
            kept.push(byte as char)
        } else {
            kept
        }
    }
}

/// Accumulate console text while dropping runs of echoed `SIG_C` probe bytes.
pub fn push_console_char(line: &mut String, byte: u8)
    ensures
        final(line)@ == console_line(old(line)@, byte),
{
    let chars = chars_of(line.as_str());
    let mut echo = true;
    let mut i: usize = 0;
    while i < chars.len()
        invariant
            i <= chars.len(),
            echo == (forall|j: int| 0 <= j < i ==> chars@[j] == 'C'),
        decreases chars.len() - i,
    {
        if chars[i] != 'C' {
            echo = false;
        }
        i = i + 1;
    }
    if echo {
        if byte == SIG_C {
            if chars.len() < ECHO_RUN {
                line.push('C');
            }
            return;
        }
        *line = String::new();
    }
    if byte >= 0x20 && byte <= 0x7e {
        line.push(byte as char);
    }
}

/// Whether a console line holds only what is shown, and no echo beyond the limit.
pub open spec fn tidy(line: Seq<char>) -> bool {
    &&& forall|i: int| 0 <= i < line.len() ==> ' ' <= #[trigger] line[i] <= '~'
    &&& only_echo(line) ==> line.len() <= ECHO_RUN
}

/// Whatever bytes come, a console line stays tidy.
pub proof fn console_line_stays_tidy(line: Seq<char>, byte: u8)
    requires
        tidy(line),
    ensures
        tidy(console_line(line, byte)),
        tidy(Seq::empty()),
{
    let next = console_line(line, byte);
    if !only_echo(line) {
        let i = choose|i: int| 0 <= i < line.len() && line[i] != 'C';
        assert(next[i] == line[i]);
    }
}

/// The text of a console line that is worth showing.
pub open spec fn line_shown(line: Seq<char>) -> Option<Seq<char>> {
    if trimmed(line).len() > 0 {
        Some(trimmed(line))
    } else {
        None
    }
}

/// Ends a console line, and gives its text where it is worth showing.
pub fn flush_console_line(line: &mut String) -> (r: Option<String>)
    ensures
        final(line)@ == Seq::<char>::empty(),
        match r {
            Some(s) => line_shown(old(line)@) == Some(s@),
            None => line_shown(old(line)@) is None,
        },
{
    let text = str_trim(line.as_str());
    *line = String::new();
    assert(line@ =~= Seq::<char>::empty());
    if text.as_str().unicode_len() > 0 {
        Some(text)
    } else {
        None
    }
}

// ---------------------------------------------------------------------------------------
// Boot keywords
// ---------------------------------------------------------------------------------------
/// Whether a boot keyword is complete: at its line feed, or at the length limit.
pub fn keyword_complete(keyword: &Vec<u8>) -> (r: bool)
    ensures
        r == (keyword@.len() >= KEYWORD_LEN || (keyword@.len() > 0 && keyword@.last() == 0x0a)),
{
    keyword.len() >= KEYWORD_LEN || (keyword.len() > 0 && keyword[keyword.len() - 1] == 0x0a)
}

/// What is made of a boot keyword.
pub enum KeywordReply<S = String> {
    /// The bootloader asks to be kept in upgrade mode: acknowledge it.
    Acknowledge(S),
    /// Something else was said.
    Show(S),
    Nothing,
}

impl View for KeywordReply {
    type V = KeywordReply<Seq<char>>;

    open spec fn view(&self) -> KeywordReply<Seq<char>> {
        match *self {
            KeywordReply::Acknowledge(s) => KeywordReply::Acknowledge(s@),
            KeywordReply::Show(s) => KeywordReply::Show(s@),
            KeywordReply::Nothing => KeywordReply::Nothing,
        }
    }
}

/// What is made of a boot keyword that reads `text`.
pub open spec fn reply_to(text: Seq<char>) -> KeywordReply<Seq<char>> {
    if mentions(text, "AIBURN"@) {
        KeywordReply::Acknowledge(trimmed(text))
    } else if trimmed(text).len() > 0 {
        KeywordReply::Show(trimmed(text))
    } else {
        KeywordReply::Nothing
    }
}

/// A bootloader that asks to be kept in upgrade mode is always answered, whatever surrounds its
/// keyword.
pub proof fn boot_keywords_are_answered(text: Seq<char>)
    requires
        mentions(text, "AIBURNFORCE"@) || mentions(text, "AIBURNID"@),
    ensures
        reply_to(text) is Acknowledge,
{
    reveal_strlit("AIBURN");
    reveal_strlit("AIBURNFORCE");
    reveal_strlit("AIBURNID");
    assert("AIBURNFORCE"@.take(6) =~= "AIBURN"@);
    assert("AIBURNID"@.take(6) =~= "AIBURN"@);
    let long = if mentions(text, "AIBURNFORCE"@) {
        "AIBURNFORCE"@
    } else {
        "AIBURNID"@
    };
    let i = choose|i: int| #[trigger] stands_at(text, long, i);
    assert(text.subrange(i, i + 6) =~= text.subrange(i, i + long.len()).take(6));
    assert(stands_at(text, "AIBURN"@, i));
}

/// What is made of a boot keyword that reads `text`.
pub fn keyword_text_reply(text: &str) -> (r: KeywordReply)
    ensures
        r@ == reply_to(text@),
{
    let bare = str_trim(text);
    if str_contains(text, "AIBURN") {
        KeywordReply::Acknowledge(bare)
    } else if bare.as_str().unicode_len() > 0 {
        KeywordReply::Show(bare)
    } else {
        KeywordReply::Nothing
    }
}

/// What is made of a boot keyword.
pub fn keyword_reply(keyword: &[u8]) -> (r: KeywordReply)
    ensures
        r@ == reply_to(lossy_text(keyword@)),
{
    keyword_text_reply(utf8_lossy(keyword).as_str())
}

// ---------------------------------------------------------------------------------------
// Listening to the console
// ---------------------------------------------------------------------------------------
/// What a byte means to someone who listens.
pub enum Heard<S = String> {
    /// Nothing, yet.
    Nothing,
    /// The device answers in upgrade mode. The last line that was heard is given too.
    Ready(Option<S>),
    /// The device announces itself: acknowledge it.
    Greeting,
    /// A boot keyword follows.
    Keyword,
    /// A line is complete.
    Line(S),
}

impl View for Heard {
    type V = Heard<Seq<char>>;

    open spec fn view(&self) -> Heard<Seq<char>> {
        match *self {
            Heard::Nothing => Heard::Nothing,
            Heard::Ready(Some(s)) => Heard::Ready(Some(s@)),
            Heard::Ready(None) => Heard::Ready(None),
            Heard::Greeting => Heard::Greeting,
            Heard::Keyword => Heard::Keyword,
            Heard::Line(s) => Heard::Line(s@),
        }
    }
}

/// A line that is complete, if it is worth showing.
pub open spec fn line_heard(line: Seq<char>) -> Heard<Seq<char>> {
    match line_shown(line) {
        Some(s) => Heard::Line(s),
        None => Heard::Nothing,
    }
}

/// What a byte means while the console is only listened to, and the line after it.
pub open spec fn console_step(line: Seq<char>, byte: u8) -> (Seq<char>, Heard<Seq<char>>) {
    if byte == SYN {
        (line, Heard::Keyword)
    } else if byte == 0x0d {
        (line, Heard::Nothing)
    } else if byte == 0x0a {
        (Seq::empty(), line_heard(line))
    } else {
        (console_line(line, byte), Heard::Nothing)
    }
}

/// What a byte means while the device is awaited in upgrade mode, and the line after it.
pub open spec fn protocol_step(line: Seq<char>, byte: u8) -> (Seq<char>, Heard<Seq<char>>) {
    if byte == ACK {
        (Seq::empty(), Heard::Ready(line_shown(line)))
    } else if byte == SIG_A {
        (line, Heard::Greeting)
    } else if byte == SYN || byte == 0x0d || byte == 0x0a {
        console_step(line, byte)
    } else {
        let next = console_line(line, byte);
        if next.len() >= LONG_LINE {
            (Seq::empty(), line_heard(next))
        } else {
            (next, Heard::Nothing)
        }
    }
}

/// Takes a byte while the console is only listened to.
pub fn hear_console(line: &mut String, byte: u8) -> (r: Heard)
    ensures
        (final(line)@, r@) == console_step(old(line)@, byte),
{
    if byte == SYN {
        Heard::Keyword
    } else if byte == 0x0d {
        Heard::Nothing
    } else if byte == 0x0a {
        match flush_console_line(line) {
            Some(s) => Heard::Line(s),
            None => Heard::Nothing,
        }
    } else {
        push_console_char(line, byte);
        Heard::Nothing
    }
}

/// Takes a byte while the device is awaited in upgrade mode.
pub fn hear_protocol(line: &mut String, byte: u8) -> (r: Heard)
    ensures
        (final(line)@, r@) == protocol_step(old(line)@, byte),
{
    if byte == ACK {
        return Heard::Ready(flush_console_line(line));
    }
    if byte == SIG_A {
        return Heard::Greeting;
    }
    if byte == SYN || byte == 0x0d || byte == 0x0a {
        return hear_console(line, byte);
    }
    push_console_char(line, byte);
    if line.as_str().unicode_len() >= LONG_LINE {
        match flush_console_line(line) {
            Some(s) => Heard::Line(s),
            None => Heard::Nothing,
        }
    } else {
        Heard::Nothing
    }
}

/// What a byte means to someone who waits for an answer and for nothing else.
pub fn hear_answer(byte: u8) -> (r: Heard)
    ensures
        r@ == (if byte == ACK {
            Heard::Ready(None)
        } else if byte == SIG_A {
            Heard::Greeting
        } else {
            Heard::<Seq<char>>::Nothing
        }),
{
    if byte == ACK {
        Heard::Ready(None)
    } else if byte == SIG_A {
        Heard::Greeting
    } else {
        Heard::Nothing
    }
}

// ---------------------------------------------------------------------------------------
// Probing
// ---------------------------------------------------------------------------------------
/// What the device is awaited for.
#[derive(Clone, Copy, Debug, Eq, PartialEq, Structural)]
pub enum Awaited {
    /// A first answer.
    Handshake,
    /// The return after a reset.
    Reconnect,
    /// Upgrade mode, from the console.
    UpgradeMode,
}

/// What to do at a moment of waiting.
pub enum Tick<S = String> {
    /// Write a probe, then listen.
    Probe,
    /// Listen.
    Listen,
    /// The time is over.
    Expired(S),
}

impl View for Tick {
    type V = Tick<Seq<char>>;

    open spec fn view(&self) -> Tick<Seq<char>> {
        match *self {
            Tick::Probe => Tick::Probe,
            Tick::Listen => Tick::Listen,
            Tick::Expired(s) => Tick::Expired(s@),
        }
    }
}

/// A wait for the device. Times are in milliseconds, by any clock.
pub struct Wait {
    pub awaited: Awaited,
    pub port_name: String,
    pub timeout: u64,
    pub deadline: u64,
    /// When the device was last probed.
    pub last_probe: Option<u64>,
}

/// What is said of a device that did not answer.
pub open spec fn silence_text(awaited: Awaited, port_name: Seq<char>, timeout: u64) -> Seq<char> {
    match awaited {
        Awaited::Handshake => "UART device did not answer on '"@ + port_name + "' within "@
            + span_text(timeout as nat),
        Awaited::Reconnect => "Timed out waiting for UART device reconnect on '"@ + port_name
            + "'"@,
        Awaited::UpgradeMode => "Device on '"@ + port_name
            + "' did not enter UART upgrade mode within "@ + span_text(timeout as nat)
            + ". Make sure this is the console UART (115200 8N1), run `aicupg gotobl` on the device, or reset the board while this tool waits"@,
    }
}

/// What is said of a device that did not answer.
fn silence(awaited: Awaited, port_name: &str, timeout: u64) -> (s: String)
    ensures
        s@ == silence_text(awaited, port_name@, timeout),
{
    match awaited {
        Awaited::Handshake => {
            let mut s = "UART device did not answer on '".to_string();
            s.append(port_name);
            s.append("' within ");
            push_span(&mut s, timeout);
            s
        },
        Awaited::Reconnect => {
            let mut s = "Timed out waiting for UART device reconnect on '".to_string();
            s.append(port_name);
            s.append("'");
            s
        },
        Awaited::UpgradeMode => {
            let mut s = "Device on '".to_string();
            s.append(port_name);
            s.append("' did not enter UART upgrade mode within ");
            push_span(&mut s, timeout);
            s.append(
                ". Make sure this is the console UART (115200 8N1), run `aicupg gotobl` on the device, or reset the board while this tool waits",
            );
            s
        },
    }
}

/// What is said of a device that did not answer and may not be talked into it.
pub open spec fn not_answered_text(port_name: Seq<char>, timeout: u64) -> Seq<char> {
    "UART device did not answer on '"@ + port_name + "' within "@ + span_text(timeout as nat)
        + ". Check that this is the console UART (115200 8N1), then either run `aicupg gotobl` on the device, reset the board while this tool waits, or allow auto-enter mode"@
}

/// What is said of a device that did not answer and may not be talked into it.
pub fn not_answered_error(port_name: &str, timeout: u64) -> (s: String)
    ensures
        s@ == not_answered_text(port_name@, timeout),
{
    let mut s = silence(Awaited::Handshake, port_name, timeout);
    s.append(
        ". Check that this is the console UART (115200 8N1), then either run `aicupg gotobl` on the device, reset the board while this tool waits, or allow auto-enter mode",
    );
    s
}

/// Whether the device is to be probed.
pub open spec fn probe_due(last_probe: Option<u64>, now: u64) -> bool {
    match last_probe {
        None => true,
        Some(t) => now >= t && now - t >= HANDSHAKE_INTERVAL,
    }
}

impl Wait {
    /// Begins to wait at `now`.
    pub fn new(awaited: Awaited, port_name: &str, timeout: u64, now: u64) -> (w: Self)
        ensures
            w.awaited == awaited,
            w.port_name@ == port_name@,
            w.timeout == timeout,
            w.deadline == (if now + timeout > u64::MAX {
                u64::MAX as int
            } else {
                now + timeout
            }),
            w.last_probe is None,
    {
        let deadline: u64 = if timeout > u64::MAX - now {
            u64::MAX
        } else {
            now + timeout
        };
        Wait { awaited, port_name: port_name.to_string(), timeout, deadline, last_probe: None }
    }

    /// Says what to do at `now`: nothing more once the time is over, otherwise a probe whenever
    /// the last one is old enough.
    pub fn tick(&self, now: u64) -> (t: Tick)
        ensures
            t@ == (if now >= self.deadline {
                Tick::Expired(silence_text(self.awaited, self.port_name@, self.timeout))
            } else if probe_due(self.last_probe, now) {
                Tick::Probe
            } else {
                Tick::Listen
            }),
    {
        if now >= self.deadline {
            return Tick::Expired(silence(self.awaited, self.port_name.as_str(), self.timeout));
        }
        match self.last_probe {
            None => Tick::Probe,
            Some(t) => if now >= t && now - t >= HANDSHAKE_INTERVAL {
                Tick::Probe
            } else {
                Tick::Listen
            },
        }
    }

    /// Takes note of a probe that was written at `now`. A probe that could not be written ends
    /// the wait, unless the device is only being talked into upgrade mode.
    pub fn probed(&mut self, now: u64, result: Result<(), String>) -> (r: Result<(), String>)
        ensures
            final(self).awaited == old(self).awaited,
            final(self).port_name@ == old(self).port_name@,
            final(self).timeout == old(self).timeout,
            final(self).deadline == old(self).deadline,
            match result {
                Err(e) => if old(self).awaited != Awaited::UpgradeMode {
                    r matches Err(f) && f@ == e@ && final(self).last_probe
                        == old(self).last_probe
                } else {
                    r is Ok && final(self).last_probe == Some(now)
                },
                Ok(()) => r is Ok && final(self).last_probe == Some(now),
            },
    {
        match result {
            Err(e) => {
                if self.awaited != Awaited::UpgradeMode {
                    return Err(e);
                }
            },
            Ok(()) => {},
        }
        self.last_probe = Some(now);
        Ok(())
    }
}

// ---------------------------------------------------------------------------------------
// Entering upgrade mode
// ---------------------------------------------------------------------------------------
/// A step on the way into upgrade mode.
pub enum EntryStep<B = Vec<u8>> {
    /// Throw away what came in, for this many milliseconds at most.
    Flush(u64),
    /// Write the bytes, whatever comes of it.
    Say(B),
    /// Listen to the console for this many milliseconds.
    Capture(u64),
}

/// The bytes of ASCII text.
pub open spec fn ascii(text: Seq<char>) -> Seq<u8> {
    Seq::new(text.len(), |i: int| text[i] as u8)
}

/// The steps, with their bytes as sequences.
pub open spec fn entry_view(steps: Seq<EntryStep>) -> Seq<EntryStep<Seq<u8>>> {
    Seq::new(
        steps.len(),
        |i: int|
            match steps[i] {
                EntryStep::Flush(ms) => EntryStep::Flush(ms),
                EntryStep::Say(b) => EntryStep::Say(b@),
                EntryStep::Capture(ms) => EntryStep::Capture(ms),
            },
    )
}

/// The way into upgrade mode: a new prompt, the command for the application's console, then the
/// one for the bootloader's. After it the device is awaited in upgrade mode.
pub open spec fn entry_steps() -> Seq<EntryStep<Seq<u8>>> {
    seq![
        EntryStep::Flush(150),
        EntryStep::Say(ascii("\r\n"@)),
        EntryStep::Capture(250),
        EntryStep::Say(ascii("aicupg gotobl\r"@)),
        EntryStep::Capture(900),
        EntryStep::Say(ascii("aicupg uart 0\r"@)),
        EntryStep::Capture(900),
    ]
}

/// The bytes of ASCII text.
fn ascii_bytes(text: &str) -> (v: Vec<u8>)
    requires
        forall|i: int| 0 <= i < text@.len() ==> text@[i] < '\u{80}',
    ensures
        v@ == ascii(text@),
{
    let chars = chars_of(text);
    let mut v: Vec<u8> = Vec::new();
    let mut i: usize = 0;
    while i < chars.len()
        invariant
            i <= chars.len(),
            chars@ == text@,
            v@ == ascii(text@).take(i as int),
        decreases chars.len() - i,
    {
        v.push(chars[i] as u8);
        i = i + 1;
        assert(v@ =~= ascii(text@).take(i as int));
    }
    assert(v@ =~= ascii(text@));
    v
}

/// The way into upgrade mode.
pub fn enter_upgrade() -> (steps: Vec<EntryStep>)
    ensures
        entry_view(steps@) == entry_steps(),
{
    proof {
        reveal_strlit("\r\n");
        reveal_strlit("aicupg gotobl\r");
        reveal_strlit("aicupg uart 0\r");
    }
    let mut steps: Vec<EntryStep> = Vec::new();
    steps.push(EntryStep::Flush(150));
    steps.push(EntryStep::Say(ascii_bytes("\r\n")));
    steps.push(EntryStep::Capture(250));
    steps.push(EntryStep::Say(ascii_bytes("aicupg gotobl\r")));
    steps.push(EntryStep::Capture(900));
    steps.push(EntryStep::Say(ascii_bytes("aicupg uart 0\r")));
    steps.push(EntryStep::Capture(900));
    assert(entry_view(steps@) =~= entry_steps());
    steps
}

/// On the way into upgrade mode the application is told to go to its bootloader, and later,
/// after its console was listened to, the bootloader is told to talk over the line. Before both,
/// what came in is thrown away and a new prompt is asked for.
pub proof fn application_then_bootloader_are_told()
    ensures
        ({
            let steps = entry_steps();
            &&& steps.len() == 7
            &&& steps[0] == EntryStep::<Seq<u8>>::Flush(150)
            &&& steps[1] == EntryStep::Say(seq![0x0du8, 0x0au8])
            &&& steps[2] == EntryStep::<Seq<u8>>::Capture(250)
            &&& steps[3] == EntryStep::Say(
                seq![
                    0x61u8, 0x69u8, 0x63u8, 0x75u8, 0x70u8, 0x67u8, 0x20u8, 0x67u8, 0x6fu8,
                    0x74u8, 0x6fu8, 0x62u8, 0x6cu8, 0x0du8,
                ],
            )
            &&& steps[4] == EntryStep::<Seq<u8>>::Capture(900)
            &&& steps[5] == EntryStep::Say(
                seq![
                    0x61u8, 0x69u8, 0x63u8, 0x75u8, 0x70u8, 0x67u8, 0x20u8, 0x75u8, 0x61u8,
                    0x72u8, 0x74u8, 0x20u8, 0x30u8, 0x0du8,
                ],
            )
            &&& steps[6] == EntryStep::<Seq<u8>>::Capture(900)
        }),
{
    reveal_strlit("\r\n");
    reveal_strlit("aicupg gotobl\r");
    reveal_strlit("aicupg uart 0\r");
    assert(ascii("\r\n"@) =~= seq![0x0du8, 0x0au8]);
    assert(ascii("aicupg gotobl\r"@) =~= seq![
        0x61u8, 0x69u8, 0x63u8, 0x75u8, 0x70u8, 0x67u8, 0x20u8, 0x67u8, 0x6fu8, 0x74u8, 0x6fu8,
        0x62u8, 0x6cu8, 0x0du8,
    ]);
    assert(ascii("aicupg uart 0\r"@) =~= seq![
        0x61u8, 0x69u8, 0x63u8, 0x75u8, 0x70u8, 0x67u8, 0x20u8, 0x75u8, 0x61u8, 0x72u8, 0x74u8,
        0x20u8, 0x30u8, 0x0du8,
    ]);
}

} // verus!
