//! An interactive monitor of the device's console.
use vstd::prelude::*;

use crate::codec::{lossy_text, utf8_lossy};
use crate::text::{str_trim, trimmed};
use crate::uart::console::{keyword_text_reply, reply_to, KeywordReply};
use crate::uart::frame::SYN;

verus! {

/// The length beyond which a boot keyword is taken to be complete.
pub const MONITOR_KEYWORD_LEN: usize = 24;

/// What the user asks of a monitor.
#[derive(Debug)]
pub enum MonitorCommand {
    Line(String),
    TriggerUpgrade,
    Close,
}

/// What a monitor does with a byte from the device.
pub enum MonitorOutput<S = String> {
    Nothing,
    /// Show the text.
    Text(S),
    /// Acknowledge a boot keyword, and show the text.
    Acknowledge(S),
}

impl View for MonitorOutput {
    type V = MonitorOutput<Seq<char>>;

    open spec fn view(&self) -> MonitorOutput<Seq<char>> {
        match *self {
            MonitorOutput::Nothing => MonitorOutput::Nothing,
            MonitorOutput::Text(s) => MonitorOutput::Text(s@),
            MonitorOutput::Acknowledge(s) => MonitorOutput::Acknowledge(s@),
        }
    }
}

/// A monitor between two bytes.
pub struct MonitorState<B = Vec<u8>, S = String> {
    /// The line so far.
    pub line: S,
    /// The boot keyword so far, if one began.
    pub keyword: Option<B>,
}

impl View for MonitorState {
    type V = MonitorState<Seq<u8>, Seq<char>>;

    open spec fn view(&self) -> MonitorState<Seq<u8>, Seq<char>> {
        MonitorState {
            line: self.line@,
            keyword: match self.keyword {
                Some(k) => Some(k@),
                None => None,
            },
        }
    }
}

/// What a monitor does with a boot keyword that reads `text`.
pub open spec fn keyword_output(text: Seq<char>) -> MonitorOutput<Seq<char>> {
    match reply_to(text) {
        KeywordReply::Acknowledge(bare) => MonitorOutput::Acknowledge(
            "[monitor] acknowledged boot keyword '"@ + bare + "'"@,
        ),
        KeywordReply::Show(bare) => MonitorOutput::Text("[device] "@ + bare),
        KeywordReply::Nothing => MonitorOutput::Nothing,
    }
}

/// What a monitor does with `byte`. Lines end at a carriage return or a line feed, blank ones
/// are left out; tabs become blanks, and what cannot be printed is dropped. From a marker on,
/// bytes make up a boot keyword, up to a line feed or a limit.
pub open spec fn monitor_step(s: MonitorState<Seq<u8>, Seq<char>>, byte: u8) -> (
    MonitorState<Seq<u8>, Seq<char>>,
    MonitorOutput<Seq<char>>,
) {
    if byte == SYN {
        (MonitorState { keyword: Some(Seq::empty()), ..s }, MonitorOutput::Nothing)
    } else {
        match s.keyword {
            Some(k) => {
                let all = k.push(byte);
                if byte == 0x0a || all.len() > MONITOR_KEYWORD_LEN {
                    (MonitorState { keyword: None, ..s }, keyword_output(lossy_text(all)))
                } else {
                    (MonitorState { keyword: Some(all), ..s }, MonitorOutput::Nothing)
                }
            },
            None => if byte == 0x0d || byte == 0x0a {
                (
                    MonitorState { line: Seq::empty(), ..s },
                    if trimmed(s.line).len() > 0 {
                        MonitorOutput::Text(s.line)
                    } else {
                        MonitorOutput::Nothing
                    },
                )
            } else if byte == 0x09 {
                (MonitorState { line: s.line.push(' '), ..s }, MonitorOutput::Nothing)
            } else if 0x20 <= byte <= 0x7e {
                (
                    MonitorState { line: s.line.push(byte as char), ..s },
                    MonitorOutput::Nothing,
                )
            } else {
                (s, MonitorOutput::Nothing)
            },
        }
    }
}

/// What a monitor does with a boot keyword that reads `text`.
pub fn keyword_said(text: &str) -> (r: MonitorOutput)
    ensures
        r@ == keyword_output(text@),
{
    match keyword_text_reply(text) {
        KeywordReply::Acknowledge(bare) => {
            let mut s = "[monitor] acknowledged boot keyword '".to_string();
            s.append(bare.as_str());
            s.append("'");
            MonitorOutput::Acknowledge(s)
        },
        KeywordReply::Show(bare) => {
            let mut s = "[device] ".to_string();
            s.append(bare.as_str());
            MonitorOutput::Text(s)
        },
        KeywordReply::Nothing => MonitorOutput::Nothing,
    }
}

impl MonitorState {
    /// A monitor that has heard nothing.
    pub fn new() -> (s: Self)
        ensures
            s@ == (MonitorState {
                line: Seq::<char>::empty(),
                keyword: None::<Seq<u8>>,
            }),
    {
        MonitorState { line: String::new(), keyword: None }
    }

    /// Takes a byte from the device.
    pub fn step(&mut self, byte: u8) -> (r: MonitorOutput)
        ensures
            (final(self)@, r@) == monitor_step(old(self)@, byte),
    {
        if byte == SYN {
            let none_yet: Vec<u8> = Vec::new();
            assert(none_yet@ =~= Seq::<u8>::empty());
            self.keyword = Some(none_yet);
            return MonitorOutput::Nothing;
        }
        let mut pending: Option<Vec<u8>> = None;
        std::mem::swap(&mut pending, &mut self.keyword);
        match pending {
            Some(mut k) => {
                k.push(byte);
                if byte == 0x0a || k.len() > MONITOR_KEYWORD_LEN {
                    keyword_said(utf8_lossy(k.as_slice()).as_str())
                } else {
                    self.keyword = Some(k);
                    MonitorOutput::Nothing
                }
            },
            None => {
                if byte == 0x0d || byte == 0x0a {
                    let mut line = String::new();
                    std::mem::swap(&mut line, &mut self.line);
                    assert(self.line@ =~= Seq::<char>::empty());
                    if str_trim(line.as_str()).as_str().unicode_len() > 0 {
                        MonitorOutput::Text(line)
                    } else {
                        MonitorOutput::Nothing
                    }
                } else {
                    if byte == 0x09 {
                        self.line.push(' ');
                    } else if byte >= 0x20 && byte <= 0x7e {
                        self.line.push(byte as char);
                    }
                    MonitorOutput::Nothing
                }
            },
        }
    }
}

/// The commands that ask a running board for upgrade mode, each with the pause after it in
/// milliseconds.
pub fn upgrade_steps() -> (steps: Vec<(&'static str, u64)>)
    ensures
        steps@.len() == 3,
        steps@[0].0@ == "\r\n"@ && steps@[0].1 == 300,
        steps@[1].0@ == "aicupg gotobl\r"@ && steps@[1].1 == 800,
        steps@[2].0@ == "aicupg uart 0\r"@ && steps@[2].1 == 800,
{
    let mut steps: Vec<(&'static str, u64)> = Vec::new();
    steps.push(("\r\n", 300));
    steps.push(("aicupg gotobl\r", 800));
    steps.push(("aicupg uart 0\r", 800));
    steps
}

/// What is shown after the board was asked for upgrade mode.
pub fn upgrade_asked_text() -> (s: &'static str)
    ensures
        s@
            == "[monitor] sent `aicupg gotobl` / `aicupg uart 0`; reset the board if it does not reboot into upgrade mode"@,
{
    "[monitor] sent `aicupg gotobl` / `aicupg uart 0`; reset the board if it does not reboot into upgrade mode"
}

/// What is shown where reading from the port failed.
pub fn read_failed_text(e: &str) -> (s: String)
    ensures
        s@ == "[monitor] serial read failed: "@ + e@,
{
    let mut s = "[monitor] serial read failed: ".to_string();
    s.append(e);
    s
}

} // verus!
