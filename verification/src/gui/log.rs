//! The log of the windows.
use vstd::prelude::*;

use crate::device::plan::{BurnEvent, Event};
use crate::number::{dec, push_dec_wide, zero_padded};
use crate::text::string_texts;

verus! {

/// How many lines the log holds.
pub const LOG_LEN: usize = 1500;

/// The lines that were logged last.
pub struct LogBook {
    pub lines: Vec<String>,
}

/// A line as the log shows it, `secs` seconds after the start.
pub open spec fn stamped(secs: u64, line: Seq<char>) -> Seq<char> {
    "["@ + zero_padded(dec((secs / 60) as nat), 2) + ":"@ + zero_padded(
        dec((secs % 60) as nat),
        2,
    ) + "] "@ + line
}

/// The last lines of `all`, as many as the log holds.
pub open spec fn latest(all: Seq<Seq<char>>) -> Seq<Seq<char>> {
    if all.len() > LOG_LEN {
        all.skip(all.len() - LOG_LEN)
    } else {
        all
    }
}

/// A line as the log shows it.
fn stamp(secs: u64, line: &str) -> (s: String)
    ensures
        s@ == stamped(secs, line@),
{
    let mut s = "[".to_string();
    push_dec_wide(&mut s, secs / 60, 2);
    s.append(":");
    push_dec_wide(&mut s, secs % 60, 2);
    s.append("] ");
    s.append(line);
    s
}

impl LogBook {
    /// An empty log.
    pub fn new() -> (log: Self)
        ensures
            string_texts(log.lines@) == Seq::<Seq<char>>::empty(),
    {
        let lines: Vec<String> = Vec::new();
        assert(string_texts(lines@) =~= Seq::<Seq<char>>::empty());
        LogBook { lines }
    }

    /// Logs a line; the oldest ones make room for it.
    pub fn log(&mut self, secs: u64, line: &str)
        ensures
            string_texts(final(self).lines@) == latest(
                string_texts(old(self).lines@).push(stamped(secs, line@)),
            ),
    {
        let ghost before = string_texts(self.lines@);
        self.lines.push(stamp(secs, line));
        let ghost all = string_texts(self.lines@);
        assert(all =~= before.push(stamped(secs, line@)));
        if self.lines.len() > LOG_LEN {
            let overflow: usize = self.lines.len() - LOG_LEN;
            let mut kept: Vec<String> = Vec::new();
            let mut i: usize = overflow;
            while i < self.lines.len()
                invariant
                    overflow <= i <= self.lines.len(),
                    all == string_texts(self.lines@),
                    string_texts(kept@) == all.subrange(overflow as int, i as int),
                decreases self.lines.len() - i,
            {
                let ghost held = string_texts(kept@);
                kept.push(self.lines[i].clone());
                assert(string_texts(kept@) =~= held.push(all[i as int]));
                assert(all.subrange(overflow as int, i as int).push(all[i as int]) =~= all.subrange(
                    overflow as int,
                    i + 1,
                ));
                i = i + 1;
            }
            assert(all.subrange(overflow as int, all.len() as int) =~= all.skip(overflow as int));
            self.lines = kept;
        }
    }

    /// Forgets every line.
    pub fn clear(&mut self)
        ensures
            string_texts(final(self).lines@) == Seq::<Seq<char>>::empty(),
    {
        self.lines = Vec::new();
        assert(string_texts(self.lines@) =~= Seq::<Seq<char>>::empty());
    }
}

/// However much is logged, the log does not outgrow its limit, and the last line is the one
/// that was logged last.
pub proof fn log_stays_short(lines: Seq<Seq<char>>, line: Seq<char>)
    ensures
        latest(lines.push(line)).len() <= LOG_LEN,
        latest(lines.push(line)).last() == line,
{
}

/// How far a burn is, as the windows show it.
pub struct BurnProgress<S = String> {
    /// The bytes sent and the bytes to send, of the whole burn.
    pub overall: (usize, usize),
    /// The same of the present component.
    pub component: (usize, usize),
    pub active_component: S,
}

impl View for BurnProgress {
    type V = BurnProgress<Seq<char>>;

    open spec fn view(&self) -> BurnProgress<Seq<char>> {
        BurnProgress {
            overall: self.overall,
            component: self.component,
            active_component: self.active_component@,
        }
    }
}

/// What the windows say of a report.
pub enum BurnNote<S = String> {
    Nothing,
    /// The text of the report itself.
    Text(S),
    Started { name: S, partition: S, size: usize },
    ComponentDone(S),
    AllDone,
}

impl View for BurnNote {
    type V = BurnNote<Seq<char>>;

    open spec fn view(&self) -> BurnNote<Seq<char>> {
        match *self {
            BurnNote::Nothing => BurnNote::Nothing,
            BurnNote::Text(s) => BurnNote::Text(s@),
            BurnNote::Started { name, partition, size } => BurnNote::Started {
                name: name@,
                partition: partition@,
                size,
            },
            BurnNote::ComponentDone(s) => BurnNote::ComponentDone(s@),
            BurnNote::AllDone => BurnNote::AllDone,
        }
    }
}

/// What a report changes and what is said of it.
pub open spec fn burn_event_seen(p: BurnProgress<Seq<char>>, event: Event) -> (
    BurnProgress<Seq<char>>,
    BurnNote<Seq<char>>,
) {
    match event {
        BurnEvent::Log(line) => (p, BurnNote::Text(line)),
        BurnEvent::Stage(stage) => (p, BurnNote::Text(stage)),
        BurnEvent::ComponentStarted { name, partition, size } => (
            BurnProgress { active_component: name, component: (0, 0), ..p },
            BurnNote::Started { name, partition, size },
        ),
        BurnEvent::ComponentProgress { name, sent, total } => (
            BurnProgress { active_component: name, component: (sent, total), ..p },
            BurnNote::Nothing,
        ),
        BurnEvent::OverallProgress { sent, total } => (
            BurnProgress { overall: (sent, total), ..p },
            BurnNote::Nothing,
        ),
        BurnEvent::ComponentFinished { name } => (p, BurnNote::ComponentDone(name)),
        BurnEvent::Finished => (BurnProgress { overall: (1, 1), ..p }, BurnNote::AllDone),
    }
}

impl BurnProgress {
    /// Nothing sent yet.
    pub fn new() -> (p: Self)
        ensures
            p@ == (BurnProgress {
                overall: (0, 0),
                component: (0, 0),
                active_component: Seq::<char>::empty(),
            }),
    {
        BurnProgress { overall: (0, 0), component: (0, 0), active_component: String::new() }
    }

    /// Takes note of a report.
    pub fn apply_burn_event(&mut self, event: BurnEvent) -> (note: BurnNote)
        ensures
            (final(self)@, note@) == burn_event_seen(old(self)@, event@),
    {
        match event {
            BurnEvent::Log(line) => BurnNote::Text(line),
            BurnEvent::Stage(stage) => BurnNote::Text(stage),
            BurnEvent::ComponentStarted { name, partition, size } => {
                self.active_component = name.clone();
                self.component = (0, 0);
                BurnNote::Started { name, partition, size }
            },
            BurnEvent::ComponentProgress { name, sent, total } => {
                self.active_component = name;
                self.component = (sent, total);
                BurnNote::Nothing
            },
            BurnEvent::OverallProgress { sent, total } => {
                self.overall = (sent, total);
                BurnNote::Nothing
            },
            BurnEvent::ComponentFinished { name } => BurnNote::ComponentDone(name),
            BurnEvent::Finished => {
                self.overall = (1, 1);
                BurnNote::AllDone
            },
        }
    }
}

} // verus!
