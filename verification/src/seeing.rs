//! What is seen of a value is the value: texts as their characters, bytes as they are.
use vstd::prelude::*;

use crate::app_config::history::entry_views;
use crate::app_config::AppConfig;
use crate::device::burn::job_of;
use crate::device::command::{hwinfo_outcome, UpgDevice};
use crate::device::plan::{events, BurnEvent};
use crate::gui::log::{BurnNote, BurnProgress};
use crate::paths::Lead;
use crate::protocol::cbw_csw::{AicCsw, HwInfo};
use crate::protocol::commands::FwcMeta;
use crate::standalone::{AccessSetup, UserDirs};
use crate::text::{string_texts, texts};
use crate::transport::{
    baudrate_set, done, drained, extends, paused, read_outcome, reconnected, was_read,
    write_outcome, wrote, CswPolicy, Exchange, UpgTransport,
};
use crate::uart::console::{entry_view, EntryStep, Heard, KeywordReply, Tick};
use crate::uart::frame::{slice_bytes, FrameStatus};
use crate::uart::leg::Dealing;
use crate::uart::monitor::{MonitorOutput, MonitorState};
use crate::uart::ports::{ConnectAction, PortConnect};
use crate::uart::txn::{
    read_step_view, write_step_view, ReadResult, ReadTxn, SpeedAction, SpeedChange, TxnStep,
    WriteResult, WriteTxn,
};
use crate::uart::wire::{Prompt, Reception, WireAction, WireEvent};
use crate::usb::bulk::{csw_step_view, data_step_view, CswResult, ReadFailure, ReadStep, WriteStep};
use crate::usb::ioreg::device_views;
use crate::usb::search::{DeviceInfo, OpenSearch, ReconnectStep, ReconnectWait};
use crate::usb::txn::BulkAction;

verus! {

// ---------------------------------------------------------------------------------------
// Lists and results
// ---------------------------------------------------------------------------------------
/// Lists are seen entry by entry, in their order.
pub proof fn lists_are_seen_in_order(
    a: Seq<String>,
    b: Seq<Vec<char>>,
    c: Seq<DeviceInfo>,
    d: Seq<BurnEvent>,
    e: Seq<(String, String)>,
    f: Seq<&[u8]>,
    i: int,
)
    ensures
        string_texts(a).len() == a.len() && (0 <= i < a.len() ==> string_texts(a)[i] == a[i]@),
        texts(b).len() == b.len() && (0 <= i < b.len() ==> texts(b)[i] == b[i]@),
        device_views(c).len() == c.len() && (0 <= i < c.len() ==> device_views(c)[i] == c[i]@),
        events(d).len() == d.len() && (0 <= i < d.len() ==> events(d)[i] == d[i]@),
        entry_views(e).len() == e.len() && (0 <= i < e.len() ==> entry_views(e)[i] == (
            e[i].0@,
            e[i].1@,
        )),
        slice_bytes(f).len() == f.len() && (0 <= i < f.len() ==> slice_bytes(f)[i] == f[i]@),
{
}

/// The outcomes of transactions and of the hardware report are seen as they are.
pub proof fn outcomes_are_seen_as_they_are(csw: AicCsw, info: HwInfo, e: String)
    ensures
        write_outcome(Ok(Some(csw))) == Ok::<Option<Seq<u8>>, Seq<char>>(Some(csw@)),
        write_outcome(Ok(None)) == Ok::<Option<Seq<u8>>, Seq<char>>(None),
        write_outcome(Err(e)) == Err::<Option<Seq<u8>>, Seq<char>>(e@),
        hwinfo_outcome(Ok(info)) == Ok::<Seq<u8>, Seq<char>>(info@),
        hwinfo_outcome(Err(e)) == Err::<Seq<u8>, Seq<char>>(e@),
{
}

/// The job of a burn is to send this image over this link.
pub proof fn jobs_are_what_they_say<T: UpgTransport>(
    device: &UpgDevice<T>,
    image: Seq<u8>,
    metas: Seq<FwcMeta>,
    parts: Seq<Seq<char>>,
)
    ensures
        ({
            let job = job_of(device, image, metas, parts);
            job.image == image && job.metas == metas && job.parts == parts && job.profile
                == device.profile() && job.write_limit == device.link().write_limit
        }),
{
}

// ---------------------------------------------------------------------------------------
// The serial line
// ---------------------------------------------------------------------------------------
/// The steps of transactions over the serial line are seen as they are.
pub proof fn line_transactions_are_seen(
    w: TxnStep<Vec<u8>, WriteResult>,
    r: TxnStep<Vec<u8>, ReadResult>,
    s: SpeedAction,
)
    ensures
        match w {
            TxnStep::Send(b) => write_step_view(w) matches TxnStep::Send(c) && c == b@,
            TxnStep::Recv(n) => write_step_view(w) matches TxnStep::Recv(m) && m == n,
            TxnStep::Done(x) => write_step_view(w) matches TxnStep::Done(y) && y == write_outcome(
                x,
            ),
        },
        match r {
            TxnStep::Send(b) => read_step_view(r) matches TxnStep::Send(c) && c == b@,
            TxnStep::Recv(n) => read_step_view(r) matches TxnStep::Recv(m) && m == n,
            TxnStep::Done(Ok(b)) => read_step_view(r) matches TxnStep::Done(Ok(c)) && c == b@,
            TxnStep::Done(Err(e)) => read_step_view(r) matches TxnStep::Done(Err(f)) && f == e@,
        },
        match s {
            SpeedAction::Send(b) => s@ matches SpeedAction::Send(c) && c == b@,
            SpeedAction::Recv(n) => s@ matches SpeedAction::Recv(m) && m == n,
            SpeedAction::Pause(n) => s@ matches SpeedAction::Pause(m) && m == n,
            SpeedAction::SetSpeed(n) => s@ matches SpeedAction::SetSpeed(m) && m == n,
            SpeedAction::Done(Ok(_)) => s@ matches SpeedAction::Done(Ok(_)),
            SpeedAction::Done(Err(e)) => s@ matches SpeedAction::Done(Err(f)) && f == e@,
        },
{
}

/// The states of transactions over the serial line are seen as they are.
pub proof fn line_states_are_seen(w: WriteTxn, r: ReadTxn, s: SpeedChange)
    ensures
        w@.tag == w.tag && w@.payload == w.payload@ && w@.policy == w.policy && w@.stage == w.stage,
        r@.tag == r.tag && r@.read_len == r.read_len && r@.policy == r.policy && r@.stage
            == r.stage && r@.data == r.data@,
        s@.baudrate == s.baudrate && s@.tag == s.tag && s@.stage == s.stage && s@.write == s.write@,
{
}

/// What happens on the serial line, and what is to be done, is seen as it is.
pub proof fn line_dealings_are_seen(e: WireEvent, a: WireAction, f: FrameStatus)
    ensures
        match e {
            WireEvent::Begin => e@ is Begin,
            WireEvent::Written => e@ is Written,
            WireEvent::WriteFailed(s) => e@ matches WireEvent::WriteFailed(t) && t == s@,
            WireEvent::Byte(b) => e@ matches WireEvent::Byte(c) && c == b,
            WireEvent::NoByte(s) => e@ matches WireEvent::NoByte(t) && t == s@,
        },
        match a {
            WireAction::Write(b) => a@ matches WireAction::Write(c) && c == b@,
            WireAction::ReadAck => a@ is ReadAck,
            WireAction::ReadData => a@ is ReadData,
            WireAction::Done(Ok(b)) => a@ matches WireAction::Done(Ok(c)) && c == b@,
            WireAction::Done(Err(s)) => a@ matches WireAction::Done(Err(t)) && t == s@,
        },
        match f {
            FrameStatus::More => f@ is More,
            FrameStatus::Bad => f@ is Bad,
            FrameStatus::Good(b) => f@ matches FrameStatus::Good(c) && c == b@,
        },
{
}

/// Prompts and receptions are seen as they are.
pub proof fn prompts_and_receptions_are_seen(p: Prompt, r: Reception, d: Dealing)
    ensures
        p@.bytes == p.bytes@ && p@.purpose == p.purpose && p@.tries == p.tries && p@.last_err
            == p.last_err@ && p@.greeting == p.greeting,
        r@.port_name == r.port_name@ && r@.frame == r.frame@,
        match r.result {
            None => r@.result is None,
            Some(Ok(b)) => r@.result matches Some(Ok(c)) && c == b@,
            Some(Err(s)) => r@.result matches Some(Err(t)) && t == s@,
        },
        match d {
            Dealing::Switch(q) => d@ matches Dealing::Switch(x) && x == q@,
            Dealing::Frame(q) => d@ matches Dealing::Frame(x) && x == q@,
        },
{
}

/// The steps on the way into upgrade mode are seen as they are.
pub proof fn entry_steps_are_seen(steps: Seq<EntryStep>, i: int)
    ensures
        entry_view(steps).len() == steps.len(),
        0 <= i < steps.len() ==> match steps[i] {
            EntryStep::Flush(n) => entry_view(steps)[i] matches EntryStep::Flush(m) && m == n,
            EntryStep::Say(b) => entry_view(steps)[i] matches EntryStep::Say(c) && c == b@,
            EntryStep::Capture(n) => entry_view(steps)[i] matches EntryStep::Capture(m) && m == n,
        },
{
}

/// What is heard on the console, and what it leads to, is seen as it is.
pub proof fn console_is_seen(
    h: Heard,
    k: KeywordReply,
    t: Tick,
    o: MonitorOutput,
    m: MonitorState,
)
    ensures
        match h {
            Heard::Nothing => h@ is Nothing,
            Heard::Ready(Some(s)) => h@ matches Heard::Ready(Some(x)) && x == s@,
            Heard::Ready(None) => h@ matches Heard::Ready(None),
            Heard::Greeting => h@ is Greeting,
            Heard::Keyword => h@ is Keyword,
            Heard::Line(s) => h@ matches Heard::Line(x) && x == s@,
        },
        match k {
            KeywordReply::Acknowledge(s) => k@ matches KeywordReply::Acknowledge(x) && x == s@,
            KeywordReply::Show(s) => k@ matches KeywordReply::Show(x) && x == s@,
            KeywordReply::Nothing => k@ is Nothing,
        },
        match t {
            Tick::Probe => t@ is Probe,
            Tick::Listen => t@ is Listen,
            Tick::Expired(s) => t@ matches Tick::Expired(x) && x == s@,
        },
        match o {
            MonitorOutput::Nothing => o@ is Nothing,
            MonitorOutput::Text(s) => o@ matches MonitorOutput::Text(x) && x == s@,
            MonitorOutput::Acknowledge(s) => o@ matches MonitorOutput::Acknowledge(x) && x == s@,
        },
        m@.line == m.line@,
        match m.keyword {
            None => m@.keyword is None,
            Some(b) => m@.keyword == Some(b@),
        },
{
}

/// The way to a device behind a port is seen as it is.
pub proof fn connecting_is_seen(a: ConnectAction, p: PortConnect)
    ensures
        match a {
            ConnectAction::Handshake(n) => a@ matches ConnectAction::Handshake(m) && m == n,
            ConnectAction::Enter(n) => a@ matches ConnectAction::Enter(m) && m == n,
            ConnectAction::Probe => a@ is Probe,
            ConnectAction::Negotiate(n) => a@ matches ConnectAction::Negotiate(m) && m == n,
            ConnectAction::Done(r) => a@ matches ConnectAction::Done(x) && x == done(r),
        },
        p@.options == p.options && p@.port_name == p.port_name@ && p@.stage == p.stage,
{
}

// ---------------------------------------------------------------------------------------
// The USB bus
// ---------------------------------------------------------------------------------------
/// The steps of transactions over the bus are seen as they are.
pub proof fn bus_transactions_are_seen(
    a: BulkAction,
    f: ReadFailure,
    c: ReadStep<CswResult>,
    d: ReadStep<Result<Vec<u8>, String>>,
    w: WriteStep,
)
    ensures
        match a {
            BulkAction::WriteData => a@ is WriteData,
            BulkAction::ReadData(n) => a@ matches BulkAction::ReadData(m) && m == n,
            BulkAction::ReadStatus => a@ is ReadStatus,
            BulkAction::Fail(s) => a@ matches BulkAction::Fail(x) && x == s@,
        },
        match f {
            ReadFailure::Timeout => f@ is Timeout,
            ReadFailure::Gone(s) => f@ matches ReadFailure::Gone(x) && x == s@,
            ReadFailure::Other(s) => f@ matches ReadFailure::Other(x) && x == s@,
        },
        match c {
            ReadStep::Read(n) => csw_step_view(c) matches ReadStep::Read(m) && m == n,
            ReadStep::Done(r) => csw_step_view(c) matches ReadStep::Done(x) && x == write_outcome(
                r,
            ),
        },
        match d {
            ReadStep::Read(n) => data_step_view(d) matches ReadStep::Read(m) && m == n,
            ReadStep::Done(r) => data_step_view(d) matches ReadStep::Done(x) && x == read_outcome(
                r,
            ),
        },
        match w {
            WriteStep::Write(m, n) => w@ matches WriteStep::Write(x, y) && x == m && y == n,
            WriteStep::Done(r) => w@ matches WriteStep::Done(x) && x == done(r),
        },
{
}

/// Devices, and the search and the wait for one, are seen as they are.
pub proof fn devices_are_seen(d: DeviceInfo, o: OpenSearch, w: ReconnectWait, r: ReconnectStep)
    ensures
        d@.bus_number == d.bus_number && d@.address == d.address && d@.vendor_id == d.vendor_id
            && d@.product_id == d.product_id && d@.port_path == d.port_path@ && d@.speed
            == d.speed@ && d@.ready == d.ready,
        match d.status {
            None => d@.status is None,
            Some(s) => d@.status == Some(s@),
        },
        o@.location == o.location && o@.matched_count == o.matched_count,
        match o.last_open_error {
            None => o@.last_open_error is None,
            Some(s) => o@.last_open_error == Some(s@),
        },
        w@.deadline == w.deadline && w@.old_device_gone == w.old_device_gone && w@.last_err
            == w.last_err@,
        match r {
            ReconnectStep::Look => r@ is Look,
            ReconnectStep::Reopen => r@ is Reopen,
            ReconnectStep::Sleep => r@ is Sleep,
            ReconnectStep::Back => r@ is Back,
            ReconnectStep::Expired(s) => r@ matches ReconnectStep::Expired(x) && x == s@,
        },
{
}

// ---------------------------------------------------------------------------------------
// Reports, settings and places
// ---------------------------------------------------------------------------------------
/// The reports of a burn, and what the windows make of them, are seen as they are.
pub proof fn reports_are_seen(e: BurnEvent, p: BurnProgress, n: BurnNote)
    ensures
        match e {
            BurnEvent::Log(s) => e@ matches BurnEvent::Log(x) && x == s@,
            BurnEvent::Stage(s) => e@ matches BurnEvent::Stage(x) && x == s@,
            BurnEvent::ComponentStarted { name, partition, size } => e@
                == BurnEvent::ComponentStarted { name: name@, partition: partition@, size },
            BurnEvent::ComponentProgress { name, sent, total } => e@
                == BurnEvent::ComponentProgress { name: name@, sent, total },
            BurnEvent::OverallProgress { sent, total } => e@ == BurnEvent::OverallProgress::<
                Seq<char>,
            > { sent, total },
            BurnEvent::ComponentFinished { name } => e@ == BurnEvent::ComponentFinished {
                name: name@,
            },
            BurnEvent::Finished => e@ is Finished,
        },
        p@.overall == p.overall && p@.component == p.component && p@.active_component
            == p.active_component@,
        match n {
            BurnNote::Nothing => n@ is Nothing,
            BurnNote::Text(s) => n@ matches BurnNote::Text(x) && x == s@,
            BurnNote::Started { name, partition, size } => n@ == BurnNote::Started {
                name: name@,
                partition: partition@,
                size,
            },
            BurnNote::ComponentDone(s) => n@ matches BurnNote::ComponentDone(x) && x == s@,
            BurnNote::AllDone => n@ is AllDone,
        },
{
}

/// Settings are seen as they are.
pub proof fn settings_are_seen(c: AppConfig)
    ensures
        c@.auto_burn == c.auto_burn && c@.verbose == c.verbose && c@.read_device_log
            == c.read_device_log && c@.adb_scan == c.adb_scan && c@.retry_count == c.retry_count
            && c@.block_error_log == c.block_error_log && c@.burn_timeout_secs
            == c.burn_timeout_secs,
        c@.language == c.language@ && c@.app_dir == c.app_dir@ && c@.aiburn_dir == c.aiburn_dir@
            && c@.upgcmd_path == c.upgcmd_path@ && c@.transport == c.transport@ && c@.serial_port
            == c.serial_port@,
        c@.selected_parts.len() == c.selected_parts@.len(),
        forall|i: int|
            0 <= i < c.selected_parts@.len() ==> #[trigger] c@.selected_parts[i]
                == c.selected_parts@[i]@,
        match c.image_path {
            None => c@.image_path is None,
            Some(p) => c@.image_path == Some(p@),
        },
        c@.serial_baud == c.serial_baud && c@.serial_speed == c.serial_speed
            && c@.serial_auto_enter == c.serial_auto_enter,
{
}

/// The user's directories, the setup of USB access and the beginning of a path are seen as they
/// are.
pub proof fn places_are_seen(d: UserDirs, a: AccessSetup, l: Lead)
    ensures
        d@.appdata is Some == d.appdata is Some && (d.appdata matches Some(s) ==> d@.appdata
            == Some(s@)),
        d@.xdg_config_home is Some == d.xdg_config_home is Some && (d.xdg_config_home matches Some(
            s,
        ) ==> d@.xdg_config_home == Some(s@)),
        d@.home is Some == d.home is Some && (d.home matches Some(s) ==> d@.home == Some(s@)),
        d@.userprofile is Some == d.userprofile is Some && (d.userprofile matches Some(s)
            ==> d@.userprofile == Some(s@)),
        match a {
            AccessSetup::Nothing => a@ is Nothing,
            AccessSetup::Unsupported(s) => a@ matches AccessSetup::Unsupported(x) && x == s@,
            AccessSetup::Udev { rule, first, second } => a@ == AccessSetup::Udev {
                rule: rule@,
                first: first@,
                second: second@,
            },
            AccessSetup::WinUsb { inf, command } => a@ == AccessSetup::WinUsb {
                inf: inf@,
                command: command@,
            },
        },
        l@.kind == l.kind && l@.rooted == l.rooted && l@.rest == l.rest@ && l@.names == texts(
            l.names@,
        ),
{
}

/// A request stands in a history if and only if the exchange at its place asked for exactly that;
/// its outcome is that of the exchange, and what follows stands right behind it.
pub proof fn requests_are_found_as_made(
    h: Seq<Exchange>,
    i: int,
    j: int,
    payload: Seq<u8>,
    policy: CswPolicy,
    written: Result<Option<Seq<u8>>, Seq<char>>,
    len: u32,
    came: Result<Seq<u8>, Seq<char>>,
    time: u64,
    most: usize,
    baudrate: u32,
    end: Result<(), Seq<char>>,
)
    ensures
        ({
            let next = 0 <= i < h.len() && j == i + 1;
            &&& wrote(h, i, payload, policy) == Some((j, written)) <==> next && h[i]
                == (Exchange::Write { payload, policy, outcome: written })
            &&& was_read(h, i, len, policy) == Some((j, came)) <==> next && h[i]
                == (Exchange::Read { len, policy, outcome: came })
            &&& reconnected(h, i, time) == Some((j, end)) <==> next && h[i]
                == (Exchange::Reconnect { timeout: time, outcome: end })
            &&& drained(h, i, time, most) == Some((j, end)) <==> next && h[i]
                == (Exchange::Drain { timeout: time, max_bytes: most, outcome: end })
            &&& baudrate_set(h, i, baudrate) == Some((j, end)) <==> next && h[i]
                == (Exchange::Baudrate { baudrate, outcome: end })
            &&& paused(h, i, time) == Some(j) <==> next && h[i] == (Exchange::Pause {
                millis: time,
            })
        }),
{
}

/// One history goes on from another if and only if it begins with it.
pub proof fn histories_only_grow(h: Seq<Exchange>, base: Seq<Exchange>, more: Seq<Exchange>)
    ensures
        extends(base + more, base),
        extends(h, base) ==> h == base + h.skip(base.len() as int),
{
    if extends(h, base) {
        assert(h =~= base + h.skip(base.len() as int));
    }
}

} // verus!
