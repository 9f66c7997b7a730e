//! Transactions on the serial line: which legs they are made of, and what their answers mean.
use vstd::prelude::*;

use crate::codec::{copy_bytes, le32, le32_at, to_le32};
use crate::device::delivery::word;
use crate::number::{dec, push_dec};
use crate::protocol::cbw_csw::{
    cbw_bytes, cmd_bytes, csw_ok, AicCbw, AicCsw, CmdHeader, CSW_LEN, RESP_MIN_HDR_LEN,
    TRANS_LAYER_CMD_READ, TRANS_LAYER_CMD_WRITE,
};
use crate::transport::{read_outcome, write_outcome, CswPolicy};

verus! {

/// The tag of the transaction after the one tagged `tag`. No transaction is tagged zero.
pub open spec fn tag_after(tag: u32) -> u32 {
    if tag == u32::MAX {
        1
    } else {
        (tag + 1) as u32
    }
}

/// The tags of transactions.
pub struct TagCounter {
    pub tag: u32,
}

impl TagCounter {
    /// A counter at its start.
    pub fn new() -> (c: Self)
        ensures
            c.tag == 1,
    {
        TagCounter { tag: 1 }
    }

    /// The tag of the next transaction.
    pub fn next_tag(&mut self) -> (tag: u32)
        ensures
            tag == old(self).tag,
            final(self).tag == tag_after(old(self).tag),
    {
        let tag: u32 = self.tag;
        self.tag = if tag == u32::MAX {
            1
        } else {
            tag + 1
        };
        tag
    }
}

/// Tags are never zero, and two transactions in a row never share one.
pub proof fn tags_are_told_apart(tag: u32)
    ensures
        tag_after(tag) != 0,
        tag_after(tag) != tag,
{
}

// ---------------------------------------------------------------------------------------
// The status wrapper
// ---------------------------------------------------------------------------------------
/// What the answer to a transaction means: it must be a status wrapper with the transaction's
/// tag that reports success. Where the policy allows it, it may be missing.
pub open spec fn csw_verdict(
    leg: Result<Seq<u8>, Seq<char>>,
    tag: u32,
    policy: CswPolicy,
) -> Result<Option<Seq<u8>>, Seq<char>> {
    match leg {
        Err(e) => if policy == CswPolicy::AllowMissing {
            Ok(None)
        } else {
            Err(e)
        },
        Ok(b) => if b.len() < CSW_LEN {
            Err("Failed to parse UART CSW"@)
        } else if le32_at(b, 4) != tag {
            Err(
                "UART CSW tag mismatch: got "@ + dec(le32_at(b, 4) as nat) + ", expected "@ + dec(
                    tag as nat,
                ),
            )
        } else if !csw_ok(b) {
            Err(
                "UART CSW failed: status="@ + dec(b[12] as nat) + " residue="@ + dec(
                    le32_at(b, 8) as nat,
                ),
            )
        } else {
            Ok(Some(b.take(CSW_LEN as int)))
        },
    }
}

/// What the answer to a transaction means.
pub fn read_csw_for(leg: Result<Vec<u8>, String>, tag: u32, policy: CswPolicy) -> (r: Result<
    Option<AicCsw>,
    String,
>)
    ensures
        write_outcome(r) == csw_verdict(read_outcome(leg), tag, policy),
{
    let bytes = match leg {
        Ok(bytes) => bytes,
        Err(e) => {
            if policy == CswPolicy::AllowMissing {
                return Ok(None);
            }
            return Err(e);
        },
    };
    let csw = match AicCsw::from_bytes(bytes.as_slice()) {
        Some(csw) => csw,
        None => {
            return Err("Failed to parse UART CSW".to_string());
        },
    };
    if csw.tag_val() != tag {
        let mut e = "UART CSW tag mismatch: got ".to_string();
        push_dec(&mut e, csw.tag_val() as u64);
        e.append(", expected ");
        push_dec(&mut e, tag as u64);
        return Err(e);
    }
    if !csw.is_ok() {
        let mut e = "UART CSW failed: status=".to_string();
        push_dec(&mut e, csw.status_val() as u64);
        e.append(" residue=");
        push_dec(&mut e, csw.data_residue_val() as u64);
        return Err(e);
    }
    Ok(Some(csw))
}

/// A missing wrapper is accepted only where the policy allows it; where it is required, success
/// means that a wrapper with the right tag reported it.
pub proof fn required_means_confirmed(
    leg: Result<Seq<u8>, Seq<char>>,
    tag: u32,
)
    ensures
        csw_verdict(leg, tag, CswPolicy::Required) matches Ok(got) ==> (got matches Some(b)
            && b.len() == CSW_LEN && le32_at(b, 4) == tag && csw_ok(b)),
{
}

// ---------------------------------------------------------------------------------------
// Transactions
// ---------------------------------------------------------------------------------------
/// The next leg of a transaction, or its result.
pub enum TxnStep<B, R> {
    /// Send the buffer.
    Send(B),
    /// Receive a buffer of this length.
    Recv(usize),
    Done(R),
}

/// How far a transaction is.
#[derive(Clone, Copy, Debug, Eq, PartialEq, Structural)]
pub enum Stage {
    /// The command wrapper goes out.
    Command,
    /// The data goes out or comes in.
    Data,
    /// The status wrapper comes in.
    Status,
}

/// A write transaction.
pub struct WriteTxn<B = Vec<u8>> {
    pub tag: u32,
    pub payload: B,
    pub policy: CswPolicy,
    pub stage: Stage,
}

impl View for WriteTxn {
    type V = WriteTxn<Seq<u8>>;

    open spec fn view(&self) -> WriteTxn<Seq<u8>> {
        WriteTxn {
            tag: self.tag,
            payload: self.payload@,
            policy: self.policy,
            stage: self.stage,
        }
    }
}

/// What a write transaction comes to.
pub type WriteResult = Result<Option<AicCsw>, String>;

/// A step of a write transaction, with its bytes and texts as sequences.
pub open spec fn write_step_view(step: TxnStep<Vec<u8>, WriteResult>) -> TxnStep<
    Seq<u8>,
    Result<Option<Seq<u8>>, Seq<char>>,
> {
    match step {
        TxnStep::Send(b) => TxnStep::Send(b@),
        TxnStep::Recv(n) => TxnStep::Recv(n),
        TxnStep::Done(r) => TxnStep::Done(write_outcome(r)),
    }
}

/// What a write transaction does after its last leg: the command wrapper goes out, then the
/// data, if there is any, then the status wrapper comes in.
pub open spec fn write_txn_step(
    t: WriteTxn<Seq<u8>>,
    leg: Result<Seq<u8>, Seq<char>>,
) -> (WriteTxn<Seq<u8>>, TxnStep<Seq<u8>, Result<Option<Seq<u8>>, Seq<char>>>) {
    match t.stage {
        Stage::Command => match leg {
            Err(e) => (t, TxnStep::Done(Err(e))),
            Ok(_) => if t.payload.len() > 0 {
                (WriteTxn { stage: Stage::Data, ..t }, TxnStep::Send(t.payload))
            } else {
                (WriteTxn { stage: Stage::Status, ..t }, TxnStep::Recv(CSW_LEN))
            },
        },
        Stage::Data => match leg {
            Err(e) => (t, TxnStep::Done(Err(e))),
            Ok(_) => (WriteTxn { stage: Stage::Status, ..t }, TxnStep::Recv(CSW_LEN)),
        },
        Stage::Status => (t, TxnStep::Done(csw_verdict(leg, t.tag, t.policy))),
    }
}

impl WriteTxn {
    /// Begins a write transaction; the buffer is to be sent first.
    pub fn begin(tag: u32, payload: &[u8], policy: CswPolicy) -> (r: (Self, Vec<u8>))
        ensures
            r.0@ == (WriteTxn { tag, payload: payload@, policy, stage: Stage::Command }),
            r.1@ == cbw_bytes(tag, payload@.len() as u32, 0, TRANS_LAYER_CMD_WRITE),
    {
        let cbw = AicCbw::new_write(tag, payload.len() as u32);
        (
            WriteTxn { tag, payload: copy_bytes(payload), policy, stage: Stage::Command },
            copy_bytes(cbw.to_bytes()),
        )
    }

    /// Says what to do after the last leg.
    pub fn step(&mut self, leg: Result<Vec<u8>, String>) -> (step: TxnStep<Vec<u8>, WriteResult>)
        ensures
            (final(self)@, write_step_view(step)) == write_txn_step(
                old(self)@,
                read_outcome(leg),
            ),
    {
        match self.stage {
            Stage::Command => match leg {
                Err(e) => TxnStep::Done(Err(e)),
                Ok(_) => {
                    if self.payload.len() > 0 {
                        self.stage = Stage::Data;
                        TxnStep::Send(copy_bytes(self.payload.as_slice()))
                    } else {
                        self.stage = Stage::Status;
                        TxnStep::Recv(CSW_LEN)
                    }
                },
            },
            Stage::Data => match leg {
                Err(e) => TxnStep::Done(Err(e)),
                Ok(_) => {
                    self.stage = Stage::Status;
                    TxnStep::Recv(CSW_LEN)
                },
            },
            Stage::Status => TxnStep::Done(read_csw_for(leg, self.tag, self.policy)),
        }
    }
}

/// A read transaction.
pub struct ReadTxn<B = Vec<u8>> {
    pub tag: u32,
    pub read_len: u32,
    pub policy: CswPolicy,
    pub stage: Stage,
    pub data: B,
}

impl View for ReadTxn {
    type V = ReadTxn<Seq<u8>>;

    open spec fn view(&self) -> ReadTxn<Seq<u8>> {
        ReadTxn {
            tag: self.tag,
            read_len: self.read_len,
            policy: self.policy,
            stage: self.stage,
            data: self.data@,
        }
    }
}

/// What a read transaction comes to.
pub type ReadResult = Result<Vec<u8>, String>;

/// A step of a read transaction, with its bytes and texts as sequences.
pub open spec fn read_step_view(step: TxnStep<Vec<u8>, ReadResult>) -> TxnStep<
    Seq<u8>,
    Result<Seq<u8>, Seq<char>>,
> {
    match step {
        TxnStep::Send(b) => TxnStep::Send(b@),
        TxnStep::Recv(n) => TxnStep::Recv(n),
        TxnStep::Done(r) => TxnStep::Done(read_outcome(r)),
    }
}

/// What a read transaction does after its last leg: the command wrapper goes out, then the data
/// comes in, then the status wrapper. Where the policy allows it, missing data is empty data.
pub open spec fn read_txn_step(
    t: ReadTxn<Seq<u8>>,
    leg: Result<Seq<u8>, Seq<char>>,
) -> (ReadTxn<Seq<u8>>, TxnStep<Seq<u8>, Result<Seq<u8>, Seq<char>>>) {
    match t.stage {
        Stage::Command => match leg {
            Err(e) => (t, TxnStep::Done(Err(e))),
            Ok(_) => (ReadTxn { stage: Stage::Data, ..t }, TxnStep::Recv(t.read_len as usize)),
        },
        Stage::Data => match leg {
            Err(e) => if t.policy == CswPolicy::AllowMissing {
                (t, TxnStep::Done(Ok(Seq::empty())))
            } else {
                (t, TxnStep::Done(Err(e)))
            },
            Ok(data) => (
                ReadTxn { stage: Stage::Status, data, ..t },
                TxnStep::Recv(CSW_LEN),
            ),
        },
        Stage::Status => match csw_verdict(leg, t.tag, t.policy) {
            Err(e) => (t, TxnStep::Done(Err(e))),
            Ok(_) => (t, TxnStep::Done(Ok(t.data))),
        },
    }
}

impl ReadTxn {
    /// Begins a read transaction; the buffer is to be sent first.
    pub fn begin(tag: u32, read_len: u32, policy: CswPolicy) -> (r: (Self, Vec<u8>))
        ensures
            r.0@ == (ReadTxn {
                tag,
                read_len,
                policy,
                stage: Stage::Command,
                data: Seq::<u8>::empty(),
            }),
            r.1@ == cbw_bytes(tag, read_len, 0x80, TRANS_LAYER_CMD_READ),
    {
        let cbw = AicCbw::new_read(tag, read_len);
        let data: Vec<u8> = Vec::new();
        assert(data@ =~= Seq::<u8>::empty());
        (
            ReadTxn { tag, read_len, policy, stage: Stage::Command, data },
            copy_bytes(cbw.to_bytes()),
        )
    }

    /// Says what to do after the last leg.
    pub fn step(&mut self, leg: Result<Vec<u8>, String>) -> (step: TxnStep<Vec<u8>, ReadResult>)
        ensures
            (final(self)@, read_step_view(step)) == read_txn_step(old(self)@, read_outcome(leg)),
    {
        match self.stage {
            Stage::Command => match leg {
                Err(e) => TxnStep::Done(Err(e)),
                Ok(_) => {
                    self.stage = Stage::Data;
                    TxnStep::Recv(self.read_len as usize)
                },
            },
            Stage::Data => match leg {
                Err(e) => {
                    if self.policy == CswPolicy::AllowMissing {
                        let nothing: Vec<u8> = Vec::new();
                        assert(nothing@ =~= Seq::<u8>::empty());
                        TxnStep::Done(Ok(nothing))
                    } else {
                        TxnStep::Done(Err(e))
                    }
                },
                Ok(data) => {
                    self.data = data;
                    self.stage = Stage::Status;
                    TxnStep::Recv(CSW_LEN)
                },
            },
            Stage::Status => match read_csw_for(leg, self.tag, self.policy) {
                Err(e) => TxnStep::Done(Err(e)),
                Ok(_) => TxnStep::Done(Ok(copy_bytes(self.data.as_slice()))),
            },
        }
    }
}

/// The most that one write transaction may carry: sixteen blocks, but at least 4 KiB and no
/// more than the device's buffer.
pub open spec fn uart_write_limit(block_size: u32) -> usize {
    let n = block_size * 16;
    if n < 4096 {
        4096
    } else if n > 65536 {
        65536
    } else {
        n as usize
    }
}

/// The most that one write transaction may carry.
pub fn max_write_chunk(block_size: u32) -> (n: usize)
    ensures
        n == uart_write_limit(block_size),
{
    if block_size > 4096 {
        65536
    } else {
        let n: usize = block_size as usize * 16;
        if n < 4096 {
            4096
        } else {
            n
        }
    }
}

// ---------------------------------------------------------------------------------------
// Changing the speed
// ---------------------------------------------------------------------------------------
/// How long each side of a change of speed is given to settle, in milliseconds.
pub const SPEED_SETTLE_MILLIS: u64 = 20;

/// How far a change of speed is.
#[derive(Clone, Copy, Debug, Eq, PartialEq, Structural)]
pub enum SpeedStage {
    /// The command header is being written.
    Header,
    /// The speed is being written.
    Value,
    /// The response is being asked for.
    Asking,
    /// The response comes in.
    Response,
    /// The device changes its speed.
    DeviceSettles,
    /// The port changes its speed.
    PortSwitch,
    /// The port settles.
    PortSettles,
    /// The status wrapper comes in at the new speed.
    Status,
}

/// What a change of speed does next. What comes of it is reported back: the bytes of a leg that
/// receives, nothing after anything else that succeeds.
pub enum SpeedAction<B = Vec<u8>, S = String> {
    Send(B),
    Recv(usize),
    Pause(u64),
    SetSpeed(u32),
    Done(Result<(), S>),
}

impl View for SpeedAction {
    type V = SpeedAction<Seq<u8>, Seq<char>>;

    open spec fn view(&self) -> SpeedAction<Seq<u8>, Seq<char>> {
        match *self {
            SpeedAction::Send(b) => SpeedAction::Send(b@),
            SpeedAction::Recv(n) => SpeedAction::Recv(n),
            SpeedAction::Pause(ms) => SpeedAction::Pause(ms),
            SpeedAction::SetSpeed(n) => SpeedAction::SetSpeed(n),
            SpeedAction::Done(Ok(())) => SpeedAction::Done(Ok(())),
            SpeedAction::Done(Err(e)) => SpeedAction::Done(Err(e@)),
        }
    }
}

/// A change of the line's speed.
///
/// The device applies the new speed right before it transmits the status wrapper of the
/// response, so the host must switch between the response and that wrapper.
pub struct SpeedChange<B = Vec<u8>> {
    pub baudrate: u32,
    /// The tag of the next transaction.
    pub tag: u32,
    pub stage: SpeedStage,
    /// The transaction that is under way, in the first two stages.
    pub write: WriteTxn<B>,
}

impl View for SpeedChange {
    type V = SpeedChange<Seq<u8>>;

    open spec fn view(&self) -> SpeedChange<Seq<u8>> {
        SpeedChange {
            baudrate: self.baudrate,
            tag: self.tag,
            stage: self.stage,
            write: self.write@,
        }
    }
}

/// A write transaction that begins.
pub open spec fn fresh_write(tag: u32, payload: Seq<u8>) -> WriteTxn<Seq<u8>> {
    WriteTxn { tag, payload, policy: CswPolicy::Required, stage: Stage::Command }
}

/// The beginning of a change of speed, and the wrapper that goes out first.
pub open spec fn speed_begin(code: u8, baudrate: u32, tag: u32) -> (
    SpeedChange<Seq<u8>>,
    Seq<u8>,
) {
    (
        SpeedChange {
            baudrate,
            tag: tag_after(tag),
            stage: SpeedStage::Header,
            write: fresh_write(tag, cmd_bytes(code, 4)),
        },
        cbw_bytes(tag, 16, 0, TRANS_LAYER_CMD_WRITE),
    )
}

/// The question for the response, in a transaction of its own.
pub open spec fn asked(s: SpeedChange<Seq<u8>>) -> (
    SpeedChange<Seq<u8>>,
    SpeedAction<Seq<u8>, Seq<char>>,
) {
    (
        SpeedChange {
            stage: SpeedStage::Asking,
            tag: tag_after(s.tag),
            write: WriteTxn { tag: s.tag, ..s.write },
            ..s
        },
        SpeedAction::Send(
            cbw_bytes(s.tag, RESP_MIN_HDR_LEN as u32, 0x80, TRANS_LAYER_CMD_READ),
        ),
    )
}

/// What a change of speed does after its last action came to `leg`: two write transactions, the
/// command header and the speed; then the response is read, both sides change their speed, and
/// the status wrapper is read at the new one.
pub open spec fn speed_step(
    s: SpeedChange<Seq<u8>>,
    leg: Result<Seq<u8>, Seq<char>>,
) -> (SpeedChange<Seq<u8>>, SpeedAction<Seq<u8>, Seq<char>>) {
    match s.stage {
        SpeedStage::Header | SpeedStage::Value => match write_txn_step(s.write, leg) {
            (w, TxnStep::Send(b)) => (SpeedChange { write: w, ..s }, SpeedAction::Send(b)),
            (w, TxnStep::Recv(n)) => (SpeedChange { write: w, ..s }, SpeedAction::Recv(n)),
            (w, TxnStep::Done(Err(e))) => (
                SpeedChange { write: w, ..s },
                SpeedAction::Done(Err(e)),
            ),
            (w, TxnStep::Done(Ok(_))) => if s.stage == SpeedStage::Header {
                (
                    SpeedChange {
                        stage: SpeedStage::Value,
                        tag: tag_after(s.tag),
                        write: fresh_write(s.tag, le32(s.baudrate)),
                        ..s
                    },
                    SpeedAction::Send(cbw_bytes(s.tag, 4, 0, TRANS_LAYER_CMD_WRITE)),
                )
            } else {
                asked(SpeedChange { write: w, ..s })
            },
        },
        SpeedStage::Status => (
            s,
            SpeedAction::Done(
                match csw_verdict(leg, s.write.tag, CswPolicy::Required) {
                    Ok(_) => Ok(()),
                    Err(e) => Err(e),
                },
            ),
        ),
        _ => match leg {
            Err(e) => (s, SpeedAction::Done(Err(e))),
            Ok(_) => match s.stage {
                SpeedStage::Asking => (
                    SpeedChange { stage: SpeedStage::Response, ..s },
                    SpeedAction::Recv(RESP_MIN_HDR_LEN),
                ),
                SpeedStage::Response => (
                    SpeedChange { stage: SpeedStage::DeviceSettles, ..s },
                    SpeedAction::Pause(SPEED_SETTLE_MILLIS),
                ),
                SpeedStage::DeviceSettles => (
                    SpeedChange { stage: SpeedStage::PortSwitch, ..s },
                    SpeedAction::SetSpeed(s.baudrate),
                ),
                SpeedStage::PortSwitch => (
                    SpeedChange { stage: SpeedStage::PortSettles, ..s },
                    SpeedAction::Pause(SPEED_SETTLE_MILLIS),
                ),
                _ => (
                    SpeedChange { stage: SpeedStage::Status, ..s },
                    SpeedAction::Recv(CSW_LEN),
                ),
            },
        },
    }
}

impl SpeedChange {
    /// Begins a change of speed, the first transaction of it tagged `tag`; the buffer is to be
    /// sent first.
    pub fn begin(code: u8, baudrate: u32, tag: u32) -> (r: (Self, Vec<u8>))
        ensures
            (r.0@, r.1@) == speed_begin(code, baudrate, tag),
    {
        let mut tags = TagCounter { tag };
        let first: u32 = tags.next_tag();
        let header = CmdHeader::new(code, 4);
        let (write, cbw) = WriteTxn::begin(first, header.to_bytes(), CswPolicy::Required);
        (
            SpeedChange { baudrate, tag: tags.tag, stage: SpeedStage::Header, write },
            cbw,
        )
    }

    /// The tag of the next transaction.
    pub fn next_tag(&mut self) -> (tag: u32)
        ensures
            tag == old(self).tag,
            final(self)@ == (SpeedChange { tag: tag_after(old(self).tag), ..old(self)@ }),
    {
        let tag: u32 = self.tag;
        self.tag = if tag == u32::MAX {
            1
        } else {
            tag + 1
        };
        tag
    }

    /// Goes on when a write transaction succeeded.
    fn written(&mut self) -> (action: SpeedAction)
        ensures
            old(self).stage == SpeedStage::Header ==> (final(self)@, action@) == (
                (SpeedChange {
                    stage: SpeedStage::Value,
                    tag: tag_after(old(self)@.tag),
                    write: fresh_write(old(self)@.tag, le32(old(self)@.baudrate)),
                    ..old(self)@
                }),
                SpeedAction::<Seq<u8>, Seq<char>>::Send(
                    cbw_bytes(old(self)@.tag, 4, 0, TRANS_LAYER_CMD_WRITE),
                ),
            ),
            old(self).stage != SpeedStage::Header ==> (final(self)@, action@) == asked(
                old(self)@,
            ),
    {
        let tag: u32 = self.next_tag();
        if self.stage == SpeedStage::Header {
            let value = to_le32(self.baudrate);
            let (write, cbw) = WriteTxn::begin(tag, value.as_slice(), CswPolicy::Required);
            self.write = write;
            self.stage = SpeedStage::Value;
            SpeedAction::Send(cbw)
        } else {
            let cbw = AicCbw::new_read(tag, RESP_MIN_HDR_LEN as u32);
            self.write.tag = tag;
            self.stage = SpeedStage::Asking;
            SpeedAction::Send(copy_bytes(cbw.to_bytes()))
        }
    }

    /// Says what to do after the last action came to `leg`.
    pub fn step(&mut self, leg: Result<Vec<u8>, String>) -> (action: SpeedAction)
        ensures
            (final(self)@, action@) == speed_step(old(self)@, read_outcome(leg)),
    {
        if self.stage == SpeedStage::Header || self.stage == SpeedStage::Value {
            return match self.write.step(leg) {
                TxnStep::Send(b) => SpeedAction::Send(b),
                TxnStep::Recv(n) => SpeedAction::Recv(n),
                TxnStep::Done(Err(e)) => SpeedAction::Done(Err(e)),
                TxnStep::Done(Ok(_)) => self.written(),
            };
        }
        if self.stage == SpeedStage::Status {
            return match read_csw_for(leg, self.write.tag, CswPolicy::Required) {
                Ok(_) => SpeedAction::Done(Ok(())),
                Err(e) => SpeedAction::Done(Err(e)),
            };
        }
        if let Err(e) = leg {
            return SpeedAction::Done(Err(e));
        }
        match self.stage {
            SpeedStage::Asking => {
                self.stage = SpeedStage::Response;
                SpeedAction::Recv(RESP_MIN_HDR_LEN)
            },
            SpeedStage::Response => {
                self.stage = SpeedStage::DeviceSettles;
                SpeedAction::Pause(SPEED_SETTLE_MILLIS)
            },
            SpeedStage::DeviceSettles => {
                self.stage = SpeedStage::PortSwitch;
                SpeedAction::SetSpeed(self.baudrate)
            },
            SpeedStage::PortSwitch => {
                self.stage = SpeedStage::PortSettles;
                SpeedAction::Pause(SPEED_SETTLE_MILLIS)
            },
            _ => {
                self.stage = SpeedStage::Status;
                SpeedAction::Recv(CSW_LEN)
            },
        }
    }
}

/// Whether the speed of a line is changed: not to zero, and not to what it is.
pub fn speed_change_wanted(current: u32, baudrate: u32) -> (r: bool)
    ensures
        r == (baudrate != 0 && baudrate != current),
{
    baudrate != 0 && baudrate != current
}

/// What is said of a port whose speed could not be changed.
pub fn speed_switch_error(port_name: &str, baudrate: u32, e: &str) -> (s: String)
    ensures
        s@ == "Failed to switch '"@ + port_name@ + "' to "@ + dec(baudrate as nat) + " bps: "@
            + e@,
{
    let mut s = "Failed to switch '".to_string();
    s.append(port_name);
    s.append("' to ");
    push_dec(&mut s, baudrate as u64);
    s.append(" bps: ");
    s.append(e);
    s
}

// ---------------------------------------------------------------------------------------
// What transactions come to
// ---------------------------------------------------------------------------------------
/// Whether `b` is a status wrapper with this tag that reports success: the letters USBS, the tag
/// with its least significant byte first, and a status of zero.
pub open spec fn reports_success(b: Seq<u8>, tag: u32) -> bool {
    &&& b.len() == 13
    &&& b[0] == 0x55 && b[1] == 0x53 && b[2] == 0x42 && b[3] == 0x53
    &&& b[4] + 256 * b[5] + 65536 * b[6] + 16777216 * b[7] == tag
    &&& b[12] == 0
}

/// A read transaction gives what was read: once its command went out, as many bytes are received
/// as were asked for, then a status wrapper, and where that reports success the result is the
/// bytes that came, each in its place. A transaction that fails on the way, or is reported to
/// have failed, gives no bytes.
#[verifier::rlimit(40)]
pub proof fn reads_give_what_came(
    tag: u32,
    len: u32,
    policy: CswPolicy,
    sent: Seq<u8>,
    came: Seq<u8>,
    csw: Seq<u8>,
)
    ensures
        ({
            let t = ReadTxn {
                tag,
                read_len: len,
                policy,
                stage: Stage::Command,
                data: Seq::<u8>::empty(),
            };
            let (u, first) = read_txn_step(t, Ok(sent));
            let (v, second) = read_txn_step(u, Ok(came));
            let last = read_txn_step(v, Ok(csw)).1;
            &&& first matches TxnStep::Recv(n) && n == len
            &&& second matches TxnStep::Recv(m) && m == 13
            &&& reports_success(csw, tag) ==> last == TxnStep::<
                Seq<u8>,
                Result<Seq<u8>, Seq<char>>,
            >::Done(Ok(came))
            &&& last matches TxnStep::Done(Ok(got)) ==> got == came && reports_success(
                csw.take(13),
                tag,
            )
        }),
{
    lemma_verdict(csw, tag, policy);
}

/// A status wrapper is taken for a success if and only if its first bytes report one.
#[verifier::rlimit(40)]
proof fn lemma_verdict(csw: Seq<u8>, tag: u32, policy: CswPolicy)
    ensures
        reports_success(csw, tag) ==> csw_verdict(Ok(csw), tag, policy) == Ok::<
            Option<Seq<u8>>,
            Seq<char>,
        >(Some(csw)),
        csw_verdict(Ok(csw), tag, policy) matches Ok(got) ==> got == Some(csw.take(13))
            && reports_success(csw.take(13), tag),
{
    if reports_success(csw, tag) {
        assert(le32_at(csw, 0) == 0x53425355);
        assert(csw.take(13) =~= csw);
    }
    if csw.len() >= 13 {
        let b = csw.take(13);
        if csw_ok(csw) {
            let n: int = b[0] + 256 * b[1] + 65536 * b[2] + 16777216 * b[3];
            assert(n == 0x53425355);
        }
    }
}

/// Where a read transaction fails on the way, its result is that failure; only where the policy
/// allows it are bytes that do not come taken to be none.
pub proof fn failed_reads_say_why(
    t: ReadTxn<Seq<u8>>,
    why: Seq<char>,
)
    ensures
        t.stage == Stage::Command ==> read_txn_step(t, Err(why)).1 == TxnStep::<
            Seq<u8>,
            Result<Seq<u8>, Seq<char>>,
        >::Done(Err(why)),
        t.stage == Stage::Data ==> read_txn_step(t, Err(why)).1 == TxnStep::<
            Seq<u8>,
            Result<Seq<u8>, Seq<char>>,
        >::Done(
            if t.policy == CswPolicy::AllowMissing {
                Ok(Seq::empty())
            } else {
                Err(why)
            },
        ),
        t.stage == Stage::Status && t.policy == CswPolicy::Required ==> read_txn_step(
            t,
            Err(why),
        ).1 == TxnStep::<Seq<u8>, Result<Seq<u8>, Seq<char>>>::Done(Err(why)),
        t.stage == Stage::Status && t.policy == CswPolicy::AllowMissing ==> read_txn_step(
            t,
            Err(why),
        ).1 == TxnStep::<Seq<u8>, Result<Seq<u8>, Seq<char>>>::Done(Ok(t.data)),
{
}

/// A write transaction sends its payload and nothing else behind its command, then awaits a
/// status wrapper, and gives that wrapper back where it reports success with the transaction's
/// tag. Nothing else is a success, but for a wrapper that is missing where the policy allows it.
#[verifier::rlimit(40)]
pub proof fn writes_send_their_payload(
    tag: u32,
    payload: Seq<u8>,
    policy: CswPolicy,
    sent: Seq<u8>,
    csw: Seq<u8>,
    why: Seq<char>,
)
    ensures
        ({
            let t = WriteTxn { tag, payload, policy, stage: Stage::Command };
            let (u, first) = write_txn_step(t, Ok(sent));
            let (v, second) = if payload.len() > 0 {
                write_txn_step(u, Ok(sent))
            } else {
                (u, first)
            };
            let last = write_txn_step(v, Ok(csw)).1;
            &&& payload.len() > 0 ==> (first matches TxnStep::Send(b) && b == payload)
            &&& second matches TxnStep::Recv(m) && m == 13
            &&& reports_success(csw, tag) ==> last == TxnStep::<
                Seq<u8>,
                Result<Option<Seq<u8>>, Seq<char>>,
            >::Done(Ok(Some(csw)))
            &&& last matches TxnStep::Done(Ok(got)) ==> got == Some(csw.take(13))
                && reports_success(csw.take(13), tag)
            &&& write_txn_step(t, Err(why)).1 == TxnStep::<
                Seq<u8>,
                Result<Option<Seq<u8>>, Seq<char>>,
            >::Done(Err(why))
            &&& payload.len() > 0 ==> write_txn_step(u, Err(why)).1 == TxnStep::<
                Seq<u8>,
                Result<Option<Seq<u8>>, Seq<char>>,
            >::Done(Err(why))
            &&& write_txn_step(v, Err(why)).1 == TxnStep::<
                Seq<u8>,
                Result<Option<Seq<u8>>, Seq<char>>,
            >::Done(
                if policy == CswPolicy::AllowMissing {
                    Ok(None)
                } else {
                    Err(why)
                },
            )
        }),
{
    lemma_verdict(csw, tag, policy);
}

/// A write transaction of a change of speed: once its wrapper went out the bytes follow, then a
/// status wrapper is awaited.
#[verifier::rlimit(40)]
proof fn lemma_speed_write(s: SpeedChange<Seq<u8>>, sent: Seq<u8>, csw: Seq<u8>)
    requires
        s.stage == SpeedStage::Header || s.stage == SpeedStage::Value,
        s.write.stage == Stage::Command,
        s.write.policy == CswPolicy::Required,
        s.write.payload.len() > 0,
        reports_success(csw, s.write.tag),
    ensures
        ({
            let (s1, bytes) = speed_step(s, Ok(sent));
            let (s2, wait) = speed_step(s1, Ok(sent));
            let (s3, next) = speed_step(s2, Ok(csw));
            let w = WriteTxn { stage: Stage::Status, ..s.write };
            &&& bytes == SpeedAction::<Seq<u8>, Seq<char>>::Send(s.write.payload)
            &&& wait == SpeedAction::<Seq<u8>, Seq<char>>::Recv(13)
            &&& s2 == (SpeedChange { write: w, ..s })
            &&& (s3, next) == (if s.stage == SpeedStage::Header {
                (
                    SpeedChange {
                        stage: SpeedStage::Value,
                        tag: tag_after(s.tag),
                        write: fresh_write(s.tag, le32(s.baudrate)),
                        ..s
                    },
                    SpeedAction::Send(cbw_bytes(s.tag, 4, 0, 1)),
                )
            } else {
                asked(SpeedChange { write: w, ..s })
            })
        }),
{
    let w1 = WriteTxn { stage: Stage::Data, ..s.write };
    let w2 = WriteTxn { stage: Stage::Status, ..s.write };
    assert(write_txn_step(s.write, Ok(sent)) == (
        w1,
        TxnStep::<Seq<u8>, Result<Option<Seq<u8>>, Seq<char>>>::Send(s.write.payload),
    ));
    assert(write_txn_step(w1, Ok(sent)) == (
        w2,
        TxnStep::<Seq<u8>, Result<Option<Seq<u8>>, Seq<char>>>::Recv(13),
    ));
    assert(le32_at(csw, 0) == 0x53425355);
    assert(write_txn_step(w2, Ok(csw)).1 matches TxnStep::Done(Ok(_)));
}

/// A change of speed goes in this order: the header of its command, announcing four bytes; the
/// speed itself, least significant byte first; the question for the response. Each of them is
/// confirmed before the next goes out, and each transaction has a tag of its own.
#[verifier::rlimit(40)]
pub proof fn speed_is_asked_for(
    code: u8,
    baudrate: u32,
    tag: u32,
    sent: Seq<u8>,
    csw1: Seq<u8>,
    csw2: Seq<u8>,
)
    requires
        reports_success(csw1, tag),
        reports_success(csw2, tag_after(tag)),
    ensures
        ({
            let (s0, wrapper) = speed_begin(code, baudrate, tag);
            let (s1, header) = speed_step(s0, Ok(sent));
            let (s2, await1) = speed_step(s1, Ok(sent));
            let (s3, wrapper2) = speed_step(s2, Ok(csw1));
            let (s4, value) = speed_step(s3, Ok(sent));
            let (s5, await2) = speed_step(s4, Ok(sent));
            let (s6, wrapper3) = speed_step(s5, Ok(csw2));
            &&& wrapper == cbw_bytes(tag, 16, 0, 1)
            &&& header == SpeedAction::<Seq<u8>, Seq<char>>::Send(cmd_bytes(code, 4))
            &&& await1 == SpeedAction::<Seq<u8>, Seq<char>>::Recv(13)
            &&& wrapper2 == SpeedAction::<Seq<u8>, Seq<char>>::Send(
                cbw_bytes(tag_after(tag), 4, 0, 1),
            )
            &&& value == SpeedAction::<Seq<u8>, Seq<char>>::Send(le32(baudrate))
            &&& await2 == SpeedAction::<Seq<u8>, Seq<char>>::Recv(13)
            &&& wrapper3 == SpeedAction::<Seq<u8>, Seq<char>>::Send(
                cbw_bytes(tag_after(tag_after(tag)), 16, 0x80, 2),
            )
            &&& s6.stage == SpeedStage::Asking
            &&& s6.baudrate == baudrate
            &&& s6.write.tag == tag_after(tag_after(tag))
        }),
{
    let (s0, _) = speed_begin(code, baudrate, tag);
    lemma_speed_write(s0, sent, csw1);
    let (s1, _) = speed_step(s0, Ok(sent));
    let (s2, _) = speed_step(s1, Ok(sent));
    let (s3, _) = speed_step(s2, Ok(csw1));
    lemma_speed_write(s3, sent, csw2);
}

/// Once the response to a change of speed came, the port changes to the speed that was asked
/// for, with a pause before and after it, and the last status wrapper is read at that speed. The
/// change succeeds only if that wrapper reports it.
#[verifier::rlimit(40)]
pub proof fn port_follows_the_device(
    s: SpeedChange<Seq<u8>>,
    sent: Seq<u8>,
    response: Seq<u8>,
    csw: Seq<u8>,
    why: Seq<char>,
)
    requires
        s.stage == SpeedStage::Asking,
    ensures
        ({
            let (s1, wait) = speed_step(s, Ok(sent));
            let (s2, settle) = speed_step(s1, Ok(response));
            let (s3, switch) = speed_step(s2, Ok(sent));
            let (s4, settle2) = speed_step(s3, Ok(sent));
            let (s5, wait2) = speed_step(s4, Ok(sent));
            let (s6, end) = speed_step(s5, Ok(csw));
            let failed = SpeedAction::<Seq<u8>, Seq<char>>::Done(Err(why));
            &&& wait == SpeedAction::<Seq<u8>, Seq<char>>::Recv(16)
            &&& settle == SpeedAction::<Seq<u8>, Seq<char>>::Pause(20)
            &&& switch == SpeedAction::<Seq<u8>, Seq<char>>::SetSpeed(s.baudrate)
            &&& settle2 == SpeedAction::<Seq<u8>, Seq<char>>::Pause(20)
            &&& wait2 == SpeedAction::<Seq<u8>, Seq<char>>::Recv(13)
            &&& reports_success(csw, s.write.tag) ==> end == SpeedAction::<
                Seq<u8>,
                Seq<char>,
            >::Done(Ok(()))
            &&& end == SpeedAction::<Seq<u8>, Seq<char>>::Done(Ok(())) ==> reports_success(
                csw.take(13),
                s.write.tag,
            )
            &&& speed_step(s, Err(why)).1 == failed
            &&& speed_step(s1, Err(why)).1 == failed
            &&& speed_step(s3, Err(why)).1 == failed
            &&& speed_step(s5, Err(why)).1 == failed
        }),
{
    if reports_success(csw, s.write.tag) {
        assert(le32_at(csw, 0) == 0x53425355);
    }
    if csw.len() >= 13 {
        let b = csw.take(13);
        if csw_ok(csw) {
            let n: int = b[0] + 256 * b[1] + 65536 * b[2] + 16777216 * b[3];
            assert(n == 0x53425355);
        }
    }
}

/// The sixteen blocks that one write may carry, kept between 4 KiB and 64 KiB: never more than
/// the device's buffer, never less than its smallest, and larger for larger blocks.
pub proof fn write_limit_is_sixteen_blocks(block_size: u32, larger: u32)
    requires
        block_size <= larger,
    ensures
        4096 <= uart_write_limit(block_size) <= 65536,
        256 <= block_size <= 4096 ==> uart_write_limit(block_size) == 16 * block_size,
        uart_write_limit(block_size) <= uart_write_limit(larger),
{
}

/// A status that is no success says why: too few bytes, another transaction's tag, or the status
/// and what was left over.
#[verifier::rlimit(40)]
pub proof fn refused_statuses_say_why(b: Seq<u8>, tag: u32, policy: CswPolicy)
    ensures
        b.len() < 13 ==> csw_verdict(Ok(b), tag, policy) == Err::<Option<Seq<u8>>, Seq<char>>(
            "Failed to parse UART CSW"@,
        ),
        b.len() >= 13 && word(b, 4) != tag ==> csw_verdict(Ok(b), tag, policy) == Err::<
            Option<Seq<u8>>,
            Seq<char>,
        >(
            "UART CSW tag mismatch: got "@ + dec(word(b, 4) as nat) + ", expected "@ + dec(
                tag as nat,
            ),
        ),
        b.len() >= 13 && word(b, 4) == tag && !reports_success(b.take(13), tag) ==> csw_verdict(
            Ok(b),
            tag,
            policy,
        ) == Err::<Option<Seq<u8>>, Seq<char>>(
            "UART CSW failed: status="@ + dec(b[12] as nat) + " residue="@ + dec(
                word(b, 8) as nat,
            ),
        ),
{
    if b.len() >= 13 {
        let c = b.take(13);
        assert(le32_at(b, 4) == word(b, 4));
        assert(le32_at(b, 8) == word(b, 8));
        if csw_ok(b) {
            let n: int = c[0] + 256 * c[1] + 65536 * c[2] + 16777216 * c[3];
            assert(n == 0x53425355);
        }
    }
}

} // verus!
