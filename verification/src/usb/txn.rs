//! Transactions over bulk endpoints: what follows what, and what they come to.
use vstd::prelude::*;

use crate::codec::le32_at;
use crate::protocol::cbw_csw::{cbw_bytes, csw_ok, TRANS_LAYER_CMD_READ, TRANS_LAYER_CMD_WRITE};
use crate::transport::{done, read_outcome, write_outcome, CswPolicy};
use crate::uart::txn::reports_success;
use crate::usb::bulk::{
    csw_check, judge_status, read_command, status_verdict, write_command, CswResult,
};

verus! {

/// What a transaction does next.
pub enum BulkAction<S = String> {
    /// Write the data.
    WriteData,
    /// Read so many bytes of data.
    ReadData(usize),
    /// Read the status wrapper.
    ReadStatus,
    /// The transaction failed.
    Fail(S),
}

impl View for BulkAction {
    type V = BulkAction<Seq<char>>;

    open spec fn view(&self) -> BulkAction<Seq<char>> {
        match *self {
            BulkAction::WriteData => BulkAction::WriteData,
            BulkAction::ReadData(n) => BulkAction::ReadData(n),
            BulkAction::ReadStatus => BulkAction::ReadStatus,
            BulkAction::Fail(e) => BulkAction::Fail(e@),
        }
    }
}

/// A write transaction: the command wrapper, then the data, if there is any, then the status
/// wrapper.
pub struct BulkWriteTxn {
    pub tag: u32,
    pub payload_len: usize,
    pub policy: CswPolicy,
    /// Whether the data is still to be written.
    pub data_due: bool,
}

/// What a write transaction does after a write, and the transaction then.
pub open spec fn bulk_write_step(t: BulkWriteTxn, written: Result<(), Seq<char>>) -> (
    BulkWriteTxn,
    BulkAction<Seq<char>>,
) {
    match written {
        Err(e) => (t, BulkAction::Fail(e)),
        Ok(()) => if t.data_due {
            (BulkWriteTxn { data_due: false, ..t }, BulkAction::WriteData)
        } else {
            (t, BulkAction::ReadStatus)
        },
    }
}

impl BulkWriteTxn {
    /// Begins a write transaction of `payload_len` bytes; the wrapper is to be written first.
    pub fn begin(tag: u32, payload_len: usize, policy: CswPolicy) -> (r: (Self, Vec<u8>))
        ensures
            r.0 == (BulkWriteTxn { tag, payload_len, policy, data_due: payload_len > 0 }),
            r.1@ == cbw_bytes(tag, payload_len as u32, 0, TRANS_LAYER_CMD_WRITE),
    {
        (
            BulkWriteTxn { tag, payload_len, policy, data_due: payload_len > 0 },
            write_command(tag, payload_len),
        )
    }

    /// Says what to do after a write.
    pub fn step(&mut self, written: Result<(), String>) -> (action: BulkAction)
        ensures
            (*final(self), action@) == bulk_write_step(*old(self), done(written)),
    {
        match written {
            Err(e) => BulkAction::Fail(e),
            Ok(()) => {
                if self.data_due {
                    self.data_due = false;
                    BulkAction::WriteData
                } else {
                    BulkAction::ReadStatus
                }
            },
        }
    }

    /// What the transaction comes to, once the status wrapper was read.
    pub fn finish(&self, read: CswResult) -> (r: CswResult)
        ensures
            write_outcome(r) == status_verdict(write_outcome(read), self.tag, self.policy),
    {
        judge_status(read, self.tag, self.policy)
    }
}

/// A read transaction: the command wrapper, then the data, then the status wrapper.
pub struct BulkReadTxn {
    pub tag: u32,
    pub read_len: u32,
    pub policy: CswPolicy,
}

/// What a read transaction comes to, once data and status were read: the data, where the status
/// is in order.
pub open spec fn bulk_read_verdict(
    t: BulkReadTxn,
    data: Seq<u8>,
    read: Result<Option<Seq<u8>>, Seq<char>>,
) -> Result<Seq<u8>, Seq<char>> {
    match status_verdict(read, t.tag, t.policy) {
        Err(e) => Err(e),
        Ok(_) => Ok(data),
    }
}

impl BulkReadTxn {
    /// Begins a read transaction; the wrapper is to be written first.
    pub fn begin(tag: u32, read_len: u32, policy: CswPolicy) -> (r: (Self, Vec<u8>))
        ensures
            r.0 == (BulkReadTxn { tag, read_len, policy }),
            r.1@ == cbw_bytes(tag, read_len, 0x80, TRANS_LAYER_CMD_READ),
    {
        (BulkReadTxn { tag, read_len, policy }, read_command(tag, read_len))
    }

    /// Says what to do after the wrapper was written.
    pub fn step(&self, written: Result<(), String>) -> (action: BulkAction)
        ensures
            action@ == (match written {
                Err(e) => BulkAction::Fail(e@),
                Ok(()) => BulkAction::ReadData(self.read_len as usize),
            }),
    {
        match written {
            Err(e) => BulkAction::Fail(e),
            Ok(()) => BulkAction::ReadData(self.read_len as usize),
        }
    }

    /// What the transaction comes to, once data and status were read.
    pub fn finish(&self, data: Vec<u8>, read: CswResult) -> (r: Result<Vec<u8>, String>)
        ensures
            read_outcome(r) == bulk_read_verdict(*self, data@, write_outcome(read)),
    {
        match judge_status(read, self.tag, self.policy) {
            Err(e) => Err(e),
            Ok(_) => Ok(data),
        }
    }
}

/// The data of a write transaction goes out once: right after the wrapper, and only where there
/// is any.
pub proof fn data_is_written_once(tag: u32, payload_len: usize, policy: CswPolicy)
    ensures
        ({
            let t = BulkWriteTxn { tag, payload_len, policy, data_due: payload_len > 0 };
            let (u, first) = bulk_write_step(t, Ok(()));
            &&& first == (if payload_len > 0 {
                BulkAction::<Seq<char>>::WriteData
            } else {
                BulkAction::<Seq<char>>::ReadStatus
            })
            &&& bulk_write_step(u, Ok(())).1 == BulkAction::<Seq<char>>::ReadStatus
        }),
{
}

/// Where the status is required, a read transaction succeeds only if a wrapper with its tag
/// reports success.
pub proof fn required_status_confirms(
    t: BulkReadTxn,
    data: Seq<u8>,
    read: Result<Option<Seq<u8>>, Seq<char>>,
)
    requires
        t.policy == CswPolicy::Required,
    ensures
        bulk_read_verdict(t, data, read) is Ok ==> (read matches Ok(got) && (got matches Some(csw)
            && csw_check(csw, t.tag) is Ok)),
{
}

/// A read transaction that succeeds gives back the data that was read, whole; and it succeeds
/// where a status wrapper with its tag reports success. A wrapper with another tag or a status
/// other than zero makes it fail, and so does a failure to read the status.
pub proof fn reads_give_back_the_data(
    t: BulkReadTxn,
    data: Seq<u8>,
    read: Result<Option<Seq<u8>>, Seq<char>>,
)
    ensures
        bulk_read_verdict(t, data, read) matches Ok(r) ==> r == data,
        (read matches Ok(Some(csw)) && reports_success(csw, t.tag)) ==> bulk_read_verdict(
            t,
            data,
            read,
        ) is Ok,
        (read matches Ok(Some(csw)) && csw.len() == 13 && !reports_success(csw, t.tag))
            ==> bulk_read_verdict(t, data, read) is Err,
        read matches Err(e) ==> bulk_read_verdict(t, data, read) == Err::<Seq<u8>, Seq<char>>(e),
        read == Ok::<Option<Seq<u8>>, Seq<char>>(None) ==> (bulk_read_verdict(t, data, read) is Ok
            <==> t.policy == CswPolicy::AllowMissing),
{
    match read {
        Ok(Some(csw)) => {
            if csw.len() == 13 && csw_ok(csw) {
                let n: int = csw[0] + 256 * csw[1] + 65536 * csw[2] + 16777216 * csw[3];
                assert(n == 0x53425355);
            }
            if reports_success(csw, t.tag) {
                assert(le32_at(csw, 0) == 0x53425355);
            }
        },
        _ => {},
    }
}

/// A write transaction comes to the status wrapper that was read, where that reports success
/// with its tag; to nothing else.
pub proof fn writes_come_to_their_status(
    tag: u32,
    policy: CswPolicy,
    read: Result<Option<Seq<u8>>, Seq<char>>,
)
    ensures
        status_verdict(read, tag, policy) matches Ok(r) ==> read == Ok::<
            Option<Seq<u8>>,
            Seq<char>,
        >(r) && (r is Some || policy == CswPolicy::AllowMissing),
        (read matches Ok(Some(csw)) && csw.len() == 13) ==> (status_verdict(read, tag, policy)
            is Ok <==> reports_success(read->Ok_0->Some_0, tag)),
        read matches Err(e) ==> status_verdict(read, tag, policy) == Err::<
            Option<Seq<u8>>,
            Seq<char>,
        >(e),
{
    match read {
        Ok(Some(csw)) => {
            if csw.len() == 13 && csw_ok(csw) {
                let n: int = csw[0] + 256 * csw[1] + 65536 * csw[2] + 16777216 * csw[3];
                assert(n == 0x53425355);
            }
            if reports_success(csw, tag) {
                assert(le32_at(csw, 0) == 0x53425355);
            }
        },
        _ => {},
    }
}

/// A write transaction that cannot be written fails with the reason, and changes nothing; its
/// tag, length and policy stay what they are.
pub proof fn failed_writes_say_why(t: BulkWriteTxn, e: Seq<char>)
    ensures
        bulk_write_step(t, Err(e)) == (t, BulkAction::Fail(e)),
        bulk_write_step(t, Ok(())).0 == (BulkWriteTxn { data_due: false, ..t }),
{
}

} // verus!
