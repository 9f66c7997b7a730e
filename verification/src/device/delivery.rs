//! What a burn that succeeds has delivered.
use vstd::prelude::*;

use crate::codec::le32_at;
use crate::device::burn::{
    burn_talk, component_talk, data_talk, end_stage, mode_stage, opening_talk, probe_between_talk,
    return_talk, target_stage, targets_talk, updater_stage, updaters_talk, Burned, Job, Point,
};
use crate::device::laws::{acknowledged, carried, data_arrives_whole};
use crate::device::plan::{
    info_from, is_chosen_target, kind_of, lemma_updaters_bound, updaters_from, BurnEvent,
    ComponentKind,
};
use crate::device::talk::{
    block_size_talk, cfg_talk, end_talk, header_talk, hwinfo_talk, meta_talk, response_talk,
    shell_talk, silent, Profile, Talk,
};
use crate::protocol::cbw_csw::{cmd_bytes, cmd_fields};
use crate::protocol::commands::FwcMeta;
use crate::transport::{CswPolicy, Exchange};

verus! {

/// Whether some exchanges between the positions `lo` and `hi`, one after the other, are writes
/// that were all acknowledged and carried exactly `data`.
pub open spec fn delivered(h: Seq<Exchange>, lo: int, hi: int, data: Seq<u8>) -> bool {
    exists|i: int, j: int|
        lo <= i <= j <= hi && #[trigger] acknowledged(h, i, j, usize::MAX as int) && carried(
            h,
            i,
            j,
        ) == data
}

/// The number whose four bytes stand in `b` from `at` on, least significant first.
pub open spec fn word(b: Seq<u8>, at: int) -> int {
    b[at] + 256 * b[at + 1] + 65536 * b[at + 2] + 16777216 * b[at + 3]
}

/// Whether `b` is the header of the command `cmd` with `len` bytes of data: the letters UPGC,
/// protocol and version, the command, the length, and the sum of the three words before it.
pub open spec fn is_header(b: Seq<u8>, cmd: u8, len: int) -> bool {
    &&& b.len() == 16
    &&& b[0] == 0x55 && b[1] == 0x50 && b[2] == 0x47 && b[3] == 0x43
    &&& b[4] == 1 && b[5] == 1 && b[6] == cmd && b[7] == 0
    &&& word(b, 8) == len
    &&& word(b, 12) == (word(b, 0) + word(b, 4) + word(b, 8)) % 0x1_0000_0000
}

/// Whether the exchange at `i` is an acknowledged write of the header of `cmd`.
pub open spec fn wrote_header(h: Seq<Exchange>, i: int, cmd: u8, len: int) -> bool {
    &&& 0 <= i < h.len()
    &&& h[i] matches Exchange::Write { payload, policy, outcome }
    &&& is_header(payload, cmd, len)
    &&& policy == CswPolicy::Required
    &&& outcome is Ok
}

/// Whether the exchange at `i` is a write of exactly `bytes` that succeeded.
pub open spec fn wrote_bytes(h: Seq<Exchange>, i: int, bytes: Seq<u8>, policy: CswPolicy) -> bool {
    &&& 0 <= i < h.len()
    &&& h[i] matches Exchange::Write { payload, policy: q, outcome }
    &&& payload == bytes
    &&& q == policy
    &&& outcome is Ok
}

/// Whether, between the positions `lo` and `hi`, a component was announced by its record and
/// then handed over: the header of the announcement and, right behind it, the record itself;
/// later the header of the data and, right behind it, the data, in acknowledged writes.
pub open spec fn handed_over(
    p: Profile,
    h: Seq<Exchange>,
    lo: int,
    hi: int,
    record: Seq<u8>,
    data: Seq<u8>,
) -> bool {
    exists|k: int, i: int, j: int| #[trigger]
        handed_over_at(p, h, lo, hi, record, data, k, i, j)
}

/// Whether a component was announced at `k` and its data went out from `i` up to `j`.
pub open spec fn handed_over_at(
    p: Profile,
    h: Seq<Exchange>,
    lo: int,
    hi: int,
    record: Seq<u8>,
    data: Seq<u8>,
    k: int,
    i: int,
    j: int,
) -> bool {
    &&& lo <= k
    &&& wrote_header(h, k, p.codes.set_fwc_meta, (record.len() as u32) as int)
    &&& wrote_bytes(h, k + 1, record, CswPolicy::Required)
    &&& k + 1 < i - 1
    &&& wrote_header(h, i - 1, p.codes.send_fwc_data, data.len() as int)
    &&& i <= j <= hi
    &&& acknowledged(h, i, j, usize::MAX as int)
    &&& carried(h, i, j) == data
}

/// The data of a component.
pub open spec fn data_of(job: Job, meta: FwcMeta) -> Seq<u8> {
    job.image.subrange(meta.offset as int, meta.offset + meta.size)
}

/// Whether a burn sends the component `k`: every updater component, the first image
/// description and every chosen target.
pub open spec fn is_burned(job: Job, k: int) -> bool {
    0 <= k < job.metas.len() && (kind_of(job.metas[k].name@) == ComponentKind::Updater
        || info_from(job.metas, 0) == Some(k) || is_chosen_target(job.metas[k], job.parts))
}

/// Whether a talk that began at `i` did not go back.
pub open spec fn onward<R>(i: int, t: Talk<R>) -> bool {
    t matches Some((j, _)) ==> i <= j
}

/// Whether a part of a burn that began at `s` did not go back.
pub open spec fn leads_on(s: Point, b: Burned) -> bool {
    b matches Some((t, _)) ==> s.at <= t.at
}

pub(crate) proof fn lemma_talks_go_on(p: Profile, h: Seq<Exchange>, i: int)
    ensures
        forall|record: Seq<u8>| onward(i, #[trigger] meta_talk(p, h, i, record)),
        onward(i, block_size_talk(p, h, i)),
        forall|cmd: u8, len: u32| onward(i, #[trigger] header_talk(p, h, i, cmd, len)),
        onward(i, hwinfo_talk(p, h, i)),
        forall|mode: u8| onward(i, #[trigger] cfg_talk(p, h, i, mode)),
        onward(i, end_talk(p, h, i)),
        forall|command: Seq<char>| onward(i, #[trigger] shell_talk(p, h, i, command)),
{
}

proof fn lemma_wider_handover(
    p: Profile,
    h: Seq<Exchange>,
    lo: int,
    hi: int,
    lower: int,
    higher: int,
    record: Seq<u8>,
    data: Seq<u8>,
)
    requires
        handed_over(p, h, lo, hi, record, data),
        lower <= lo,
        hi <= higher,
    ensures
        handed_over(p, h, lower, higher, record, data),
{
    let (k, i, j) = choose|k: int, i: int, j: int| #[trigger]
        handed_over_at(p, h, lo, hi, record, data, k, i, j);
    assert(handed_over_at(p, h, lower, higher, record, data, k, i, j));
}

proof fn lemma_handover_delivers(
    p: Profile,
    h: Seq<Exchange>,
    lo: int,
    hi: int,
    record: Seq<u8>,
    data: Seq<u8>,
)
    requires
        handed_over(p, h, lo, hi, record, data),
    ensures
        delivered(h, lo, hi, data),
{
    let (k, i, j) = choose|k: int, i: int, j: int| #[trigger]
        handed_over_at(p, h, lo, hi, record, data, k, i, j);
    assert(lo <= i <= j <= hi && acknowledged(h, i, j, usize::MAX as int) && carried(h, i, j)
        == data);
}

/// The bytes of a command header, one by one.
pub proof fn headers_are_laid_out(cmd: u8, len: u32)
    ensures
        is_header(cmd_bytes(cmd, len), cmd, len as int),
{
    let b = cmd_bytes(cmd, len);
    cmd_fields(cmd, len);
    assert(b[0] == 0x55 && b[1] == 0x50 && b[2] == 0x47 && b[3] == 0x43);
    assert(le32_at(b, 0) == word(b, 0));
    assert(le32_at(b, 4) == word(b, 4));
    assert(le32_at(b, 8) == word(b, 8));
    assert(le32_at(b, 12) == word(b, 12));
}

/// A command that got its header through has it right behind it in the history. Only where
/// headers are repeated may a refused one and a wait for the device stand before it.
pub proof fn commands_are_headed(p: Profile, h: Seq<Exchange>, i: int, cmd: u8, len: u32)
    ensures
        header_talk(p, h, i, cmd, len) matches Some((j, Ok(()))) ==> {
            &&& wrote_header(h, j - 1, cmd, len as int)
            &&& j == i + 1 || (p.repeat_headers && j == i + 3 && (h[i + 1] matches
                Exchange::Reconnect { timeout, outcome } && timeout == 10_000 && outcome is Ok))
        },
{
    headers_are_laid_out(cmd, len);
}

proof fn lemma_data_goes_on(
    job: Job,
    meta: FwcMeta,
    piece: int,
    sent: int,
    h: Seq<Exchange>,
    s: Point,
)
    ensures
        leads_on(s, data_talk(job, meta, piece, sent, h, s)),
    decreases meta.size - sent,
{
    if sent < meta.size && piece >= 1 {
        let next = if sent + piece < meta.size {
            sent + piece
        } else {
            meta.size as int
        };
        let u = Point { at: s.at + 1, events: s.events, sent: s.sent + (next - sent) };
        let v = u.report(
            BurnEvent::ComponentProgress {
                name: meta.name@,
                sent: next as usize,
                total: meta.size as usize,
            },
        ).report(
            BurnEvent::OverallProgress { sent: u.sent as usize, total: job.total() as usize },
        );
        lemma_data_goes_on(job, meta, piece, next, h, v);
    }
}

/// Whether, from `lo` up to `hi`, a component was announced by its record, and the header of its
/// data stands last.
spec fn announced_at(
    p: Profile,
    h: Seq<Exchange>,
    lo: int,
    hi: int,
    record: Seq<u8>,
    size: int,
    k: int,
) -> bool {
    &&& lo <= k
    &&& wrote_header(h, k, p.codes.set_fwc_meta, (record.len() as u32) as int)
    &&& wrote_bytes(h, k + 1, record, CswPolicy::Required)
    &&& k + 1 < hi - 1
    &&& wrote_header(h, hi - 1, p.codes.send_fwc_data, size)
}

proof fn lemma_opening(job: Job, meta: FwcMeta, h: Seq<Exchange>, i: int)
    ensures
        opening_talk(job, meta, h, i) matches Some((j, r)) ==> i <= j && (r matches Ok(piece) ==> 1
            <= piece <= usize::MAX && exists|k: int| #[trigger]
            announced_at(job.profile, h, i, j, meta.record@, meta.size as int, k)),
{
    reveal(opening_talk);
    let p = job.profile;
    let n = meta.record@.len() as u32;
    lemma_talks_go_on(p, h, i);
    commands_are_headed(p, h, i, p.codes.set_fwc_meta, n);
    match meta_talk(p, h, i, meta.record@) {
        Some((j, Ok(()))) => {
            let k = match header_talk(p, h, i, p.codes.set_fwc_meta, n) {
                Some((x, _)) => x - 1,
                None => 0,
            };
            assert(wrote_bytes(h, k + 1, meta.record@, CswPolicy::Required));
            lemma_talks_go_on(p, h, j);
            match block_size_talk(p, h, j) {
                Some((l, _)) => {
                    lemma_talks_go_on(p, h, l);
                    commands_are_headed(p, h, l, p.codes.send_fwc_data, meta.size);
                    match opening_talk(job, meta, h, i) {
                        Some((m, Ok(_))) => {
                            assert(announced_at(
                                p,
                                h,
                                i,
                                m,
                                meta.record@,
                                meta.size as int,
                                k,
                            ));
                        },
                        _ => {},
                    }
                },
                None => {},
            }
        },
        _ => {},
    }
}

proof fn lemma_data(job: Job, meta: FwcMeta, piece: int, h: Seq<Exchange>, s: Point)
    requires
        0 <= s.at,
        1 <= piece <= usize::MAX,
        meta.offset + meta.size <= job.image.len(),
    ensures
        data_talk(job, meta, piece, 0, h, s) matches Some((t, r)) ==> s.at <= t.at && (r is Ok
            ==> acknowledged(h, s.at, t.at, usize::MAX as int) && carried(h, s.at, t.at)
            == data_of(job, meta)),
{
    lemma_data_goes_on(job, meta, piece, 0, h, s);
    match data_talk(job, meta, piece, 0, h, s) {
        Some((t, Ok(done))) => {
            assert(done == ());
            data_arrives_whole(job, meta, piece, 0, h, s, t);
            assert(acknowledged(h, s.at, t.at, usize::MAX as int));
        },
        _ => {},
    }
}

proof fn lemma_response(h: Seq<Exchange>, i: int, cmd: u8, policy: CswPolicy)
    ensures
        onward(i, silent(response_talk(h, i, cmd, 0, policy))),
{
}

/// A component that was sent without an error was announced by its own record, byte for byte,
/// and its data went out behind it, whole and in order, in writes that were all acknowledged.
pub proof fn component_is_handed_over(
    job: Job,
    meta: FwcMeta,
    may_vanish: bool,
    h: Seq<Exchange>,
    s: Point,
)
    requires
        0 <= s.at,
    ensures
        component_talk(job, meta, may_vanish, h, s) matches Some((t, r)) ==> s.at <= t.at && (r
            is Ok ==> handed_over(
            job.profile,
            h,
            s.at,
            t.at,
            meta.record@,
            data_of(job, meta),
        )),
{
    reveal(component_talk);
    let started = s.report(
        BurnEvent::ComponentStarted {
            name: meta.name@,
            partition: meta.partition@,
            size: meta.size as usize,
        },
    );
    let policy = if may_vanish {
        CswPolicy::AllowMissing
    } else {
        CswPolicy::Required
    };
    if meta.offset + meta.size <= job.image.len() {
        lemma_opening(job, meta, h, started.at);
        match opening_talk(job, meta, h, started.at) {
            Some((j, Ok(piece))) => {
                let begin = started.go(j);
                lemma_data(job, meta, piece, h, begin);
                match data_talk(job, meta, piece, 0, h, begin) {
                    Some((t, Ok(()))) => {
                        lemma_response(h, t.at, job.profile.codes.send_fwc_data, policy);
                        match component_talk(job, meta, may_vanish, h, s) {
                            Some((u, Ok(()))) => {
                                let k = choose|k: int| #[trigger]
                                    announced_at(
                                        job.profile,
                                        h,
                                        s.at,
                                        j,
                                        meta.record@,
                                        meta.size as int,
                                        k,
                                    );
                                assert(handed_over_at(
                                    job.profile,
                                    h,
                                    s.at,
                                    u.at,
                                    meta.record@,
                                    data_of(job, meta),
                                    k,
                                    j,
                                    t.at,
                                ));
                            },
                            _ => {},
                        }
                    },
                    _ => {},
                }
            },
            _ => {},
        }
    }
}

/// A component that was sent without an error was delivered: its data went out whole and in
/// order, in writes that were all acknowledged.
pub proof fn component_is_delivered(
    job: Job,
    meta: FwcMeta,
    may_vanish: bool,
    h: Seq<Exchange>,
    s: Point,
)
    requires
        0 <= s.at,
    ensures
        component_talk(job, meta, may_vanish, h, s) matches Some((t, r)) ==> s.at <= t.at && (r
            is Ok ==> delivered(h, s.at, t.at, data_of(job, meta))),
{
    component_is_handed_over(job, meta, may_vanish, h, s);
    match component_talk(job, meta, may_vanish, h, s) {
        Some((t, Ok(()))) => {
            lemma_handover_delivers(
                job.profile,
                h,
                s.at,
                t.at,
                meta.record@,
                data_of(job, meta),
            );
        },
        _ => {},
    }
}

/// Whether the component `k` was announced and handed over between two positions.
pub open spec fn component_handed_over(
    job: Job,
    h: Seq<Exchange>,
    lo: int,
    hi: int,
    k: int,
) -> bool {
    handed_over(job.profile, h, lo, hi, job.metas[k].record@, data_of(job, job.metas[k]))
}

pub(crate) proof fn lemma_widen(job: Job, h: Seq<Exchange>, lo: int, hi: int, lower: int, higher: int, k: int)
    requires
        component_handed_over(job, h, lo, hi, k),
        lower <= lo,
        hi <= higher,
    ensures
        component_handed_over(job, h, lower, higher, k),
{
    lemma_wider_handover(
        job.profile,
        h,
        lo,
        hi,
        lower,
        higher,
        job.metas[k].record@,
        data_of(job, job.metas[k]),
    );
}

pub(crate) proof fn lemma_updaters(job: Job, k: int, h: Seq<Exchange>, s: Point, wanted: int)
    requires
        0 <= s.at,
        0 <= k,
    ensures
        updaters_talk(job, k, h, s) matches Some((t, r)) ==> s.at <= t.at && (r is Ok && k
            <= wanted < job.metas.len() && kind_of(job.metas[wanted].name@)
            == ComponentKind::Updater ==> component_handed_over(
            job,
            h,
            s.at,
            t.at,
            wanted,
        )),
    decreases job.metas.len() - k,
{
    if k < job.metas.len() {
        let meta = job.metas[k];
        if kind_of(meta.name@) != ComponentKind::Updater {
            lemma_updaters(job, k + 1, h, s, wanted);
        } else {
            let more = updaters_from(job.metas, k + 1) > 0;
            component_is_handed_over(job, meta, !more, h, s);
            match component_talk(job, meta, !more, h, s) {
                Some((t, Ok(()))) => {
                    lemma_probe(job, h, t);
                    let next = if !more {
                        Some(t)
                    } else {
                        match probe_between_talk(job, h, t) {
                            Some((u, Ok(()))) => Some(u),
                            _ => None,
                        }
                    };
                    match next {
                        Some(u) => {
                            lemma_updaters(job, k + 1, h, u, wanted);
                            match updaters_talk(job, k + 1, h, u) {
                                Some((v, Ok(()))) => {
                                    if wanted == k {
                                        lemma_widen(job, h, s.at, t.at, s.at, v.at, k);
                                    } else if k < wanted < job.metas.len() && kind_of(
                                        job.metas[wanted].name@,
                                    ) == ComponentKind::Updater {
                                        lemma_widen(job, h, u.at, v.at, s.at, v.at, wanted);
                                    }
                                },
                                _ => {},
                            }
                        },
                        None => {},
                    }
                },
                _ => {},
            }
        }
    }
}

pub(crate) proof fn lemma_probe(job: Job, h: Seq<Exchange>, s: Point)
    ensures
        leads_on(s, probe_between_talk(job, h, s)),
{
    reveal(probe_between_talk);
    lemma_talks_go_on(job.profile, h, s.at + 1);
}

pub(crate) proof fn lemma_return(job: Job, timeout: u64, h: Seq<Exchange>, s: Point)
    ensures
        leads_on(s, return_talk(job, timeout, h, s)),
{
    reveal(return_talk);
    lemma_talks_go_on(job.profile, h, s.at + 1);
}

pub(crate) proof fn lemma_end(job: Job, reset: bool, h: Seq<Exchange>, s: Point)
    ensures
        leads_on(s, end_stage(job, reset, h, s)),
{
    reveal(end_stage);
    lemma_talks_go_on(job.profile, h, s.at);
    match end_talk(job.profile, h, s.at) {
        Some((j, Ok(()))) => {
            lemma_talks_go_on(job.profile, h, j);
        },
        _ => {},
    }
}

pub(crate) proof fn lemma_targets(job: Job, k: int, h: Seq<Exchange>, s: Point, wanted: int)
    requires
        0 <= s.at,
        0 <= k,
    ensures
        targets_talk(job, k, h, s) matches Some((t, r)) ==> s.at <= t.at && (r is Ok && k <= wanted
            < job.metas.len() && is_chosen_target(job.metas[wanted], job.parts) ==> component_handed_over(
            job,
            h,
            s.at,
            t.at,
            wanted,
        )),
    decreases job.metas.len() - k,
{
    if k < job.metas.len() {
        let meta = job.metas[k];
        if !is_chosen_target(meta, job.parts) {
            lemma_targets(job, k + 1, h, s, wanted);
        } else {
            component_is_handed_over(job, meta, false, h, s);
            match component_talk(job, meta, false, h, s) {
                Some((t, Ok(()))) => {
                    lemma_targets(job, k + 1, h, t, wanted);
                    match targets_talk(job, k + 1, h, t) {
                        Some((v, Ok(()))) => {
                            if wanted == k {
                                lemma_widen(job, h, s.at, t.at, s.at, v.at, k);
                            } else if k < wanted < job.metas.len() && is_chosen_target(
                                job.metas[wanted],
                                job.parts,
                            ) {
                                lemma_widen(job, h, t.at, v.at, s.at, v.at, wanted);
                            }
                        },
                        _ => {},
                    }
                },
                _ => {},
            }
        }
    }
}

/// A burn that succeeds has announced every component that it is to send by its own record, byte
/// for byte, and has handed over its data behind that, whole and in order: the updater
/// components first, then the image description, then the targets.
pub proof fn burned_components_are_handed_over(
    job: Job,
    timeout: u64,
    reset: bool,
    h: Seq<Exchange>,
    s: Point,
    t: Point,
    k: int,
)
    requires
        0 <= s.at,
        burn_talk(job, timeout, reset, h, s) == Some((t, Ok::<(), Seq<char>>(()))),
        is_burned(job, k),
    ensures
        component_handed_over(job, h, s.at, t.at, k),
{
    let planned = s.report(BurnEvent::Stage("Build component plan"@));
    let (u, _) = updater_stage(job, timeout, h, planned)->0;
    let (v, _) = mode_stage(job, h, u)->0;
    let (w, _) = target_stage(job, h, v)->0;
    assert(s.at <= u.at && (kind_of(job.metas[k].name@) == ComponentKind::Updater ==> component_handed_over(job, h, s.at, u.at, k))) by {
        reveal(updater_stage);
        let sending = planned.report(BurnEvent::Stage("Send updater components"@));
        if updaters_from(job.metas, 0) == 0 {
            lemma_no_updater(job, 0, k);
        } else {
            lemma_updaters(job, 0, h, sending, k);
            let (x, _) = updaters_talk(job, 0, h, sending)->0;
            lemma_return(job, timeout, h, x);
            if kind_of(job.metas[k].name@) == ComponentKind::Updater {
                lemma_widen(job, h, s.at, x.at, s.at, u.at, k);
            }
        }
    }
    assert(u.at <= v.at && (info_from(job.metas, 0) == Some(k) ==> component_handed_over(job, h, u.at, v.at, k))) by {
        reveal(mode_stage);
        let choosing = u.report(BurnEvent::Stage("Set full-disk upgrade mode"@));
        lemma_talks_go_on(job.profile, h, u.at);
        let (j, _) = cfg_talk(
            job.profile,
            h,
            choosing.at,
            job.profile.codes.full_disk_upgrade,
        )->0;
        match info_from(job.metas, 0) {
            Some(i) => {
                component_is_handed_over(job, job.metas[i], false, h, choosing.go(j));
                if i == k {
                    lemma_widen(job, h, j, v.at, u.at, v.at, k);
                }
            },
            None => {},
        }
    }
    assert(v.at <= w.at && (is_chosen_target(job.metas[k], job.parts) ==> component_handed_over(job, h, v.at, w.at, k))) by {
        reveal(target_stage);
        lemma_targets(job, 0, h, v, k);
    }
    lemma_end(job, reset, h, w);
    if kind_of(job.metas[k].name@) == ComponentKind::Updater {
        lemma_widen(job, h, s.at, u.at, s.at, t.at, k);
    } else if info_from(job.metas, 0) == Some(k) {
        lemma_widen(job, h, u.at, v.at, s.at, t.at, k);
    } else {
        lemma_widen(job, h, v.at, w.at, s.at, t.at, k);
    }
}

/// A burn that succeeds has delivered every component that it is to send: the data of each went
/// out whole and in order, in writes that were all acknowledged.
pub proof fn burned_components_are_delivered(
    job: Job,
    timeout: u64,
    reset: bool,
    h: Seq<Exchange>,
    s: Point,
    t: Point,
    k: int,
)
    requires
        0 <= s.at,
        burn_talk(job, timeout, reset, h, s) == Some((t, Ok::<(), Seq<char>>(()))),
        is_burned(job, k),
    ensures
        delivered(h, s.at, t.at, data_of(job, job.metas[k])),
{
    burned_components_are_handed_over(job, timeout, reset, h, s, t, k);
    lemma_handover_delivers(
        job.profile,
        h,
        s.at,
        t.at,
        job.metas[k].record@,
        data_of(job, job.metas[k]),
    );
}

proof fn lemma_no_updater(job: Job, i: int, k: int)
    requires
        0 <= i <= k < job.metas.len(),
        updaters_from(job.metas, i) == 0,
    ensures
        kind_of(job.metas[k].name@) != ComponentKind::Updater,
    decreases k - i,
{
    lemma_updaters_bound(job.metas, i + 1);
    if i < k {
        lemma_no_updater(job, i + 1, k);
    }
}

} // verus!
