//! What holds of every burn.
use vstd::prelude::*;

use crate::device::burn::{
    burn_talk, component_talk, crc32_of, crc32_remainder, crc32_shift, crc32_shifts, data_talk,
    end_stage, mode_stage, opening_talk, piece_len, probe_between_talk, return_talk, target_stage,
    targets_talk, updater_stage, updaters_talk, Burned, Job, Point,
};
use crate::device::plan::{
    any_target, info_from, is_chosen_target, kind_bytes, kind_of, lemma_info_counted,
    lemma_kinds_within_total, lemma_updaters_bound, updaters_from, BurnEvent, ComponentKind, Event,
};
use crate::device::talk::cfg_talk;
use crate::protocol::commands::FwcMeta;
use crate::transport::{CswPolicy, Exchange};

verus! {

/// The bytes that the writes from position `i` up to `j` carried, one after the other.
pub open spec fn carried(h: Seq<Exchange>, i: int, j: int) -> Seq<u8>
    decreases j - i,
{
    if i >= j {
        Seq::empty()
    } else {
        (match h[i] {
            Exchange::Write { payload, .. } => payload,
            _ => Seq::empty(),
        }) + carried(h, i + 1, j)
    }
}

/// Whether every exchange from position `i` up to `j` is a write of at most `most` bytes that
/// was acknowledged.
pub open spec fn acknowledged(h: Seq<Exchange>, i: int, j: int, most: int) -> bool {
    forall|k: int|
        i <= k < j ==> (#[trigger] h[k] matches Exchange::Write { payload, policy, outcome }
            && 0 < payload.len() <= most && policy == CswPolicy::Required && outcome is Ok)
}

/// The pieces in which a component is sent are no larger than the link takes, wherever it takes
/// anything.
pub proof fn pieces_fit_the_link(kind: ComponentKind, block_size: u32, limit: usize)
    ensures
        1 <= piece_len(kind, block_size, limit),
        limit >= 1 ==> piece_len(kind, block_size, limit) <= limit,
{
}

/// The data of a component that was sent without an error went out whole and in order, in
/// writes that were all acknowledged, and the progress advanced by its length.
pub proof fn data_arrives_whole(
    job: Job,
    meta: FwcMeta,
    piece: int,
    sent: int,
    h: Seq<Exchange>,
    s: Point,
    t: Point,
)
    requires
        0 <= s.at,
        0 <= sent <= meta.size,
        piece >= 1,
        meta.offset + meta.size <= job.image.len(),
        data_talk(job, meta, piece, sent, h, s) == Some((t, Ok::<(), Seq<char>>(()))),
    ensures
        s.at <= t.at,
        acknowledged(h, s.at, t.at, piece),
        carried(h, s.at, t.at) == job.image.subrange(
            meta.offset + sent,
            meta.offset + meta.size,
        ),
        t.sent == s.sent + (meta.size - sent),
    decreases meta.size - sent,
{
    if sent < meta.size {
        let next = if sent + piece < meta.size {
            sent + piece
        } else {
            meta.size as int
        };
        let u = Point { at: s.at + 1, events: s.events, sent: s.sent + (next - sent) };
        let v = u.report(
            BurnEvent::ComponentProgress {
                name: meta.name@,
                sent: next as usize,
                total: meta.size as usize,
            },
        ).report(
            BurnEvent::OverallProgress { sent: u.sent as usize, total: job.total() as usize },
        );
        assert(data_talk(job, meta, piece, next, h, v) == Some((t, Ok::<(), Seq<char>>(()))));
        data_arrives_whole(job, meta, piece, next, h, v, t);
        assert(job.image.subrange(meta.offset + sent, meta.offset + next) + job.image.subrange(
            meta.offset + next,
            meta.offset + meta.size,
        ) =~= job.image.subrange(meta.offset + sent, meta.offset + meta.size));
    } else {
        assert(job.image.subrange(meta.offset + sent, meta.offset + meta.size) =~= Seq::empty());
    }
}

/// A component whose data does not lie in the image is refused before anything is said.
pub proof fn bad_range_is_refused(
    job: Job,
    meta: FwcMeta,
    may_vanish: bool,
    h: Seq<Exchange>,
    s: Point,
)
    requires
        meta.offset + meta.size > job.image.len(),
    ensures
        component_talk(job, meta, may_vanish, h, s) matches Some((t, Err(_))) && t == s,
{
    reveal(component_talk);
}

/// Whether `more` is `list` with further reports behind it, none of which ends the burn.
pub open spec fn goes_on(list: Seq<Event>, more: Seq<Event>) -> bool {
    &&& list.len() <= more.len()
    &&& forall|i: int| 0 <= i < list.len() ==> more[i] == list[i]
    &&& forall|i: int| list.len() <= i < more.len() ==> !(#[trigger] more[i] is Finished)
}

/// Whether a part of a burn leads on from `s`: further reports, and at most `most` bytes more;
/// exactly that many where it succeeds.
pub open spec fn advances(s: Point, b: Burned, most: int) -> bool {
    match b {
        Some((t, r)) => {
            &&& goes_on(s.events, t.events)
            &&& s.sent <= t.sent <= s.sent + most
            &&& r is Ok ==> t.sent == s.sent + most
        },
        None => true,
    }
}

proof fn lemma_data(
    job: Job,
    meta: FwcMeta,
    piece: int,
    sent: int,
    h: Seq<Exchange>,
    s: Point,
)
    requires
        0 <= sent <= meta.size,
        piece >= 1,
    ensures
        advances(s, data_talk(job, meta, piece, sent, h, s), meta.size - sent),
    decreases meta.size - sent,
{
    if sent < meta.size {
        let next = if sent + piece < meta.size {
            sent + piece
        } else {
            meta.size as int
        };
        let u = Point { at: s.at + 1, events: s.events, sent: s.sent + (next - sent) };
        let v = u.report(
            BurnEvent::ComponentProgress {
                name: meta.name@,
                sent: next as usize,
                total: meta.size as usize,
            },
        ).report(
            BurnEvent::OverallProgress { sent: u.sent as usize, total: job.total() as usize },
        );
        lemma_data(job, meta, piece, next, h, v);
    }
}

/// A component advances the progress by its size.
pub proof fn component_advances(
    job: Job,
    meta: FwcMeta,
    may_vanish: bool,
    h: Seq<Exchange>,
    s: Point,
)
    ensures
        advances(s, component_talk(job, meta, may_vanish, h, s), meta.size as int),
{
    reveal(component_talk);
    reveal(opening_talk);
    let started = s.report(
        BurnEvent::ComponentStarted {
            name: meta.name@,
            partition: meta.partition@,
            size: meta.size as usize,
        },
    );
    match opening_talk(job, meta, h, started.at) {
        Some((j, Ok(piece))) => {
            lemma_data(job, meta, piece, 0, h, started.go(j));
        },
        _ => {},
    }
}

proof fn lemma_updaters(job: Job, k: int, h: Seq<Exchange>, s: Point)
    requires
        0 <= k,
    ensures
        advances(
            s,
            updaters_talk(job, k, h, s),
            kind_bytes(job.metas, job.parts, ComponentKind::Updater, k),
        ),
    decreases job.metas.len() - k,
{
    if k < job.metas.len() {
        lemma_kinds_within_total(job.metas, job.parts, k + 1);
        if kind_of(job.metas[k].name@) != ComponentKind::Updater {
            lemma_updaters(job, k + 1, h, s);
        } else {
            let more = updaters_from(job.metas, k + 1) > 0;
            component_advances(job, job.metas[k], !more, h, s);
            match component_talk(job, job.metas[k], !more, h, s) {
                Some((t, Ok(()))) => {
                    if !more {
                        lemma_updaters(job, k + 1, h, t);
                    } else {
                        reveal(probe_between_talk);
                        match probe_between_talk(job, h, t) {
                            Some((u, Ok(()))) => {
                                lemma_updaters(job, k + 1, h, u);
                            },
                            _ => {},
                        }
                    }
                },
                _ => {},
            }
        }
    }
}

proof fn lemma_targets(job: Job, k: int, h: Seq<Exchange>, s: Point)
    requires
        0 <= k,
    ensures
        advances(
            s,
            targets_talk(job, k, h, s),
            kind_bytes(job.metas, job.parts, ComponentKind::Target, k),
        ),
    decreases job.metas.len() - k,
{
    if k < job.metas.len() {
        lemma_kinds_within_total(job.metas, job.parts, k + 1);
        if !is_chosen_target(job.metas[k], job.parts) {
            lemma_targets(job, k + 1, h, s);
        } else {
            component_advances(job, job.metas[k], false, h, s);
            match component_talk(job, job.metas[k], false, h, s) {
                Some((t, Ok(()))) => {
                    lemma_targets(job, k + 1, h, t);
                },
                _ => {},
            }
        }
    }
}

/// The bytes of the first image description.
pub open spec fn info_bytes(job: Job) -> int {
    match info_from(job.metas, 0) {
        Some(k) => job.metas[k].size as int,
        None => 0,
    }
}

/// The bytes of everything that a burn sends.
pub open spec fn burned_bytes(job: Job) -> int {
    kind_bytes(job.metas, job.parts, ComponentKind::Updater, 0) + info_bytes(job) + kind_bytes(
        job.metas,
        job.parts,
        ComponentKind::Target,
        0,
    )
}

proof fn lemma_no_updaters(job: Job, k: int)
    requires
        0 <= k,
        updaters_from(job.metas, k) == 0,
    ensures
        kind_bytes(job.metas, job.parts, ComponentKind::Updater, k) == 0,
    decreases job.metas.len() - k,
{
    if k < job.metas.len() {
        lemma_updaters_bound(job.metas, k + 1);
        lemma_no_updaters(job, k + 1);
    }
}

/// A burn that succeeds ends with the report that it is finished, and that is its only one; a
/// burn that fails never reports it.
pub proof fn finished_means_success(
    job: Job,
    timeout: u64,
    reset: bool,
    h: Seq<Exchange>,
    s: Point,
)
    ensures
        match burn_talk(job, timeout, reset, h, s) {
            Some((t, Ok(()))) => t.events.len() > s.events.len() && t.events.last() is Finished
                && goes_on(s.events, t.events.drop_last()),
            Some((t, Err(_))) => goes_on(s.events, t.events),
            None => true,
        },
{
    lemma_burn(job, timeout, reset, h, s);
}

/// A burn that succeeds has sent every updater component, the image description and every
/// chosen target, byte for byte; one that fails has sent no more than that. Neither is more
/// than the total that the progress is measured by.
pub proof fn progress_stays_within_total(
    job: Job,
    timeout: u64,
    reset: bool,
    h: Seq<Exchange>,
    s: Point,
)
    requires
        s.sent == 0,
    ensures
        burned_bytes(job) <= job.total(),
        match burn_talk(job, timeout, reset, h, s) {
            Some((t, Ok(()))) => t.sent == burned_bytes(job),
            Some((t, Err(_))) => 0 <= t.sent <= burned_bytes(job),
            None => true,
        },
{
    lemma_burn(job, timeout, reset, h, s);
    lemma_kinds_within_total(job.metas, job.parts, 0);
    lemma_info_counted(job.metas, job.parts, 0);
}

/// A burn for which no target is chosen does not succeed.
pub proof fn no_target_no_burn(job: Job, timeout: u64, reset: bool, h: Seq<Exchange>, s: Point)
    requires
        !any_target(job.metas, job.parts),
    ensures
        burn_talk(job, timeout, reset, h, s) matches Some((_, r)) ==> r is Err,
{
    reveal(target_stage);
}

proof fn lemma_burn(job: Job, timeout: u64, reset: bool, h: Seq<Exchange>, s: Point)
    ensures
        match burn_talk(job, timeout, reset, h, s) {
            Some((t, Ok(()))) => t.events.len() > s.events.len() && t.events.last() is Finished
                && goes_on(s.events, t.events.drop_last()) && t.sent == s.sent + burned_bytes(
                job,
            ),
            Some((t, Err(_))) => goes_on(s.events, t.events) && s.sent <= t.sent <= s.sent
                + burned_bytes(job),
            None => true,
        },
{
    lemma_kinds_within_total(job.metas, job.parts, 0);
    let planned = s.report(BurnEvent::Stage("Build component plan"@));
    lemma_updater_stage(job, timeout, h, planned);
    match updater_stage(job, timeout, h, planned) {
        Some((t, Ok(()))) => {
            lemma_mode_stage(job, h, t);
            match mode_stage(job, h, t) {
                Some((u, Ok(()))) => {
                    reveal(target_stage);
                    lemma_targets(job, 0, h, u);
                    match target_stage(job, h, u) {
                        Some((v, Ok(()))) => {
                            lemma_end_stage(job, reset, h, v);
                        },
                        _ => {},
                    }
                },
                _ => {},
            }
        },
        _ => {},
    }
}

proof fn lemma_updater_stage(job: Job, timeout: u64, h: Seq<Exchange>, s: Point)
    ensures
        advances(
            s,
            updater_stage(job, timeout, h, s),
            kind_bytes(job.metas, job.parts, ComponentKind::Updater, 0),
        ),
{
    reveal(updater_stage);
    lemma_kinds_within_total(job.metas, job.parts, 0);
    if updaters_from(job.metas, 0) == 0 {
        lemma_no_updaters(job, 0);
    } else {
        let sending = s.report(BurnEvent::Stage("Send updater components"@));
        lemma_updaters(job, 0, h, sending);
        match updaters_talk(job, 0, h, sending) {
            Some((t, Ok(()))) => {
                reveal(return_talk);
            },
            _ => {},
        }
    }
}

proof fn lemma_mode_stage(job: Job, h: Seq<Exchange>, s: Point)
    ensures
        advances(s, mode_stage(job, h, s), info_bytes(job)),
{
    reveal(mode_stage);
    let choosing = s.report(BurnEvent::Stage("Set full-disk upgrade mode"@));
    match info_from(job.metas, 0) {
        Some(k) => {
            match cfg_talk(
                job.profile,
                h,
                choosing.at,
                job.profile.codes.full_disk_upgrade,
            ) {
                Some((j, Ok(()))) => {
                    component_advances(job, job.metas[k], false, h, choosing.go(j));
                },
                _ => {},
            }
        },
        None => {},
    }
}

proof fn lemma_end_stage(job: Job, reset: bool, h: Seq<Exchange>, s: Point)
    ensures
        match end_stage(job, reset, h, s) {
            Some((t, Ok(()))) => t.events.len() > s.events.len() && t.events.last() is Finished
                && goes_on(s.events, t.events.drop_last()) && t.sent == s.sent,
            Some((t, Err(_))) => goes_on(s.events, t.events) && t.sent == s.sent,
            None => true,
        },
{
    reveal(end_stage);
}

/// Data of which one byte is another one have another checksum, wherever the byte stands.
pub proof fn changed_data_have_another_checksum(data: Seq<u8>, k: int, b: u8)
    requires
        0 <= k < data.len(),
        data[k] != b,
    ensures
        crc32_of(data.update(k, b)) != crc32_of(data),
{
    lemma_remainders_differ(data, k, b);
    let x: u32 = crc32_remainder(data);
    let y: u32 = crc32_remainder(data.update(k, b));
    assert(x != y ==> !x != !y) by (bit_vector);
}

proof fn lemma_remainders_differ(data: Seq<u8>, k: int, b: u8)
    requires
        0 <= k < data.len(),
        data[k] != b,
    ensures
        crc32_remainder(data.update(k, b)) != crc32_remainder(data),
    decreases data.len(),
{
    let other = data.update(k, b);
    let front: u32 = crc32_remainder(data.drop_last());
    let x: u8 = data.last();
    if k == data.len() - 1 {
        assert(other.drop_last() =~= data.drop_last());
        assert(x != b ==> front ^ (x as u32) != front ^ (b as u32)) by (bit_vector);
        lemma_shifts_differ(front ^ (b as u32), front ^ (x as u32), 8);
    } else {
        lemma_remainders_differ(data.drop_last(), k, b);
        assert(other.drop_last() =~= data.drop_last().update(k, b));
        let changed: u32 = crc32_remainder(other.drop_last());
        assert(other.last() == x);
        assert(changed != front ==> changed ^ (x as u32) != front ^ (x as u32)) by (bit_vector);
        lemma_shifts_differ(changed ^ (x as u32), front ^ (x as u32), 8);
    }
}

proof fn lemma_shifts_differ(a: u32, b: u32, n: nat)
    requires
        a != b,
    ensures
        crc32_shifts(a, n) != crc32_shifts(b, n),
    decreases n,
{
    if n > 0 {
        lemma_shifts_differ(a, b, (n - 1) as nat);
        let x: u32 = crc32_shifts(a, (n - 1) as nat);
        let y: u32 = crc32_shifts(b, (n - 1) as nat);
        assert(x != y ==> crc32_shift(x) != crc32_shift(y)) by (bit_vector);
    }
}

} // verus!
