//! The course of a burn: which components are sent, in what order, and what is reported.
use vstd::prelude::*;
use vstd::utf8::encode_utf8;

use crate::device::burn::{
    burn_talk, component_end, component_talk, crc32_of, data_talk, end_stage, mode_stage,
    opening_talk, piece_len, probe_between_talk, return_talk, target_stage, targets_talk,
    updater_stage, updaters_talk, Job, Point,
};
use crate::device::delivery::{
    component_handed_over, component_is_handed_over, data_of, is_burned, lemma_probe,
    lemma_return, lemma_talks_go_on, lemma_targets, lemma_updaters, lemma_widen,
};
use crate::device::laws::{acknowledged, carried, data_arrives_whole};
use crate::device::plan::{
    any_target, info_from, is_chosen_target, kind_of, lemma_updaters_bound, part_chosen, plan_of,
    total_bytes, updaters_from, BurnEvent, ComponentKind, Event, FirmwareComponent,
};
use crate::device::talk::{
    block_size_talk, cfg_talk, end_talk, hwinfo_talk, meta_talk, response_talk, shell_talk, silent,
    Profile,
};
use crate::device::wording::{
    asked_for, confirmed, end_is_told, hardware_report_is_the_answer, is_end_of_upgrade,
    is_shell_command, mode_chosen_at, mode_is_chosen, number_told,
    numbers_are_the_answers, ordered,
    responses_are_taken_as_sent, shell_commands_are_sent_as_text,
};
use crate::number::{dec, hex, hex_wide};
use crate::protocol::commands::FwcMeta;
use crate::transport::{CswPolicy, Exchange};

verus! {

// ---------------------------------------------------------------------------------------
// Which components are sent
// ---------------------------------------------------------------------------------------
/// Whether `name` is `front` and something behind it, which may be nothing.
pub open spec fn fronted(name: Seq<char>, front: Seq<char>) -> bool {
    name.len() >= front.len() && forall|i: int| 0 <= i < front.len() ==> name[i] == front[i]
}

/// The part that a component plays is told by its name alone.
pub proof fn names_tell_the_part(name: Seq<char>)
    ensures
        kind_of(name) == ComponentKind::Updater <==> fronted(name, "image.updater."@),
        kind_of(name) == ComponentKind::ImageInfo <==> name == "image.info"@,
        kind_of(name) == ComponentKind::Target <==> fronted(name, "image.target."@),
        kind_of(name) == ComponentKind::Other <==> !fronted(name, "image.updater."@)
            && !fronted(name, "image.target."@) && name != "image.info"@,
{
    let updater = "image.updater."@;
    let target = "image.target."@;
    reveal_strlit("image.updater.");
    reveal_strlit("image.target.");
    reveal_strlit("image.info");
    lemma_fronted(name, updater);
    lemma_fronted(name, target);
    if fronted(name, updater) {
        assert(name[6] == 'u');
    }
    if fronted(name, target) {
        assert(name[6] == 't');
    }
    if name == "image.info"@ {
        assert(name[6] == 'i');
    }
}

proof fn lemma_fronted(name: Seq<char>, front: Seq<char>)
    ensures
        fronted(name, front) <==> front.len() <= name.len() && name.take(front.len() as int)
            == front,
{
    if front.len() <= name.len() {
        if fronted(name, front) {
            assert(name.take(front.len() as int) =~= front);
        }
        if name.take(front.len() as int) == front {
            assert forall|i: int| 0 <= i < front.len() implies name[i] == front[i] by {
                assert(name.take(front.len() as int)[i] == name[i]);
            }
        }
    }
}

/// Whether one of `parts` is the component's partition, its name, or its name without the front
/// that all targets share.
pub open spec fn asked_to_write(meta: FwcMeta, parts: Seq<Seq<char>>) -> bool {
    parts.contains(meta.partition@) || parts.contains(meta.name@) || parts.contains(
        meta.name@.skip(13),
    )
}

/// A target is sent if and only if it was asked for, and nothing else is a target.
pub proof fn targets_are_chosen(meta: FwcMeta, parts: Seq<Seq<char>>)
    ensures
        is_chosen_target(meta, parts) <==> fronted(meta.name@, "image.target."@)
            && asked_to_write(meta, parts),
{
    names_tell_the_part(meta.name@);
    reveal_strlit("image.target.");
    lemma_fronted(meta.name@, "image.target."@);
    if fronted(meta.name@, "image.target."@) {
        let rest = meta.name@.skip(13);
        if asked_to_write(meta, parts) {
            let i = if parts.contains(meta.partition@) {
                choose|i: int| 0 <= i < parts.len() && parts[i] == meta.partition@
            } else if parts.contains(meta.name@) {
                choose|i: int| 0 <= i < parts.len() && parts[i] == meta.name@
            } else {
                choose|i: int| 0 <= i < parts.len() && parts[i] == rest
            };
            assert(parts[i] == meta.partition@ || parts[i] == rest || parts[i] == meta.name@);
            assert(part_chosen(meta, parts));
        }
        if part_chosen(meta, parts) {
            let i = choose|i: int|
                0 <= i < parts.len() && (#[trigger] parts[i] == meta.partition@ || parts[i] == rest
                    || parts[i] == meta.name@);
            assert(parts.contains(parts[i]));
        }
    }
}

/// The image description that is sent is the first one of the image; there is none only where
/// the image has none.
pub proof fn first_description_is_sent(metas: Seq<FwcMeta>, k: int)
    requires
        0 <= k,
    ensures
        match info_from(metas, k) {
            Some(i) => k <= i < metas.len() && metas[i].name@ == "image.info"@ && forall|j: int|
                k <= j < i ==> (#[trigger] metas[j]).name@ != "image.info"@,
            None => forall|j: int|
                k <= j < metas.len() ==> (#[trigger] metas[j]).name@ != "image.info"@,
        },
    decreases metas.len() - k,
{
    if k < metas.len() {
        names_tell_the_part(metas[k].name@);
        first_description_is_sent(metas, k + 1);
    }
}

/// No updater component is left from `k` on if and only if no name from there on says so.
pub proof fn updaters_are_counted(metas: Seq<FwcMeta>, k: int)
    requires
        0 <= k <= metas.len(),
    ensures
        updaters_from(metas, k) == 0 <==> forall|j: int|
            k <= j < metas.len() ==> !fronted((#[trigger] metas[j]).name@, "image.updater."@),
    decreases metas.len() - k,
{
    lemma_updaters_bound(metas, k);
    if k < metas.len() {
        names_tell_the_part(metas[k].name@);
        lemma_updaters_bound(metas, k + 1);
        updaters_are_counted(metas, k + 1);
    }
}

// ---------------------------------------------------------------------------------------
// The data of a component
// ---------------------------------------------------------------------------------------
/// The smaller of two numbers.
pub open spec fn lesser(a: int, b: int) -> int {
    if a < b {
        a
    } else {
        b
    }
}

/// A piece is as large as the link takes, but no more than a mebibyte; for an updater no more
/// than five hundred and twelve blocks, or bytes where the block size is zero.
pub proof fn pieces_are_as_large_as_allowed(kind: ComponentKind, block_size: u32, limit: usize)
    ensures
        limit == 0 ==> piece_len(kind, block_size, limit) == 1,
        limit > 0 && kind != ComponentKind::Updater ==> piece_len(kind, block_size, limit)
            == lesser(limit as int, 1_048_576),
        limit > 0 && kind == ComponentKind::Updater && block_size > 0 ==> piece_len(
            kind,
            block_size,
            limit,
        ) == lesser(limit as int, 512 * block_size),
        limit > 0 && kind == ComponentKind::Updater && block_size == 0 ==> piece_len(
            kind,
            block_size,
            limit,
        ) == lesser(limit as int, 512),
{
}

/// Whether the reports from `from` on tell of the writes from `i` up to `j`, two for each: how
/// much of the component has gone out by then, and how much of everything.
pub open spec fn progress_told(
    events: Seq<Event>,
    from: int,
    h: Seq<Exchange>,
    i: int,
    j: int,
    meta: FwcMeta,
    already: int,
    before: int,
    total: int,
) -> bool {
    forall|n: int|
        i <= n < j ==> {
            let gone = #[trigger] carried(h, i, n + 1).len();
            &&& events[from + 2 * (n - i)] == (BurnEvent::ComponentProgress {
                name: meta.name@,
                sent: (already + gone) as usize,
                total: meta.size as usize,
            })
            &&& events[from + 2 * (n - i) + 1] == (BurnEvent::OverallProgress::<Seq<char>> {
                sent: (before + gone) as usize,
                total: total as usize,
            })
        }
}

/// Every piece but the last one is as large as it may be, and after each the progress is
/// reported as far as the data has gone.
pub proof fn progress_follows_the_data(
    job: Job,
    meta: FwcMeta,
    piece: int,
    sent: int,
    h: Seq<Exchange>,
    s: Point,
    t: Point,
)
    requires
        0 <= s.at,
        0 <= sent <= meta.size,
        piece >= 1,
        meta.offset + meta.size <= job.image.len(),
        data_talk(job, meta, piece, sent, h, s) == Some((t, Ok::<(), Seq<char>>(()))),
    ensures
        s.at <= t.at,
        forall|n: int|
            s.at <= n < t.at - 1 ==> (#[trigger] h[n] matches Exchange::Write { payload, .. }
                && payload.len() == piece),
        t.events.len() == s.events.len() + 2 * (t.at - s.at),
        forall|n: int| 0 <= n < s.events.len() ==> t.events[n] == s.events[n],
        progress_told(
            t.events,
            s.events.len() as int,
            h,
            s.at,
            t.at,
            meta,
            sent,
            s.sent,
            job.total(),
        ),
    decreases meta.size - sent,
{
    if sent < meta.size {
        let next = if sent + piece < meta.size {
            sent + piece
        } else {
            meta.size as int
        };
        let u = Point { at: s.at + 1, events: s.events, sent: s.sent + (next - sent) };
        let v = u.report(
            BurnEvent::ComponentProgress {
                name: meta.name@,
                sent: next as usize,
                total: meta.size as usize,
            },
        ).report(
            BurnEvent::OverallProgress { sent: u.sent as usize, total: job.total() as usize },
        );
        assert(data_talk(job, meta, piece, next, h, v) == Some((t, Ok::<(), Seq<char>>(()))));
        progress_follows_the_data(job, meta, piece, next, h, v, t);
        let first = job.image.subrange(meta.offset + sent, meta.offset + next);
        assert(h[s.at] matches Exchange::Write { payload, .. } && payload == first);
        if next == meta.size {
            assert(t == v);
        }
        assert forall|n: int| s.at <= n < t.at implies {
            let gone = #[trigger] carried(h, s.at, n + 1).len();
            &&& t.events[s.events.len() + 2 * (n - s.at)] == (BurnEvent::ComponentProgress {
                name: meta.name@,
                sent: (sent + gone) as usize,
                total: meta.size as usize,
            })
            &&& t.events[s.events.len() + 2 * (n - s.at) + 1] == (BurnEvent::OverallProgress::<
                Seq<char>,
            > { sent: (s.sent + gone) as usize, total: job.total() as usize })
        } by {
            let rest = carried(h, s.at + 1, n + 1).len();
            assert(carried(h, s.at, n + 1) == first + carried(h, s.at + 1, n + 1));
            if n == s.at {
                assert(carried(h, s.at + 1, n + 1).len() == 0);
                assert(t.events[s.events.len() as int] == v.events[s.events.len() as int]);
                assert(t.events[s.events.len() + 1int] == v.events[s.events.len() + 1int]);
            } else {
                assert(v.events.len() == s.events.len() + 2);
                assert(v.at == s.at + 1);
                assert(v.events.len() + 2 * (n - v.at) == s.events.len() + 2 * (n - s.at));
            }
        }
    }
}

/// Whether the text is the warning that a component's checksum is not the expected one.
pub open spec fn warns_of(text: Seq<char>, meta: FwcMeta, actual: u32) -> bool {
    text == "WARNING: "@ + meta.name@ + " CRC mismatch, expected=0x"@ + hex_wide(
        meta.crc as nat,
        8,
    ) + ", actual=0x"@ + hex_wide(actual as nat, 8)
}

/// Whether a component was sent from `s` to `t`, its data from `i` up to `j`: it was announced to
/// the listener, the progress was told write by write, a checksum that is not the expected one
/// was warned of and no other, and the end was told.
pub open spec fn component_told(
    job: Job,
    meta: FwcMeta,
    h: Seq<Exchange>,
    s: Point,
    t: Point,
    i: int,
    j: int,
) -> bool {
    let from = s.events.len() as int;
    let actual = crc32_of(data_of(job, meta));
    let end = from + 1 + 2 * (j - i);
    &&& s.at <= i <= j <= t.at
    &&& acknowledged(h, i, j, usize::MAX as int)
    &&& carried(h, i, j) == data_of(job, meta)
    &&& t.sent == s.sent + meta.size
    &&& t.events.len() == end + (if actual == meta.crc {
        1int
    } else {
        2int
    })
    &&& forall|n: int| 0 <= n < from ==> t.events[n] == s.events[n]
    &&& t.events[from] == (BurnEvent::ComponentStarted {
        name: meta.name@,
        partition: meta.partition@,
        size: meta.size as usize,
    })
    &&& progress_told(t.events, from + 1, h, i, j, meta, 0, s.sent, job.total())
    &&& actual != meta.crc ==> (t.events[end] matches BurnEvent::Log(text) && warns_of(
        text,
        meta,
        actual,
    ))
    &&& t.events.last() == (BurnEvent::ComponentFinished { name: meta.name@ })
}

/// Whether the device answered, from `i` up to `j`, that it has the data; one that may vanish was
/// asked, and what did not come was let pass.
pub open spec fn data_confirmed(h: Seq<Exchange>, i: int, j: int, may_vanish: bool) -> bool {
    if may_vanish {
        i < j && (h[i] matches Exchange::Read { len, policy, .. } && len == 16 && policy
            == CswPolicy::AllowMissing)
    } else {
        confirmed(h, i, j)
    }
}

proof fn lemma_data_confirmed(h: Seq<Exchange>, i: int, cmd: u8, may_vanish: bool)
    ensures
        silent(
            response_talk(
                h,
                i,
                cmd,
                0,
                if may_vanish {
                    CswPolicy::AllowMissing
                } else {
                    CswPolicy::Required
                },
            ),
        ) matches Some((j, Ok(()))) ==> data_confirmed(h, i, j, may_vanish),
{
    if !may_vanish {
        match response_talk(h, i, cmd, 0, CswPolicy::Required) {
            Some((j, Ok(d))) => {
                responses_are_taken_as_sent(h, i, j, cmd, 0, d);
                lemma_confirmed(h, i, j, d);
            },
            _ => {},
        }
    }
}

proof fn lemma_confirmed(h: Seq<Exchange>, i: int, j: int, d: Seq<u8>)
    requires
        crate::device::wording::answered(h, i, j, 0, CswPolicy::Required, d),
    ensures
        confirmed(h, i, j),
{
}

proof fn lemma_opening_goes_on(job: Job, meta: FwcMeta, h: Seq<Exchange>, i: int)
    ensures
        opening_talk(job, meta, h, i) matches Some((j, r)) ==> i <= j && (r matches Ok(piece) ==> 1
            <= piece <= usize::MAX),
{
    reveal(opening_talk);
}

/// A component that was sent without an error was reported from its beginning to its end, and the
/// device answered that it has the data.
pub proof fn components_are_reported(
    job: Job,
    meta: FwcMeta,
    may_vanish: bool,
    h: Seq<Exchange>,
    s: Point,
    t: Point,
)
    requires
        0 <= s.at,
        component_talk(job, meta, may_vanish, h, s) == Some((t, Ok::<(), Seq<char>>(()))),
    ensures
        exists|i: int, j: int| #[trigger]
            component_told(job, meta, h, s, t, i, j) && data_confirmed(h, j, t.at, may_vanish),
{
    reveal(component_talk);
    let started = s.report(
        BurnEvent::ComponentStarted {
            name: meta.name@,
            partition: meta.partition@,
            size: meta.size as usize,
        },
    );
    lemma_opening_goes_on(job, meta, h, started.at);
    let (i, piece) = opening_talk(job, meta, h, started.at)->0;
    let piece = piece->Ok_0;
    let begin = started.go(i);
    let (u, done) = data_talk(job, meta, piece, 0, h, begin)->0;
    assert(done is Ok && done->Ok_0 == ());
    data_arrives_whole(job, meta, piece, 0, h, begin, u);
    progress_follows_the_data(job, meta, piece, 0, h, begin, u);
    lemma_data_confirmed(h, u.at, job.profile.codes.send_fwc_data, may_vanish);
    let from = s.events.len() as int;
    let actual = crc32_of(data_of(job, meta));
    assert(t == component_end(u.go(t.at), meta, actual));
    assert(u.events.len() == from + 1 + 2 * (u.at - i));
    assert(u.events[from] == started.events[from]);
    assert forall|n: int| i <= n < u.at implies {
        let gone = #[trigger] carried(h, i, n + 1).len();
        &&& t.events[from + 1 + 2 * (n - i)] == (BurnEvent::ComponentProgress {
            name: meta.name@,
            sent: (0 + gone) as usize,
            total: meta.size as usize,
        })
        &&& t.events[from + 1 + 2 * (n - i) + 1] == (BurnEvent::OverallProgress::<Seq<char>> {
            sent: (s.sent + gone) as usize,
            total: job.total() as usize,
        })
    } by {
        let gone = carried(h, i, n + 1).len();
        assert(u.events[from + 1 + 2 * (n - i)] == (BurnEvent::ComponentProgress {
            name: meta.name@,
            sent: (0 + gone) as usize,
            total: meta.size as usize,
        }));
    }
    assert(component_told(job, meta, h, s, t, i, u.at));
}

/// Whether, between `lo` and `i`, the device was asked for its block size and told `size`; one that
/// does not tell is taken to have blocks of two kibibytes.
pub open spec fn block_size_known(
    p: Profile,
    h: Seq<Exchange>,
    lo: int,
    i: int,
    size: int,
    m: int,
) -> bool {
    &&& lo <= m
    &&& block_size_talk(p, h, m) matches Some((l, told))
    &&& l < i
    &&& match told {
        Ok(n) => size == n && number_told(h, m, l, p.codes.get_block_size, size),
        Err(_) => size == 2048,
    }
}

/// How large a piece of a component may be, from its name, the block size and what the link takes.
pub open spec fn largest_piece(name: Seq<char>, block_size: int, limit: int) -> int {
    if limit == 0 {
        1
    } else if !fronted(name, "image.updater."@) {
        lesser(limit, 1_048_576)
    } else if block_size == 0 {
        lesser(limit, 512)
    } else {
        lesser(limit, 512 * block_size)
    }
}

/// Whether the data of a component went out from `i` up to `j` in pieces of `piece` bytes each,
/// the last one excepted, which may be shorter.
pub open spec fn in_pieces(h: Seq<Exchange>, i: int, j: int, piece: int) -> bool {
    forall|n: int|
        i <= n < j ==> (#[trigger] h[n] matches Exchange::Write { payload, .. } && 0
            < payload.len() <= piece && (n < j - 1 ==> payload.len() == piece))
}

/// Whether the data of a component went out from `i` up to `j`, in the pieces that follow from the
/// block size `size`, which was known from `m` on.
pub open spec fn pieced(
    job: Job,
    meta: FwcMeta,
    h: Seq<Exchange>,
    lo: int,
    hi: int,
    i: int,
    j: int,
    size: u32,
    m: int,
) -> bool {
    &&& lo <= i <= j <= hi
    &&& carried(h, i, j) == data_of(job, meta)
    &&& block_size_known(job.profile, h, lo, i, size as int, m)
    &&& in_pieces(
        h,
        i,
        j,
        largest_piece(meta.name@, size as int, (job.write_limit)(size) as int),
    )
}

/// The pieces of a component follow from the block size that the device told.
pub proof fn pieces_follow_the_block_size(
    job: Job,
    meta: FwcMeta,
    may_vanish: bool,
    h: Seq<Exchange>,
    s: Point,
    t: Point,
)
    requires
        0 <= s.at,
        component_talk(job, meta, may_vanish, h, s) == Some((t, Ok::<(), Seq<char>>(()))),
    ensures
        exists|i: int, j: int, size: u32, m: int| #[trigger]
            pieced(job, meta, h, s.at, t.at, i, j, size, m),
{
    reveal(component_talk);
    let started = s.report(
        BurnEvent::ComponentStarted {
            name: meta.name@,
            partition: meta.partition@,
            size: meta.size as usize,
        },
    );
    lemma_opening_goes_on(job, meta, h, started.at);
    let (i, piece) = opening_talk(job, meta, h, started.at)->0;
    let piece = piece->Ok_0;
    let begin = started.go(i);
    let (u, done) = data_talk(job, meta, piece, 0, h, begin)->0;
    assert(done is Ok && done->Ok_0 == ());
    data_arrives_whole(job, meta, piece, 0, h, begin, u);
    progress_follows_the_data(job, meta, piece, 0, h, begin, u);
    lemma_data_confirmed(h, u.at, job.profile.codes.send_fwc_data, may_vanish);
    assert(u.at <= t.at);
    lemma_opening_piece(job, meta, h, s.at);
    let (size, m) = choose|size: u32, m: int| #[trigger]
        block_size_known(job.profile, h, s.at, i, size as int, m) && piece == largest_piece(
            meta.name@,
            size as int,
            (job.write_limit)(size) as int,
        );
    assert(pieced(job, meta, h, s.at, t.at, i, u.at, size, m));
}

proof fn lemma_opening_piece(job: Job, meta: FwcMeta, h: Seq<Exchange>, lo: int)
    ensures
        opening_talk(job, meta, h, lo) matches Some((i, Ok(piece))) ==> exists|
            size: u32,
            m: int,
        | #[trigger]
            block_size_known(job.profile, h, lo, i, size as int, m) && piece == largest_piece(
                meta.name@,
                size as int,
                (job.write_limit)(size) as int,
            ),
{
    reveal(opening_talk);
    lemma_talks_go_on(job.profile, h, lo);
    match meta_talk(job.profile, h, lo, meta.record@) {
        Some((m, Ok(()))) => {
            numbers_are_the_answers(job.profile, h, m, 0, ""@);
            match block_size_talk(job.profile, h, m) {
                Some((l, told)) => {
                    let size = match told {
                        Ok(n) => n,
                        Err(_) => 2048u32,
                    };
                    let limit = (job.write_limit)(size);
                    names_tell_the_part(meta.name@);
                    pieces_are_as_large_as_allowed(kind_of(meta.name@), size, limit);
                    match opening_talk(job, meta, h, lo) {
                        Some((i, Ok(piece))) => {
                            assert(l < i);
                            assert(block_size_known(job.profile, h, lo, i, size as int, m));
                        },
                        _ => {},
                    }
                },
                None => {},
            }
        },
        _ => {},
    }
}

// ---------------------------------------------------------------------------------------
// The order of a burn
// ---------------------------------------------------------------------------------------
/// Whether the device reported on itself from `i` up to `j`.
pub open spec fn reported(p: Profile, h: Seq<Exchange>, i: int, j: int) -> bool {
    exists|d: Seq<u8>| #[trigger] asked_for(h, i, j, p.codes.get_hwinfo, 104, d) && d.len() >= 104
}

proof fn lemma_reported(p: Profile, h: Seq<Exchange>, i: int, j: int, d: Seq<u8>)
    requires
        asked_for(h, i, j, p.codes.get_hwinfo, 104, d),
        d.len() >= 104,
    ensures
        reported(p, h, i, j),
{
}

proof fn lemma_probe_reports(p: Profile, h: Seq<Exchange>, i: int)
    ensures
        hwinfo_talk(p, h, i) matches Some((j, Ok(_))) ==> reported(p, h, i, j),
{
    hardware_report_is_the_answer(p, h, i);
    match hwinfo_talk(p, h, i) {
        Some((j, Ok(d))) => {
            lemma_reported(p, h, i, j, d);
        },
        _ => {},
    }
}

/// Whether the components `a` and `b` were sent one after the other, with a pause of thirty
/// milliseconds right behind the first, at `m`, and a report of the device behind that, up to `n`.
pub open spec fn updaters_apart(
    job: Job,
    h: Seq<Exchange>,
    lo: int,
    hi: int,
    a: int,
    b: int,
    m: int,
    n: int,
) -> bool {
    &&& component_handed_over(job, h, lo, m, a)
    &&& h[m] == (Exchange::Pause { millis: 30 })
    &&& reported(job.profile, h, m + 1, n)
    &&& component_handed_over(job, h, n, hi, b)
}

/// Updater components are sent in the order of the image, and between two of them the host waits
/// and asks whether the device is still there.
pub proof fn updaters_are_sent_in_turn(
    job: Job,
    k: int,
    h: Seq<Exchange>,
    s: Point,
    t: Point,
    a: int,
    b: int,
)
    requires
        0 <= s.at,
        0 <= k <= a < b < job.metas.len(),
        kind_of(job.metas[a].name@) == ComponentKind::Updater,
        kind_of(job.metas[b].name@) == ComponentKind::Updater,
        updaters_talk(job, k, h, s) == Some((t, Ok::<(), Seq<char>>(()))),
    ensures
        exists|m: int, n: int| #[trigger] updaters_apart(job, h, s.at, t.at, a, b, m, n),
    decreases job.metas.len() - k,
{
    let meta = job.metas[k];
    if kind_of(meta.name@) != ComponentKind::Updater {
        updaters_are_sent_in_turn(job, k + 1, h, s, t, a, b);
    } else {
        lemma_more_updaters(job.metas, k + 1, b);
        component_is_handed_over(job, meta, false, h, s);
        let (u, _) = component_talk(job, meta, false, h, s)->0;
        lemma_probe(job, h, u);
        let (v, done) = probe_between_talk(job, h, u)->0;
        assert(updaters_talk(job, k + 1, h, v) == Some((t, Ok::<(), Seq<char>>(()))));
        if k < a {
            updaters_are_sent_in_turn(job, k + 1, h, v, t, a, b);
            let (m, n) = choose|m: int, n: int| #[trigger]
                updaters_apart(job, h, v.at, t.at, a, b, m, n);
            lemma_widen(job, h, v.at, m, s.at, m, a);
            assert(updaters_apart(job, h, s.at, t.at, a, b, m, n));
        } else {
            lemma_updaters(job, k + 1, h, v, b);
            assert(h[u.at] == (Exchange::Pause { millis: 30 }) && reported(
                job.profile,
                h,
                u.at + 1,
                v.at,
            )) by {
                reveal(probe_between_talk);
                lemma_probe_reports(job.profile, h, u.at + 1);
            }
            assert(updaters_apart(job, h, s.at, t.at, a, b, u.at, v.at));
        }
    }
}

proof fn lemma_more_updaters(metas: Seq<FwcMeta>, k: int, b: int)
    requires
        0 <= k <= b < metas.len(),
        kind_of(metas[b].name@) == ComponentKind::Updater,
    ensures
        updaters_from(metas, k) > 0,
    decreases b - k,
{
    lemma_updaters_bound(metas, k + 1);
    if k < b {
        lemma_more_updaters(metas, k + 1, b);
    }
}

/// Whether the component `a` was sent before `m` and the component `b` after it.
pub open spec fn sent_around(
    job: Job,
    h: Seq<Exchange>,
    lo: int,
    hi: int,
    a: int,
    b: int,
    m: int,
) -> bool {
    component_handed_over(job, h, lo, m, a) && component_handed_over(job, h, m, hi, b)
}

/// Targets are sent in the order of the image.
pub proof fn targets_are_sent_in_turn(
    job: Job,
    k: int,
    h: Seq<Exchange>,
    s: Point,
    t: Point,
    a: int,
    b: int,
)
    requires
        0 <= s.at,
        0 <= k <= a < b < job.metas.len(),
        is_chosen_target(job.metas[a], job.parts),
        is_chosen_target(job.metas[b], job.parts),
        targets_talk(job, k, h, s) == Some((t, Ok::<(), Seq<char>>(()))),
    ensures
        exists|m: int| #[trigger] sent_around(job, h, s.at, t.at, a, b, m),
    decreases job.metas.len() - k,
{
    let meta = job.metas[k];
    if !is_chosen_target(meta, job.parts) {
        targets_are_sent_in_turn(job, k + 1, h, s, t, a, b);
    } else {
        component_is_handed_over(job, meta, false, h, s);
        let (u, _) = component_talk(job, meta, false, h, s)->0;
        assert(targets_talk(job, k + 1, h, u) == Some((t, Ok::<(), Seq<char>>(()))));
        if k < a {
            targets_are_sent_in_turn(job, k + 1, h, u, t, a, b);
            let m = choose|m: int| #[trigger] sent_around(job, h, u.at, t.at, a, b, m);
            lemma_widen(job, h, u.at, m, s.at, m, a);
            assert(sent_around(job, h, s.at, t.at, a, b, m));
        } else {
            lemma_targets(job, k + 1, h, u, b);
            assert(sent_around(job, h, s.at, t.at, a, b, u.at));
        }
    }
}

/// Whether, between `lo` and `hi`, the data of the component `k` went out and the device answered
/// for it; only one that may vanish may leave that out.
pub open spec fn answered_for(
    job: Job,
    h: Seq<Exchange>,
    lo: int,
    hi: int,
    k: int,
    may_vanish: bool,
) -> bool {
    exists|i: int, j: int, e: int| #[trigger] answered_for_at(job, h, lo, hi, k, may_vanish, i, j, e)
}

/// Whether the data of the component `k` went out from `i` up to `j`, and the answer came from
/// there up to `e`.
pub open spec fn answered_for_at(
    job: Job,
    h: Seq<Exchange>,
    lo: int,
    hi: int,
    k: int,
    may_vanish: bool,
    i: int,
    j: int,
    e: int,
) -> bool {
    &&& lo <= i <= j <= e <= hi
    &&& carried(h, i, j) == data_of(job, job.metas[k])
    &&& data_confirmed(h, j, e, may_vanish)
}

proof fn lemma_answered_wider(
    job: Job,
    h: Seq<Exchange>,
    lo: int,
    hi: int,
    lower: int,
    higher: int,
    k: int,
    may_vanish: bool,
)
    requires
        answered_for(job, h, lo, hi, k, may_vanish),
        lower <= lo,
        hi <= higher,
    ensures
        answered_for(job, h, lower, higher, k, may_vanish),
{
    let (i, j, e) = choose|i: int, j: int, e: int| #[trigger]
        answered_for_at(job, h, lo, hi, k, may_vanish, i, j, e);
    assert(answered_for_at(job, h, lower, higher, k, may_vanish, i, j, e));
}

proof fn lemma_component_answered(
    job: Job,
    k: int,
    may_vanish: bool,
    h: Seq<Exchange>,
    s: Point,
    t: Point,
)
    requires
        0 <= s.at,
        component_talk(job, job.metas[k], may_vanish, h, s) == Some((t, Ok::<(), Seq<char>>(()))),
    ensures
        answered_for(job, h, s.at, t.at, k, may_vanish),
        s.at <= t.at,
{
    components_are_reported(job, job.metas[k], may_vanish, h, s, t);
    let (i, j) = choose|i: int, j: int| #[trigger]
        component_told(job, job.metas[k], h, s, t, i, j) && data_confirmed(h, j, t.at, may_vanish);
    assert(answered_for_at(job, h, s.at, t.at, k, may_vanish, i, j, t.at));
}

/// The device answered for every updater component that was sent; only the last of them may have
/// made it vanish before it could.
pub proof fn updaters_are_answered_for(
    job: Job,
    k: int,
    h: Seq<Exchange>,
    s: Point,
    t: Point,
    wanted: int,
)
    requires
        0 <= s.at,
        0 <= k <= wanted < job.metas.len(),
        kind_of(job.metas[wanted].name@) == ComponentKind::Updater,
        updaters_talk(job, k, h, s) == Some((t, Ok::<(), Seq<char>>(()))),
    ensures
        (exists|j: int|
            wanted < j < job.metas.len() && fronted(
                (#[trigger] job.metas[j]).name@,
                "image.updater."@,
            )) ==> answered_for(job, h, s.at, t.at, wanted, false),
        !(exists|j: int|
            wanted < j < job.metas.len() && fronted(
                (#[trigger] job.metas[j]).name@,
                "image.updater."@,
            )) ==> answered_for(job, h, s.at, t.at, wanted, true),
    decreases job.metas.len() - k,
{
    let meta = job.metas[k];
    if kind_of(meta.name@) != ComponentKind::Updater {
        updaters_are_answered_for(job, k + 1, h, s, t, wanted);
    } else {
        let more = updaters_from(job.metas, k + 1) > 0;
        updaters_are_counted(job.metas, k + 1);
        lemma_updaters_bound(job.metas, k + 1);
        let (u, done) = component_talk(job, meta, !more, h, s)->0;
        assert(done is Ok && done->Ok_0 == ());
        lemma_component_answered(job, k, !more, h, s, u);
        let v = if !more {
            u
        } else {
            let (x, _) = probe_between_talk(job, h, u)->0;
            x
        };
        lemma_probe(job, h, u);
        assert(updaters_talk(job, k + 1, h, v) == Some((t, Ok::<(), Seq<char>>(()))));
        lemma_updaters(job, k + 1, h, v, 0);
        if wanted == k {
            lemma_answered_wider(job, h, s.at, u.at, s.at, t.at, k, !more);
        } else {
            lemma_more_updaters(job.metas, k + 1, wanted);
            updaters_are_answered_for(job, k + 1, h, v, t, wanted);
            let last = !(exists|j: int|
                wanted < j < job.metas.len() && fronted(
                    (#[trigger] job.metas[j]).name@,
                    "image.updater."@,
                ));
            lemma_answered_wider(job, h, v.at, t.at, s.at, t.at, wanted, last);
        }
    }
}

/// The device answered for every target that was sent.
pub proof fn targets_are_answered_for(
    job: Job,
    k: int,
    h: Seq<Exchange>,
    s: Point,
    t: Point,
    wanted: int,
)
    requires
        0 <= s.at,
        0 <= k <= wanted < job.metas.len(),
        is_chosen_target(job.metas[wanted], job.parts),
        targets_talk(job, k, h, s) == Some((t, Ok::<(), Seq<char>>(()))),
    ensures
        answered_for(job, h, s.at, t.at, wanted, false),
    decreases job.metas.len() - k,
{
    let meta = job.metas[k];
    if !is_chosen_target(meta, job.parts) {
        targets_are_answered_for(job, k + 1, h, s, t, wanted);
    } else {
        let (u, done) = component_talk(job, meta, false, h, s)->0;
        assert(done is Ok && done->Ok_0 == ());
        lemma_component_answered(job, k, false, h, s, u);
        assert(targets_talk(job, k + 1, h, u) == Some((t, Ok::<(), Seq<char>>(()))));
        lemma_targets(job, k + 1, h, u, 0);
        if wanted == k {
            lemma_answered_wider(job, h, s.at, u.at, s.at, t.at, k, false);
        } else {
            targets_are_answered_for(job, k + 1, h, u, t, wanted);
            lemma_answered_wider(job, h, u.at, t.at, s.at, t.at, wanted, false);
        }
    }
}

/// The device answered for everything that a burn that succeeded has sent; only the last updater
/// component may have made it vanish before it could.
pub proof fn burned_components_are_answered_for(
    job: Job,
    timeout: u64,
    reset: bool,
    h: Seq<Exchange>,
    s: Point,
    t: Point,
    k: int,
)
    requires
        0 <= s.at,
        burn_talk(job, timeout, reset, h, s) == Some((t, Ok::<(), Seq<char>>(()))),
        is_burned(job, k),
    ensures
        answered_for(job, h, s.at, t.at, k, false) || (fronted(
            job.metas[k].name@,
            "image.updater."@,
        ) && !(exists|j: int|
            k < j < job.metas.len() && fronted((#[trigger] job.metas[j]).name@, "image.updater."@))
            && answered_for(job, h, s.at, t.at, k, true)),
{
    let planned = s.report(BurnEvent::Stage("Build component plan"@));
    let (u, a) = updater_stage(job, timeout, h, planned)->0;
    let (v, b) = mode_stage(job, h, u)->0;
    let (w, c) = target_stage(job, h, v)->0;
    assert(a is Ok && a->Ok_0 == ());
    assert(b is Ok && b->Ok_0 == ());
    assert(c is Ok && c->Ok_0 == ());
    assert(s.at <= u.at) by {
        updaters_are_counted(job.metas, 0);
        lemma_updaters_bound(job.metas, 0);
        if updaters_from(job.metas, 0) > 0 {
            lemma_updater_part(job, timeout, h, planned, u);
        } else {
            reveal(updater_stage);
        }
    }
    lemma_mode_part(job, h, u, v);
    lemma_target_part(job, h, v, w);
    lemma_end_part(job, reset, h, w, t);
    names_tell_the_part(job.metas[k].name@);
    if kind_of(job.metas[k].name@) == ComponentKind::Updater {
        reveal(updater_stage);
        lemma_more_updaters(job.metas, 0, k);
        let sending = planned.report(BurnEvent::Stage("Send updater components"@));
        let (x, d) = updaters_talk(job, 0, h, sending)->0;
        assert(d is Ok && d->Ok_0 == ());
        updaters_are_answered_for(job, 0, h, sending, x, k);
        lemma_return(job, timeout, h, x);
        let last = !(exists|j: int|
            k < j < job.metas.len() && fronted((#[trigger] job.metas[j]).name@, "image.updater."@));
        lemma_answered_wider(job, h, s.at, x.at, s.at, t.at, k, last);
    } else if info_from(job.metas, 0) == Some(k) {
        reveal(mode_stage);
        let choosing = u.report(BurnEvent::Stage("Set full-disk upgrade mode"@));
        let (j, _) = cfg_talk(
            job.profile,
            h,
            choosing.at,
            job.profile.codes.full_disk_upgrade,
        )->0;
        lemma_talks_go_on(job.profile, h, u.at);
        lemma_component_answered(job, k, false, h, choosing.go(j), v);
        lemma_answered_wider(job, h, j, v.at, s.at, t.at, k, false);
    } else {
        reveal(target_stage);
        targets_are_answered_for(job, 0, h, v, w, k);
        lemma_answered_wider(job, h, v.at, w.at, s.at, t.at, k, false);
    }
}

/// Whether, from `lo` up to `hi`, the updater components were sent, up to `x`; then the host
/// waited for the device for `timeout` milliseconds at most and asked whether it is there.
pub open spec fn updater_part(
    job: Job,
    timeout: u64,
    h: Seq<Exchange>,
    lo: int,
    hi: int,
    x: int,
) -> bool {
    &&& lo <= x < hi
    &&& forall|k: int|
        0 <= k < job.metas.len() && fronted((#[trigger] job.metas[k]).name@, "image.updater."@)
            ==> component_handed_over(job, h, lo, x, k)
    &&& h[x] matches Exchange::Reconnect { timeout: waited, .. } && waited == timeout
    &&& reported(job.profile, h, x + 1, hi)
}

/// Whether, from `lo` up to `hi`, the mode that rewrites the whole medium was chosen, up to `x`,
/// at `y`, and the first image description was sent behind that.
pub open spec fn mode_part(job: Job, h: Seq<Exchange>, lo: int, hi: int, x: int, y: int) -> bool {
    &&& lo <= x <= hi
    &&& mode_chosen_at(job.profile, h, lo, x, job.profile.codes.full_disk_upgrade, y)
    &&& match info_from(job.metas, 0) {
        Some(k) => component_handed_over(job, h, x, hi, k),
        None => x == hi,
    }
}

/// Whether every target that was asked for was sent from `lo` up to `hi`, and there was one.
pub open spec fn target_part(job: Job, h: Seq<Exchange>, lo: int, hi: int) -> bool {
    &&& lo <= hi
    &&& forall|k: int|
        0 <= k < job.metas.len() && fronted((#[trigger] job.metas[k]).name@, "image.target."@)
            && asked_to_write(job.metas[k], job.parts) ==> component_handed_over(job, h, lo, hi, k)
    &&& exists|k: int|
        0 <= k < job.metas.len() && fronted((#[trigger] job.metas[k]).name@, "image.target."@)
            && asked_to_write(job.metas[k], job.parts)
}

/// Whether the end of the upgrade was told from `lo` up to `x`, and, where that was wanted, the
/// device was told to reset from there up to `hi`; a reset that went through was told as such.
pub open spec fn end_part(
    job: Job,
    reset: bool,
    h: Seq<Exchange>,
    lo: int,
    hi: int,
    x: int,
) -> bool {
    &&& lo <= x <= hi
    &&& exists|b: Seq<u8>|
        is_end_of_upgrade(b) && #[trigger] ordered(
            h,
            lo,
            x,
            job.profile.codes.set_upg_end,
            b,
            CswPolicy::AllowMissing,
        )
    &&& if reset {
        shell_talk(job.profile, h, x, "reset"@) matches Some((j, r)) && j == hi && (r is Ok
            ==> exists|b: Seq<u8>|
            is_shell_command(b, "reset"@) && #[trigger] ordered(
                h,
                x,
                hi,
                job.profile.codes.run_shell_str,
                b,
                CswPolicy::Required,
            ))
    } else {
        x == hi
    }
}

proof fn lemma_updater_part(job: Job, timeout: u64, h: Seq<Exchange>, s: Point, t: Point)
    requires
        0 <= s.at,
        updaters_from(job.metas, 0) > 0,
        updater_stage(job, timeout, h, s) == Some((t, Ok::<(), Seq<char>>(()))),
    ensures
        exists|x: int| #[trigger] updater_part(job, timeout, h, s.at, t.at, x),
{
    reveal(updater_stage);
    let sending = s.report(BurnEvent::Stage("Send updater components"@));
    let (u, _) = updaters_talk(job, 0, h, sending)->0;
    lemma_updaters(job, 0, h, sending, 0);
    assert forall|k: int|
        0 <= k < job.metas.len() && fronted(
            (#[trigger] job.metas[k]).name@,
            "image.updater."@,
        ) implies component_handed_over(job, h, s.at, u.at, k) by {
        names_tell_the_part(job.metas[k].name@);
        lemma_updaters(job, 0, h, sending, k);
    }
    assert(h[u.at] matches Exchange::Reconnect { timeout: waited, .. } && waited == timeout
        && reported(job.profile, h, u.at + 1, t.at) && u.at < t.at) by {
        reveal(return_talk);
        lemma_probe_reports(job.profile, h, u.at + 1);
        lemma_talks_go_on(job.profile, h, u.at + 1);
    }
    assert(updater_part(job, timeout, h, s.at, t.at, u.at));
}

proof fn lemma_mode_part(job: Job, h: Seq<Exchange>, s: Point, t: Point)
    requires
        0 <= s.at,
        mode_stage(job, h, s) == Some((t, Ok::<(), Seq<char>>(()))),
    ensures
        exists|x: int, y: int| #[trigger] mode_part(job, h, s.at, t.at, x, y),
{
    reveal(mode_stage);
    let mode = job.profile.codes.full_disk_upgrade;
    lemma_talks_go_on(job.profile, h, s.at);
    let choosing = s.report(BurnEvent::Stage("Set full-disk upgrade mode"@));
    let (x, _) = cfg_talk(job.profile, h, s.at, mode)->0;
    mode_is_chosen(job.profile, h, s.at, mode);
    let y = choose|y: int| #[trigger] mode_chosen_at(job.profile, h, s.at, x, mode, y);
    match info_from(job.metas, 0) {
        Some(k) => {
            component_is_handed_over(job, job.metas[k], false, h, choosing.go(x));
        },
        None => {},
    }
    assert(mode_part(job, h, s.at, t.at, x, y));
}

proof fn lemma_target_part(job: Job, h: Seq<Exchange>, s: Point, t: Point)
    requires
        0 <= s.at,
        target_stage(job, h, s) == Some((t, Ok::<(), Seq<char>>(()))),
    ensures
        target_part(job, h, s.at, t.at),
{
    reveal(target_stage);
    lemma_targets(job, 0, h, s, 0);
    assert forall|k: int|
        0 <= k < job.metas.len() && fronted((#[trigger] job.metas[k]).name@, "image.target."@)
            && asked_to_write(job.metas[k], job.parts) implies component_handed_over(
        job,
        h,
        s.at,
        t.at,
        k,
    ) by {
        targets_are_chosen(job.metas[k], job.parts);
        lemma_targets(job, 0, h, s, k);
    }
    let k = choose|k: int|
        0 <= k < job.metas.len() && is_chosen_target(#[trigger] job.metas[k], job.parts);
    targets_are_chosen(job.metas[k], job.parts);
    assert(fronted(job.metas[k].name@, "image.target."@));
}

proof fn lemma_end_part(job: Job, reset: bool, h: Seq<Exchange>, s: Point, t: Point)
    requires
        0 <= s.at,
        end_stage(job, reset, h, s) == Some((t, Ok::<(), Seq<char>>(()))),
    ensures
        exists|x: int| #[trigger] end_part(job, reset, h, s.at, t.at, x),
{
    reveal(end_stage);
    lemma_talks_go_on(job.profile, h, s.at);
    end_is_told(job.profile, h, s.at);
    let (x, _) = end_talk(job.profile, h, s.at)->0;
    lemma_talks_go_on(job.profile, h, x);
    reveal_strlit("reset");
    lemma_reset_is_short();
    shell_commands_are_sent_as_text(job.profile, h, x, "reset"@);
    assert(end_part(job, reset, h, s.at, t.at, x));
}

proof fn lemma_reset_is_short()
    ensures
        encode_utf8("reset"@) == seq![0x72u8, 0x65u8, 0x73u8, 0x65u8, 0x74u8],
{
    reveal_strlit("reset");
    assert(vstd::utf8::is_ascii_chars("reset"@));
    vstd::utf8::is_ascii_chars_encode_utf8("reset"@);
    assert(encode_utf8("reset"@) =~= seq![0x72u8, 0x65u8, 0x73u8, 0x65u8, 0x74u8]);
}

/// A burn that succeeds kept its order: the updater components first, where there are any, then
/// the wait for the device and the question whether it is there; then the mode and the first
/// image description; then every target that was asked for; then the end, and the reset where one
/// was wanted.
pub proof fn burn_keeps_its_order(
    job: Job,
    timeout: u64,
    reset: bool,
    h: Seq<Exchange>,
    s: Point,
    t: Point,
)
    requires
        0 <= s.at,
        burn_talk(job, timeout, reset, h, s) == Some((t, Ok::<(), Seq<char>>(()))),
    ensures
        exists|u: int, v: int, w: int| #[trigger]
            burn_in_order(job, timeout, reset, h, s.at, t.at, u, v, w),
{
    let planned = s.report(BurnEvent::Stage("Build component plan"@));
    let (u, a) = updater_stage(job, timeout, h, planned)->0;
    let (v, b) = mode_stage(job, h, u)->0;
    let (w, c) = target_stage(job, h, v)->0;
    assert(a is Ok && a->Ok_0 == ());
    assert(b is Ok && b->Ok_0 == ());
    assert(c is Ok && c->Ok_0 == ());
    assert(s.at <= u.at && updaters_part(job, timeout, h, s.at, u.at)) by {
        updaters_are_counted(job.metas, 0);
        lemma_updaters_bound(job.metas, 0);
        if updaters_from(job.metas, 0) > 0 {
            lemma_updater_part(job, timeout, h, planned, u);
        } else {
            reveal(updater_stage);
        }
    }
    lemma_mode_part(job, h, u, v);
    let (x, y) = choose|x: int, y: int| #[trigger] mode_part(job, h, u.at, v.at, x, y);
    lemma_target_part(job, h, v, w);
    lemma_end_part(job, reset, h, w, t);
    assert(burn_in_order(job, timeout, reset, h, s.at, t.at, u.at, v.at, w.at));
}

/// Whether the updater part stands from `lo` up to `hi`; an image without updaters has none.
pub open spec fn updaters_part(
    job: Job,
    timeout: u64,
    h: Seq<Exchange>,
    lo: int,
    hi: int,
) -> bool {
    if exists|k: int|
        0 <= k < job.metas.len() && fronted((#[trigger] job.metas[k]).name@, "image.updater."@) {
        exists|x: int| #[trigger] updater_part(job, timeout, h, lo, hi, x)
    } else {
        lo == hi
    }
}

/// Whether the parts of a burn stand one behind the other, parted at `u`, `v` and `w`.
pub open spec fn burn_in_order(
    job: Job,
    timeout: u64,
    reset: bool,
    h: Seq<Exchange>,
    lo: int,
    hi: int,
    u: int,
    v: int,
    w: int,
) -> bool {
    &&& updaters_part(job, timeout, h, lo, u)
    &&& exists|x: int, y: int| #[trigger] mode_part(job, h, u, v, x, y)
    &&& target_part(job, h, v, w)
    &&& exists|x: int| #[trigger] end_part(job, reset, h, w, hi, x)
}

// ---------------------------------------------------------------------------------------
// The stages that are told
// ---------------------------------------------------------------------------------------
/// The texts of the stages among some reports.
pub open spec fn stages(events: Seq<Event>) -> Seq<Seq<char>>
    decreases events.len(),
{
    if events.len() == 0 {
        Seq::empty()
    } else {
        let before = stages(events.drop_last());
        match events.last() {
            BurnEvent::Stage(text) => before.push(text),
            _ => before,
        }
    }
}

proof fn lemma_stages(s: Point, e: Event)
    ensures
        stages(s.report(e).events) == (match e {
            BurnEvent::Stage(text) => stages(s.events).push(text),
            _ => stages(s.events),
        }),
{
    assert(s.report(e).events.drop_last() =~= s.events);
}

proof fn lemma_data_stages(
    job: Job,
    meta: FwcMeta,
    piece: int,
    sent: int,
    h: Seq<Exchange>,
    s: Point,
)
    ensures
        data_talk(job, meta, piece, sent, h, s) matches Some((t, _)) ==> stages(t.events)
            == stages(s.events),
    decreases meta.size - sent,
{
    if sent < meta.size && piece >= 1 {
        let next = if sent + piece < meta.size {
            sent + piece
        } else {
            meta.size as int
        };
        let u = Point { at: s.at + 1, events: s.events, sent: s.sent + (next - sent) };
        let one = BurnEvent::ComponentProgress {
            name: meta.name@,
            sent: next as usize,
            total: meta.size as usize,
        };
        let all = BurnEvent::OverallProgress {
            sent: u.sent as usize,
            total: job.total() as usize,
        };
        lemma_stages(u, one);
        lemma_stages(u.report(one), all);
        lemma_data_stages(job, meta, piece, next, h, u.report(one).report(all));
    }
}

proof fn lemma_component_stages(
    job: Job,
    meta: FwcMeta,
    may_vanish: bool,
    h: Seq<Exchange>,
    s: Point,
)
    ensures
        component_talk(job, meta, may_vanish, h, s) matches Some((t, _)) ==> stages(t.events)
            == stages(s.events),
{
    reveal(component_talk);
    let begun = BurnEvent::ComponentStarted {
        name: meta.name@,
        partition: meta.partition@,
        size: meta.size as usize,
    };
    let started = s.report(begun);
    lemma_stages(s, begun);
    match opening_talk(job, meta, h, started.at) {
        Some((j, Ok(piece))) => {
            lemma_data_stages(job, meta, piece, 0, h, started.go(j));
            match data_talk(job, meta, piece, 0, h, started.go(j)) {
                Some((u, Ok(()))) => {
                    let crc = crc32_of(
                        job.image.subrange(meta.offset as int, meta.offset + meta.size),
                    );
                    let warning = BurnEvent::Log(
                        crate::device::burn::crc_warning(meta.name@, meta.crc, crc),
                    );
                    let end = BurnEvent::ComponentFinished { name: meta.name@ };
                    lemma_stages(u, warning);
                    lemma_stages(u.report(warning), end);
                    lemma_stages(u, end);
                },
                _ => {},
            }
        },
        _ => {},
    }
}

/// A text as often as `n` says.
pub open spec fn repeated(text: Seq<char>, n: int) -> Seq<Seq<char>> {
    Seq::new(
        if n > 0 {
            n as nat
        } else {
            0
        },
        |i: int| text,
    )
}

proof fn lemma_updater_stages(job: Job, k: int, h: Seq<Exchange>, s: Point)
    requires
        0 <= k <= job.metas.len(),
    ensures
        updaters_talk(job, k, h, s) matches Some((t, Ok(()))) ==> stages(t.events) == stages(
            s.events,
        ) + repeated(
            "Probe bootloader between updater components"@,
            updaters_from(job.metas, k) - 1,
        ),
    decreases job.metas.len() - k,
{
    let text = "Probe bootloader between updater components"@;
    if k >= job.metas.len() {
        assert(repeated(text, -1) =~= Seq::empty());
        assert(stages(s.events) + Seq::<Seq<char>>::empty() =~= stages(s.events));
    } else if kind_of(job.metas[k].name@) != ComponentKind::Updater {
        lemma_updater_stages(job, k + 1, h, s);
    } else {
        let left = updaters_from(job.metas, k + 1);
        lemma_updaters_bound(job.metas, k + 1);
        lemma_component_stages(job, job.metas[k], !(left > 0), h, s);
        match component_talk(job, job.metas[k], !(left > 0), h, s) {
            Some((t, Ok(()))) => {
                if left == 0 {
                    lemma_updater_stages(job, k + 1, h, t);
                    assert(repeated(text, -1) =~= repeated(text, 0));
                } else {
                    reveal(probe_between_talk);
                    lemma_stages(t.go(t.at + 1), BurnEvent::Stage(text));
                    match probe_between_talk(job, h, t) {
                        Some((u, Ok(()))) => {
                            lemma_updater_stages(job, k + 1, h, u);
                            assert(stages(t.events).push(text) + repeated(text, left - 1)
                                =~= stages(t.events) + repeated(text, left));
                        },
                        _ => {},
                    }
                }
            },
            _ => {},
        }
    }
}

proof fn lemma_target_stages(job: Job, k: int, h: Seq<Exchange>, s: Point)
    requires
        0 <= k <= job.metas.len(),
    ensures
        targets_talk(job, k, h, s) matches Some((t, _)) ==> stages(t.events) == stages(s.events),
    decreases job.metas.len() - k,
{
    if k < job.metas.len() {
        if !is_chosen_target(job.metas[k], job.parts) {
            lemma_target_stages(job, k + 1, h, s);
        } else {
            lemma_component_stages(job, job.metas[k], false, h, s);
            match component_talk(job, job.metas[k], false, h, s) {
                Some((t, Ok(()))) => {
                    lemma_target_stages(job, k + 1, h, t);
                },
                _ => {},
            }
        }
    }
}

/// The stages of the updater part of a burn with `n` updater components.
pub open spec fn updater_stages(n: int) -> Seq<Seq<char>> {
    if n == 0 {
        Seq::empty()
    } else {
        seq!["Send updater components"@] + repeated(
            "Probe bootloader between updater components"@,
            n - 1,
        ) + seq!["Wait for bootloader reconnect"@, "Probe bootloader after reconnect"@]
    }
}

proof fn lemma_updater_stage_stages(job: Job, timeout: u64, h: Seq<Exchange>, s: Point, t: Point)
    requires
        updater_stage(job, timeout, h, s) == Some((t, Ok::<(), Seq<char>>(()))),
    ensures
        stages(t.events) == stages(s.events) + updater_stages(updaters_from(job.metas, 0)),
{
    reveal(updater_stage);
    let n = updaters_from(job.metas, 0);
    if n == 0 {
        assert(stages(s.events) + updater_stages(n) =~= stages(s.events));
    } else {
        let stage = BurnEvent::Stage("Send updater components"@);
        let sending = s.report(stage);
        lemma_stages(s, stage);
        lemma_updater_stages(job, 0, h, sending);
        let (u, _) = updaters_talk(job, 0, h, sending)->0;
        reveal(return_talk);
        let wait = BurnEvent::Stage("Wait for bootloader reconnect"@);
        let probe = BurnEvent::Stage("Probe bootloader after reconnect"@);
        lemma_stages(u, wait);
        let waiting = u.report(wait).go(u.at + 1);
        lemma_stages(waiting, probe);
        match h[u.at] {
            Exchange::Reconnect { outcome: Err(e), .. } => {
                let log = BurnEvent::Log("Warning: updater reconnect was not observed: "@ + e);
                lemma_stages(waiting, log);
                lemma_stages(waiting.report(log), probe);
            },
            _ => {},
        }
        assert(stages(t.events) == stages(u.events).push("Wait for bootloader reconnect"@).push(
            "Probe bootloader after reconnect"@,
        ));
        assert(stages(t.events) =~= stages(s.events) + updater_stages(n));
    }
}

/// The stages that a burn that succeeds has told, in their order, and no others.
pub proof fn stages_are_told_in_order(
    job: Job,
    timeout: u64,
    reset: bool,
    h: Seq<Exchange>,
    s: Point,
    t: Point,
)
    requires
        burn_talk(job, timeout, reset, h, s) == Some((t, Ok::<(), Seq<char>>(()))),
    ensures
        stages(t.events) == stages(s.events) + seq!["Build component plan"@] + updater_stages(
            updaters_from(job.metas, 0),
        ) + seq!["Set full-disk upgrade mode"@, "End upgrade"@] + (if reset {
            seq!["Reset device"@]
        } else {
            Seq::empty()
        }),
{
    let plan = BurnEvent::Stage("Build component plan"@);
    let planned = s.report(plan);
    lemma_stages(s, plan);
    let (u, a) = updater_stage(job, timeout, h, planned)->0;
    assert(a is Ok && a->Ok_0 == ());
    lemma_updater_stage_stages(job, timeout, h, planned, u);
    let (v, b) = mode_stage(job, h, u)->0;
    assert(b is Ok && b->Ok_0 == ());
    lemma_mode_stages(job, h, u, v);
    let (w, c) = target_stage(job, h, v)->0;
    assert(stages(w.events) == stages(v.events)) by {
        reveal(target_stage);
        lemma_target_stages(job, 0, h, v);
    }
    lemma_end_stages(job, reset, h, w, t);
    assert(stages(t.events) =~= stages(s.events) + seq!["Build component plan"@]
        + updater_stages(updaters_from(job.metas, 0)) + seq![
        "Set full-disk upgrade mode"@,
        "End upgrade"@,
    ] + (if reset {
        seq!["Reset device"@]
    } else {
        Seq::empty()
    }));
}

proof fn lemma_mode_stages(job: Job, h: Seq<Exchange>, s: Point, t: Point)
    requires
        mode_stage(job, h, s) == Some((t, Ok::<(), Seq<char>>(()))),
    ensures
        stages(t.events) == stages(s.events).push("Set full-disk upgrade mode"@),
{
    reveal(mode_stage);
    let mode = BurnEvent::Stage("Set full-disk upgrade mode"@);
    let choosing = s.report(mode);
    lemma_stages(s, mode);
    let (j, _) = cfg_talk(
        job.profile,
        h,
        choosing.at,
        job.profile.codes.full_disk_upgrade,
    )->0;
    match info_from(job.metas, 0) {
        Some(k) => {
            lemma_component_stages(job, job.metas[k], false, h, choosing.go(j));
        },
        None => {
            lemma_stages(
                choosing.go(j),
                BurnEvent::Log("Warning: no image.info component found"@),
            );
        },
    }
}

proof fn lemma_end_stages(job: Job, reset: bool, h: Seq<Exchange>, s: Point, t: Point)
    requires
        end_stage(job, reset, h, s) == Some((t, Ok::<(), Seq<char>>(()))),
    ensures
        stages(t.events) == stages(s.events).push("End upgrade"@) + (if reset {
            seq!["Reset device"@]
        } else {
            Seq::empty()
        }),
{
    reveal(end_stage);
    let end = BurnEvent::Stage("End upgrade"@);
    let again = BurnEvent::Stage("Reset device"@);
    let ending = s.report(end);
    lemma_stages(s, end);
    let (j, _) = end_talk(job.profile, h, ending.at)->0;
    let resetting = ending.go(j).report(again);
    lemma_stages(ending.go(j), again);
    lemma_stages(ending.go(j), BurnEvent::Finished);
    lemma_stages(resetting.go(t.at), BurnEvent::Finished);
    if reset {
        match shell_talk(job.profile, h, j, "reset"@) {
            Some((k, Err(e))) => {
                let log = BurnEvent::Log("Warning: reset failed: "@ + e);
                lemma_stages(resetting.go(k), log);
                lemma_stages(resetting.go(k).report(log), BurnEvent::Finished);
            },
            _ => {},
        }
        assert(stages(s.events).push("End upgrade"@).push("Reset device"@) =~= stages(
            s.events,
        ).push("End upgrade"@) + seq!["Reset device"@]);
    } else {
        assert(stages(s.events).push("End upgrade"@) + Seq::<Seq<char>>::empty() =~= stages(
            s.events,
        ).push("End upgrade"@));
    }
}

// ---------------------------------------------------------------------------------------
// Warnings and failures
// ---------------------------------------------------------------------------------------
/// What the progress is measured by: the sizes of all components but the targets that were not
/// asked for.
pub proof fn total_is_the_sum_of_the_sizes(metas: Seq<FwcMeta>, parts: Seq<Seq<char>>, k: int)
    requires
        0 <= k < metas.len(),
    ensures
        total_bytes(metas, parts, metas.len() as int) == 0,
        !fronted(metas[k].name@, "image.target."@) || asked_to_write(metas[k], parts)
            ==> total_bytes(metas, parts, k) == metas[k].size + total_bytes(metas, parts, k + 1),
        fronted(metas[k].name@, "image.target."@) && !asked_to_write(metas[k], parts)
            ==> total_bytes(metas, parts, k) == total_bytes(metas, parts, k + 1),
{
    names_tell_the_part(metas[k].name@);
    targets_are_chosen(metas[k], parts);
}

/// A component whose data does not lie in the image is refused with where it should lie.
pub proof fn bad_ranges_are_explained(
    job: Job,
    meta: FwcMeta,
    may_vanish: bool,
    h: Seq<Exchange>,
    s: Point,
)
    requires
        meta.offset + meta.size > job.image.len(),
        meta.offset + meta.size <= usize::MAX,
    ensures
        component_talk(job, meta, may_vanish, h, s) == Some(
            (
                s,
                Err::<(), Seq<char>>(
                    meta.name@ + " image range out of bounds: offset=0x"@ + hex(meta.offset as nat)
                        + ", size="@ + dec(meta.size as nat) + ", image_len="@ + dec(
                        job.image.len(),
                    ),
                ),
            ),
        ),
{
    reveal(component_talk);
}

/// What follows the updater components: the wait for the device is told, that it was not seen to
/// come back is no more than a warning, and a device that then does not report on itself makes the
/// burn fail.
pub proof fn return_is_told(
    job: Job,
    timeout: u64,
    h: Seq<Exchange>,
    s: Point,
    outcome: Result<(), Seq<char>>,
)
    requires
        0 <= s.at < h.len(),
        h[s.at] == (Exchange::Reconnect { timeout, outcome }),
    ensures
        return_talk(job, timeout, h, s) matches Some((t, r)) ==> {
            let told = s.events.push(BurnEvent::Stage("Wait for bootloader reconnect"@));
            let warned = match outcome {
                Ok(_) => told,
                Err(e) => told.push(
                    BurnEvent::Log("Warning: updater reconnect was not observed: "@ + e),
                ),
            };
            &&& t.events == warned.push(BurnEvent::Stage("Probe bootloader after reconnect"@))
            &&& t.sent == s.sent
            &&& hwinfo_talk(job.profile, h, s.at + 1) matches Some((j, probed)) && j == t.at && (
            match probed {
                Ok(_) => r is Ok,
                Err(e) => r == Err::<(), Seq<char>>(
                    "Bootloader probe after reconnect failed: "@ + e,
                ),
            })
        },
{
    reveal(return_talk);
}

/// What happens between two updater components: thirty milliseconds pass, the probe is told, and
/// a device that does not report on itself makes the burn fail.
pub proof fn probes_between_updaters_are_told(job: Job, h: Seq<Exchange>, s: Point)
    ensures
        probe_between_talk(job, h, s) matches Some((t, r)) ==> {
            &&& 0 <= s.at < h.len() && h[s.at] == (Exchange::Pause { millis: 30 })
            &&& t.events == s.events.push(
                BurnEvent::Stage("Probe bootloader between updater components"@),
            )
            &&& t.sent == s.sent
            &&& hwinfo_talk(job.profile, h, s.at + 1) matches Some((j, probed)) && j == t.at && (
            match probed {
                Ok(_) => r is Ok,
                Err(e) => r == Err::<(), Seq<char>>(
                    "Bootloader probe between updater components failed: "@ + e,
                ),
            })
        },
{
    reveal(probe_between_talk);
}

/// An image without a description is burned all the same, with a warning; a mode that the device
/// refuses, or a description that cannot be sent, makes the burn fail with that reason.
pub proof fn missing_description_is_told(job: Job, h: Seq<Exchange>, s: Point)
    ensures
        mode_stage(job, h, s) matches Some((t, r)) ==> {
            let told = s.events.push(BurnEvent::Stage("Set full-disk upgrade mode"@));
            cfg_talk(job.profile, h, s.at, job.profile.codes.full_disk_upgrade) matches Some(
                (j, chosen),
            ) && match chosen {
                Err(e) => r == Err::<(), Seq<char>>(e) && t.at == j && t.events == told,
                Ok(_) => match info_from(job.metas, 0) {
                    None => r is Ok && t.at == j && t.sent == s.sent && t.events == told.push(
                        BurnEvent::Log("Warning: no image.info component found"@),
                    ),
                    Some(k) => component_talk(
                        job,
                        job.metas[k],
                        false,
                        h,
                        Point { at: j, events: told, sent: s.sent },
                    ) == Some((t, r)),
                },
            }
        },
{
    reveal(mode_stage);
}

/// A burn ends once the end was told; a reset that was wanted and failed is no more than a
/// warning. An end that the device refuses makes the burn fail with that reason.
pub proof fn end_of_the_burn_is_told(job: Job, reset: bool, h: Seq<Exchange>, s: Point)
    ensures
        end_stage(job, reset, h, s) matches Some((t, r)) ==> {
            let told = s.events.push(BurnEvent::Stage("End upgrade"@));
            t.sent == s.sent && (end_talk(job.profile, h, s.at) matches Some((j, ended))
                && match ended {
                Err(e) => r == Err::<(), Seq<char>>(e) && t.at == j && t.events == told,
                Ok(_) => r is Ok && if !reset {
                    t.at == j && t.events == told.push(BurnEvent::Finished)
                } else {
                    let resetting = told.push(BurnEvent::Stage("Reset device"@));
                    shell_talk(job.profile, h, j, "reset"@) matches Some((k, done)) && t.at == k
                        && match done {
                        Ok(_) => t.events == resetting.push(BurnEvent::Finished),
                        Err(e) => t.events == resetting.push(
                            BurnEvent::Log("Warning: reset failed: "@ + e),
                        ).push(BurnEvent::Finished),
                    }
                },
            })
        },
{
    reveal(end_stage);
}

/// A burn for which nothing was chosen says so, once updaters, mode and description are through.
pub proof fn nothing_chosen_is_told(job: Job, h: Seq<Exchange>, s: Point)
    requires
        forall|k: int|
            0 <= k < job.metas.len() && fronted((#[trigger] job.metas[k]).name@, "image.target."@)
                ==> !asked_to_write(job.metas[k], job.parts),
    ensures
        target_stage(job, h, s) == Some(
            (s, Err::<(), Seq<char>>("No selected target components to burn"@)),
        ),
{
    reveal(target_stage);
    if any_target(job.metas, job.parts) {
        let k = choose|k: int|
            0 <= k < job.metas.len() && is_chosen_target(#[trigger] job.metas[k], job.parts);
        targets_are_chosen(job.metas[k], job.parts);
    }
}

/// A burn fails where one of its parts does, at that very point, with that part's reason.
pub proof fn burn_stops_where_a_part_fails(
    job: Job,
    timeout: u64,
    reset: bool,
    h: Seq<Exchange>,
    s: Point,
    u: Point,
    v: Point,
    w: Point,
    why: Seq<char>,
)
    ensures
        ({
            let planned = Point {
                events: s.events.push(BurnEvent::Stage("Build component plan"@)),
                ..s
            };
            let ok = Ok::<(), Seq<char>>(());
            let failed = Err::<(), Seq<char>>(why);
            let burn = burn_talk(job, timeout, reset, h, s);
            let first = updater_stage(job, timeout, h, planned);
            &&& first == Some((u, failed)) ==> burn == Some((u, failed))
            &&& first == Some((u, ok)) && mode_stage(job, h, u) == Some((v, failed)) ==> burn
                == Some((v, failed))
            &&& first == Some((u, ok)) && mode_stage(job, h, u) == Some((v, ok)) && target_stage(
                job,
                h,
                v,
            ) == Some((w, failed)) ==> burn == Some((w, failed))
            &&& first == Some((u, ok)) && mode_stage(job, h, u) == Some((v, ok)) && target_stage(
                job,
                h,
                v,
            ) == Some((w, ok)) ==> burn == end_stage(job, reset, h, w)
        }),
{
}

/// A component that cannot be sent ends the updater part, or the targets, with its reason.
pub proof fn failed_components_end_their_part(
    job: Job,
    k: int,
    h: Seq<Exchange>,
    s: Point,
    t: Point,
    why: Seq<char>,
)
    requires
        0 <= k < job.metas.len(),
    ensures
        fronted(job.metas[k].name@, "image.target."@) && asked_to_write(job.metas[k], job.parts)
            && component_talk(job, job.metas[k], false, h, s) == Some(
            (t, Err::<(), Seq<char>>(why)),
        ) ==> targets_talk(job, k, h, s) == Some((t, Err::<(), Seq<char>>(why))),
        fronted(job.metas[k].name@, "image.updater."@) && (exists|j: int|
            k < j < job.metas.len() && fronted(
                (#[trigger] job.metas[j]).name@,
                "image.updater."@,
            )) && component_talk(job, job.metas[k], false, h, s) == Some(
            (t, Err::<(), Seq<char>>(why)),
        ) ==> updaters_talk(job, k, h, s) == Some((t, Err::<(), Seq<char>>(why))),
        fronted(job.metas[k].name@, "image.updater."@) && !(exists|j: int|
            k < j < job.metas.len() && fronted(
                (#[trigger] job.metas[j]).name@,
                "image.updater."@,
            )) && component_talk(job, job.metas[k], true, h, s) == Some(
            (t, Err::<(), Seq<char>>(why)),
        ) ==> updaters_talk(job, k, h, s) == Some((t, Err::<(), Seq<char>>(why))),
{
    names_tell_the_part(job.metas[k].name@);
    targets_are_chosen(job.metas[k], job.parts);
    updaters_are_counted(job.metas, k + 1);
    lemma_updaters_bound(job.metas, k + 1);
}

/// The plan of a burn gives every component, in the order of the image, the part that its name
/// tells, and has all take part but the targets that were not asked for.
pub proof fn plans_follow_the_names(
    plan: Seq<FirmwareComponent<'_>>,
    metas: Seq<FwcMeta>,
    parts: Seq<Seq<char>>,
    i: int,
)
    requires
        plan_of(plan, metas, parts),
        0 <= i < plan.len(),
    ensures
        plan.len() == metas.len(),
        *plan[i].meta == metas[i],
        plan[i].kind == ComponentKind::Updater <==> fronted(metas[i].name@, "image.updater."@),
        plan[i].kind == ComponentKind::ImageInfo <==> metas[i].name@ == "image.info"@,
        plan[i].kind == ComponentKind::Target <==> fronted(metas[i].name@, "image.target."@),
        plan[i].selected <==> !fronted(metas[i].name@, "image.target."@) || asked_to_write(
            metas[i],
            parts,
        ),
{
    names_tell_the_part(metas[i].name@);
    targets_are_chosen(metas[i], parts);
}

} // verus!
