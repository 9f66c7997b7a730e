//! What a burn says depends on the answers alone.
use vstd::prelude::*;

use crate::codec::{le32, zeros};
use crate::device::burn::{
    burn_talk, burned, component_end, component_talk, crc32_of, crc_warning, data_talk, end_stage,
    job_of, mode_stage, opening_talk, plainly_burned, probe_between_talk, return_talk,
    target_stage, targets_talk, updater_stage, updaters_talk, Burned, Job, Point,
    UPDATER_PROBE_DELAY,
};
use crate::device::command::UpgDevice;
use crate::device::plan::{
    info_from, is_chosen_target, kind_of, updaters_from, usual_parts, BurnEvent, ComponentKind,
    Event,
};
use crate::device::talk::{
    announced, block_size_talk, cfg_bytes, cfg_talk, chunk_talk, end_talk, header_talk,
    header_worth_repeating, hwinfo_talk, meta_talk, order_talk, query_talk, response_talk,
    shell_bytes, shell_talk, silent, sized_order_talk, write_talk, Profile, Talk, DRAIN_BYTES,
    DRAIN_MILLIS, HEADER_RECONNECT_MILLIS,
};
use crate::protocol::cbw_csw::{cmd_bytes, HWINFO_LEN, RESP_MIN_HDR_LEN};
use crate::protocol::commands::FwcMeta;
use crate::transport::{
    drained, extends, paused, reconnected, was_read, wrote, CswPolicy, Exchange, UpgTransport,
};

verus! {

// ---------------------------------------------------------------------------------------
// Two conversations side by side
// ---------------------------------------------------------------------------------------
/// Whether two exchanges make the same request.
pub open spec fn same_request(a: Exchange, b: Exchange) -> bool {
    match (a, b) {
        (
            Exchange::Write { payload: p, policy: q, .. },
            Exchange::Write { payload: r, policy: s, .. },
        ) => p == r && q == s,
        (
            Exchange::Read { len: m, policy: q, .. },
            Exchange::Read { len: n, policy: s, .. },
        ) => m == n && q == s,
        (Exchange::Reconnect { timeout: m, .. }, Exchange::Reconnect { timeout: n, .. }) => m == n,
        (
            Exchange::Drain { timeout: m, max_bytes: x, .. },
            Exchange::Drain { timeout: n, max_bytes: y, .. },
        ) => m == n && x == y,
        (Exchange::Baudrate { baudrate: m, .. }, Exchange::Baudrate { baudrate: n, .. }) => m == n,
        (Exchange::Pause { millis: m }, Exchange::Pause { millis: n }) => m == n,
        _ => false,
    }
}

/// Whether the `n` exchanges of `h` from `i` on are those of `g` from `j` on.
pub open spec fn same_exchanges(
    h: Seq<Exchange>,
    i: int,
    g: Seq<Exchange>,
    j: int,
    n: int,
) -> bool {
    forall|m: int| #![trigger h[i + m]] 0 <= m < n ==> h[i + m] == g[j + m]
}

/// Whether two transports answer alike, one from `i` on in its history `h`, the other from `j`
/// on in `g`: after the same exchanges, the same request gets the same answer.
pub open spec fn answer_alike(h: Seq<Exchange>, i: int, g: Seq<Exchange>, j: int) -> bool {
    forall|n: int| #![trigger h[i + n]]
        0 <= n && i + n < h.len() && j + n < g.len() && same_exchanges(h, i, g, j, n)
            && same_request(h[i + n], g[j + n]) ==> h[i + n] == g[j + n]
}

/// Two conversations side by side: where each begins, and what was reported before.
pub struct Sides {
    pub h: Seq<Exchange>,
    pub i: int,
    pub g: Seq<Exchange>,
    pub j: int,
    pub heard_h: Seq<Event>,
    pub heard_g: Seq<Event>,
}

impl Sides {
    /// Whether the conversations can be told apart only by what is asked.
    #[verifier::opaque]
    pub open spec fn alike(self) -> bool {
        &&& self.i >= 0
        &&& self.j >= 0
        &&& answer_alike(self.h, self.i, self.g, self.j)
    }

    /// Whether the conversations are the same up to `x` and `y`.
    #[verifier::opaque]
    pub open spec fn level(self, x: int, y: int) -> bool {
        &&& self.i <= x <= self.h.len()
        &&& self.j <= y <= self.g.len()
        &&& x - self.i == y - self.j
        &&& same_exchanges(self.h, self.i, self.g, self.j, x - self.i)
    }

    /// Whether two points of the conversations have said and reported the same.
    #[verifier::opaque]
    pub open spec fn abreast(self, s: Point, t: Point) -> bool {
        &&& self.level(s.at, t.at)
        &&& s.sent == t.sent
        &&& self.heard_h.len() <= s.events.len()
        &&& self.heard_g.len() <= t.events.len()
        &&& s.events.skip(self.heard_h.len() as int) == t.events.skip(self.heard_g.len() as int)
    }

    /// Whether two outcomes of a command are the same, at the same place.
    pub open spec fn same_talk<R>(self, a: Talk<R>, b: Talk<R>) -> bool {
        match (a, b) {
            (Some((x, r)), Some((y, s))) => self.level(x, y) && r == s,
            _ => true,
        }
    }

    /// Whether two outcomes of a part of a burn are the same, at points that are abreast.
    pub open spec fn same_burn(self, a: Burned, b: Burned) -> bool {
        match (a, b) {
            (Some((s, r)), Some((t, u))) => self.abreast(s, t) && r == u,
            _ => true,
        }
    }
}

/// The next exchanges are the same where they make the same request.
proof fn lemma_next(w: Sides, x: int, y: int)
    requires
        w.alike(),
        w.level(x, y),
        x < w.h.len(),
        y < w.g.len(),
        same_request(w.h[x], w.g[y]),
    ensures
        w.h[x] == w.g[y],
        w.level(x + 1, y + 1),
{
    reveal(Sides::alike);
    reveal(Sides::level);
    let n = x - w.i;
    assert(w.h[w.i + n] == w.h[x]);
    assert(w.g[w.j + n] == w.g[y]);
}

proof fn lemma_report(w: Sides, s: Point, t: Point, e: Event)
    requires
        w.abreast(s, t),
    ensures
        w.abreast(s.report(e), t.report(e)),
{
    reveal(Sides::abreast);
    let a = w.heard_h.len() as int;
    let b = w.heard_g.len() as int;
    assert(s.events.push(e).skip(a) =~= s.events.skip(a).push(e));
    assert(t.events.push(e).skip(b) =~= t.events.skip(b).push(e));
}

proof fn lemma_go(w: Sides, s: Point, t: Point, x: int, y: int)
    requires
        w.abreast(s, t),
        w.level(x, y),
    ensures
        w.abreast(s.go(x), t.go(y)),
{
    reveal(Sides::abreast);
}

proof fn lemma_abreast(w: Sides, s: Point, t: Point)
    requires
        w.abreast(s, t),
    ensures
        w.level(s.at, t.at),
        s.sent == t.sent,
{
    reveal(Sides::abreast);
}

// ---------------------------------------------------------------------------------------
// Single commands
// ---------------------------------------------------------------------------------------
proof fn lemma_wrote(w: Sides, x: int, y: int, payload: Seq<u8>, policy: CswPolicy)
    requires
        w.alike(),
        w.level(x, y),
    ensures
        w.same_talk(wrote(w.h, x, payload, policy), wrote(w.g, y, payload, policy)),
{
    if wrote(w.h, x, payload, policy) is Some && wrote(w.g, y, payload, policy) is Some {
        lemma_next(w, x, y);
    }
}

proof fn lemma_read(w: Sides, x: int, y: int, len: u32, policy: CswPolicy)
    requires
        w.alike(),
        w.level(x, y),
    ensures
        w.same_talk(was_read(w.h, x, len, policy), was_read(w.g, y, len, policy)),
{
    if was_read(w.h, x, len, policy) is Some && was_read(w.g, y, len, policy) is Some {
        lemma_next(w, x, y);
    }
}

proof fn lemma_reconnected(w: Sides, x: int, y: int, timeout: u64)
    requires
        w.alike(),
        w.level(x, y),
    ensures
        w.same_talk(reconnected(w.h, x, timeout), reconnected(w.g, y, timeout)),
{
    if reconnected(w.h, x, timeout) is Some && reconnected(w.g, y, timeout) is Some {
        lemma_next(w, x, y);
    }
}

proof fn lemma_header(w: Sides, x: int, y: int, p: Profile, cmd: u8, data_len: u32)
    requires
        w.alike(),
        w.level(x, y),
    ensures
        w.same_talk(header_talk(p, w.h, x, cmd, data_len), header_talk(p, w.g, y, cmd, data_len)),
{
    let header = cmd_bytes(cmd, data_len);
    let policy = CswPolicy::Required;
    lemma_wrote(w, x, y, header, policy);
    match (write_talk(w.h, x, header, policy), write_talk(w.g, y, header, policy)) {
        (Some((j, Err(e))), Some((k, _))) => {
            if p.repeat_headers && header_worth_repeating(e) {
                lemma_reconnected(w, j, k, HEADER_RECONNECT_MILLIS);
                match (
                    reconnected(w.h, j, HEADER_RECONNECT_MILLIS),
                    reconnected(w.g, k, HEADER_RECONNECT_MILLIS),
                ) {
                    (Some((l, Ok(()))), Some((m, _))) => {
                        lemma_wrote(w, l, m, header, policy);
                    },
                    _ => {},
                }
            }
        },
        _ => {},
    }
}

proof fn lemma_response(w: Sides, x: int, y: int, cmd: u8, usual_len: u32, policy: CswPolicy)
    requires
        w.alike(),
        w.level(x, y),
    ensures
        w.same_talk(
            response_talk(w.h, x, cmd, usual_len, policy),
            response_talk(w.g, y, cmd, usual_len, policy),
        ),
{
    let n = RESP_MIN_HDR_LEN as u32;
    lemma_read(w, x, y, n, policy);
    match (was_read(w.h, x, n, policy), was_read(w.g, y, n, policy)) {
        (Some((j, Ok(data))), Some((k, _))) => {
            match announced(cmd, data) {
                Ok(declared) => {
                    let len = if declared > 0 {
                        declared
                    } else {
                        usual_len
                    };
                    lemma_read(w, j, k, len, policy);
                },
                Err(_) => {},
            }
        },
        _ => {},
    }
}

proof fn lemma_query(w: Sides, x: int, y: int, p: Profile, cmd: u8, usual_len: u32)
    requires
        w.alike(),
        w.level(x, y),
    ensures
        w.same_talk(query_talk(p, w.h, x, cmd, usual_len), query_talk(p, w.g, y, cmd, usual_len)),
{
    lemma_header(w, x, y, p, cmd, 0);
    match (header_talk(p, w.h, x, cmd, 0), header_talk(p, w.g, y, cmd, 0)) {
        (Some((j, Ok(()))), Some((k, _))) => {
            lemma_response(w, j, k, cmd, usual_len, CswPolicy::Required);
        },
        _ => {},
    }
}

proof fn lemma_order(
    w: Sides,
    x: int,
    y: int,
    p: Profile,
    cmd: u8,
    payload: Seq<u8>,
    usual_len: u32,
    policy: CswPolicy,
)
    requires
        w.alike(),
        w.level(x, y),
    ensures
        w.same_talk(
            order_talk(p, w.h, x, cmd, payload, usual_len, policy),
            order_talk(p, w.g, y, cmd, payload, usual_len, policy),
        ),
{
    let n = payload.len() as u32;
    lemma_header(w, x, y, p, cmd, n);
    match (header_talk(p, w.h, x, cmd, n), header_talk(p, w.g, y, cmd, n)) {
        (Some((j, Ok(()))), Some((k, _))) => {
            lemma_wrote(w, j, k, payload, policy);
            match (wrote(w.h, j, payload, policy), wrote(w.g, k, payload, policy)) {
                (Some((l, Ok(_))), Some((m, _))) => {
                    lemma_response(w, l, m, cmd, usual_len, policy);
                },
                _ => {},
            }
        },
        _ => {},
    }
}

proof fn lemma_sized_order(
    w: Sides,
    x: int,
    y: int,
    p: Profile,
    cmd: u8,
    payload: Seq<u8>,
    usual_len: u32,
)
    requires
        w.alike(),
        w.level(x, y),
    ensures
        w.same_talk(
            sized_order_talk(p, w.h, x, cmd, payload, usual_len),
            sized_order_talk(p, w.g, y, cmd, payload, usual_len),
        ),
{
    let n = (payload.len() + 4) as u32;
    let size = le32(payload.len() as u32);
    let policy = CswPolicy::Required;
    lemma_header(w, x, y, p, cmd, n);
    match (header_talk(p, w.h, x, cmd, n), header_talk(p, w.g, y, cmd, n)) {
        (Some((j, Ok(()))), Some((k, _))) => {
            lemma_wrote(w, j, k, size, policy);
            match (wrote(w.h, j, size, policy), wrote(w.g, k, size, policy)) {
                (Some((l, Ok(_))), Some((m, _))) => {
                    lemma_wrote(w, l, m, payload, policy);
                    match (wrote(w.h, l, payload, policy), wrote(w.g, m, payload, policy)) {
                        (Some((a, Ok(_))), Some((b, _))) => {
                            lemma_response(w, a, b, cmd, usual_len, policy);
                        },
                        _ => {},
                    }
                },
                _ => {},
            }
        },
        _ => {},
    }
}

proof fn lemma_hwinfo(w: Sides, x: int, y: int, p: Profile)
    requires
        w.alike(),
        w.level(x, y),
    ensures
        w.same_talk(hwinfo_talk(p, w.h, x), hwinfo_talk(p, w.g, y)),
{
    lemma_query(w, x, y, p, p.codes.get_hwinfo, HWINFO_LEN as u32);
}

proof fn lemma_chunk(w: Sides, x: int, y: int, chunk: Seq<u8>, policy: CswPolicy)
    requires
        w.alike(),
        w.level(x, y),
    ensures
        w.same_talk(chunk_talk(w.h, x, chunk, policy), chunk_talk(w.g, y, chunk, policy)),
{
    lemma_wrote(w, x, y, chunk, policy);
    match (wrote(w.h, x, chunk, policy), wrote(w.g, y, chunk, policy)) {
        (Some((j, Ok(_))), Some((k, _))) => {
            if drained(w.h, j, DRAIN_MILLIS, DRAIN_BYTES) is Some && drained(
                w.g,
                k,
                DRAIN_MILLIS,
                DRAIN_BYTES,
            ) is Some {
                lemma_next(w, j, k);
            }
        },
        _ => {},
    }
}

// ---------------------------------------------------------------------------------------
// The parts of a burn
// ---------------------------------------------------------------------------------------
proof fn lemma_opening(w: Sides, x: int, y: int, job: Job, meta: FwcMeta)
    requires
        w.alike(),
        w.level(x, y),
    ensures
        w.same_talk(opening_talk(job, meta, w.h, x), opening_talk(job, meta, w.g, y)),
{
    reveal(opening_talk);
    let p = job.profile;
    lemma_order(w, x, y, p, p.codes.set_fwc_meta, meta.record@, 0, CswPolicy::Required);
    match (meta_talk(p, w.h, x, meta.record@), meta_talk(p, w.g, y, meta.record@)) {
        (Some((j, Ok(()))), Some((k, _))) => {
            lemma_query(w, j, k, p, p.codes.get_block_size, 4);
            match (block_size_talk(p, w.h, j), block_size_talk(p, w.g, k)) {
                (Some((l, _)), Some((m, _))) => {
                    lemma_header(w, l, m, p, p.codes.send_fwc_data, meta.size);
                },
                _ => {},
            }
        },
        _ => {},
    }
}

proof fn lemma_data(w: Sides, s: Point, t: Point, job: Job, meta: FwcMeta, piece: int, sent: int)
    requires
        w.alike(),
        w.abreast(s, t),
    ensures
        w.same_burn(
            data_talk(job, meta, piece, sent, w.h, s),
            data_talk(job, meta, piece, sent, w.g, t),
        ),
    decreases meta.size - sent,
{
    if sent < meta.size && piece >= 1 {
        let next = if sent + piece < meta.size {
            sent + piece
        } else {
            meta.size as int
        };
        let chunk = job.image.subrange(meta.offset + sent, meta.offset + next);
        lemma_abreast(w, s, t);
        lemma_chunk(w, s.at, t.at, chunk, CswPolicy::Required);
        match (
            chunk_talk(w.h, s.at, chunk, CswPolicy::Required),
            chunk_talk(w.g, t.at, chunk, CswPolicy::Required),
        ) {
            (Some((j, r)), Some((k, _))) => {
                lemma_go(w, s, t, j, k);
                if r is Ok {
                    let a = Point { at: j, events: s.events, sent: s.sent + (next - sent) };
                    let b = Point { at: k, events: t.events, sent: t.sent + (next - sent) };
                    assert(w.abreast(a, b)) by {
                        reveal(Sides::abreast);
                    }
                    let piece_done = BurnEvent::ComponentProgress {
                        name: meta.name@,
                        sent: next as usize,
                        total: meta.size as usize,
                    };
                    let all_done = BurnEvent::OverallProgress {
                        sent: a.sent as usize,
                        total: job.total() as usize,
                    };
                    lemma_report(w, a, b, piece_done);
                    lemma_report(w, a.report(piece_done), b.report(piece_done), all_done);
                    lemma_data(
                        w,
                        a.report(piece_done).report(all_done),
                        b.report(piece_done).report(all_done),
                        job,
                        meta,
                        piece,
                        next,
                    );
                }
            },
            _ => {},
        }
    }
}

proof fn lemma_component(
    w: Sides,
    s: Point,
    t: Point,
    job: Job,
    meta: FwcMeta,
    may_vanish: bool,
)
    requires
        w.alike(),
        w.abreast(s, t),
    ensures
        w.same_burn(
            component_talk(job, meta, may_vanish, w.h, s),
            component_talk(job, meta, may_vanish, w.g, t),
        ),
{
    reveal(component_talk);
    if meta.offset + meta.size <= usize::MAX && meta.offset + meta.size <= job.image.len() {
        let start = BurnEvent::ComponentStarted {
            name: meta.name@,
            partition: meta.partition@,
            size: meta.size as usize,
        };
        lemma_report(w, s, t, start);
        let a = s.report(start);
        let b = t.report(start);
        lemma_abreast(w, a, b);
        lemma_opening(w, a.at, b.at, job, meta);
        match (opening_talk(job, meta, w.h, a.at), opening_talk(job, meta, w.g, b.at)) {
            (Some((j, r)), Some((k, _))) => {
                lemma_go(w, a, b, j, k);
                match r {
                    Ok(piece) => {
                        lemma_after_opening(w, a.go(j), b.go(k), job, meta, may_vanish, piece);
                    },
                    Err(_) => {},
                }
            },
            _ => {},
        }
    }
}

/// The data of a component, the response and the reports at its end.
spec fn rest_of_component(
    job: Job,
    meta: FwcMeta,
    may_vanish: bool,
    piece: int,
    h: Seq<Exchange>,
    s: Point,
) -> Burned {
    match data_talk(job, meta, piece, 0, h, s) {
        None => None,
        Some((t, Err(e))) => Some((t, Err(e))),
        Some((t, Ok(()))) => match silent(
            response_talk(
                h,
                t.at,
                job.profile.codes.send_fwc_data,
                0,
                if may_vanish {
                    CswPolicy::AllowMissing
                } else {
                    CswPolicy::Required
                },
            ),
        ) {
            None => None,
            Some((k, Err(e))) => Some((t.go(k), Err(e))),
            Some((k, Ok(()))) => Some(
                (
                    component_end(
                        t.go(k),
                        meta,
                        crc32_of(
                            job.image.subrange(meta.offset as int, meta.offset + meta.size),
                        ),
                    ),
                    Ok(()),
                ),
            ),
        },
    }
}

proof fn lemma_after_opening(
    w: Sides,
    s: Point,
    t: Point,
    job: Job,
    meta: FwcMeta,
    may_vanish: bool,
    piece: int,
)
    requires
        w.alike(),
        w.abreast(s, t),
    ensures
        w.same_burn(
            rest_of_component(job, meta, may_vanish, piece, w.h, s),
            rest_of_component(job, meta, may_vanish, piece, w.g, t),
        ),
{
    lemma_data(w, s, t, job, meta, piece, 0);
    match (
        data_talk(job, meta, piece, 0, w.h, s),
        data_talk(job, meta, piece, 0, w.g, t),
    ) {
        (Some((a, Ok(()))), Some((b, _))) => {
            let policy = if may_vanish {
                CswPolicy::AllowMissing
            } else {
                CswPolicy::Required
            };
            let cmd = job.profile.codes.send_fwc_data;
            lemma_abreast(w, a, b);
            lemma_response(w, a.at, b.at, cmd, 0, policy);
            match (
                response_talk(w.h, a.at, cmd, 0, policy),
                response_talk(w.g, b.at, cmd, 0, policy),
            ) {
                (Some((j, _)), Some((k, _))) => {
                    lemma_go(w, a, b, j, k);
                    lemma_component_end(w, a.go(j), b.go(k), job, meta);
                },
                _ => {},
            }
        },
        _ => {},
    }
}

proof fn lemma_component_end(w: Sides, s: Point, t: Point, job: Job, meta: FwcMeta)
    requires
        w.abreast(s, t),
    ensures
        ({
            let crc = crc32_of(
                job.image.subrange(meta.offset as int, meta.offset + meta.size),
            );
            w.abreast(
                component_end(s, meta, crc),
                component_end(t, meta, crc),
            )
        }),
{
    let crc = crc32_of(
        job.image.subrange(meta.offset as int, meta.offset + meta.size),
    );
    let warning = BurnEvent::Log(crc_warning(meta.name@, meta.crc, crc));
    let end = BurnEvent::ComponentFinished { name: meta.name@ };
    lemma_report(w, s, t, warning);
    lemma_report(w, s, t, end);
    lemma_report(w, s.report(warning), t.report(warning), end);
}

proof fn lemma_probe_between(w: Sides, s: Point, t: Point, job: Job)
    requires
        w.alike(),
        w.abreast(s, t),
    ensures
        w.same_burn(probe_between_talk(job, w.h, s), probe_between_talk(job, w.g, t)),
{
    reveal(probe_between_talk);
    lemma_abreast(w, s, t);
    if paused(w.h, s.at, UPDATER_PROBE_DELAY) is Some && paused(
        w.g,
        t.at,
        UPDATER_PROBE_DELAY,
    ) is Some {
        lemma_next(w, s.at, t.at);
        let j = s.at + 1;
        let k = t.at + 1;
        let e = BurnEvent::Stage("Probe bootloader between updater components"@);
        lemma_go(w, s, t, j, k);
        lemma_report(w, s.go(j), t.go(k), e);
        lemma_hwinfo(w, j, k, job.profile);
        match (hwinfo_talk(job.profile, w.h, j), hwinfo_talk(job.profile, w.g, k)) {
            (Some((l, _)), Some((m, _))) => {
                lemma_go(w, s.go(j).report(e), t.go(k).report(e), l, m);
            },
            _ => {},
        }
    }
}

proof fn lemma_updaters(w: Sides, s: Point, t: Point, job: Job, k: int)
    requires
        w.alike(),
        w.abreast(s, t),
    ensures
        w.same_burn(updaters_talk(job, k, w.h, s), updaters_talk(job, k, w.g, t)),
    decreases job.metas.len() - k,
{
    if 0 <= k < job.metas.len() {
        if kind_of(job.metas[k].name@) != ComponentKind::Updater {
            lemma_updaters(w, s, t, job, k + 1);
        } else {
            let more = updaters_from(job.metas, k + 1) > 0;
            lemma_component(w, s, t, job, job.metas[k], !more);
            match (
                component_talk(job, job.metas[k], !more, w.h, s),
                component_talk(job, job.metas[k], !more, w.g, t),
            ) {
                (Some((a, Ok(()))), Some((b, _))) => {
                    if !more {
                        lemma_updaters(w, a, b, job, k + 1);
                    } else {
                        lemma_probe_between(w, a, b, job);
                        match (
                            probe_between_talk(job, w.h, a),
                            probe_between_talk(job, w.g, b),
                        ) {
                            (Some((c, Ok(()))), Some((d, _))) => {
                                lemma_updaters(w, c, d, job, k + 1);
                            },
                            _ => {},
                        }
                    }
                },
                _ => {},
            }
        }
    }
}

proof fn lemma_return(w: Sides, s: Point, t: Point, job: Job, timeout: u64)
    requires
        w.alike(),
        w.abreast(s, t),
    ensures
        w.same_burn(return_talk(job, timeout, w.h, s), return_talk(job, timeout, w.g, t)),
{
    reveal(return_talk);
    let wait = BurnEvent::Stage("Wait for bootloader reconnect"@);
    let probe = BurnEvent::Stage("Probe bootloader after reconnect"@);
    lemma_report(w, s, t, wait);
    let a = s.report(wait);
    let b = t.report(wait);
    lemma_abreast(w, a, b);
    lemma_reconnected(w, a.at, b.at, timeout);
    match (reconnected(w.h, a.at, timeout), reconnected(w.g, b.at, timeout)) {
        (Some((j, outcome)), Some((k, _))) => {
            lemma_go(w, a, b, j, k);
            let (c, d) = match outcome {
                Ok(()) => (a.go(j), b.go(k)),
                Err(e) => {
                    let warning = BurnEvent::Log(
                        "Warning: updater reconnect was not observed: "@ + e,
                    );
                    lemma_report(w, a.go(j), b.go(k), warning);
                    (a.go(j).report(warning), b.go(k).report(warning))
                },
            };
            lemma_report(w, c, d, probe);
            lemma_hwinfo(w, j, k, job.profile);
            match (hwinfo_talk(job.profile, w.h, j), hwinfo_talk(job.profile, w.g, k)) {
                (Some((l, _)), Some((m, _))) => {
                    lemma_go(w, c.report(probe), d.report(probe), l, m);
                },
                _ => {},
            }
        },
        _ => {},
    }
}

proof fn lemma_updater_stage(w: Sides, s: Point, t: Point, job: Job, timeout: u64)
    requires
        w.alike(),
        w.abreast(s, t),
    ensures
        w.same_burn(updater_stage(job, timeout, w.h, s), updater_stage(job, timeout, w.g, t)),
{
    reveal(updater_stage);
    if updaters_from(job.metas, 0) != 0 {
        let e = BurnEvent::Stage("Send updater components"@);
        lemma_report(w, s, t, e);
        lemma_updaters(w, s.report(e), t.report(e), job, 0);
        match (
            updaters_talk(job, 0, w.h, s.report(e)),
            updaters_talk(job, 0, w.g, t.report(e)),
        ) {
            (Some((a, Ok(()))), Some((b, _))) => {
                lemma_return(w, a, b, job, timeout);
            },
            _ => {},
        }
    }
}

proof fn lemma_mode_stage(w: Sides, s: Point, t: Point, job: Job)
    requires
        w.alike(),
        w.abreast(s, t),
    ensures
        w.same_burn(mode_stage(job, w.h, s), mode_stage(job, w.g, t)),
{
    reveal(mode_stage);
    let p = job.profile;
    let mode = p.codes.full_disk_upgrade;
    let e = BurnEvent::Stage("Set full-disk upgrade mode"@);
    lemma_report(w, s, t, e);
    let a = s.report(e);
    let b = t.report(e);
    lemma_abreast(w, a, b);
    lemma_sized_order(
        w,
        a.at,
        b.at,
        p,
        p.codes.set_upg_cfg,
        cfg_bytes(mode),
        0,
    );
    match (cfg_talk(p, w.h, a.at, mode), cfg_talk(p, w.g, b.at, mode)) {
        (Some((j, _)), Some((k, _))) => {
            lemma_go(w, a, b, j, k);
            match info_from(job.metas, 0) {
                Some(n) => {
                    lemma_component(w, a.go(j), b.go(k), job, job.metas[n], false);
                },
                None => {
                    lemma_report(
                        w,
                        a.go(j),
                        b.go(k),
                        BurnEvent::Log("Warning: no image.info component found"@),
                    );
                },
            }
        },
        _ => {},
    }
}

proof fn lemma_targets(w: Sides, s: Point, t: Point, job: Job, k: int)
    requires
        w.alike(),
        w.abreast(s, t),
    ensures
        w.same_burn(targets_talk(job, k, w.h, s), targets_talk(job, k, w.g, t)),
    decreases job.metas.len() - k,
{
    if 0 <= k < job.metas.len() {
        if !is_chosen_target(job.metas[k], job.parts) {
            lemma_targets(w, s, t, job, k + 1);
        } else {
            lemma_component(w, s, t, job, job.metas[k], false);
            match (
                component_talk(job, job.metas[k], false, w.h, s),
                component_talk(job, job.metas[k], false, w.g, t),
            ) {
                (Some((a, Ok(()))), Some((b, _))) => {
                    lemma_targets(w, a, b, job, k + 1);
                },
                _ => {},
            }
        }
    }
}

proof fn lemma_end_stage(w: Sides, s: Point, t: Point, job: Job, reset: bool)
    requires
        w.alike(),
        w.abreast(s, t),
    ensures
        w.same_burn(end_stage(job, reset, w.h, s), end_stage(job, reset, w.g, t)),
{
    reveal(end_stage);
    let p = job.profile;
    let ending = BurnEvent::Stage("End upgrade"@);
    let resetting = BurnEvent::Stage("Reset device"@);
    let finished = BurnEvent::<Seq<char>>::Finished;
    lemma_report(w, s, t, ending);
    let a = s.report(ending);
    let b = t.report(ending);
    lemma_abreast(w, a, b);
    lemma_order(
        w,
        a.at,
        b.at,
        p,
        p.codes.set_upg_end,
        le32(32) + zeros(32),
        0,
        CswPolicy::AllowMissing,
    );
    match (end_talk(p, w.h, a.at), end_talk(p, w.g, b.at)) {
        (Some((j, _)), Some((k, _))) => {
            lemma_go(w, a, b, j, k);
            let c = a.go(j);
            let d = b.go(k);
            lemma_report(w, c, d, finished);
            lemma_report(w, c, d, resetting);
            lemma_order(
                w,
                j,
                k,
                p,
                p.codes.run_shell_str,
                shell_bytes("reset"@),
                0,
                CswPolicy::Required,
            );
            match (shell_talk(p, w.h, j, "reset"@), shell_talk(p, w.g, k, "reset"@)) {
                (Some((l, r)), Some((m, _))) => {
                    let x = c.report(resetting);
                    let y = d.report(resetting);
                    lemma_go(w, x, y, l, m);
                    lemma_report(w, x.go(l), y.go(m), finished);
                    match r {
                        Err(e) => {
                            let warning = BurnEvent::Log("Warning: reset failed: "@ + e);
                            lemma_report(w, x.go(l), y.go(m), warning);
                            lemma_report(
                                w,
                                x.go(l).report(warning),
                                y.go(m).report(warning),
                                finished,
                            );
                        },
                        Ok(()) => {},
                    }
                },
                _ => {},
            }
        },
        _ => {},
    }
}

/// A burn depends on the answers alone: two burns of the same job whose transports answer alike
/// make the same requests, give the same result and report the same.
pub proof fn burn_depends_on_answers(
    job: Job,
    timeout: u64,
    reset: bool,
    h: Seq<Exchange>,
    s: Point,
    g: Seq<Exchange>,
    t: Point,
)
    requires
        0 <= s.at <= h.len(),
        0 <= t.at <= g.len(),
        s.sent == t.sent,
        answer_alike(h, s.at, g, t.at),
    ensures
        match (burn_talk(job, timeout, reset, h, s), burn_talk(job, timeout, reset, g, t)) {
            (Some((a, r)), Some((b, u))) => {
                &&& r == u
                &&& h.subrange(s.at, a.at) == g.subrange(t.at, b.at)
                &&& a.events.skip(s.events.len() as int) == b.events.skip(t.events.len() as int)
            },
            _ => true,
        },
{
    let w = Sides {
        h,
        i: s.at,
        g,
        j: t.at,
        heard_h: s.events,
        heard_g: t.events,
    };
    assert(w.alike()) by {
        reveal(Sides::alike);
    }
    assert(w.abreast(s, t)) by {
        reveal(Sides::level);
        reveal(Sides::abreast);
        assert(s.events.skip(s.events.len() as int) =~= t.events.skip(t.events.len() as int));
    }
    let plan = BurnEvent::Stage("Build component plan"@);
    lemma_report(w, s, t, plan);
    let s1 = s.report(plan);
    let t1 = t.report(plan);
    lemma_updater_stage(w, s1, t1, job, timeout);
    match (updater_stage(job, timeout, h, s1), updater_stage(job, timeout, g, t1)) {
        (Some((s2, Ok(()))), Some((t2, _))) => {
            lemma_mode_stage(w, s2, t2, job);
            match (mode_stage(job, h, s2), mode_stage(job, g, t2)) {
                (Some((s3, Ok(()))), Some((t3, _))) => {
                    reveal(target_stage);
                    lemma_targets(w, s3, t3, job, 0);
                    match (target_stage(job, h, s3), target_stage(job, g, t3)) {
                        (Some((s4, Ok(()))), Some((t4, _))) => {
                            lemma_end_stage(w, s4, t4, job, reset);
                        },
                        _ => {},
                    }
                },
                _ => {},
            }
        },
        _ => {},
    }
    let x = burn_talk(job, timeout, reset, h, s);
    let y = burn_talk(job, timeout, reset, g, t);
    assert(w.same_burn(x, y));
    match (x, y) {
        (Some((a, _)), Some((b, _))) => {
            reveal(Sides::level);
            reveal(Sides::abreast);
            let n = a.at - s.at;
            assert forall|m: int| 0 <= m < n implies h.subrange(s.at, a.at)[m] == g.subrange(
                t.at,
                b.at,
            )[m] by {
                assert(h[s.at + m] == g[t.at + m]);
            }
            assert(h.subrange(s.at, a.at) =~= g.subrange(t.at, b.at));
        },
        _ => {},
    }
}

/// Burning plainly is burning with the usual options: where the transports answer alike, both
/// make the same requests and give the same result, whoever listens.
pub proof fn plain_burn_is_the_usual_burn<T: UpgTransport, U: UpgTransport>(
    plain: UpgDevice<T>,
    plain_after: UpgDevice<T>,
    plain_result: Result<(), Seq<char>>,
    usual: UpgDevice<U>,
    usual_after: UpgDevice<U>,
    usual_result: Result<(), Seq<char>>,
    heard: Seq<Event>,
    told: Seq<Event>,
    image: Seq<u8>,
    metas: Seq<FwcMeta>,
)
    requires
        plainly_burned(&plain, &plain_after, image, metas, plain_result),
        burned(
            &usual,
            &usual_after,
            image,
            metas,
            usual_parts(),
            60_000,
            true,
            heard,
            told,
            usual_result,
        ),
        plain.profile() == usual.profile(),
        plain.link().write_limit == usual.link().write_limit,
        answer_alike(plain_after.history(), plain.at(), usual_after.history(), usual.at()),
    ensures
        plain_result == usual_result,
        plain_after.history().skip(plain.at()) == usual_after.history().skip(usual.at()),
{
    let parts = usual_parts();
    let silence = choose|silence: Seq<Event>| #[trigger]
        burned(
            &plain,
            &plain_after,
            image,
            metas,
            parts,
            60_000,
            true,
            Seq::empty(),
            silence,
            plain_result,
        );
    let h = plain_after.history();
    let g = usual_after.history();
    let job = job_of(&plain, image, metas, parts);
    assert(job == job_of(&usual, image, metas, parts));
    let s = Point { at: plain.at(), events: Seq::empty(), sent: 0 };
    let t = Point { at: usual.at(), events: heard, sent: 0 };
    assert(extends(h, h) && extends(g, g));
    assert(burn_talk(job, 60_000, true, h, s) is Some);
    assert(burn_talk(job, 60_000, true, g, t) is Some);
    burn_depends_on_answers(job, 60_000, true, h, s, g, t);
    assert(h.skip(s.at) =~= h.subrange(s.at, h.len() as int));
    assert(g.skip(t.at) =~= g.subrange(t.at, g.len() as int));
}

} // verus!
