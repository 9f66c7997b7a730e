//! Burning an image: what is said to the device, and what is reported on the way.
use vstd::prelude::*;
use vstd::slice::slice_subrange;

use crate::device::command::UpgDevice;
use crate::device::plan::{
    any_target, classify_components, count_updaters, find_info, has_target, info_from,
    is_chosen_target, kind_bytes, kind_of, lemma_info_counted, lemma_kinds_within_total,
    lemma_updaters_bound, plan_of, planned_bytes, total_bytes, updaters_from, usual_parts,
    BurnEvent, BurnOptions, BurnSink, ComponentKind, Event, FirmwareComponent, Quiet,
};
use crate::device::talk::{
    block_size_talk, cfg_talk, chunk_talk, end_talk, header_talk, hwinfo_talk, meta_talk,
    response_talk, shell_talk, silent, Profile,
};
use crate::number::{dec, hex, hex_wide, push_dec, push_hex};
use crate::protocol::commands::FwcMeta;
use crate::text::string_texts;
use crate::transport::{done, extends, paused, reconnected, CswPolicy, Exchange, UpgTransport};

verus! {

/// The largest piece in which a target is sent.
pub const CHUNK_SIZE: usize = 1_048_576;

/// How long the host waits between two updater components, in milliseconds.
pub const UPDATER_PROBE_DELAY: u64 = 30;

/// The block size taken where the device does not tell one.
pub const DEFAULT_BLOCK_SIZE: u32 = 2048;

/// One step of the division by the generator polynomial, least significant bit first.
pub open spec fn crc32_shift(crc: u32) -> u32 {
    if crc & 1 != 0 {
        (crc >> 1) ^ 0xedb8_8320
    } else {
        crc >> 1
    }
}

/// `n` steps of the division.
pub open spec fn crc32_shifts(crc: u32, n: nat) -> u32
    decreases n,
{
    if n == 0 {
        crc
    } else {
        crc32_shift(crc32_shifts(crc, (n - 1) as nat))
    }
}

/// The remainder after `bytes`, from all ones.
pub open spec fn crc32_remainder(bytes: Seq<u8>) -> u32
    decreases bytes.len(),
{
    if bytes.len() == 0 {
        0xffff_ffff
    } else {
        crc32_shifts(crc32_remainder(bytes.drop_last()) ^ (bytes.last() as u32), 8)
    }
}

/// The CRC-32 (IEEE) of `bytes`: the remainder with every bit turned over.
pub open spec fn crc32_of(bytes: Seq<u8>) -> u32 {
    !crc32_remainder(bytes)
}

/// `crc32fast::hash`: the CRC-32 (IEEE) of the bytes, by the reversed polynomial 0xedb88320.
#[verifier::external_body]
pub(crate) fn crc32(bytes: &[u8]) -> (crc: u32)
    ensures
        crc == crc32_of(bytes@),
{
    crc32fast::hash(bytes)
}

// ---------------------------------------------------------------------------------------
// What a burn says
// ---------------------------------------------------------------------------------------
/// What is burned, and over what link.
pub struct Job {
    pub profile: Profile,
    pub write_limit: spec_fn(u32) -> usize,
    pub image: Seq<u8>,
    pub metas: Seq<FwcMeta>,
    pub parts: Seq<Seq<char>>,
}

impl Job {
    /// The bytes that the progress counts.
    pub open spec fn total(self) -> int {
        total_bytes(self.metas, self.parts, 0)
    }
}

/// A point in a burn: the position in the history, what was reported and how many bytes of
/// components were sent.
#[verifier::ext_equal]
pub struct Point {
    pub at: int,
    pub events: Seq<Event>,
    pub sent: int,
}

impl Point {
    /// After reporting `event`.
    pub open spec fn report(self, event: Event) -> Point {
        Point { events: self.events.push(event), ..self }
    }

    /// At another position of the history.
    pub open spec fn go(self, at: int) -> Point {
        Point { at, ..self }
    }
}

/// The point that a part of a burn leads to, and its result.
pub type Burned = Option<(Point, Result<(), Seq<char>>)>;

/// The size of the pieces in which a component is sent: for an updater it depends on the block
/// size, for anything else it is fixed; neither may be more than the link takes, and no piece
/// is empty.
pub open spec fn piece_len(kind: ComponentKind, block_size: u32, limit: usize) -> int {
    let wanted: int = if kind == ComponentKind::Updater {
        let n = block_size * 512;
        if n > usize::MAX {
            usize::MAX as int
        } else if n < 512 {
            512
        } else {
            n
        }
    } else {
        CHUNK_SIZE as int
    };
    let bounded = if wanted < limit {
        wanted
    } else {
        limit as int
    };
    if bounded < 1 {
        1
    } else {
        bounded
    }
}

/// The data of a component in pieces of `piece` bytes, from byte `sent` on. Each piece must be
/// acknowledged before the next one goes out, and is reported.
pub open spec fn data_talk(
    job: Job,
    meta: FwcMeta,
    piece: int,
    sent: int,
    h: Seq<Exchange>,
    s: Point,
) -> Burned
    decreases meta.size - sent,
{
    if sent >= meta.size || piece < 1 {
        Some((s, Ok(())))
    } else {
        let next = if sent + piece < meta.size {
            sent + piece
        } else {
            meta.size as int
        };
        match chunk_talk(
            h,
            s.at,
            job.image.subrange(meta.offset + sent, meta.offset + next),
            CswPolicy::Required,
        ) {
            None => None,
            Some((j, Err(e))) => Some((s.go(j), Err(e))),
            Some((j, Ok(()))) => {
                let t = Point { at: j, events: s.events, sent: s.sent + (next - sent) };
                data_talk(
                    job,
                    meta,
                    piece,
                    next,
                    h,
                    t.report(
                        BurnEvent::ComponentProgress {
                            name: meta.name@,
                            sent: next as usize,
                            total: meta.size as usize,
                        },
                    ).report(
                        BurnEvent::OverallProgress {
                            sent: t.sent as usize,
                            total: job.total() as usize,
                        },
                    ),
                )
            },
        }
    }
}

/// What is said of a component whose data does not lie in the image.
pub open spec fn out_of_image_text(meta: FwcMeta, image_len: nat) -> Seq<char> {
    meta.name@ + " image range out of bounds: offset=0x"@ + hex(meta.offset as nat) + ", size="@
        + dec(meta.size as nat) + ", image_len="@ + dec(image_len)
}

/// What is said of a component whose checksum is not the expected one.
pub open spec fn crc_warning(name: Seq<char>, expected: u32, actual: u32) -> Seq<char> {
    "WARNING: "@ + name + " CRC mismatch, expected=0x"@ + hex_wide(expected as nat, 8)
        + ", actual=0x"@ + hex_wide(actual as nat, 8)
}

/// The reports at the end of a component: a warning where the checksum of its data is not the
/// expected one, then the component's end.
pub open spec fn component_end(s: Point, meta: FwcMeta, crc: u32) -> Point {
    let warned = if crc != meta.crc {
        s.report(BurnEvent::Log(crc_warning(meta.name@, meta.crc, crc)))
    } else {
        s
    };
    warned.report(BurnEvent::ComponentFinished { name: meta.name@ })
}

/// What is said before the data of a component, once its range is known to be good: the record,
/// the question for the block size and the header of the data. Gives the size of the pieces.
#[verifier::opaque]
pub open spec fn opening_talk(job: Job, meta: FwcMeta, h: Seq<Exchange>, i: int) -> Option<
    (int, Result<int, Seq<char>>),
> {
    match meta_talk(job.profile, h, i, meta.record@) {
        None => None,
        Some((j, Err(e))) => Some((j, Err(e))),
        Some((j, Ok(()))) => match block_size_talk(job.profile, h, j) {
            None => None,
            Some((k, told)) => {
                let block_size = match told {
                    Ok(n) => n,
                    Err(_) => DEFAULT_BLOCK_SIZE,
                };
                match header_talk(
                    job.profile,
                    h,
                    k,
                    job.profile.codes.send_fwc_data,
                    meta.size,
                ) {
                    None => None,
                    Some((l, Err(e))) => Some((l, Err(e))),
                    Some((l, Ok(()))) => Some(
                        (
                            l,
                            Ok(
                                piece_len(
                                    kind_of(meta.name@),
                                    block_size,
                                    (job.write_limit)(block_size),
                                ),
                            ),
                        ),
                    ),
                }
            },
        },
    }
}

/// One component. The device may leave the data unanswered where `may_vanish` holds.
#[verifier::opaque]
pub open spec fn component_talk(
    job: Job,
    meta: FwcMeta,
    may_vanish: bool,
    h: Seq<Exchange>,
    s: Point,
) -> Burned {
    if meta.offset + meta.size > usize::MAX {
        Some((s, Err(meta.name@ + " offset/size overflow"@)))
    } else if meta.offset + meta.size > job.image.len() {
        Some((s, Err(out_of_image_text(meta, job.image.len()))))
    } else {
        let started = s.report(
            BurnEvent::ComponentStarted {
                name: meta.name@,
                partition: meta.partition@,
                size: meta.size as usize,
            },
        );
        match opening_talk(job, meta, h, started.at) {
            None => None,
            Some((j, Err(e))) => Some((started.go(j), Err(e))),
            Some((j, Ok(piece))) => match data_talk(job, meta, piece, 0, h, started.go(j)) {
                None => None,
                Some((t, Err(e))) => Some((t, Err(e))),
                Some((t, Ok(()))) => match silent(
                    response_talk(
                        h,
                        t.at,
                        job.profile.codes.send_fwc_data,
                        0,
                        if may_vanish {
                            CswPolicy::AllowMissing
                        } else {
                            CswPolicy::Required
                        },
                    ),
                ) {
                    None => None,
                    Some((k, Err(e))) => Some((t.go(k), Err(e))),
                    Some((k, Ok(()))) => Some(
                        (
                            component_end(
                                t.go(k),
                                meta,
                                crc32_of(
                                    job.image.subrange(
                                        meta.offset as int,
                                        meta.offset + meta.size,
                                    ),
                                ),
                            ),
                            Ok(()),
                        ),
                    ),
                },
            },
        }
    }
}

/// The updater components from `k` on. Between two of them the host waits and probes the
/// bootloader; the last one may make the device vanish.
pub open spec fn updaters_talk(job: Job, k: int, h: Seq<Exchange>, s: Point) -> Burned
    decreases job.metas.len() - k,
{
    if !(0 <= k < job.metas.len()) {
        Some((s, Ok(())))
    } else if kind_of(job.metas[k].name@) != ComponentKind::Updater {
        updaters_talk(job, k + 1, h, s)
    } else {
        let more = updaters_from(job.metas, k + 1) > 0;
        match component_talk(job, job.metas[k], !more, h, s) {
            None => None,
            Some((t, Err(e))) => Some((t, Err(e))),
            Some((t, Ok(()))) => if !more {
                updaters_talk(job, k + 1, h, t)
            } else {
                match probe_between_talk(job, h, t) {
                    None => None,
                    Some((u, Err(e))) => Some((u, Err(e))),
                    Some((u, Ok(()))) => updaters_talk(job, k + 1, h, u),
                }
            },
        }
    }
}

/// The probe between two updater components.
#[verifier::opaque]
pub open spec fn probe_between_talk(job: Job, h: Seq<Exchange>, s: Point) -> Burned {
    match paused(h, s.at, UPDATER_PROBE_DELAY) {
        None => None,
        Some(j) => {
            let t = s.go(j).report(
                BurnEvent::Stage("Probe bootloader between updater components"@),
            );
            match hwinfo_talk(job.profile, h, j) {
                None => None,
                Some((k, Err(e))) => Some(
                    (
                        t.go(k),
                        Err("Bootloader probe between updater components failed: "@ + e),
                    ),
                ),
                Some((k, Ok(_))) => Some((t.go(k), Ok(()))),
            }
        },
    }
}

/// The return of the device after the updater stage. Not having seen it go and come is no
/// failure; not reaching it afterwards is one.
#[verifier::opaque]
pub open spec fn return_talk(job: Job, timeout: u64, h: Seq<Exchange>, s: Point) -> Burned {
    let waiting = s.report(BurnEvent::Stage("Wait for bootloader reconnect"@));
    match reconnected(h, waiting.at, timeout) {
        None => None,
        Some((j, outcome)) => {
            let back = match outcome {
                Ok(()) => waiting.go(j),
                Err(e) => waiting.go(j).report(
                    BurnEvent::Log("Warning: updater reconnect was not observed: "@ + e),
                ),
            };
            let probing = back.report(BurnEvent::Stage("Probe bootloader after reconnect"@));
            match hwinfo_talk(job.profile, h, j) {
                None => None,
                Some((k, Err(e))) => Some(
                    (probing.go(k), Err("Bootloader probe after reconnect failed: "@ + e)),
                ),
                Some((k, Ok(_))) => Some((probing.go(k), Ok(()))),
            }
        },
    }
}

/// The updater stage, where the image has one.
#[verifier::opaque]
pub open spec fn updater_stage(job: Job, timeout: u64, h: Seq<Exchange>, s: Point) -> Burned {
    if updaters_from(job.metas, 0) == 0 {
        Some((s, Ok(())))
    } else {
        match updaters_talk(
            job,
            0,
            h,
            s.report(BurnEvent::Stage("Send updater components"@)),
        ) {
            None => None,
            Some((t, Err(e))) => Some((t, Err(e))),
            Some((t, Ok(()))) => return_talk(job, timeout, h, t),
        }
    }
}

/// The choice of the upgrade mode and the image description, where the image has one.
#[verifier::opaque]
pub open spec fn mode_stage(job: Job, h: Seq<Exchange>, s: Point) -> Burned {
    let choosing = s.report(BurnEvent::Stage("Set full-disk upgrade mode"@));
    match cfg_talk(job.profile, h, choosing.at, job.profile.codes.full_disk_upgrade) {
        None => None,
        Some((j, Err(e))) => Some((choosing.go(j), Err(e))),
        Some((j, Ok(()))) => match info_from(job.metas, 0) {
            Some(k) => component_talk(job, job.metas[k], false, h, choosing.go(j)),
            None => Some(
                (
                    choosing.go(j).report(
                        BurnEvent::Log("Warning: no image.info component found"@),
                    ),
                    Ok(()),
                ),
            ),
        },
    }
}

/// The chosen targets from component `k` on.
pub open spec fn targets_talk(job: Job, k: int, h: Seq<Exchange>, s: Point) -> Burned
    decreases job.metas.len() - k,
{
    if !(0 <= k < job.metas.len()) {
        Some((s, Ok(())))
    } else if !is_chosen_target(job.metas[k], job.parts) {
        targets_talk(job, k + 1, h, s)
    } else {
        match component_talk(job, job.metas[k], false, h, s) {
            None => None,
            Some((t, Err(e))) => Some((t, Err(e))),
            Some((t, Ok(()))) => targets_talk(job, k + 1, h, t),
        }
    }
}

/// The targets; there must be one.
#[verifier::opaque]
pub open spec fn target_stage(job: Job, h: Seq<Exchange>, s: Point) -> Burned {
    if !any_target(job.metas, job.parts) {
        Some((s, Err("No selected target components to burn"@)))
    } else {
        targets_talk(job, 0, h, s)
    }
}

/// The end of the upgrade, and a reset where one is wanted. A reset that fails is no failure.
#[verifier::opaque]
pub open spec fn end_stage(job: Job, reset: bool, h: Seq<Exchange>, s: Point) -> Burned {
    let ending = s.report(BurnEvent::Stage("End upgrade"@));
    match end_talk(job.profile, h, ending.at) {
        None => None,
        Some((j, Err(e))) => Some((ending.go(j), Err(e))),
        Some((j, Ok(()))) => if !reset {
            Some((ending.go(j).report(BurnEvent::Finished), Ok(())))
        } else {
            let resetting = ending.go(j).report(BurnEvent::Stage("Reset device"@));
            match shell_talk(job.profile, h, j, "reset"@) {
                None => None,
                Some((k, Ok(()))) => Some(
                    (resetting.go(k).report(BurnEvent::Finished), Ok(())),
                ),
                Some((k, Err(e))) => Some(
                    (
                        resetting.go(k).report(
                            BurnEvent::Log("Warning: reset failed: "@ + e),
                        ).report(BurnEvent::Finished),
                        Ok(()),
                    ),
                ),
            }
        },
    }
}

/// A whole burn.
pub open spec fn burn_talk(
    job: Job,
    timeout: u64,
    reset: bool,
    h: Seq<Exchange>,
    s: Point,
) -> Burned {
    match updater_stage(job, timeout, h, s.report(BurnEvent::Stage("Build component plan"@))) {
        None => None,
        Some((t, Err(e))) => Some((t, Err(e))),
        Some((t, Ok(()))) => match mode_stage(job, h, t) {
            None => None,
            Some((u, Err(e))) => Some((u, Err(e))),
            Some((u, Ok(()))) => match target_stage(job, h, u) {
                None => None,
                Some((v, Err(e))) => Some((v, Err(e))),
                Some((v, Ok(()))) => end_stage(job, reset, h, v),
            },
        },
    }
}

// ---------------------------------------------------------------------------------------
// Saying it
// ---------------------------------------------------------------------------------------
/// What is said of a component whose checksum is not the expected one; nothing where it is.
pub fn crc_note(name: &str, expected: u32, actual: u32) -> (r: Option<String>)
    ensures
        match r {
            Some(s) => actual != expected && s@ == crc_warning(name@, expected, actual),
            None => actual == expected,
        },
{
    if actual == expected {
        return None;
    }
    let mut s = "WARNING: ".to_string();
    s.append(name);
    s.append(" CRC mismatch, expected=0x");
    push_hex(&mut s, expected as u64, 8);
    s.append(", actual=0x");
    push_hex(&mut s, actual as u64, 8);
    Some(s)
}

/// The size of the pieces in which a component is sent.
pub fn chunk_len(kind: ComponentKind, block_size: u32, limit: usize) -> (n: usize)
    ensures
        n == piece_len(kind, block_size, limit),
{
    let wanted: usize = if kind == ComponentKind::Updater {
        match (block_size as usize).checked_mul(512) {
            None => usize::MAX,
            Some(n) => if n < 512 {
                512
            } else {
                n
            },
        }
    } else {
        CHUNK_SIZE
    };
    let bounded: usize = if wanted < limit {
        wanted
    } else {
        limit
    };
    if bounded < 1 {
        1
    } else {
        bounded
    }
}

/// The job of burning `metas` over this device.
pub open spec fn job_of<T: UpgTransport>(
    device: &UpgDevice<T>,
    image: Seq<u8>,
    metas: Seq<FwcMeta>,
    parts: Seq<Seq<char>>,
) -> Job {
    Job {
        profile: device.profile(),
        write_limit: device.link().write_limit,
        image,
        metas,
        parts,
    }
}

/// Whether `before` became `after` by a burn with this result, which took the reports from
/// `heard` to `told`.
pub open spec fn burned<T: UpgTransport>(
    before: &UpgDevice<T>,
    after: &UpgDevice<T>,
    image: Seq<u8>,
    metas: Seq<FwcMeta>,
    parts: Seq<Seq<char>>,
    timeout: u64,
    reset: bool,
    heard: Seq<Event>,
    told: Seq<Event>,
    result: Result<(), Seq<char>>,
) -> bool {
    &&& after.follows(before)
    &&& forall|h: Seq<Exchange>|
        extends(h, after.history()) ==> (#[trigger] burn_talk(
            job_of(before, image, metas, parts),
            timeout,
            reset,
            h,
            Point { at: before.at(), events: heard, sent: 0 },
        ) matches Some((end, r)) && end.at == after.at() && end.events == told && r == result)
}

/// Whether `before` became `after` by a burn with the usual options that reported to nobody.
pub open spec fn plainly_burned<T: UpgTransport>(
    before: &UpgDevice<T>,
    after: &UpgDevice<T>,
    image: Seq<u8>,
    metas: Seq<FwcMeta>,
    result: Result<(), Seq<char>>,
) -> bool {
    exists|told: Seq<Event>| #[trigger]
        burned(
            before,
            after,
            image,
            metas,
            usual_parts(),
            60_000,
            true,
            Seq::empty(),
            told,
            result,
        )
}

impl<T: UpgTransport> UpgDevice<T> {
    /// Says what precedes the data of a component, and gives the size of the pieces.
    fn open_component(
        &mut self,
        component: &FirmwareComponent<'_>,
        job: Ghost<Job>,
    ) -> (r: Result<usize, String>)
        requires
            job@.profile == old(self).profile(),
            job@.write_limit == old(self).link().write_limit,
            component.kind == kind_of(component.meta.name@),
        ensures
            final(self).follows(old(self)),
            r matches Ok(n) ==> n >= 1,
            forall|h: Seq<Exchange>|
                extends(h, final(self).history()) ==> #[trigger] opening_talk(
                    job@,
                    *component.meta,
                    h,
                    old(self).at(),
                ) == Some(
                    (
                        final(self).at(),
                        match r {
                            Ok(n) => Ok(n as int),
                            Err(e) => Err(e@),
                        },
                    ),
                ),
    {
        reveal(opening_talk);
        let meta = component.meta;
        match self.set_fwc_meta(meta) {
            Ok(()) => {},
            Err(e) => {
                return Err(e);
            },
        }
        let block_size: u32 = match self.get_block_size() {
            Ok(n) => n,
            Err(_) => DEFAULT_BLOCK_SIZE,
        };
        match self.start_fwc_data(meta.size_val()) {
            Ok(()) => {},
            Err(e) => {
                return Err(e);
            },
        }
        Ok(chunk_len(component.kind, block_size, self.write_limit(block_size)))
    }

    /// Sends the data of a component in pieces.
    fn send_data<C: BurnSink>(
        &mut self,
        img_data: &[u8],
        meta: &FwcMeta,
        chunk_max: usize,
        overall_sent: &mut usize,
        overall_total: usize,
        sink: &mut C,
        job: Ghost<Job>,
    ) -> (r: Result<(), String>)
        requires
            job@.image == img_data@,
            overall_total == job@.total(),
            chunk_max >= 1,
            meta.offset + meta.size <= img_data@.len(),
            *old(overall_sent) + meta.size <= usize::MAX,
        ensures
            final(self).follows(old(self)),
            *old(overall_sent) <= *final(overall_sent) <= *old(overall_sent) + meta.size,
            forall|h: Seq<Exchange>|
                extends(h, final(self).history()) ==> #[trigger] data_talk(
                    job@,
                    *meta,
                    chunk_max as int,
                    0,
                    h,
                    Point {
                        at: old(self).at(),
                        events: old(sink).seen(),
                        sent: *old(overall_sent) as int,
                    },
                ) == Some(
                    (
                        Point {
                            at: final(self).at(),
                            events: final(sink).seen(),
                            sent: *final(overall_sent) as int,
                        },
                        done(r),
                    ),
                ),
    {
        let size: usize = meta.size_val() as usize;
        let offset: usize = meta.offset_val() as usize;
        let image_len: usize = img_data.len();
        let mut data_sent: usize = 0;
        let ghost before = *overall_sent;
        let ghost start = Point {
            at: self.at(),
            events: sink.seen(),
            sent: *overall_sent as int,
        };
        while data_sent < size
            invariant
                size == meta.size,
                offset == meta.offset,
                job@.image == img_data@,
                overall_total == job@.total(),
                chunk_max >= 1,
                image_len == img_data@.len(),
                offset + size <= image_len,
                before + size <= usize::MAX,
                data_sent <= size,
                before == *old(overall_sent),
                start == (Point {
                    at: old(self).at(),
                    events: old(sink).seen(),
                    sent: before as int,
                }),
                *overall_sent == before + data_sent,
                self.follows(old(self)),
                forall|h: Seq<Exchange>|
                    extends(h, self.history()) ==> #[trigger] data_talk(
                        job@,
                        *meta,
                        chunk_max as int,
                        0,
                        h,
                        start,
                    ) == data_talk(
                        job@,
                        *meta,
                        chunk_max as int,
                        data_sent as int,
                        h,
                        Point {
                            at: self.at(),
                            events: sink.seen(),
                            sent: *overall_sent as int,
                        },
                    ),
            decreases size - data_sent,
        {
            let chunk_size: usize = if size - data_sent <= chunk_max {
                size - data_sent
            } else {
                chunk_max
            };
            let from: usize = offset + data_sent;
            let chunk = slice_subrange(img_data, from, from + chunk_size);
            match self.write_fwc_data_chunk(chunk, CswPolicy::Required) {
                Ok(()) => {},
                Err(e) => {
                    return Err(e);
                },
            }
            data_sent = data_sent + chunk_size;
            *overall_sent = *overall_sent + chunk_size;
            sink.emit(
                BurnEvent::ComponentProgress {
                    name: meta.name_str().to_string(),
                    sent: data_sent,
                    total: size,
                },
            );
            sink.emit(
                BurnEvent::OverallProgress { sent: *overall_sent, total: overall_total },
            );
        }
        Ok(())
    }

    /// Sends one component.
    fn send_component<C: BurnSink>(
        &mut self,
        img_data: &[u8],
        component: &FirmwareComponent<'_>,
        allow_final_no_csw: bool,
        overall_sent: &mut usize,
        overall_total: usize,
        sink: &mut C,
        job: Ghost<Job>,
    ) -> (r: Result<(), String>)
        requires
            job@ == job_of(old(self), img_data@, job@.metas, job@.parts),
            component.kind == kind_of(component.meta.name@),
            overall_total == job@.total(),
            *old(overall_sent) + component.meta.size <= usize::MAX,
        ensures
            final(self).follows(old(self)),
            *old(overall_sent) <= *final(overall_sent) <= *old(overall_sent)
                + component.meta.size,
            forall|h: Seq<Exchange>|
                extends(h, final(self).history()) ==> #[trigger] component_talk(
                    job@,
                    *component.meta,
                    allow_final_no_csw,
                    h,
                    Point {
                        at: old(self).at(),
                        events: old(sink).seen(),
                        sent: *old(overall_sent) as int,
                    },
                ) == Some(
                    (
                        Point {
                            at: final(self).at(),
                            events: final(sink).seen(),
                            sent: *final(overall_sent) as int,
                        },
                        done(r),
                    ),
                ),
    {
        reveal(component_talk);
        let meta = component.meta;
        let size: usize = meta.size_val() as usize;
        let offset: usize = meta.offset_val() as usize;
        let end: usize = match offset.checked_add(size) {
            Some(end) => end,
            None => {
                let mut e = meta.name_str().to_string();
                e.append(" offset/size overflow");
                return Err(e);
            },
        };
        if end > img_data.len() {
            return Err(out_of_image(meta, img_data.len()));
        }
        sink.emit(
            BurnEvent::ComponentStarted {
                name: meta.name_str().to_string(),
                partition: meta.partition_str().to_string(),
                size,
            },
        );
        let chunk_max: usize = match self.open_component(component, job) {
            Ok(n) => n,
            Err(e) => {
                return Err(e);
            },
        };
        match self.send_data(
            img_data,
            meta,
            chunk_max,
            overall_sent,
            overall_total,
            sink,
            job,
        ) {
            Ok(()) => {},
            Err(e) => {
                return Err(e);
            },
        }
        let finish_policy = if allow_final_no_csw {
            CswPolicy::AllowMissing
        } else {
            CswPolicy::Required
        };
        match self.finish_fwc_data(finish_policy) {
            Ok(()) => {},
            Err(e) => {
                return Err(e);
            },
        }
        report_component_end(
            meta,
            crc32(slice_subrange(img_data, offset, end)),
            sink,
            Ghost(self.at()),
            Ghost(*overall_sent as int),
        );
        Ok(())
    }

    /// Waits a moment and probes the bootloader between two updater components.
    fn probe_between<C: BurnSink>(
        &mut self,
        sink: &mut C,
        job: Ghost<Job>,
        sent: Ghost<int>,
    ) -> (r: Result<(), String>)
        requires
            job@.profile == old(self).profile(),
        ensures
            final(self).follows(old(self)),
            forall|h: Seq<Exchange>|
                extends(h, final(self).history()) ==> #[trigger] probe_between_talk(
                    job@,
                    h,
                    Point { at: old(self).at(), events: old(sink).seen(), sent: sent@ },
                ) == Some(
                    (
                        Point {
                            at: final(self).at(),
                            events: final(sink).seen(),
                            sent: sent@,
                        },
                        done(r),
                    ),
                ),
    {
        reveal(probe_between_talk);
        self.pause(UPDATER_PROBE_DELAY);
        sink.emit(
            BurnEvent::Stage("Probe bootloader between updater components".to_string()),
        );
        match self.get_hwinfo() {
            Ok(_) => Ok(()),
            Err(e) => {
                let mut why = "Bootloader probe between updater components failed: ".to_string();
                why.append(e.as_str());
                Err(why)
            },
        }
    }

    /// Waits for the device to return after the updater stage, and probes it.
    fn await_return<C: BurnSink>(
        &mut self,
        timeout: u64,
        sink: &mut C,
        job: Ghost<Job>,
        sent: Ghost<int>,
    ) -> (r: Result<(), String>)
        requires
            job@.profile == old(self).profile(),
        ensures
            final(self).follows(old(self)),
            forall|h: Seq<Exchange>|
                extends(h, final(self).history()) ==> #[trigger] return_talk(
                    job@,
                    timeout,
                    h,
                    Point { at: old(self).at(), events: old(sink).seen(), sent: sent@ },
                ) == Some(
                    (
                        Point {
                            at: final(self).at(),
                            events: final(sink).seen(),
                            sent: sent@,
                        },
                        done(r),
                    ),
                ),
    {
        reveal(return_talk);
        sink.emit(BurnEvent::Stage("Wait for bootloader reconnect".to_string()));
        match self.reconnect(timeout) {
            Ok(()) => {},
            Err(e) => {
                let mut warning = "Warning: updater reconnect was not observed: ".to_string();
                warning.append(e.as_str());
                sink.emit(BurnEvent::Log(warning));
            },
        }
        sink.emit(BurnEvent::Stage("Probe bootloader after reconnect".to_string()));
        match self.get_hwinfo() {
            Ok(_) => Ok(()),
            Err(e) => {
                let mut why = "Bootloader probe after reconnect failed: ".to_string();
                why.append(e.as_str());
                Err(why)
            },
        }
    }

    /// Sends the updater components.
    fn send_updaters<C: BurnSink>(
        &mut self,
        img_data: &[u8],
        plan: &[FirmwareComponent<'_>],
        updater_count: usize,
        overall_sent: &mut usize,
        overall_total: usize,
        sink: &mut C,
        job: Ghost<Job>,
    ) -> (r: Result<(), String>)
        requires
            job@ == job_of(old(self), img_data@, job@.metas, job@.parts),
            plan_of(plan@, job@.metas, job@.parts),
            overall_total == job@.total(),
            updater_count == updaters_from(job@.metas, 0),
            *old(overall_sent) + kind_bytes(job@.metas, job@.parts, ComponentKind::Updater, 0) <= usize::MAX,
        ensures
            final(self).follows(old(self)),
            *old(overall_sent) <= *final(overall_sent) <= *old(overall_sent) + kind_bytes(job@.metas, job@.parts, ComponentKind::Updater, 0),
            forall|h: Seq<Exchange>|
                extends(h, final(self).history()) ==> #[trigger] updaters_talk(
                    job@,
                    0,
                    h,
                    Point {
                        at: old(self).at(),
                        events: old(sink).seen(),
                        sent: *old(overall_sent) as int,
                    },
                ) == Some(
                    (
                        Point {
                            at: final(self).at(),
                            events: final(sink).seen(),
                            sent: *final(overall_sent) as int,
                        },
                        done(r),
                    ),
                ),
    {
        let ghost start = Point {
            at: self.at(),
            events: sink.seen(),
            sent: *overall_sent as int,
        };
        let mut left: usize = updater_count;
        let mut k: usize = 0;
        while k < plan.len()
            invariant
                job@ == job_of(self, img_data@, job@.metas, job@.parts),
                plan_of(plan@, job@.metas, job@.parts),
                overall_total == job@.total(),
                k <= plan@.len(),
                self.follows(old(self)),
                start == (Point {
                    at: old(self).at(),
                    events: old(sink).seen(),
                    sent: *old(overall_sent) as int,
                }),
                left == updaters_from(job@.metas, k as int),
                *old(overall_sent) <= *overall_sent,
                *overall_sent + kind_bytes(job@.metas, job@.parts, ComponentKind::Updater, k as int) <= *old(overall_sent) + kind_bytes(job@.metas, job@.parts, ComponentKind::Updater, 0),
                *old(overall_sent) + kind_bytes(job@.metas, job@.parts, ComponentKind::Updater, 0) <= usize::MAX,
                forall|h: Seq<Exchange>|
                    extends(h, self.history()) ==> #[trigger] updaters_talk(job@, 0, h, start)
                        == updaters_talk(
                        job@,
                        k as int,
                        h,
                        Point {
                            at: self.at(),
                            events: sink.seen(),
                            sent: *overall_sent as int,
                        },
                    ),
            decreases plan.len() - k,
        {
            proof {
                lemma_kinds_within_total(job@.metas, job@.parts, k as int + 1);
                lemma_updaters_bound(job@.metas, k as int + 1);
                assert(*plan@[k as int].meta == job@.metas[k as int]);
            }
            if plan[k].kind == ComponentKind::Updater {
                left = left - 1;
                match self.send_component(
                    img_data,
                    &plan[k],
                    left == 0,
                    overall_sent,
                    overall_total,
                    sink,
                    job,
                ) {
                    Ok(()) => {},
                    Err(e) => {
                        return Err(e);
                    },
                }
                if left > 0 {
                    match self.probe_between(sink, job, Ghost(*overall_sent as int)) {
                        Ok(()) => {},
                        Err(e) => {
                            return Err(e);
                        },
                    }
                }
            }
            k = k + 1;
        }
        Ok(())
    }

    /// Sends the chosen targets.
    fn send_targets<C: BurnSink>(
        &mut self,
        img_data: &[u8],
        plan: &[FirmwareComponent<'_>],
        overall_sent: &mut usize,
        overall_total: usize,
        sink: &mut C,
        job: Ghost<Job>,
    ) -> (r: Result<(), String>)
        requires
            job@ == job_of(old(self), img_data@, job@.metas, job@.parts),
            plan_of(plan@, job@.metas, job@.parts),
            overall_total == job@.total(),
            *old(overall_sent) + kind_bytes(job@.metas, job@.parts, ComponentKind::Target, 0) <= usize::MAX,
        ensures
            final(self).follows(old(self)),
            *old(overall_sent) <= *final(overall_sent) <= *old(overall_sent) + kind_bytes(job@.metas, job@.parts, ComponentKind::Target, 0),
            forall|h: Seq<Exchange>|
                extends(h, final(self).history()) ==> #[trigger] targets_talk(
                    job@,
                    0,
                    h,
                    Point {
                        at: old(self).at(),
                        events: old(sink).seen(),
                        sent: *old(overall_sent) as int,
                    },
                ) == Some(
                    (
                        Point {
                            at: final(self).at(),
                            events: final(sink).seen(),
                            sent: *final(overall_sent) as int,
                        },
                        done(r),
                    ),
                ),
    {
        let ghost start = Point {
            at: self.at(),
            events: sink.seen(),
            sent: *overall_sent as int,
        };
        let mut k: usize = 0;
        while k < plan.len()
            invariant
                job@ == job_of(self, img_data@, job@.metas, job@.parts),
                plan_of(plan@, job@.metas, job@.parts),
                overall_total == job@.total(),
                k <= plan@.len(),
                self.follows(old(self)),
                start == (Point {
                    at: old(self).at(),
                    events: old(sink).seen(),
                    sent: *old(overall_sent) as int,
                }),
                *old(overall_sent) <= *overall_sent,
                *overall_sent + kind_bytes(job@.metas, job@.parts, ComponentKind::Target, k as int) <= *old(overall_sent) + kind_bytes(job@.metas, job@.parts, ComponentKind::Target, 0),
                *old(overall_sent) + kind_bytes(job@.metas, job@.parts, ComponentKind::Target, 0) <= usize::MAX,
                forall|h: Seq<Exchange>|
                    extends(h, self.history()) ==> #[trigger] targets_talk(job@, 0, h, start)
                        == targets_talk(
                        job@,
                        k as int,
                        h,
                        Point {
                            at: self.at(),
                            events: sink.seen(),
                            sent: *overall_sent as int,
                        },
                    ),
            decreases plan.len() - k,
        {
            proof {
                lemma_kinds_within_total(job@.metas, job@.parts, k as int + 1);
                assert(*plan@[k as int].meta == job@.metas[k as int]);
            }
            if plan[k].kind == ComponentKind::Target && plan[k].selected {
                match self.send_component(
                    img_data,
                    &plan[k],
                    false,
                    overall_sent,
                    overall_total,
                    sink,
                    job,
                ) {
                    Ok(()) => {},
                    Err(e) => {
                        return Err(e);
                    },
                }
            }
            k = k + 1;
        }
        Ok(())
    }

    /// Runs the updater stage, where the image has one.
    fn run_updater_stage<C: BurnSink>(
        &mut self,
        img_data: &[u8],
        plan: &[FirmwareComponent<'_>],
        timeout: u64,
        overall_sent: &mut usize,
        overall_total: usize,
        sink: &mut C,
        job: Ghost<Job>,
    ) -> (r: Result<(), String>)
        requires
            job@ == job_of(old(self), img_data@, job@.metas, job@.parts),
            plan_of(plan@, job@.metas, job@.parts),
            overall_total == job@.total(),
            *old(overall_sent) + kind_bytes(job@.metas, job@.parts, ComponentKind::Updater, 0) <= usize::MAX,
        ensures
            final(self).follows(old(self)),
            *old(overall_sent) <= *final(overall_sent) <= *old(overall_sent) + kind_bytes(job@.metas, job@.parts, ComponentKind::Updater, 0),
            forall|h: Seq<Exchange>|
                extends(h, final(self).history()) ==> #[trigger] updater_stage(
                    job@,
                    timeout,
                    h,
                    Point {
                        at: old(self).at(),
                        events: old(sink).seen(),
                        sent: *old(overall_sent) as int,
                    },
                ) == Some(
                    (
                        Point {
                            at: final(self).at(),
                            events: final(sink).seen(),
                            sent: *final(overall_sent) as int,
                        },
                        done(r),
                    ),
                ),
    {
        reveal(updater_stage);
        let count: usize = count_updaters(plan, Ghost(job@.metas), Ghost(job@.parts));
        proof {
            lemma_kinds_within_total(job@.metas, job@.parts, 0);
        }
        if count == 0 {
            return Ok(());
        }
        sink.emit(BurnEvent::Stage("Send updater components".to_string()));
        match self.send_updaters(
            img_data,
            plan,
            count,
            overall_sent,
            overall_total,
            sink,
            job,
        ) {
            Ok(()) => {},
            Err(e) => {
                return Err(e);
            },
        }
        self.await_return(timeout, sink, job, Ghost(*overall_sent as int))
    }

    /// Chooses the upgrade mode and sends the image description, where the image has one.
    fn run_mode_stage<C: BurnSink>(
        &mut self,
        img_data: &[u8],
        plan: &[FirmwareComponent<'_>],
        overall_sent: &mut usize,
        overall_total: usize,
        sink: &mut C,
        job: Ghost<Job>,
    ) -> (r: Result<(), String>)
        requires
            job@ == job_of(old(self), img_data@, job@.metas, job@.parts),
            plan_of(plan@, job@.metas, job@.parts),
            overall_total == job@.total(),
            *old(overall_sent) + kind_bytes(job@.metas, job@.parts, ComponentKind::ImageInfo, 0) <= usize::MAX,
        ensures
            final(self).follows(old(self)),
            *old(overall_sent) <= *final(overall_sent) <= *old(overall_sent) + kind_bytes(job@.metas, job@.parts, ComponentKind::ImageInfo, 0),
            forall|h: Seq<Exchange>|
                extends(h, final(self).history()) ==> #[trigger] mode_stage(
                    job@,
                    h,
                    Point {
                        at: old(self).at(),
                        events: old(sink).seen(),
                        sent: *old(overall_sent) as int,
                    },
                ) == Some(
                    (
                        Point {
                            at: final(self).at(),
                            events: final(sink).seen(),
                            sent: *final(overall_sent) as int,
                        },
                        done(r),
                    ),
                ),
    {
        reveal(mode_stage);
        proof {
            lemma_info_counted(job@.metas, job@.parts, 0);
            lemma_kinds_within_total(job@.metas, job@.parts, 0);
        }
        sink.emit(BurnEvent::Stage("Set full-disk upgrade mode".to_string()));
        match self.set_full_disk_mode() {
            Ok(()) => {},
            Err(e) => {
                return Err(e);
            },
        }
        match find_info(plan, Ghost(job@.metas), Ghost(job@.parts)) {
            Some(k) => {
                assert(*plan@[k as int].meta == job@.metas[k as int]);
                self.send_component(
                    img_data,
                    &plan[k],
                    false,
                    overall_sent,
                    overall_total,
                    sink,
                    job,
                )
            },
            None => {
                sink.emit(
                    BurnEvent::Log("Warning: no image.info component found".to_string()),
                );
                Ok(())
            },
        }
    }

    /// Sends the chosen targets; there must be one.
    fn run_target_stage<C: BurnSink>(
        &mut self,
        img_data: &[u8],
        plan: &[FirmwareComponent<'_>],
        overall_sent: &mut usize,
        overall_total: usize,
        sink: &mut C,
        job: Ghost<Job>,
    ) -> (r: Result<(), String>)
        requires
            job@ == job_of(old(self), img_data@, job@.metas, job@.parts),
            plan_of(plan@, job@.metas, job@.parts),
            overall_total == job@.total(),
            *old(overall_sent) + kind_bytes(job@.metas, job@.parts, ComponentKind::Target, 0) <= usize::MAX,
        ensures
            final(self).follows(old(self)),
            *old(overall_sent) <= *final(overall_sent) <= *old(overall_sent) + kind_bytes(job@.metas, job@.parts, ComponentKind::Target, 0),
            forall|h: Seq<Exchange>|
                extends(h, final(self).history()) ==> #[trigger] target_stage(
                    job@,
                    h,
                    Point {
                        at: old(self).at(),
                        events: old(sink).seen(),
                        sent: *old(overall_sent) as int,
                    },
                ) == Some(
                    (
                        Point {
                            at: final(self).at(),
                            events: final(sink).seen(),
                            sent: *final(overall_sent) as int,
                        },
                        done(r),
                    ),
                ),
    {
        reveal(target_stage);
        proof {
            lemma_kinds_within_total(job@.metas, job@.parts, 0);
        }
        if !has_target(plan, Ghost(job@.metas), Ghost(job@.parts)) {
            return Err("No selected target components to burn".to_string());
        }
        self.send_targets(img_data, plan, overall_sent, overall_total, sink, job)
    }

    /// Ends the upgrade, and resets the device where that is wanted.
    fn run_end_stage<C: BurnSink>(
        &mut self,
        reset: bool,
        sink: &mut C,
        job: Ghost<Job>,
        sent: Ghost<int>,
    ) -> (r: Result<(), String>)
        requires
            job@.profile == old(self).profile(),
        ensures
            final(self).follows(old(self)),
            forall|h: Seq<Exchange>|
                extends(h, final(self).history()) ==> #[trigger] end_stage(
                    job@,
                    reset,
                    h,
                    Point { at: old(self).at(), events: old(sink).seen(), sent: sent@ },
                ) == Some(
                    (
                        Point {
                            at: final(self).at(),
                            events: final(sink).seen(),
                            sent: sent@,
                        },
                        done(r),
                    ),
                ),
    {
        reveal(end_stage);
        sink.emit(BurnEvent::Stage("End upgrade".to_string()));
        match self.set_upg_end() {
            Ok(()) => {},
            Err(e) => {
                return Err(e);
            },
        }
        if reset {
            sink.emit(BurnEvent::Stage("Reset device".to_string()));
            match self.reset() {
                Ok(()) => {},
                Err(e) => {
                    let mut warning = "Warning: reset failed: ".to_string();
                    warning.append(e.as_str());
                    sink.emit(BurnEvent::Log(warning));
                },
            }
        }
        sink.emit(BurnEvent::Finished);
        Ok(())
    }

    /// Burns `metas` out of the image: the updater first, where there is one, then the image
    /// description and the chosen targets.
    pub fn burn_image_with_options<C: BurnSink>(
        &mut self,
        img_data: &[u8],
        metas: &[FwcMeta],
        options: &BurnOptions,
        sink: &mut C,
    ) -> (r: Result<(), String>)
        requires
            total_bytes(metas@, string_texts(options.selected_parts@), 0) <= usize::MAX,
        ensures
            burned(
                old(self),
                final(self),
                img_data@,
                metas@,
                string_texts(options.selected_parts@),
                options.burn_timeout,
                options.reset_after_burn,
                old(sink).seen(),
                final(sink).seen(),
                done(r),
            ),
    {
        let ghost parts = string_texts(options.selected_parts@);
        let job: Ghost<Job> = Ghost(job_of(self, img_data@, metas@, parts));
        let plan_vec = classify_components(metas, options.selected_parts.as_slice());
        let plan = plan_vec.as_slice();
        sink.emit(BurnEvent::Stage("Build component plan".to_string()));
        let total: usize = planned_bytes(plan, Ghost(metas@), Ghost(parts));
        proof {
            lemma_kinds_within_total(metas@, parts, 0);
        }
        let mut overall_sent: usize = 0;
        match self.run_updater_stage(
            img_data,
            plan,
            options.burn_timeout,
            &mut overall_sent,
            total,
            sink,
            job,
        ) {
            Ok(()) => {},
            Err(e) => {
                return Err(e);
            },
        }
        match self.run_mode_stage(img_data, plan, &mut overall_sent, total, sink, job) {
            Ok(()) => {},
            Err(e) => {
                return Err(e);
            },
        }
        match self.run_target_stage(img_data, plan, &mut overall_sent, total, sink, job) {
            Ok(()) => {},
            Err(e) => {
                return Err(e);
            },
        }
        self.run_end_stage(
            options.reset_after_burn,
            sink,
            job,
            Ghost(overall_sent as int),
        )
    }

    /// Burns `metas` out of the image with the usual options, reporting to nobody.
    pub fn burn_image(&mut self, img_data: &[u8], metas: &[FwcMeta]) -> (r: Result<(), String>)
        requires
            total_bytes(metas@, usual_parts(), 0) <= usize::MAX,
        ensures
            plainly_burned(old(self), final(self), img_data@, metas@, done(r)),
    {
        let options = BurnOptions::default();
        let mut sink = Quiet::new();
        self.burn_image_with_options(img_data, metas, &options, &mut sink)
    }
}

/// Reports the end of a component whose data has the checksum `actual_crc`.
fn report_component_end<C: BurnSink>(
    meta: &FwcMeta,
    actual_crc: u32,
    sink: &mut C,
    at: Ghost<int>,
    sent: Ghost<int>,
)
    ensures
        (Point { at: at@, events: final(sink).seen(), sent: sent@ }) == component_end(
            Point { at: at@, events: old(sink).seen(), sent: sent@ },
            *meta,
            actual_crc,
        ),
{
    match crc_note(meta.name_str(), meta.crc_val(), actual_crc) {
        Some(note) => sink.emit(BurnEvent::Log(note)),
        None => {},
    }
    sink.emit(BurnEvent::ComponentFinished { name: meta.name_str().to_string() });
}

/// What is said of a component whose data does not lie in the image.
fn out_of_image(meta: &FwcMeta, image_len: usize) -> (s: String)
    ensures
        s@ == out_of_image_text(*meta, image_len as nat),
{
    let mut s = meta.name_str().to_string();
    s.append(" image range out of bounds: offset=0x");
    push_hex(&mut s, meta.offset_val() as u64, 0);
    s.append(", size=");
    push_dec(&mut s, meta.size_val() as u64);
    s.append(", image_len=");
    push_dec(&mut s, image_len as u64);
    s
}

} // verus!
