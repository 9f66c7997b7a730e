//! Which components of an image are sent, and what is reported while they are.
use vstd::prelude::*;

use crate::protocol::commands::FwcMeta;
use crate::text::{begins, drop_prefix, same_str, str_starts_with, string_texts, without_prefix};

verus! {

/// What a burn may choose.
#[derive(Clone, Debug)]
pub struct BurnOptions {
    /// The partitions to write.
    pub selected_parts: Vec<String>,
    pub reset_after_burn: bool,
    /// How long the device may stay away after the updater stage, in milliseconds.
    pub burn_timeout: u64,
}

/// The partitions that are written where nothing else is chosen.
pub open spec fn usual_parts() -> Seq<Seq<char>> {
    seq!["spl"@, "env"@, "os"@]
}

impl Default for BurnOptions {
    fn default() -> (options: Self)
        ensures
            string_texts(options.selected_parts@) == usual_parts(),
            options.reset_after_burn,
            options.burn_timeout == 60_000,
    {
        let mut selected_parts: Vec<String> = Vec::new();
        selected_parts.push("spl".to_string());
        selected_parts.push("env".to_string());
        selected_parts.push("os".to_string());
        assert(string_texts(selected_parts@) =~= seq!["spl"@, "env"@, "os"@]);
        BurnOptions { selected_parts, reset_after_burn: true, burn_timeout: 60_000 }
    }
}

/// What a burn reports on its way.
#[derive(Clone, Debug)]
pub enum BurnEvent<S = String> {
    Log(S),
    Stage(S),
    ComponentStarted { name: S, partition: S, size: usize },
    ComponentProgress { name: S, sent: usize, total: usize },
    OverallProgress { sent: usize, total: usize },
    ComponentFinished { name: S },
    Finished,
}

/// A report, with texts as sequences of characters.
pub type Event = BurnEvent<Seq<char>>;

impl View for BurnEvent {
    type V = Event;

    open spec fn view(&self) -> Event {
        match *self {
            BurnEvent::Log(s) => BurnEvent::Log(s@),
            BurnEvent::Stage(s) => BurnEvent::Stage(s@),
            BurnEvent::ComponentStarted { name, partition, size } => BurnEvent::ComponentStarted {
                name: name@,
                partition: partition@,
                size,
            },
            BurnEvent::ComponentProgress { name, sent, total } => BurnEvent::ComponentProgress {
                name: name@,
                sent,
                total,
            },
            BurnEvent::OverallProgress { sent, total } => BurnEvent::OverallProgress {
                sent,
                total,
            },
            BurnEvent::ComponentFinished { name } => BurnEvent::ComponentFinished { name: name@ },
            BurnEvent::Finished => BurnEvent::Finished,
        }
    }
}

/// Whoever listens to a burn.
pub trait BurnSink {
    /// The reports received so far.
    ///
    /// Left as it stands here by a sink in ordinary code; a verified one replaces it.
    open spec fn seen(&self) -> Seq<Event> {
        Seq::empty()
    }

    fn emit(&mut self, event: BurnEvent)
        ensures
            final(self).seen() == old(self).seen().push(event@),
    ;
}

/// The reports that a vector holds.
pub open spec fn events(list: Seq<BurnEvent>) -> Seq<Event> {
    Seq::new(list.len(), |i: int| list[i]@)
}

impl BurnSink for Vec<BurnEvent> {
    open spec fn seen(&self) -> Seq<Event> {
        events(self@)
    }

    fn emit(&mut self, event: BurnEvent) {
        self.push(event);
        assert(events(self@) =~= events(old(self)@).push(event@));
    }
}

/// A listener that forgets what it hears.
pub struct Quiet {
    heard: Ghost<Seq<Event>>,
}

impl Quiet {
    /// A sink that has heard nothing.
    pub fn new() -> (sink: Self)
        ensures
            sink.seen() == Seq::<Event>::empty(),
    {
        Quiet { heard: Ghost(Seq::empty()) }
    }
}

impl BurnSink for Quiet {
    closed spec fn seen(&self) -> Seq<Event> {
        self.heard@
    }

    fn emit(&mut self, event: BurnEvent) {
        self.heard = Ghost(self.heard@.push(event@));
    }
}

/// The part that a component plays in a burn.
#[derive(Clone, Copy, Debug, Eq, PartialEq, Structural)]
pub enum ComponentKind {
    Updater,
    ImageInfo,
    Target,
    Other,
}

/// A component with its part in the burn.
pub struct FirmwareComponent<'a> {
    pub meta: &'a FwcMeta,
    pub kind: ComponentKind,
    pub selected: bool,
}

/// The part that a component of this name plays.
pub open spec fn kind_of(name: Seq<char>) -> ComponentKind {
    if begins(name, "image.updater."@) {
        ComponentKind::Updater
    } else if name == "image.info"@ {
        ComponentKind::ImageInfo
    } else if begins(name, "image.target."@) {
        ComponentKind::Target
    } else {
        ComponentKind::Other
    }
}

/// Whether a target is chosen: by its partition, by its name, or by its name without the
/// common front part.
pub open spec fn part_chosen(meta: FwcMeta, parts: Seq<Seq<char>>) -> bool {
    exists|i: int|
        0 <= i < parts.len() && (#[trigger] parts[i] == meta.partition@ || parts[i]
            == without_prefix(meta.name@, "image.target."@) || parts[i] == meta.name@)
}

/// Whether a component takes part in a burn of `parts`. Only targets are chosen from.
pub open spec fn takes_part(meta: FwcMeta, parts: Seq<Seq<char>>) -> bool {
    kind_of(meta.name@) != ComponentKind::Target || part_chosen(meta, parts)
}

/// Whether `plan` gives every component of `metas` its part.
pub open spec fn plan_of(
    plan: Seq<FirmwareComponent<'_>>,
    metas: Seq<FwcMeta>,
    parts: Seq<Seq<char>>,
) -> bool {
    &&& plan.len() == metas.len()
    &&& forall|i: int|
        0 <= i < plan.len() ==> {
            &&& *(#[trigger] plan[i]).meta == metas[i]
            &&& plan[i].kind == kind_of(metas[i].name@)
            &&& plan[i].selected == takes_part(metas[i], parts)
        }
}

/// Whether a target is chosen by one of `selected_parts`.
pub fn target_part_selected(meta: &FwcMeta, selected_parts: &[String]) -> (r: bool)
    ensures
        r == part_chosen(*meta, string_texts(selected_parts@)),
{
    let target_name = drop_prefix(meta.name_str(), "image.target.");
    let ghost parts = string_texts(selected_parts@);
    let mut i: usize = 0;
    while i < selected_parts.len()
        invariant
            i <= selected_parts.len(),
            parts == string_texts(selected_parts@),
            target_name@ == without_prefix(meta.name@, "image.target."@),
            forall|j: int|
                0 <= j < i ==> (#[trigger] parts[j]) != meta.partition@ && parts[j]
                    != target_name@ && parts[j] != meta.name@,
        decreases selected_parts.len() - i,
    {
        let part = selected_parts[i].as_str();
        assert(parts[i as int] == part@);
        if same_str(part, meta.partition_str()) || same_str(part, target_name.as_str())
            || same_str(part, meta.name_str()) {
            return true;
        }
        i = i + 1;
    }
    false
}

/// The part that a component of this name plays.
pub fn component_kind(name: &str) -> (kind: ComponentKind)
    ensures
        kind == kind_of(name@),
{
    if str_starts_with(name, "image.updater.") {
        ComponentKind::Updater
    } else if same_str(name, "image.info") {
        ComponentKind::ImageInfo
    } else if str_starts_with(name, "image.target.") {
        ComponentKind::Target
    } else {
        ComponentKind::Other
    }
}

/// Gives every component its part.
pub fn classify_components<'a>(metas: &'a [FwcMeta], selected_parts: &[String]) -> (plan: Vec<
    FirmwareComponent<'a>,
>)
    ensures
        plan_of(plan@, metas@, string_texts(selected_parts@)),
{
    let mut plan: Vec<FirmwareComponent<'a>> = Vec::new();
    let mut i: usize = 0;
    while i < metas.len()
        invariant
            i <= metas.len(),
            plan_of(plan@, metas@.take(i as int), string_texts(selected_parts@)),
        decreases metas.len() - i,
    {
        let meta = &metas[i];
        let kind = component_kind(meta.name_str());
        let selected = kind != ComponentKind::Target || target_part_selected(meta, selected_parts);
        plan.push(FirmwareComponent { meta, kind, selected });
        i = i + 1;
    }
    assert(metas@.take(metas.len() as int) =~= metas@);
    plan
}

/// Whether the progress of a burn counts this component.
pub open spec fn counts(meta: FwcMeta, parts: Seq<Seq<char>>) -> bool {
    kind_of(meta.name@) == ComponentKind::ImageInfo || takes_part(meta, parts)
}

/// The bytes that the progress of a burn counts, from component `k` on.
pub open spec fn total_bytes(metas: Seq<FwcMeta>, parts: Seq<Seq<char>>, k: int) -> int
    decreases metas.len() - k,
{
    if 0 <= k < metas.len() {
        (if counts(metas[k], parts) {
            metas[k].size as int
        } else {
            0
        }) + total_bytes(metas, parts, k + 1)
    } else {
        0
    }
}

/// The bytes of the components of one kind that take part, from component `k` on.
pub open spec fn kind_bytes(
    metas: Seq<FwcMeta>,
    parts: Seq<Seq<char>>,
    kind: ComponentKind,
    k: int,
) -> int
    decreases metas.len() - k,
{
    if 0 <= k < metas.len() {
        (if kind_of(metas[k].name@) == kind && takes_part(metas[k], parts) {
            metas[k].size as int
        } else {
            0
        }) + kind_bytes(metas, parts, kind, k + 1)
    } else {
        0
    }
}

/// What is sent is part of what is counted.
pub proof fn lemma_kinds_within_total(metas: Seq<FwcMeta>, parts: Seq<Seq<char>>, k: int)
    requires
        0 <= k,
    ensures
        0 <= kind_bytes(metas, parts, ComponentKind::Updater, k),
        0 <= kind_bytes(metas, parts, ComponentKind::ImageInfo, k),
        0 <= kind_bytes(metas, parts, ComponentKind::Target, k),
        kind_bytes(metas, parts, ComponentKind::Updater, k) + kind_bytes(
            metas,
            parts,
            ComponentKind::ImageInfo,
            k,
        ) + kind_bytes(metas, parts, ComponentKind::Target, k) <= total_bytes(metas, parts, k),
    decreases metas.len() - k,
{
    if k < metas.len() {
        lemma_kinds_within_total(metas, parts, k + 1);
    }
}

/// The bytes that the progress of a burn counts.
pub(crate) fn planned_bytes(
    plan: &[FirmwareComponent<'_>],
    metas: Ghost<Seq<FwcMeta>>,
    parts: Ghost<Seq<Seq<char>>>,
) -> (n: usize)
    requires
        plan_of(plan@, metas@, parts@),
        total_bytes(metas@, parts@, 0) <= usize::MAX,
    ensures
        n == total_bytes(metas@, parts@, 0),
{
    let mut n: usize = 0;
    let mut k: usize = 0;
    while k < plan.len()
        invariant
            k <= plan.len(),
            plan_of(plan@, metas@, parts@),
            n + total_bytes(metas@, parts@, k as int) == total_bytes(metas@, parts@, 0),
            total_bytes(metas@, parts@, 0) <= usize::MAX,
        decreases plan.len() - k,
    {
        proof {
            lemma_kinds_within_total(metas@, parts@, k as int + 1);
        }
        let c = &plan[k];
        assert(plan@[k as int].meta == metas@[k as int]);
        if c.kind == ComponentKind::ImageInfo || c.selected {
            n = n + c.meta.size_val() as usize;
        }
        k = k + 1;
    }
    n
}

/// How many components from `k` on belong to the updater.
pub open spec fn updaters_from(metas: Seq<FwcMeta>, k: int) -> int
    decreases metas.len() - k,
{
    if 0 <= k < metas.len() {
        (if kind_of(metas[k].name@) == ComponentKind::Updater {
            1int
        } else {
            0int
        }) + updaters_from(metas, k + 1)
    } else {
        0
    }
}

/// There are no more updaters from `k` on than components.
pub proof fn lemma_updaters_bound(metas: Seq<FwcMeta>, k: int)
    requires
        0 <= k <= metas.len(),
    ensures
        0 <= updaters_from(metas, k) <= metas.len() - k,
    decreases metas.len() - k,
{
    if k < metas.len() {
        lemma_updaters_bound(metas, k + 1);
    }
}

/// How many components belong to the updater.
pub(crate) fn count_updaters(
    plan: &[FirmwareComponent<'_>],
    metas: Ghost<Seq<FwcMeta>>,
    parts: Ghost<Seq<Seq<char>>>,
) -> (n: usize)
    requires
        plan_of(plan@, metas@, parts@),
    ensures
        n == updaters_from(metas@, 0),
{
    let mut n: usize = 0;
    let mut k: usize = 0;
    while k < plan.len()
        invariant
            n <= k <= plan.len(),
            plan_of(plan@, metas@, parts@),
            n + updaters_from(metas@, k as int) == updaters_from(metas@, 0),
        decreases plan.len() - k,
    {
        assert(plan@[k as int].kind == kind_of(metas@[k as int].name@));
        if plan[k].kind == ComponentKind::Updater {
            n = n + 1;
        }
        k = k + 1;
    }
    n
}

/// The first image description from component `k` on.
pub open spec fn info_from(metas: Seq<FwcMeta>, k: int) -> Option<int>
    decreases metas.len() - k,
{
    if 0 <= k < metas.len() {
        if kind_of(metas[k].name@) == ComponentKind::ImageInfo {
            Some(k)
        } else {
            info_from(metas, k + 1)
        }
    } else {
        None
    }
}

/// The first image description is one of the components, and what it holds is counted.
pub proof fn lemma_info_counted(metas: Seq<FwcMeta>, parts: Seq<Seq<char>>, k: int)
    requires
        0 <= k,
    ensures
        match info_from(metas, k) {
            Some(i) => k <= i < metas.len() && kind_of(metas[i].name@) == ComponentKind::ImageInfo
                && metas[i].size <= kind_bytes(metas, parts, ComponentKind::ImageInfo, k),
            None => true,
        },
    decreases metas.len() - k,
{
    if k < metas.len() {
        lemma_info_counted(metas, parts, k + 1);
        lemma_kinds_within_total(metas, parts, k + 1);
    }
}

/// The first image description.
pub(crate) fn find_info(
    plan: &[FirmwareComponent<'_>],
    metas: Ghost<Seq<FwcMeta>>,
    parts: Ghost<Seq<Seq<char>>>,
) -> (r: Option<usize>)
    requires
        plan_of(plan@, metas@, parts@),
    ensures
        match r {
            Some(i) => i < plan@.len() && info_from(metas@, 0) == Some(i as int),
            None => info_from(metas@, 0) is None,
        },
{
    let mut k: usize = 0;
    while k < plan.len()
        invariant
            k <= plan.len(),
            plan_of(plan@, metas@, parts@),
            info_from(metas@, k as int) == info_from(metas@, 0),
        decreases plan.len() - k,
    {
        assert(plan@[k as int].kind == kind_of(metas@[k as int].name@));
        if plan[k].kind == ComponentKind::ImageInfo {
            return Some(k);
        }
        k = k + 1;
    }
    None
}

/// Whether a component is a target that takes part.
pub open spec fn is_chosen_target(meta: FwcMeta, parts: Seq<Seq<char>>) -> bool {
    kind_of(meta.name@) == ComponentKind::Target && takes_part(meta, parts)
}

/// Whether any target takes part.
pub open spec fn any_target(metas: Seq<FwcMeta>, parts: Seq<Seq<char>>) -> bool {
    exists|i: int| 0 <= i < metas.len() && is_chosen_target(#[trigger] metas[i], parts)
}

/// Whether any target takes part.
pub(crate) fn has_target(
    plan: &[FirmwareComponent<'_>],
    metas: Ghost<Seq<FwcMeta>>,
    parts: Ghost<Seq<Seq<char>>>,
) -> (r: bool)
    requires
        plan_of(plan@, metas@, parts@),
    ensures
        r == any_target(metas@, parts@),
{
    let mut k: usize = 0;
    while k < plan.len()
        invariant
            k <= plan.len(),
            plan_of(plan@, metas@, parts@),
            forall|i: int| 0 <= i < k ==> !is_chosen_target(#[trigger] metas@[i], parts@),
        decreases plan.len() - k,
    {
        assert(plan@[k as int].kind == kind_of(metas@[k as int].name@));
        if plan[k].kind == ComponentKind::Target && plan[k].selected {
            assert(is_chosen_target(metas@[k as int], parts@));
            return true;
        }
        k = k + 1;
    }
    false
}

} // verus!
