//! The choice of the partitions to burn.
use vstd::prelude::*;

use crate::text::{begins, drop_prefix, same_str, str_starts_with, string_texts, without_prefix};

verus! {

/// A component of an image as the windows show it.
#[derive(Clone, Debug)]
pub struct MetaSummary {
    pub name: String,
    pub partition: String,
    pub size: u32,
    pub offset: u32,
    pub crc: u32,
}

/// The name by which a component is chosen.
pub open spec fn key_of(meta: MetaSummary) -> Seq<char> {
    without_prefix(meta.name@, "image.target."@)
}

/// Whether a component can be chosen.
pub open spec fn is_target(meta: MetaSummary) -> bool {
    begins(meta.name@, "image.target."@)
}

/// Whether a name in the choice is about a component.
pub open spec fn names(part: Seq<char>, meta: MetaSummary) -> bool {
    part == key_of(meta) || part == meta.partition@ || part == meta.name@
}

/// Whether a component is ticked: those that cannot be chosen always are.
pub open spec fn ticked(meta: MetaSummary, parts: Seq<Seq<char>>) -> bool {
    !is_target(meta) || exists|i: int| 0 <= i < parts.len() && names(#[trigger] parts[i], meta)
}

/// The choice without the names that are about a component.
pub open spec fn without_meta(parts: Seq<Seq<char>>, meta: MetaSummary) -> Seq<Seq<char>>
    decreases parts.len(),
{
    if parts.len() == 0 {
        Seq::empty()
    } else {
        let front = without_meta(parts.drop_last(), meta);
        if names(parts.last(), meta) {
            front
        } else {
            front.push(parts.last())
        }
    }
}

/// The choice after a component was ticked or not.
pub open spec fn chosen(parts: Seq<Seq<char>>, meta: MetaSummary, on: bool) -> Seq<Seq<char>> {
    if on {
        if parts.contains(key_of(meta)) {
            parts
        } else {
            parts.push(key_of(meta))
        }
    } else {
        without_meta(parts, meta)
    }
}

/// The name by which a component is chosen.
pub fn part_key(meta: &MetaSummary) -> (s: String)
    ensures
        s@ == key_of(*meta),
{
    drop_prefix(meta.name.as_str(), "image.target.")
}

/// Whether a component can be chosen.
pub fn can_be_chosen(meta: &MetaSummary) -> (r: bool)
    ensures
        r == is_target(*meta),
{
    str_starts_with(meta.name.as_str(), "image.target.")
}

/// Whether a name in the choice is about a component.
fn is_about(part: &str, meta: &MetaSummary, key: &str) -> (r: bool)
    requires
        key@ == key_of(*meta),
    ensures
        r == names(part@, *meta),
{
    same_str(part, key) || same_str(part, meta.partition.as_str()) || same_str(
        part,
        meta.name.as_str(),
    )
}

/// Whether a component is ticked.
pub fn is_ticked(meta: &MetaSummary, parts: &Vec<String>) -> (r: bool)
    ensures
        r == ticked(*meta, string_texts(parts@)),
{
    if !can_be_chosen(meta) {
        return true;
    }
    let key = part_key(meta);
    let ghost all = string_texts(parts@);
    let mut i: usize = 0;
    while i < parts.len()
        invariant
            i <= parts.len(),
            all == string_texts(parts@),
            key@ == key_of(*meta),
            forall|j: int| 0 <= j < i ==> !names(#[trigger] all[j], *meta),
        decreases parts.len() - i,
    {
        assert(all[i as int] == parts@[i as int]@);
        if is_about(parts[i].as_str(), meta, key.as_str()) {
            assert(names(all[i as int], *meta));
            return true;
        }
        i = i + 1;
    }
    false
}

/// Ticks a component, or takes its tick away.
pub fn choose_part(parts: &mut Vec<String>, meta: &MetaSummary, on: bool)
    ensures
        string_texts(final(parts)@) == chosen(string_texts(old(parts)@), *meta, on),
{
    let key = part_key(meta);
    let ghost all = string_texts(parts@);
    let mut kept: Vec<String> = Vec::new();
    let mut held = false;
    let mut i: usize = 0;
    assert(string_texts(kept@) =~= without_meta(all.take(0), *meta));
    while i < parts.len()
        invariant
            i <= parts.len(),
            all == string_texts(parts@),
            key@ == key_of(*meta),
            held == (exists|j: int| 0 <= j < i && #[trigger] all[j] == key@),
            string_texts(kept@) == without_meta(all.take(i as int), *meta),
        decreases parts.len() - i,
    {
        let ghost before = string_texts(kept@);
        let ghost next = all.take(i + 1);
        assert(next.drop_last() =~= all.take(i as int));
        assert(all[i as int] == parts@[i as int]@);
        if same_str(parts[i].as_str(), key.as_str()) {
            assert(all[i as int] == key@);
            held = true;
        }
        if !is_about(parts[i].as_str(), meta, key.as_str()) {
            kept.push(parts[i].clone());
            assert(string_texts(kept@) =~= before.push(all[i as int]));
        }
        i = i + 1;
    }
    assert(all.take(parts.len() as int) =~= all);
    if on {
        if !held {
            assert(!all.contains(key@));
            parts.push(key);
            assert(string_texts(parts@) =~= all.push(key_of(*meta)));
        }
    } else {
        *parts = kept;
    }
}

/// Ticking a component ticks it; taking the tick away takes it away, and leaves every name
/// that is about something else.
pub proof fn choice_is_kept(parts: Seq<Seq<char>>, meta: MetaSummary)
    requires
        is_target(meta),
    ensures
        ticked(meta, chosen(parts, meta, true)),
        !ticked(meta, chosen(parts, meta, false)),
        forall|p: Seq<char>|
            !names(p, meta) ==> (chosen(parts, meta, false).contains(p) == parts.contains(p)),
{
    let on = chosen(parts, meta, true);
    if parts.contains(key_of(meta)) {
        let i = choose|i: int| 0 <= i < parts.len() && parts[i] == key_of(meta);
        assert(names(on[i], meta));
    } else {
        assert(names(on[on.len() - 1], meta));
    }
    lemma_without(parts, meta);
}

proof fn lemma_without(parts: Seq<Seq<char>>, meta: MetaSummary)
    ensures
        forall|i: int|
            0 <= i < without_meta(parts, meta).len() ==> !names(
                #[trigger] without_meta(parts, meta)[i],
                meta,
            ),
        forall|p: Seq<char>|
            !names(p, meta) ==> (without_meta(parts, meta).contains(p) == parts.contains(p)),
    decreases parts.len(),
{
    if parts.len() > 0 {
        let front = parts.drop_last();
        lemma_without(front, meta);
        let all = without_meta(parts, meta);
        let last = parts.last();
        assert forall|p: Seq<char>| !names(p, meta) implies all.contains(p) == parts.contains(
            p,
        ) by {
            if parts.contains(p) {
                let i = choose|i: int| 0 <= i < parts.len() && parts[i] == p;
                if i < front.len() {
                    assert(front[i] == p);
                    assert(front.contains(p));
                    let j = choose|j: int|
                        0 <= j < without_meta(front, meta).len() && without_meta(front, meta)[j]
                            == p;
                    assert(all[j] == p);
                } else {
                    assert(all[all.len() - 1] == p);
                }
            }
            if all.contains(p) {
                let j = choose|j: int| 0 <= j < all.len() && all[j] == p;
                if j < without_meta(front, meta).len() {
                    assert(without_meta(front, meta).contains(p));
                    let i = choose|i: int| 0 <= i < front.len() && front[i] == p;
                    assert(parts[i] == p);
                } else {
                    assert(parts[parts.len() - 1] == p);
                }
            }
        }
    }
}

/// The keys of the targets among the first `n` components that are chosen without being asked
/// for.
pub open spec fn usual_keys(metas: Seq<MetaSummary>, n: nat) -> Seq<Seq<char>>
    decreases n,
{
    if n == 0 {
        Seq::empty()
    } else {
        let front = usual_keys(metas, (n - 1) as nat);
        let meta = metas[n - 1];
        if is_target(meta) && (key_of(meta) == "spl"@ || key_of(meta) == "env"@ || key_of(meta)
            == "os"@) {
            front.push(key_of(meta))
        } else {
            front
        }
    }
}

/// The choice once an image is loaded: what was chosen, or else what the settings say, or else
/// the usual targets of the image.
pub fn sync_selected_parts(
    selected: Vec<String>,
    configured: &Vec<String>,
    metas: &Vec<MetaSummary>,
) -> (r: Vec<String>)
    ensures
        string_texts(r@) == (if selected@.len() > 0 {
            string_texts(selected@)
        } else if configured@.len() > 0 {
            string_texts(configured@)
        } else {
            usual_keys(metas@, metas@.len())
        }),
{
    if selected.len() > 0 {
        return selected;
    }
    let mut r: Vec<String> = Vec::new();
    if configured.len() > 0 {
        let mut i: usize = 0;
        while i < configured.len()
            invariant
                i <= configured.len(),
                r@.len() == i,
                forall|j: int| 0 <= j < i ==> (#[trigger] r@[j])@ == configured@[j]@,
            decreases configured.len() - i,
        {
            r.push(configured[i].clone());
            i = i + 1;
        }
        assert(string_texts(r@) =~= string_texts(configured@));
        return r;
    }
    let mut i: usize = 0;
    assert(string_texts(r@) =~= Seq::<Seq<char>>::empty());
    while i < metas.len()
        invariant
            i <= metas.len(),
            string_texts(r@) == usual_keys(metas@, i as nat),
        decreases metas.len() - i,
    {
        let ghost before = string_texts(r@);
        let key = part_key(&metas[i]);
        if can_be_chosen(&metas[i]) && (same_str(key.as_str(), "spl") || same_str(
            key.as_str(),
            "env",
        ) || same_str(key.as_str(), "os")) {
            let ghost text = key@;
            r.push(key);
            assert(string_texts(r@) =~= before.push(text));
        }
        i = i + 1;
    }
    r
}

} // verus!
