//! Paths as the system reads them: when two texts name the same path, and what a path ends in.
use vstd::prelude::*;
use vstd::slice::slice_subrange;

use crate::app_config::{is_drive, is_separator, path_in, slashed, with_slashes};
use crate::platform::Platform;
use crate::text::{
    begins, chars_of, copy_chars, cut, cut_at, lower, pieces, same_chars, same_text, split,
    starts_with, string_of, texts, to_lower,
};

verus! {

// ---------------------------------------------------------------------------------------
// What a path begins with
// ---------------------------------------------------------------------------------------
/// What a path begins with before its root. Only Windows knows such beginnings.
#[derive(Clone, Copy, Debug, Eq, PartialEq, Structural)]
pub enum PrefixKind {
    Nothing,
    /// `C:`
    Drive,
    /// `\\server\share`
    Share,
    /// `\\.\device`
    Device,
    /// `\\?\name`
    Verbatim,
    /// `\\?\UNC\server\share`
    VerbatimShare,
    /// `\\?\C:`
    VerbatimDrive,
}

/// The beginning of a path and what follows it.
pub struct Lead<L = Vec<Vec<char>>, S = Vec<char>> {
    pub kind: PrefixKind,
    /// The names in the beginning; the letter of a drive in lower case.
    pub names: L,
    /// Whether a root follows.
    pub rooted: bool,
    /// What follows the root.
    pub rest: S,
}

impl View for Lead {
    type V = Lead<Seq<Seq<char>>, Seq<char>>;

    open spec fn view(&self) -> Lead<Seq<Seq<char>>, Seq<char>> {
        Lead {
            kind: self.kind,
            names: texts(self.names@),
            rooted: self.rooted,
            rest: self.rest@,
        }
    }
}

/// `s` up to the first `c`, whether there is one, and what follows it.
pub open spec fn first_part(s: Seq<char>, c: char) -> (Seq<char>, bool, Seq<char>) {
    match cut(s, c) {
        Some((before, after)) => (before, true, after),
        None => (s, false, Seq::empty()),
    }
}

/// `s` up to the first `c`, whether there is one, and what follows it.
fn take_part(s: &[char], c: char) -> (r: (&[char], bool, &[char]))
    ensures
        (r.0@, r.1, r.2@) == first_part(s@, c),
{
    match cut_at(s, c) {
        Some((before, after)) => (before, true, after),
        None => {
            let none = slice_subrange(s, s.len(), s.len());
            assert(none@ =~= Seq::<char>::empty());
            (s, false, none)
        },
    }
}

/// A path without a beginning: it is rooted where a separator stands first.
pub open spec fn rooted_lead(
    platform: Platform,
    kind: PrefixKind,
    names: Seq<Seq<char>>,
    rest: Seq<char>,
) -> Lead<Seq<Seq<char>>, Seq<char>> {
    if rest.len() > 0 && is_separator(platform, rest[0]) {
        Lead { kind, names, rooted: true, rest: rest.skip(1) }
    } else {
        Lead { kind, names, rooted: false, rest }
    }
}

/// Whether `s` begins with a drive.
pub open spec fn begins_with_drive(s: Seq<char>) -> bool {
    s.len() >= 2 && is_drive(Platform::Windows, s.take(2))
}

/// The name of the drive that `s` begins with: its letter in lower case.
pub open spec fn drive_name(s: Seq<char>) -> Seq<char> {
    seq![lower(s[0])]
}

/// What follows `\\?\`, where only backslashes separate.
pub open spec fn verbatim_lead(s: Seq<char>) -> Lead<Seq<Seq<char>>, Seq<char>> {
    if begins(slashed(s), "UNC/"@) {
        let (server, more, after) = first_part(s.skip(4), '\\');
        let (share, deeper, rest) = first_part(after, '\\');
        Lead {
            kind: PrefixKind::VerbatimShare,
            names: seq![server, share],
            rooted: if share.len() == 0 {
                more
            } else {
                deeper
            },
            rest,
        }
    } else if begins_with_drive(s) && (s.len() == 2 || is_separator(Platform::Windows, s[2])) {
        rooted_lead(
            Platform::Windows,
            PrefixKind::VerbatimDrive,
            seq![drive_name(s)],
            s.skip(2),
        )
    } else {
        let (name, deeper, rest) = first_part(s, '\\');
        Lead { kind: PrefixKind::Verbatim, names: seq![name], rooted: deeper, rest }
    }
}

/// What follows two separators, with every separator a slash: a device, or a share where both
/// of its names are there.
pub open spec fn share_lead(s: Seq<char>) -> Option<Lead<Seq<Seq<char>>, Seq<char>>> {
    if begins(s, "./"@) {
        let (name, _, rest) = first_part(s.skip(2), '/');
        Some(Lead { kind: PrefixKind::Device, names: seq![name], rooted: true, rest })
    } else {
        let (server, _, after) = first_part(s, '/');
        let (share, _, rest) = first_part(after, '/');
        if server.len() > 0 && share.len() > 0 {
            Some(Lead { kind: PrefixKind::Share, names: seq![server, share], rooted: true, rest })
        } else {
            None
        }
    }
}

/// The beginning of a path on Windows.
pub open spec fn windows_lead(path: Seq<char>) -> Lead<Seq<Seq<char>>, Seq<char>> {
    let plain = slashed(path);
    let bare = rooted_lead(Platform::Windows, PrefixKind::Nothing, Seq::empty(), plain);
    if begins(path, "\\\\?\\"@) {
        verbatim_lead(path.skip(4))
    } else if begins(plain, "//"@) {
        match share_lead(plain.skip(2)) {
            Some(lead) => lead,
            None => bare,
        }
    } else if begins_with_drive(plain) {
        rooted_lead(
            Platform::Windows,
            PrefixKind::Drive,
            seq![drive_name(plain)],
            plain.skip(2),
        )
    } else {
        bare
    }
}

/// The beginning of a path.
pub open spec fn lead_of(platform: Platform, path: Seq<char>) -> Lead<Seq<Seq<char>>, Seq<char>> {
    if platform == Platform::Windows {
        windows_lead(path)
    } else {
        rooted_lead(platform, PrefixKind::Nothing, Seq::empty(), path)
    }
}

/// A list of one name.
fn one_name(name: &[char]) -> (list: Vec<Vec<char>>)
    ensures
        texts(list@) == seq![name@],
{
    let mut list: Vec<Vec<char>> = Vec::new();
    list.push(copy_chars(name));
    assert(texts(list@) =~= seq![name@]);
    list
}

/// A list of two names.
fn two_names(first: &[char], second: &[char]) -> (list: Vec<Vec<char>>)
    ensures
        texts(list@) == seq![first@, second@],
{
    let mut list: Vec<Vec<char>> = Vec::new();
    list.push(copy_chars(first));
    list.push(copy_chars(second));
    assert(texts(list@) =~= seq![first@, second@]);
    list
}

/// Whether a character separates the parts of a path.
fn separates(platform: Platform, c: char) -> (r: bool)
    ensures
        r == is_separator(platform, c),
{
    c == '/' || (platform == Platform::Windows && c == '\\')
}

/// A path without a beginning, or what follows one.
fn take_root(platform: Platform, kind: PrefixKind, names: Vec<Vec<char>>, rest: &[char]) -> (r:
    Lead)
    ensures
        r@ == rooted_lead(platform, kind, texts(names@), rest@),
{
    if rest.len() > 0 && separates(platform, rest[0]) {
        let after = slice_subrange(rest, 1, rest.len());
        assert(after@ =~= rest@.skip(1));
        Lead { kind, names, rooted: true, rest: copy_chars(after) }
    } else {
        Lead { kind, names, rooted: false, rest: copy_chars(rest) }
    }
}

/// Whether `s` begins with a drive.
fn has_drive(s: &[char]) -> (r: bool)
    ensures
        r == begins_with_drive(s@),
{
    s.len() >= 2 && s[1] == ':' && 'a' <= to_lower(s[0]) && to_lower(s[0]) <= 'z'
}

/// The drive that `s` begins with.
fn drive_names(s: &[char]) -> (list: Vec<Vec<char>>)
    requires
        s@.len() > 0,
    ensures
        texts(list@) == seq![drive_name(s@)],
{
    let mut name: Vec<char> = Vec::new();
    name.push(to_lower(s[0]));
    assert(name@ =~= drive_name(s@));
    one_name(name.as_slice())
}

/// `s` with every backslash turned into a slash.
fn slashed_chars(s: &[char]) -> (r: Vec<char>)
    ensures
        r@ == slashed(s@),
{
    chars_of(with_slashes(string_of(s).as_str()).as_str())
}

/// What follows `\\?\`.
fn take_verbatim(s: &[char]) -> (r: Lead)
    ensures
        r@ == verbatim_lead(s@),
{
    proof {
        reveal_strlit("UNC/");
    }
    let plain = slashed_chars(s);
    let mark = chars_of("UNC/");
    if starts_with(plain.as_slice(), mark.as_slice()) {
        let inner = slice_subrange(s, 4, s.len());
        assert(inner@ =~= s@.skip(4));
        let (server, more, after) = take_part(inner, '\\');
        let (share, deeper, rest) = take_part(after, '\\');
        return Lead {
            kind: PrefixKind::VerbatimShare,
            names: two_names(server, share),
            rooted: if share.len() == 0 {
                more
            } else {
                deeper
            },
            rest: copy_chars(rest),
        };
    }
    if has_drive(s) && (s.len() == 2 || separates(Platform::Windows, s[2])) {
        let rest = slice_subrange(s, 2, s.len());
        assert(rest@ =~= s@.skip(2));
        return take_root(Platform::Windows, PrefixKind::VerbatimDrive, drive_names(s), rest);
    }
    let (name, deeper, rest) = take_part(s, '\\');
    Lead {
        kind: PrefixKind::Verbatim,
        names: one_name(name),
        rooted: deeper,
        rest: copy_chars(rest),
    }
}

/// What follows two separators.
fn take_share(s: &[char]) -> (r: Option<Lead>)
    ensures
        match r {
            Some(lead) => share_lead(s@) == Some(lead@),
            None => share_lead(s@) is None,
        },
{
    proof {
        reveal_strlit("./");
    }
    let mark = chars_of("./");
    if starts_with(s, mark.as_slice()) {
        let inner = slice_subrange(s, 2, s.len());
        assert(inner@ =~= s@.skip(2));
        let (name, _, rest) = take_part(inner, '/');
        return Some(
            Lead {
                kind: PrefixKind::Device,
                names: one_name(name),
                rooted: true,
                rest: copy_chars(rest),
            },
        );
    }
    let (server, _, after) = take_part(s, '/');
    let (share, _, rest) = take_part(after, '/');
    if server.len() > 0 && share.len() > 0 {
        Some(
            Lead {
                kind: PrefixKind::Share,
                names: two_names(server, share),
                rooted: true,
                rest: copy_chars(rest),
            },
        )
    } else {
        None
    }
}

/// The beginning of a path on Windows.
fn take_windows_lead(path: &[char]) -> (r: Lead)
    ensures
        r@ == windows_lead(path@),
{
    proof {
        reveal_strlit("\\\\?\\");
        reveal_strlit("//");
    }
    let verbatim_mark = chars_of("\\\\?\\");
    if starts_with(path, verbatim_mark.as_slice()) {
        let inner = slice_subrange(path, 4, path.len());
        assert(inner@ =~= path@.skip(4));
        return take_verbatim(inner);
    }
    let plain_chars = slashed_chars(path);
    let plain = plain_chars.as_slice();
    let share_mark = chars_of("//");
    if starts_with(plain, share_mark.as_slice()) {
        let inner = slice_subrange(plain, 2, plain.len());
        assert(inner@ =~= plain@.skip(2));
        if let Some(lead) = take_share(inner) {
            return lead;
        }
    } else if has_drive(plain) {
        let rest = slice_subrange(plain, 2, plain.len());
        assert(rest@ =~= plain@.skip(2));
        return take_root(Platform::Windows, PrefixKind::Drive, drive_names(plain), rest);
    }
    let names: Vec<Vec<char>> = Vec::new();
    assert(texts(names@) =~= Seq::<Seq<char>>::empty());
    take_root(Platform::Windows, PrefixKind::Nothing, names, plain)
}

/// The beginning of a path.
fn take_lead(platform: Platform, path: &[char]) -> (r: Lead)
    ensures
        r@ == lead_of(platform, path@),
{
    if platform == Platform::Windows {
        return take_windows_lead(path);
    }
    let names: Vec<Vec<char>> = Vec::new();
    assert(texts(names@) =~= Seq::<Seq<char>>::empty());
    take_root(platform, PrefixKind::Nothing, names, path)
}

// ---------------------------------------------------------------------------------------
// The parts of a path
// ---------------------------------------------------------------------------------------
/// A path taken apart. Two texts name the same path where these are the same.
#[verifier::ext_equal]
pub struct PathParts {
    pub kind: PrefixKind,
    pub names: Seq<Seq<char>>,
    pub rooted: bool,
    pub parts: Seq<Seq<char>>,
}

/// Whether a path is taken as it stands.
pub open spec fn is_verbatim(kind: PrefixKind) -> bool {
    kind == PrefixKind::Verbatim || kind == PrefixKind::VerbatimShare || kind
        == PrefixKind::VerbatimDrive
}

/// The pieces that count: empty ones do not, nor do single dots but in a path that is taken as
/// it stands.
pub open spec fn kept(list: Seq<Seq<char>>, dots: bool) -> Seq<Seq<char>>
    decreases list.len(),
{
    if list.len() == 0 {
        Seq::empty()
    } else {
        let front = kept(list.drop_last(), dots);
        let piece = list.last();
        if piece.len() == 0 || (!dots && piece == "."@) {
            front
        } else {
            front.push(piece)
        }
    }
}

/// The parts behind the beginning of a path. Repeated and trailing separators do not count, nor
/// do single dots, but for one that a relative path begins with.
pub open spec fn parts_of(lead: Lead<Seq<Seq<char>>, Seq<char>>) -> Seq<Seq<char>> {
    if is_verbatim(lead.kind) {
        kept(pieces(lead.rest, '\\'), true)
    } else {
        let parts = kept(pieces(lead.rest, '/'), false);
        if lead.kind == PrefixKind::Nothing && !lead.rooted && pieces(lead.rest, '/')[0] == "."@ {
            seq!["."@] + parts
        } else {
            parts
        }
    }
}

/// A path taken apart.
pub open spec fn path_parts(platform: Platform, path: Seq<char>) -> PathParts {
    let lead = lead_of(platform, path);
    PathParts {
        kind: lead.kind,
        names: lead.names,
        rooted: lead.rooted,
        parts: parts_of(lead),
    }
}

/// The pieces that count.
fn keep_pieces(list: &Vec<Vec<char>>, dots: bool, out: &mut Vec<Vec<char>>)
    ensures
        texts(final(out)@) == texts(old(out)@) + kept(texts(list@), dots),
{
    let ghost all = texts(list@);
    let ghost before = texts(out@);
    let mut i: usize = 0;
    assert(before + kept(all.take(0), dots) =~= before);
    while i < list.len()
        invariant
            i <= list.len(),
            all == texts(list@),
            texts(out@) == before + kept(all.take(i as int), dots),
        decreases list.len() - i,
    {
        let piece = list[i].as_slice();
        let ghost so_far = texts(out@);
        proof {
            let next = all.take(i + 1);
            assert(next.drop_last() =~= all.take(i as int));
            assert(next.last() == piece@);
        }
        if piece.len() > 0 && (dots || !same_text(piece, ".")) {
            out.push(copy_chars(piece));
            assert(texts(out@) =~= so_far.push(piece@));
            assert(texts(out@) =~= before + kept(all.take(i + 1), dots));
        }
        i = i + 1;
    }
    assert(all.take(list.len() as int) =~= all);
}

/// The parts behind the beginning of a path.
fn take_parts(lead: &Lead) -> (parts: Vec<Vec<char>>)
    ensures
        texts(parts@) == parts_of(lead@),
{
    let mut parts: Vec<Vec<char>> = Vec::new();
    assert(texts(parts@) =~= Seq::<Seq<char>>::empty());
    let verbatim = lead.kind == PrefixKind::Verbatim || lead.kind == PrefixKind::VerbatimShare
        || lead.kind == PrefixKind::VerbatimDrive;
    if verbatim {
        let list = split(lead.rest.as_slice(), '\\');
        keep_pieces(&list, true, &mut parts);
        assert(texts(parts@) =~= parts_of(lead@));
        return parts;
    }
    let list = split(lead.rest.as_slice(), '/');
    let ghost all = pieces(lead.rest@, '/');
    assert(all.len() > 0 && texts(list@)[0] == list[0]@);
    if lead.kind == PrefixKind::Nothing && !lead.rooted && same_text(list[0].as_slice(), ".") {
        parts.push(chars_of("."));
        assert(texts(parts@) =~= seq!["."@]);
    }
    keep_pieces(&list, false, &mut parts);
    assert(texts(parts@) =~= parts_of(lead@));
    parts
}

/// Whether two lists hold the same texts.
fn same_lists(a: &Vec<Vec<char>>, b: &Vec<Vec<char>>) -> (r: bool)
    ensures
        r == (texts(a@) == texts(b@)),
{
    if a.len() != b.len() {
        assert(texts(a@).len() != texts(b@).len());
        return false;
    }
    let mut i: usize = 0;
    while i < a.len()
        invariant
            i <= a.len(),
            a.len() == b.len(),
            forall|j: int| 0 <= j < i ==> a@[j]@ == b@[j]@,
        decreases a.len() - i,
    {
        if !same_chars(a[i].as_slice(), b[i].as_slice()) {
            assert(texts(a@)[i as int] != texts(b@)[i as int]);
            return false;
        }
        i = i + 1;
    }
    assert(texts(a@) =~= texts(b@));
    true
}

/// Whether two texts name the same path.
pub fn same_path(platform: Platform, a: &str, b: &str) -> (r: bool)
    ensures
        r == (path_parts(platform, a@) == path_parts(platform, b@)),
{
    let a_chars = chars_of(a);
    let b_chars = chars_of(b);
    let a_lead = take_lead(platform, a_chars.as_slice());
    let b_lead = take_lead(platform, b_chars.as_slice());
    a_lead.kind == b_lead.kind && a_lead.rooted == b_lead.rooted && same_lists(
        &a_lead.names,
        &b_lead.names,
    ) && same_lists(&take_parts(&a_lead), &take_parts(&b_lead))
}

// ---------------------------------------------------------------------------------------
// What a path ends in
// ---------------------------------------------------------------------------------------
/// What a path ends in: the text behind its last separator, or behind a bare drive.
pub open spec fn last_part(platform: Platform, path: Seq<char>) -> Seq<char>
    decreases path.len(),
{
    if path.len() == 0 || is_separator(platform, path.last()) || is_drive(platform, path) {
        Seq::empty()
    } else {
        last_part(platform, path.drop_last()).push(path.last())
    }
}

proof fn lemma_last_part_of(platform: Platform, dir: Seq<char>, name: Seq<char>)
    requires
        dir.len() == 0 || is_separator(platform, dir.last()) || is_drive(platform, dir),
        forall|i: int|
            0 <= i < name.len() ==> name[i] != '/' && name[i] != '\\' && #[trigger] name[i] != ':',
    ensures
        last_part(platform, dir + name) == name,
    decreases name.len(),
{
    let path = dir + name;
    if name.len() == 0 {
        assert(path =~= dir);
        assert(name =~= Seq::empty());
    } else {
        let front = name.drop_last();
        assert(path.drop_last() =~= dir + front);
        lemma_last_part_of(platform, dir, front);
        assert(path.last() == name[name.len() - 1]);
        if path.len() == 2 && dir.len() < 2 {
            assert(path[1] == name[1 - dir.len()]);
        }
        assert(front.push(name.last()) =~= name);
    }
}

/// An entry of a directory is what its path ends in, where its name holds nothing that takes
/// paths apart.
pub proof fn lemma_last_part(platform: Platform, dir: Seq<char>, name: Seq<char>)
    requires
        forall|i: int|
            0 <= i < name.len() ==> name[i] != '/' && name[i] != '\\' && #[trigger] name[i] != ':',
    ensures
        last_part(platform, path_in(platform, dir, name)) == name,
{
    reveal_strlit("/");
    reveal_strlit("\\");
    if dir.len() == 0 || is_separator(platform, dir.last()) || is_drive(platform, dir) {
        lemma_last_part_of(platform, dir, name);
    } else {
        let with_separator = dir + (if platform == Platform::Windows {
            "\\"@
        } else {
            "/"@
        });
        assert(path_in(platform, dir, name) =~= with_separator + name);
        lemma_last_part_of(platform, with_separator, name);
    }
}

} // verus!
