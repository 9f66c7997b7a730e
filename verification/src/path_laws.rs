//! What holds of paths as the system reads them.
use vstd::prelude::*;

use crate::app_config::laws::lemma_pieces_push;
use crate::app_config::slashed;
use crate::paths::{
    first_part, kept, lead_of, parts_of, path_parts, verbatim_lead, PathParts, PrefixKind,
};
use crate::platform::Platform;
use crate::text::{begins, lemma_cut_at, lemma_cut_none, lower, pieces};

verus! {

/// A path grows by one part where a separator and a name follow it; where nothing follows the
/// separator, or a single dot, it stays the same path.
pub proof fn paths_grow_part_by_part(platform: Platform, path: Seq<char>, name: Seq<char>)
    requires
        platform != Platform::Windows,
        path.len() > 0,
        !name.contains('/'),
    ensures
        ({
            let before = path_parts(platform, path);
            let after = path_parts(platform, path + seq!['/'] + name);
            &&& name.len() > 0 && name != seq!['.'] ==> after == (PathParts {
                parts: before.parts.push(name),
                ..before
            })
            &&& name.len() == 0 || name == seq!['.'] ==> after == before
        }),
{
    let longer = path + seq!['/'] + name;
    let lead = lead_of(platform, path);
    let next = lead_of(platform, longer);
    reveal_strlit(".");
    assert("."@ =~= seq!['.']);
    if path[0] == '/' {
        assert(longer.skip(1) =~= path.skip(1) + seq!['/'] + name);
    }
    assert(next.rest == lead.rest + seq!['/'] + name);
    lemma_pieces_push(lead.rest, '/', name);
    let list = pieces(lead.rest, '/');
    assert(pieces(next.rest, '/') == list.push(name));
    assert(list.push(name).drop_last() =~= list);
    assert(list.len() > 0);
    assert(list.push(name)[0] == list[0]);
    let dot = seq!["."@];
    assert(dot + kept(list, false).push(name) =~= (dot + kept(list, false)).push(name));
    assert(path_parts(platform, longer).parts == parts_of(next));
}

/// A path without a separator is one part, unless it is empty; one that is nothing but a separator
/// is the root.
pub proof fn single_names_are_single_parts(platform: Platform, name: Seq<char>)
    requires
        platform != Platform::Windows,
        !name.contains('/'),
    ensures
        name.len() > 0 ==> path_parts(platform, name).parts == seq![name]
            && !path_parts(platform, name).rooted,
        name.len() == 0 ==> path_parts(platform, name).parts.len() == 0
            && !path_parts(platform, name).rooted,
        path_parts(platform, seq!['/']).parts.len() == 0,
        path_parts(platform, seq!['/']).rooted,
        path_parts(platform, seq!['/']) != path_parts(platform, Seq::empty()),
{
    reveal_strlit(".");
    assert("."@ =~= seq!['.']);
    lemma_one_piece(name);
    let none = Seq::<char>::empty();
    lemma_one_piece(none);
    if name.len() > 0 && name[0] == '/' {
        assert(name.contains(name[0]));
    }
    let root = seq!['/'];
    assert(root.skip(1) =~= none);
    let list = seq![name];
    assert(list.drop_last() =~= Seq::<Seq<char>>::empty());
    assert(kept(Seq::<Seq<char>>::empty(), false) =~= Seq::<Seq<char>>::empty());
    assert(seq![none].drop_last() =~= Seq::<Seq<char>>::empty());
    assert(kept(list, false) =~= if name.len() == 0 || name == "."@ {
        Seq::empty()
    } else {
        list
    });
    if name == "."@ {
        assert(seq!["."@] + kept(list, false) =~= list);
    }
}

proof fn lemma_one_piece(name: Seq<char>)
    requires
        !name.contains('/'),
    ensures
        pieces(name, '/') == seq![name],
{
    lemma_cut_none(name, '/');
}

/// On Windows either separator will do, but in a path that is taken as it stands; and the letter of
/// a drive may be a capital.
pub proof fn either_separator_will_do(path: Seq<char>, letter: char, rest: Seq<char>)
    ensures
        !begins(path, "\\\\?\\"@) ==> path_parts(Platform::Windows, path) == path_parts(
            Platform::Windows,
            slashed(path),
        ),
        'A' <= letter <= 'Z' ==> path_parts(Platform::Windows, seq![letter, ':'] + rest)
            == path_parts(Platform::Windows, seq![lower(letter), ':'] + rest),
{
    reveal_strlit("\\\\?\\");
    reveal_strlit("//");
    let plain = slashed(path);
    assert(slashed(plain) =~= plain);
    if begins(plain, "\\\\?\\"@) {
        assert(plain.take(4)[0] == plain[0]);
        assert("\\\\?\\"@[0] == '\\');
    }
    if 'A' <= letter <= 'Z' {
        let a = seq![letter, ':'] + rest;
        let b = seq![lower(letter), ':'] + rest;
        assert("\\\\?\\"@[0] == '\\');
        assert("//"@[0] == '/');
        assert(a.take(4)[0] == a[0] || a.len() < 4);
        assert(b.take(4)[0] == b[0] || b.len() < 4);
        assert(slashed(a).take(2)[0] == letter);
        assert(slashed(b).take(2)[0] == lower(letter));
        assert(slashed(a).take(2)[1] == ':');
        assert(slashed(b).take(2)[1] == ':');
        assert(slashed(a).skip(2) =~= slashed(b).skip(2));
        assert(lower(lower(letter)) == lower(letter));
        assert(seq![lower(slashed(a)[0])] =~= seq![lower(slashed(b)[0])]);
    }
}

/// Whether `s` is free of both separators.
pub open spec fn is_bare(s: Seq<char>) -> bool {
    !s.contains('/') && !s.contains('\\')
}

/// Whether `c` is a letter that names a drive.
pub open spec fn names_drive(c: char) -> bool {
    'a' <= c <= 'z' || 'A' <= c <= 'Z'
}

proof fn lemma_slashed_bare(s: Seq<char>)
    requires
        is_bare(s),
    ensures
        slashed(s) == s,
{
    assert forall|i: int| 0 <= i < s.len() implies #[trigger] slashed(s)[i] == s[i] by {
        assert(s.contains(s[i]));
    }
    assert(slashed(s) =~= s);
}

proof fn lemma_slashed_add(a: Seq<char>, b: Seq<char>)
    ensures
        slashed(a + b) == slashed(a) + slashed(b),
{
    assert(slashed(a + b) =~= slashed(a) + slashed(b));
}

/// What a path on a drive is taken apart into: the drive, by its letter, whether a separator
/// follows it, and the parts behind that.
proof fn lemma_drive_lead(letter: char, rest: Seq<char>)
    requires
        names_drive(letter),
    ensures
        ({
            let l = lead_of(Platform::Windows, seq![letter, ':'] + rest);
            let there = rest.len() > 0 && (rest[0] == '/' || rest[0] == '\\');
            &&& l.kind == PrefixKind::Drive
            &&& l.names == seq![seq![lower(letter)]]
            &&& l.rooted == there
            &&& l.rest == slashed(if there {
                rest.skip(1)
            } else {
                rest
            })
        }),
{
    reveal_strlit("\\\\?\\");
    reveal_strlit("//");
    let p = seq![letter, ':'] + rest;
    let plain = slashed(p);
    assert("\\\\?\\"@[0] == '\\');
    assert("//"@[0] == '/');
    assert(p.len() < 4 || p.take(4)[0] == letter);
    assert(plain.take(2)[0] == letter);
    assert(plain.take(2)[1] == ':');
    assert(plain.skip(2) =~= slashed(rest));
    if rest.len() > 0 {
        assert(slashed(rest).skip(1) =~= slashed(rest.skip(1)));
    }
    assert(seq![lower(plain[0])] =~= seq![lower(letter)]);
}

/// On Windows a path begins with its drive, named by its letter; it starts at the drive's root if
/// and only if a separator follows. It grows by one part where a separator and a name follow it.
pub proof fn drives_lead_their_paths(
    letter: char,
    rest: Seq<char>,
    body: Seq<char>,
    name: Seq<char>,
)
    requires
        names_drive(letter),
        is_bare(name),
    ensures
        ({
            let p = path_parts(Platform::Windows, seq![letter, ':'] + rest);
            &&& p.kind == PrefixKind::Drive
            &&& p.names == seq![seq![lower(letter)]]
            &&& p.rooted <==> rest.len() > 0 && (rest[0] == '/' || rest[0] == '\\')
        }),
        ({
            let before = path_parts(Platform::Windows, seq![letter, ':', '\\'] + body);
            let after = path_parts(
                Platform::Windows,
                seq![letter, ':', '\\'] + body + seq!['\\'] + name,
            );
            &&& name.len() > 0 && name != seq!['.'] ==> after == (PathParts {
                parts: before.parts.push(name),
                ..before
            })
            &&& name.len() == 0 || name == seq!['.'] ==> after == before
        }),
{
    lemma_drive_lead(letter, rest);
    let front = seq!['\\'] + body;
    let longer = front + seq!['\\'] + name;
    assert(seq![letter, ':', '\\'] + body =~= seq![letter, ':'] + front);
    assert(seq![letter, ':', '\\'] + body + seq!['\\'] + name =~= seq![letter, ':'] + longer);
    lemma_drive_lead(letter, front);
    lemma_drive_lead(letter, longer);
    assert(front.skip(1) =~= body);
    assert(longer.skip(1) =~= body + seq!['\\'] + name);
    lemma_slashed_add(body + seq!['\\'], name);
    lemma_slashed_add(body, seq!['\\']);
    lemma_slashed_bare(name);
    assert(slashed(seq!['\\']) =~= seq!['/']);
    let s = slashed(body);
    lemma_pieces_push(s, '/', name);
    let list = pieces(s, '/');
    assert(list.push(name).drop_last() =~= list);
    reveal_strlit(".");
    assert("."@ =~= seq!['.']);
}

proof fn lemma_first_part(name: Seq<char>, c: char, rest: Seq<char>)
    requires
        !name.contains(c),
    ensures
        first_part(name + seq![c] + rest, c) == (name, true, rest),
        first_part(name, c) == (name, false, Seq::<char>::empty()),
{
    lemma_cut_at(name, c, rest);
    lemma_cut_none(name, c);
}

/// On Windows two separators lead to a share on a server, or to a device behind a dot; what
/// follows is taken apart as on a drive.
pub proof fn shares_and_devices_lead_their_paths(
    server: Seq<char>,
    share: Seq<char>,
    rest: Seq<char>,
)
    requires
        is_bare(server) && server.len() > 0 && server != seq!['.'] && server != seq!['?'],
        is_bare(share) && share.len() > 0,
    ensures
        ({
            let two = seq!['\\', '\\'];
            let on_share = path_parts(
                Platform::Windows,
                two + server + seq!['\\'] + share + seq!['\\'] + rest,
            );
            let on_device = path_parts(
                Platform::Windows,
                two + seq!['.', '\\'] + share + seq!['\\'] + rest,
            );
            let on_drive = path_parts(Platform::Windows, seq!['c', ':', '\\'] + rest);
            &&& on_share == (PathParts {
                kind: PrefixKind::Share,
                names: seq![server, share],
                rooted: true,
                parts: on_drive.parts,
            })
            &&& on_device == (PathParts {
                kind: PrefixKind::Device,
                names: seq![share],
                rooted: true,
                parts: on_drive.parts,
            })
        }),
{
    let bar = seq!['\\'];
    lemma_share_lead(server, share, rest);
    lemma_device_lead(share, rest);
    lemma_drive_lead('c', bar + rest);
    assert(seq!['c', ':', '\\'] + rest =~= seq!['c', ':'] + (bar + rest));
    assert((bar + rest).skip(1) =~= rest);
}

/// A name and what follows it, with every separator a slash.
proof fn lemma_slashed_parts(name: Seq<char>, rest: Seq<char>)
    requires
        is_bare(name),
    ensures
        slashed(name + seq!['\\'] + rest) == name + seq!['/'] + slashed(rest),
{
    let bar = seq!['\\'];
    lemma_slashed_add(name + bar, rest);
    lemma_slashed_add(name, bar);
    lemma_slashed_bare(name);
    assert(slashed(bar) =~= seq!['/']);
}

/// A path behind two separators is not taken as it stands where no question mark follows.
proof fn lemma_two_separators(s: Seq<char>)
    requires
        s.len() > 0,
        s[0] != '?' || s.len() < 2 || s[1] != '\\',
    ensures
        ({
            let p = seq!['\\', '\\'] + s;
            &&& !begins(p, "\\\\?\\"@)
            &&& begins(slashed(p), "//"@)
            &&& slashed(p).skip(2) == slashed(s)
        }),
{
    reveal_strlit("\\\\?\\");
    reveal_strlit("//");
    let p = seq!['\\', '\\'] + s;
    assert("\\\\?\\"@ =~= seq!['\\', '\\', '?', '\\']);
    if begins(p, "\\\\?\\"@) {
        assert(p.take(4)[2] == '?' && p.take(4)[3] == '\\');
        assert(p[2] == s[0] && p[3] == s[1]);
    }
    assert("//"@ =~= seq!['/', '/']);
    assert(slashed(p).take(2) =~= "//"@);
    assert(slashed(p).skip(2) =~= slashed(s));
}

proof fn lemma_share_lead(server: Seq<char>, share: Seq<char>, rest: Seq<char>)
    requires
        is_bare(server) && server.len() > 0 && server != seq!['.'] && server != seq!['?'],
        is_bare(share) && share.len() > 0,
    ensures
        ({
            let l = lead_of(
                Platform::Windows,
                seq!['\\', '\\'] + server + seq!['\\'] + share + seq!['\\'] + rest,
            );
            &&& l.kind == PrefixKind::Share
            &&& l.names == seq![server, share]
            &&& l.rooted
            &&& l.rest == slashed(rest)
        }),
{
    let two = seq!['\\', '\\'];
    let bar = seq!['\\'];
    let s = server + bar + (share + bar + rest);
    assert(two + server + bar + share + bar + rest =~= two + s);
    if server.len() > 1 {
        assert(server.contains(server[1]));
        assert(s[1] == server[1]);
    } else {
        assert(server =~= seq![server[0]]);
    }
    lemma_two_separators(s);
    let c = share + seq!['/'] + slashed(rest);
    let d = server + seq!['/'] + c;
    lemma_slashed_parts(share, rest);
    lemma_slashed_parts(server, share + bar + rest);
    reveal_strlit("./");
    assert("./"@ =~= seq!['.', '/']);
    if begins(d, "./"@) {
        assert(d.take(2)[0] == '.' && d.take(2)[1] == '/');
        assert(d[0] == server[0]);
        if server.len() > 1 {
            assert(d[1] == server[1]);
        }
    }
    lemma_first_part(server, '/', c);
    lemma_first_part(share, '/', slashed(rest));
}

proof fn lemma_device_lead(name: Seq<char>, rest: Seq<char>)
    requires
        is_bare(name),
    ensures
        ({
            let l = lead_of(
                Platform::Windows,
                seq!['\\', '\\'] + seq!['.', '\\'] + name + seq!['\\'] + rest,
            );
            &&& l.kind == PrefixKind::Device
            &&& l.names == seq![name]
            &&& l.rooted
            &&& l.rest == slashed(rest)
        }),
{
    let two = seq!['\\', '\\'];
    let bar = seq!['\\'];
    let dot = seq!['.'];
    let s = dot + bar + (name + bar + rest);
    assert(two + seq!['.', '\\'] + name + bar + rest =~= two + s);
    lemma_two_separators(s);
    let c = name + seq!['/'] + slashed(rest);
    lemma_slashed_parts(name, rest);
    lemma_slashed_parts(dot, name + bar + rest);
    let e = dot + seq!['/'] + c;
    reveal_strlit("./");
    assert(e.take(2) =~= "./"@);
    assert(e.skip(2) =~= c);
    lemma_first_part(name, '/', slashed(rest));
}

/// A path on Windows that is taken as it stands begins with a question mark between separators; a
/// server and a share, a drive, or a name follow. Its parts are cut at backslashes alone, and a dot
/// is a part like any other.
pub proof fn verbatim_paths_are_taken_as_they_stand(
    letter: char,
    server: Seq<char>,
    share: Seq<char>,
    body: Seq<char>,
    name: Seq<char>,
)
    requires
        names_drive(letter),
        is_bare(server) && is_bare(share) && share.len() > 0,
        !name.contains('\\') && name.len() > 0,
    ensures
        ({
            let front = "\\\\?\\"@;
            let bar = seq!['\\'];
            let drive = path_parts(Platform::Windows, front + seq![letter, ':', '\\'] + body);
            let longer = path_parts(
                Platform::Windows,
                front + seq![letter, ':', '\\'] + body + bar + name,
            );
            let on_share = path_parts(
                Platform::Windows,
                front + "UNC\\"@ + server + bar + share + bar + body,
            );
            &&& drive.kind == PrefixKind::VerbatimDrive
            &&& drive.names == seq![seq![lower(letter)]]
            &&& drive.rooted
            &&& longer == (PathParts { parts: drive.parts.push(name), ..drive })
            &&& on_share == (PathParts {
                kind: PrefixKind::VerbatimShare,
                names: seq![server, share],
                rooted: true,
                parts: drive.parts,
            })
        }),
{
    reveal_strlit("\\\\?\\");
    reveal_strlit("UNC\\");
    reveal_strlit("UNC/");
    let front = "\\\\?\\"@;
    let bar = seq!['\\'];
    let head = seq![letter, ':', '\\'];
    let a = front + head + body;
    let b = front + head + body + bar + name;
    let c = front + "UNC\\"@ + server + bar + share + bar + body;
    assert(a.take(4) =~= front && a.skip(4) =~= head + body);
    assert(b.take(4) =~= front && b.skip(4) =~= head + (body + bar + name));
    lemma_verbatim_drive(letter, body);
    lemma_verbatim_drive(letter, body + bar + name);
    lemma_pieces_push(body, '\\', name);
    assert(pieces(body, '\\').push(name).drop_last() =~= pieces(body, '\\'));
    let tail = share + bar + body;
    let s = "UNC\\"@ + (server + bar + tail);
    assert(c.take(4) =~= front && c.skip(4) =~= s);
    assert("UNC/"@ =~= seq!['U', 'N', 'C', '/']);
    assert("UNC\\"@ =~= seq!['U', 'N', 'C', '\\']);
    assert(slashed(s).take(4) =~= "UNC/"@);
    assert(s.skip(4) =~= server + bar + tail);
    lemma_first_part(server, '\\', tail);
    lemma_first_part(share, '\\', body);
}

proof fn lemma_verbatim_drive(letter: char, body: Seq<char>)
    requires
        names_drive(letter),
    ensures
        ({
            let l = verbatim_lead(seq![letter, ':', '\\'] + body);
            &&& l.kind == PrefixKind::VerbatimDrive
            &&& l.names == seq![seq![lower(letter)]]
            &&& l.rooted
            &&& l.rest == body
        }),
{
    reveal_strlit("UNC/");
    let s = seq![letter, ':', '\\'] + body;
    assert("UNC/"@ =~= seq!['U', 'N', 'C', '/']);
    if begins(slashed(s), "UNC/"@) {
        assert(slashed(s).take(4)[1] == 'N');
        assert(slashed(s)[1] == ':');
    }
    assert(s.take(2)[0] == letter && s.take(2)[1] == ':');
    assert(s.skip(2).skip(1) =~= body);
    assert(seq![lower(s[0])] =~= seq![lower(letter)]);
}

} // verus!
