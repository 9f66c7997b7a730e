//! The history of images: a file with one line for each, the latest first.
use vstd::prelude::*;

use crate::app_config::laws::lines_without_cr;
use crate::app_config::{slashed, unlines, with_slashes};
use crate::number::{dec, push_dec};
use crate::text::{
    begins, chars_of, cut, cut_last, cut_last_at, is_space, join, joined, lemma_cut_last_at,
    lemma_cut_parts, lemma_first_line, lemma_trimmed_fixed, lines, lines_of, starts_with,
    string_of, string_texts, texts, trim, trim_start, trimmed, trimmed_start, without_cr,
};

verus! {

/// How many images the history holds.
pub const HISTORY_LEN: usize = 50;

/// The name of the history in the program's directory.
pub const HISTORY_FILE: &'static str = "img_history.txt";

/// An image of the history and when it was used.
pub open spec fn entry_of(line: Seq<char>) -> Option<(Seq<char>, Seq<char>)> {
    match cut_last(line, ',') {
        Some((path, timestamp)) => Some((trimmed(path), trimmed(timestamp))),
        None => None,
    }
}

/// The images that the first `n` lines tell of; lines of another form are skipped.
pub open spec fn entries(list: Seq<Seq<char>>, n: nat) -> Seq<(Seq<char>, Seq<char>)>
    decreases n,
{
    if n == 0 {
        Seq::empty()
    } else {
        let front = entries(list, (n - 1) as nat);
        match entry_of(list[n - 1]) {
            Some(entry) => front.push(entry),
            None => front,
        }
    }
}

/// The images of a history.
pub open spec fn history(text: Seq<char>) -> Seq<(Seq<char>, Seq<char>)> {
    let list = lines_of(text);
    entries(
        list,
        if list.len() < HISTORY_LEN {
            list.len()
        } else {
            HISTORY_LEN as nat
        },
    )
}

/// The entries that a vector holds.
pub open spec fn entry_views(list: Seq<(String, String)>) -> Seq<(Seq<char>, Seq<char>)> {
    Seq::new(list.len(), |i: int| (list[i].0@, list[i].1@))
}

/// The images of a history whose file holds `text`.
pub fn load_image_history(text: &str) -> (r: Vec<(String, String)>)
    ensures
        entry_views(r@) == history(text@),
{
    let list = lines(chars_of(text).as_slice());
    let ghost all = lines_of(text@);
    let n: usize = if list.len() < HISTORY_LEN {
        list.len()
    } else {
        HISTORY_LEN
    };
    let mut r: Vec<(String, String)> = Vec::new();
    assert(entry_views(r@) =~= Seq::<(Seq<char>, Seq<char>)>::empty());
    let mut i: usize = 0;
    while i < n
        invariant
            i <= n <= list.len(),
            texts(list@) == all,
            entry_views(r@) == entries(all, i as nat),
        decreases n - i,
    {
        let line = list[i].as_slice();
        assert(all[i as int] == line@);
        let ghost before = entry_views(r@);
        if let Some((path, timestamp)) = cut_last_at(line, ',') {
            r.push((string_of(trim(path)), string_of(trim(timestamp))));
            assert(entry_views(r@) =~= before.push((trimmed(path@), trimmed(timestamp@))));
        }
        i = i + 1;
    }
    r
}

/// Whether a line of the history is about `image`.
pub open spec fn about(line: Seq<char>, image: Seq<char>) -> bool {
    begins(trimmed_start(line), image)
}

/// The first `most` of the lines from `k` on that are not about `image`.
pub open spec fn others(list: Seq<Seq<char>>, image: Seq<char>, k: int, most: int) -> Seq<
    Seq<char>,
>
    decreases list.len() - k,
{
    if !(0 <= k < list.len()) || most <= 0 {
        Seq::empty()
    } else if about(list[k], image) {
        others(list, image, k + 1, most)
    } else {
        seq![list[k]] + others(list, image, k + 1, most - 1)
    }
}

/// The line for an image.
pub open spec fn history_line(image: Seq<char>, timestamp: Seq<char>) -> Seq<char> {
    slashed(image) + ", "@ + timestamp
}

/// The history after `image` was used: its line first, then the other lines.
pub open spec fn history_after(old: Seq<char>, image: Seq<char>, timestamp: Seq<char>) -> Seq<
    char,
> {
    let line = history_line(image, timestamp) + "\n"@;
    let rest = joined(others(lines_of(old), slashed(image), 0, HISTORY_LEN - 1), "\n"@);
    if rest.len() == 0 {
        line
    } else {
        line + rest + "\n"@
    }
}

/// The history after `image` was used at `timestamp`, from what it was before.
pub fn append_image_history(old: &str, image: &str, timestamp: &str) -> (s: String)
    ensures
        s@ == history_after(old@, image@, timestamp@),
{
    let normalized = with_slashes(image);
    let name = chars_of(normalized.as_str());
    let list = lines(chars_of(old).as_slice());
    let ghost all = lines_of(old@);
    let mut kept: Vec<String> = Vec::new();
    let mut k: usize = 0;
    assert(string_texts(kept@) =~= Seq::<Seq<char>>::empty());
    assert(string_texts(kept@) + others(all, name@, 0, HISTORY_LEN - 1) =~= others(
        all,
        name@,
        0,
        HISTORY_LEN - 1,
    ));
    while k < list.len() && kept.len() < HISTORY_LEN - 1
        invariant
            k <= list.len(),
            kept.len() <= HISTORY_LEN - 1,
            texts(list@) == all,
            others(all, name@, 0, HISTORY_LEN - 1) == string_texts(kept@) + others(
                all,
                name@,
                k as int,
                HISTORY_LEN - 1 - kept.len(),
            ),
        decreases list.len() - k,
    {
        let line = list[k].as_slice();
        assert(all[k as int] == line@);
        let ghost before = string_texts(kept@);
        let ghost room = HISTORY_LEN - 1 - kept.len();
        if !starts_with(trim_start(line), name.as_slice()) {
            kept.push(string_of(line));
            proof {
                assert(string_texts(kept@) =~= before.push(line@));
                assert(before + (seq![line@] + others(all, name@, k + 1, room - 1))
                    =~= string_texts(kept@) + others(all, name@, k + 1, room - 1));
            }
        }
        k = k + 1;
    }
    assert(string_texts(kept@) + Seq::<Seq<char>>::empty() =~= string_texts(kept@));
    let rest = join(&kept, "\n");
    let mut s = normalized;
    s.append(", ");
    s.append(timestamp);
    s.append("\n");
    if rest.as_str().unicode_len() > 0 {
        s.append(rest.as_str());
        s.append("\n");
    }
    s
}

/// A time as the history keeps it.
pub fn timestamp_text(unix_secs: u64) -> (s: String)
    ensures
        s@ == "unix_"@ + dec(unix_secs as nat),
{
    let mut s = "unix_".to_string();
    push_dec(&mut s, unix_secs);
    s
}

// ---------------------------------------------------------------------------------------
// What holds of it
// ---------------------------------------------------------------------------------------
/// Whether a text can be the time of an entry.
pub open spec fn is_timestamp(t: Seq<char>) -> bool {
    &&& t.len() > 0
    &&& !is_space(t[0])
    &&& !is_space(t.last())
    &&& !t.contains(',')
    &&& !t.contains('\n')
}

proof fn lemma_after_splits(old: Seq<char>, image: Seq<char>, timestamp: Seq<char>)
    requires
        !slashed(image).contains('\n'),
        is_timestamp(timestamp),
    ensures
        ({
            let kept = others(lines_of(old), slashed(image), 0, HISTORY_LEN - 1);
            let rest = if joined(kept, "\n"@).len() == 0 {
                Seq::empty()
            } else {
                joined(kept, "\n"@) + "\n"@
            };
            lines_of(history_after(old, image, timestamp)) == seq![
                history_line(image, timestamp),
            ] + lines_of(rest)
        }),
{
    let line = history_line(image, timestamp);
    let kept = others(lines_of(old), slashed(image), 0, HISTORY_LEN - 1);
    let rest = if joined(kept, "\n"@).len() == 0 {
        Seq::empty()
    } else {
        joined(kept, "\n"@) + "\n"@
    };
    reveal_strlit("\n");
    reveal_strlit(", ");
    assert("\n"@ =~= seq!['\n']);
    assert forall|i: int| 0 <= i < line.len() implies line[i] != '\n' by {
        let n = slashed(image).len();
        if i < n {
            assert(slashed(image).contains(line[i]));
        } else if i >= n + 2 {
            assert(line[i] == timestamp[i - n - 2]);
            assert(timestamp.contains(timestamp[i - n - 2]));
        }
    }
    assert(line.last() == timestamp.last());
    lemma_first_line(line, rest);
    assert(history_after(old, image, timestamp) =~= line + seq!['\n'] + rest);
}

/// The image that was used last is the first of the history.
pub proof fn last_image_comes_first(old: Seq<char>, image: Seq<char>, timestamp: Seq<char>)
    requires
        !slashed(image).contains('\n'),
        is_timestamp(timestamp),
    ensures
        history(history_after(old, image, timestamp)).len() > 0,
        history(history_after(old, image, timestamp))[0] == (trimmed(slashed(image)), timestamp),
{
    lemma_after_splits(old, image, timestamp);
    let line = history_line(image, timestamp);
    let after = seq![' '] + timestamp;
    reveal_strlit(", ");
    assert(line =~= slashed(image) + seq![','] + after);
    assert forall|i: int| 0 <= i < after.len() implies after[i] != ',' by {
        if i > 0 {
            assert(timestamp.contains(timestamp[i - 1]));
        }
    }
    lemma_cut_last_at(slashed(image), ',', after);
    assert(after.skip(1) =~= timestamp);
    lemma_trimmed_fixed(timestamp);
    assert(trimmed_start(after) == trimmed_start(timestamp));
    assert(entry_of(line) == Some((trimmed(slashed(image)), timestamp)));
    let list = lines_of(history_after(old, image, timestamp));
    assert(list[0] == line);
    let n = if list.len() < HISTORY_LEN {
        list.len()
    } else {
        HISTORY_LEN as nat
    };
    lemma_first_entry(list, n);
}

proof fn lemma_first_entry(list: Seq<Seq<char>>, n: nat)
    requires
        1 <= n <= list.len(),
        entry_of(list[0]) is Some,
    ensures
        entries(list, n).len() > 0,
        entries(list, n)[0] == entry_of(list[0])->0,
    decreases n,
{
    if n > 1 {
        lemma_first_entry(list, (n - 1) as nat);
    } else {
        assert(entries(list, 0) =~= Seq::<(Seq<char>, Seq<char>)>::empty());
    }
}

proof fn lemma_others(list: Seq<Seq<char>>, image: Seq<char>, k: int, most: int)
    requires
        0 <= k,
        0 <= most,
        forall|i: int| 0 <= i < list.len() ==> !(#[trigger] list[i]).contains('\n'),
    ensures
        others(list, image, k, most).len() <= most,
        forall|i: int|
            0 <= i < others(list, image, k, most).len() ==> !about(
                #[trigger] others(list, image, k, most)[i],
                image,
            ) && !others(list, image, k, most)[i].contains('\n'),
    decreases list.len() - k,
{
    if k < list.len() && most > 0 {
        if about(list[k], image) {
            lemma_others(list, image, k + 1, most);
        } else {
            lemma_others(list, image, k + 1, most - 1);
            let rest = others(list, image, k + 1, most - 1);
            let all = others(list, image, k, most);
            assert forall|i: int| 0 <= i < all.len() implies !about(#[trigger] all[i], image)
                && !all[i].contains('\n') by {
                if i > 0 {
                    assert(all[i] == rest[i - 1]);
                }
            }
        }
    }
}

proof fn lemma_lines_hold_no_newline(s: Seq<char>)
    ensures
        forall|i: int| 0 <= i < lines_of(s).len() ==> !(#[trigger] lines_of(s)[i]).contains('\n'),
    decreases s.len(),
{
    if s.len() > 0 {
        lemma_cut_parts(s, '\n');
        match cut(s, '\n') {
            Some((line, rest)) => {
                lemma_lines_hold_no_newline(rest);
                let all = lines_of(s);
                assert forall|i: int| 0 <= i < all.len() implies !(#[trigger] all[i]).contains(
                    '\n',
                ) by {
                    if i == 0 {
                        let bare = without_cr(line);
                        assert forall|j: int| 0 <= j < bare.len() implies bare[j] != '\n' by {
                            assert(line.contains(line[j]));
                        }
                    } else {
                        assert(all[i] == lines_of(rest)[i - 1]);
                    }
                }
            },
            None => {},
        }
    }
}

proof fn lemma_joined_is_unlines(list: Seq<Seq<char>>)
    requires
        list.len() > 0,
    ensures
        joined(list, "\n"@) + "\n"@ == unlines(list),
    decreases list.len(),
{
    if list.len() == 1 {
        assert(list.drop_last() =~= Seq::<Seq<char>>::empty());
        assert(unlines(list.drop_last()) =~= Seq::<char>::empty());
        assert(joined(list, "\n"@) + "\n"@ =~= unlines(list));
    } else {
        lemma_joined_is_unlines(list.drop_last());
    }
}

proof fn lemma_about_cut_short(s: Seq<char>, image: Seq<char>)
    requires
        s.len() > 0,
        is_space(s.last()),
        about(s.drop_last(), image),
    ensures
        about(s, image),
    decreases s.len(),
{
    let t = s.drop_last();
    if s.len() == 1 {
        assert(trimmed_start(t) =~= t);
        assert(trimmed_start(s).take(0) =~= image);
    } else {
        assert(t[0] == s[0]);
        if is_space(s[0]) {
            assert(s.skip(1).drop_last() =~= t.skip(1));
            lemma_about_cut_short(s.skip(1), image);
        } else {
            assert(s.take(image.len() as int) =~= t.take(image.len() as int));
        }
    }
}

/// A history holds no more lines than it may, and only the first of them is about the image
/// that was used last.
pub proof fn history_stays_short(old: Seq<char>, image: Seq<char>, timestamp: Seq<char>)
    requires
        !slashed(image).contains('\n'),
        is_timestamp(timestamp),
    ensures
        lines_of(history_after(old, image, timestamp)).len() <= HISTORY_LEN,
        forall|i: int|
            1 <= i < lines_of(history_after(old, image, timestamp)).len() ==> !about(
                #[trigger] lines_of(history_after(old, image, timestamp))[i],
                slashed(image),
            ),
{
    lemma_after_splits(old, image, timestamp);
    let kept = others(lines_of(old), slashed(image), 0, HISTORY_LEN - 1);
    let list = lines_of(history_after(old, image, timestamp));
    lemma_lines_hold_no_newline(old);
    lemma_others(lines_of(old), slashed(image), 0, HISTORY_LEN - 1);
    if joined(kept, "\n"@).len() > 0 && kept.len() > 0 {
        lemma_joined_is_unlines(kept);
        lines_without_cr(kept);
        assert forall|i: int| 1 <= i < list.len() implies !about(
            #[trigger] list[i],
            slashed(image),
        ) by {
            let line = kept[i - 1];
            assert(list[i] == without_cr(line));
            assert(!about(line, slashed(image)));
            if line.len() > 0 && line.last() == '\r' {
                if about(line.drop_last(), slashed(image)) {
                    lemma_about_cut_short(line, slashed(image));
                }
            }
        }
    }
}

} // verus!
