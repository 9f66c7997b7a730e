//! Text as sequences of characters: trimming, cutting, searching and case folding.
use vstd::prelude::*;
use vstd::slice::slice_subrange;

verus! {

/// `String::push` of the standard library: appends one character.
pub assume_specification[ String::push ](s: &mut String, c: char)
    ensures
        final(s)@ == old(s)@.push(c),
;

// ---------------------------------------------------------------------------------------
// Conversions
// ---------------------------------------------------------------------------------------
/// The texts held by a list of character vectors.
pub open spec fn texts(list: Seq<Vec<char>>) -> Seq<Seq<char>> {
    Seq::new(list.len(), |i: int| list[i]@)
}

/// The texts held by a list of strings.
pub open spec fn string_texts(list: Seq<String>) -> Seq<Seq<char>> {
    Seq::new(list.len(), |i: int| list[i]@)
}

/// The characters of `s`.
pub fn chars_of(s: &str) -> (r: Vec<char>)
    ensures
        r@ == s@,
{
    let mut v: Vec<char> = Vec::new();
    for c in it: s.chars()
        invariant
            v@ == it.seq().take(it.index() as int),
    {
        v.push(c);
    }
    v
}

/// The string made of `chars`.
pub fn string_of(chars: &[char]) -> (r: String)
    ensures
        r@ == chars@,
{
    let mut s = String::new();
    let mut i: usize = 0;
    while i < chars.len()
        invariant
            i <= chars.len(),
            s@ == chars@.take(i as int),
        decreases chars.len() - i,
    {
        s.push(chars[i]);
        i = i + 1;
    }
    s
}

/// A copy of `chars`.
pub fn copy_chars(chars: &[char]) -> (r: Vec<char>)
    ensures
        r@ == chars@,
{
    vstd::slice::slice_to_vec(chars)
}

/// Appends `more` to `buf`.
pub fn push_chars(buf: &mut Vec<char>, more: &[char])
    ensures
        final(buf)@ == old(buf)@ + more@,
{
    let mut i: usize = 0;
    while i < more.len()
        invariant
            i <= more.len(),
            buf@ == old(buf)@ + more@.take(i as int),
        decreases more.len() - i,
    {
        buf.push(more[i]);
        i = i + 1;
    }
    assert(more@.take(more.len() as int) == more@);
}

// ---------------------------------------------------------------------------------------
// Comparison
// ---------------------------------------------------------------------------------------
/// Whether two runs of characters are the same text.
pub fn same_chars(a: &[char], b: &[char]) -> (r: bool)
    ensures
        r == (a@ == b@),
{
    if a.len() != b.len() {
        return false;
    }
    let mut i: usize = 0;
    while i < a.len()
        invariant
            i <= a.len(),
            a.len() == b.len(),
            forall|j: int| 0 <= j < i ==> a@[j] == b@[j],
        decreases a.len() - i,
    {
        if a[i] != b[i] {
            return false;
        }
        i = i + 1;
    }
    assert(a@ =~= b@);
    true
}

/// Whether `a` is the text `b`.
pub fn same_text(a: &[char], b: &str) -> (r: bool)
    ensures
        r == (a@ == b@),
{
    let b = chars_of(b);
    same_chars(a, b.as_slice())
}

/// Whether two strings are the same text.
pub fn same_str(a: &str, b: &str) -> (r: bool)
    ensures
        r == (a@ == b@),
{
    let a = chars_of(a);
    same_text(a.as_slice(), b)
}

/// `s` begins with `prefix`.
pub open spec fn begins(s: Seq<char>, prefix: Seq<char>) -> bool {
    prefix.len() <= s.len() && s.take(prefix.len() as int) == prefix
}

/// Whether `s` begins with `prefix`.
pub fn starts_with(s: &[char], prefix: &[char]) -> (r: bool)
    ensures
        r == begins(s@, prefix@),
{
    if prefix.len() > s.len() {
        return false;
    }
    same_chars(slice_subrange(s, 0, prefix.len()), prefix)
}

/// Whether the string `s` begins with `prefix`.
pub fn str_starts_with(s: &str, prefix: &str) -> (r: bool)
    ensures
        r == begins(s@, prefix@),
{
    let s = chars_of(s);
    let prefix = chars_of(prefix);
    starts_with(s.as_slice(), prefix.as_slice())
}

/// `s` without the leading `prefix`, or `s` itself where it does not begin so.
pub open spec fn without_prefix(s: Seq<char>, prefix: Seq<char>) -> Seq<char> {
    if begins(s, prefix) {
        s.skip(prefix.len() as int)
    } else {
        s
    }
}

/// `s` without the leading `prefix`, or `s` itself where it does not begin so.
pub fn drop_prefix(s: &str, prefix: &str) -> (r: String)
    ensures
        r@ == without_prefix(s@, prefix@),
{
    let s = chars_of(s);
    let prefix = chars_of(prefix);
    if starts_with(s.as_slice(), prefix.as_slice()) {
        string_of(slice_subrange(s.as_slice(), prefix.len(), s.len()))
    } else {
        string_of(s.as_slice())
    }
}

/// `pat` stands in `s` at position `at`.
pub open spec fn stands_at(s: Seq<char>, pat: Seq<char>, at: int) -> bool {
    0 <= at && at + pat.len() <= s.len() && s.subrange(at, at + pat.len()) == pat
}

/// `pat` stands somewhere in `s`.
pub open spec fn mentions(s: Seq<char>, pat: Seq<char>) -> bool {
    exists|at: int| stands_at(s, pat, at)
}

/// Position of the first `pat` in `s`.
pub fn find_chars(s: &[char], pat: &[char]) -> (r: Option<usize>)
    ensures
        match r {
            Some(at) => stands_at(s@, pat@, at as int) && forall|j: int|
                0 <= j < at ==> !stands_at(s@, pat@, j),
            None => !mentions(s@, pat@),
        },
{
    if pat.len() > s.len() {
        return None;
    }
    let last: usize = s.len() - pat.len();
    let mut at: usize = 0;
    while at < last
        invariant
            at <= last,
            last == s.len() - pat.len(),
            forall|j: int| 0 <= j < at ==> !stands_at(s@, pat@, j),
        decreases last - at,
    {
        if same_chars(slice_subrange(s, at, at + pat.len()), pat) {
            return Some(at);
        }
        at = at + 1;
    }
    if same_chars(slice_subrange(s, at, at + pat.len()), pat) {
        return Some(at);
    }
    None
}

/// The first position in `s` from `from` on where `pat` stands.
pub open spec fn first_from(s: Seq<char>, pat: Seq<char>, from: int) -> Option<int>
    decreases s.len() - from + 1,
{
    if !(0 <= from <= s.len()) {
        None
    } else if stands_at(s, pat, from) {
        Some(from)
    } else {
        first_from(s, pat, from + 1)
    }
}

proof fn lemma_first_from(s: Seq<char>, pat: Seq<char>, from: int, at: int)
    requires
        0 <= from <= at,
        stands_at(s, pat, at),
        forall|j: int| from <= j < at ==> !stands_at(s, pat, j),
    ensures
        first_from(s, pat, from) == Some(at),
    decreases at - from,
{
    if from < at {
        assert(!stands_at(s, pat, from));
        lemma_first_from(s, pat, from + 1, at);
    }
}

proof fn lemma_none_from(s: Seq<char>, pat: Seq<char>, from: int)
    requires
        !mentions(s, pat),
    ensures
        first_from(s, pat, from) is None,
    decreases s.len() - from + 1,
{
    if 0 <= from <= s.len() {
        assert(!stands_at(s, pat, from));
        lemma_none_from(s, pat, from + 1);
    }
}

/// `s` cut at the first `pat`: the text before it and the text after it.
pub open spec fn cut_text(s: Seq<char>, pat: Seq<char>) -> Option<(Seq<char>, Seq<char>)> {
    match first_from(s, pat, 0) {
        Some(at) => Some((s.take(at), s.skip(at + pat.len()))),
        None => None,
    }
}

/// `s` cut at the first `pat`.
pub fn cut_at_text<'a>(s: &'a [char], pat: &[char]) -> (r: Option<(&'a [char], &'a [char])>)
    ensures
        match r {
            Some((before, after)) => cut_text(s@, pat@) == Some((before@, after@)),
            None => cut_text(s@, pat@) is None,
        },
{
    match find_chars(s, pat) {
        Some(at) => {
            proof {
                lemma_first_from(s@, pat@, 0, at as int);
            }
            assert(at + pat.len() <= s.len());
            let before = slice_subrange(s, 0, at);
            let after = slice_subrange(s, at + pat.len(), s.len());
            assert(before@ =~= s@.take(at as int));
            assert(after@ =~= s@.skip(at + pat@.len()));
            Some((before, after))
        },
        None => {
            proof {
                lemma_none_from(s@, pat@, 0);
            }
            None
        },
    }
}

/// Whether `pat` stands somewhere in `s`.
pub fn contains_chars(s: &[char], pat: &[char]) -> (r: bool)
    ensures
        r == mentions(s@, pat@),
{
    match find_chars(s, pat) {
        Some(_) => true,
        None => false,
    }
}

/// Whether `pat` stands somewhere in the string `s`.
pub fn str_contains(s: &str, pat: &str) -> (r: bool)
    ensures
        r == mentions(s@, pat@),
{
    let s = chars_of(s);
    let pat = chars_of(pat);
    contains_chars(s.as_slice(), pat.as_slice())
}

// ---------------------------------------------------------------------------------------
// White space and case
// ---------------------------------------------------------------------------------------
/// The characters with the Unicode property `White_Space`.
pub open spec fn is_space(c: char) -> bool {
    let n = c as u32;
    ||| 0x09 <= n <= 0x0d
    ||| n == 0x20
    ||| n == 0x85
    ||| n == 0xa0
    ||| n == 0x1680
    ||| 0x2000 <= n <= 0x200a
    ||| n == 0x2028
    ||| n == 0x2029
    ||| n == 0x202f
    ||| n == 0x205f
    ||| n == 0x3000
}

/// Whether `c` is white space.
pub fn space(c: char) -> (r: bool)
    ensures
        r == is_space(c),
{
    let n: u32 = c as u32;
    (0x09 <= n && n <= 0x0d) || n == 0x20 || n == 0x85 || n == 0xa0 || n == 0x1680 || (0x2000 <= n
        && n <= 0x200a) || n == 0x2028 || n == 0x2029 || n == 0x202f || n == 0x205f || n == 0x3000
}

/// `s` from its first character that is not white space.
pub open spec fn trimmed_start(s: Seq<char>) -> Seq<char>
    decreases s.len(),
{
    if s.len() > 0 && is_space(s[0]) {
        trimmed_start(s.skip(1))
    } else {
        s
    }
}

/// `s` up to its last character that is not white space.
pub open spec fn trimmed_end(s: Seq<char>) -> Seq<char>
    decreases s.len(),
{
    if s.len() > 0 && is_space(s.last()) {
        trimmed_end(s.drop_last())
    } else {
        s
    }
}

/// `s` without white space at either end.
pub open spec fn trimmed(s: Seq<char>) -> Seq<char> {
    trimmed_end(trimmed_start(s))
}

/// Text that begins and ends with other than white space is its own trimmed form.
pub proof fn lemma_trimmed_fixed(s: Seq<char>)
    requires
        s.len() > 0 ==> !is_space(s[0]) && !is_space(s.last()),
    ensures
        trimmed(s) == s,
{
}

/// `s` from its first character that is not white space.
pub fn trim_start(s: &[char]) -> (r: &[char])
    ensures
        r@ == trimmed_start(s@),
{
    let mut i: usize = 0;
    assert(s@.skip(0) == s@);
    while i < s.len() && space(s[i])
        invariant
            i <= s.len(),
            trimmed_start(s@) == trimmed_start(s@.skip(i as int)),
        decreases s.len() - i,
    {
        assert(s@.skip(i as int).skip(1) == s@.skip(i + 1));
        i = i + 1;
    }
    assert(i < s.len() ==> s@.skip(i as int)[0] == s@[i as int]);
    slice_subrange(s, i, s.len())
}

/// `s` without white space at either end.
pub fn trim(s: &[char]) -> (r: &[char])
    ensures
        r@ == trimmed(s@),
{
    let s = trim_start(s);
    let mut n: usize = s.len();
    assert(s@.take(n as int) == s@);
    while n > 0 && space(s[n - 1])
        invariant
            n <= s.len(),
            trimmed_end(s@) == trimmed_end(s@.take(n as int)),
        decreases n,
    {
        assert(s@.take(n as int).drop_last() == s@.take(n - 1));
        n = n - 1;
    }
    assert(n > 0 ==> s@.take(n as int).last() == s@[n - 1]);
    slice_subrange(s, 0, n)
}

/// The string `s` without white space at either end.
pub fn str_trim(s: &str) -> (r: String)
    ensures
        r@ == trimmed(s@),
{
    let s = chars_of(s);
    string_of(trim(s.as_slice()))
}

/// `s` up to its last character other than `c`.
pub open spec fn without_trailing(s: Seq<char>, c: char) -> Seq<char>
    decreases s.len(),
{
    if s.len() > 0 && s.last() == c {
        without_trailing(s.drop_last(), c)
    } else {
        s
    }
}

/// `s` up to its last character other than `c`.
pub fn drop_trailing(s: &[char], c: char) -> (r: &[char])
    ensures
        r@ == without_trailing(s@, c),
{
    let mut n: usize = s.len();
    assert(s@.take(n as int) == s@);
    while n > 0 && s[n - 1] == c
        invariant
            n <= s.len(),
            without_trailing(s@, c) == without_trailing(s@.take(n as int), c),
        decreases n,
    {
        assert(s@.take(n as int).drop_last() == s@.take(n - 1));
        n = n - 1;
    }
    assert(n > 0 ==> s@.take(n as int).last() == s@[n - 1]);
    slice_subrange(s, 0, n)
}

/// The ASCII letter `c` in lower case, any other character as it is.
pub open spec fn lower(c: char) -> char {
    if 'A' <= c <= 'Z' {
        (c as u32 + 32) as char
    } else {
        c
    }
}

/// `s` with its ASCII letters in lower case.
pub open spec fn lowered(s: Seq<char>) -> Seq<char> {
    s.map_values(|c: char| lower(c))
}

/// The ASCII letter `c` in lower case, any other character as it is.
pub fn to_lower(c: char) -> (r: char)
    ensures
        r == lower(c),
{
    if 'A' <= c && c <= 'Z' {
        let n: u8 = (c as u32 + 32) as u8;
        n as char
    } else {
        c
    }
}

/// `s` with its ASCII letters in lower case.
pub fn lower_chars(s: &[char]) -> (r: Vec<char>)
    ensures
        r@ == lowered(s@),
{
    let mut v: Vec<char> = Vec::new();
    let mut i: usize = 0;
    while i < s.len()
        invariant
            i <= s.len(),
            v@ == lowered(s@.take(i as int)),
        decreases s.len() - i,
    {
        v.push(to_lower(s[i]));
        i = i + 1;
    }
    assert(s@.take(s.len() as int) == s@);
    v
}

/// Whether two strings are the same text but for the case of ASCII letters.
pub fn same_ignoring_case(a: &str, b: &str) -> (r: bool)
    ensures
        r == (lowered(a@) == lowered(b@)),
{
    let a = chars_of(a);
    let b = chars_of(b);
    let a = lower_chars(a.as_slice());
    let b = lower_chars(b.as_slice());
    same_chars(a.as_slice(), b.as_slice())
}

// ---------------------------------------------------------------------------------------
// Cutting and joining
// ---------------------------------------------------------------------------------------
/// `s` cut at its first `c`: the text before it and the text after it.
pub open spec fn cut(s: Seq<char>, c: char) -> Option<(Seq<char>, Seq<char>)>
    decreases s.len(),
{
    if s.len() == 0 {
        None
    } else if s[0] == c {
        Some((Seq::empty(), s.skip(1)))
    } else {
        match cut(s.skip(1), c) {
            Some((before, after)) => Some((seq![s[0]] + before, after)),
            None => None,
        }
    }
}

/// Text without `c`, then `c`, then any text is cut at that `c`.
pub proof fn lemma_cut_at(before: Seq<char>, c: char, after: Seq<char>)
    requires
        !before.contains(c),
    ensures
        cut(before + seq![c] + after, c) == Some((before, after)),
    decreases before.len(),
{
    let s = before + seq![c] + after;
    if before.len() == 0 {
        assert(s.skip(1) =~= after);
        assert(before =~= Seq::empty());
    } else {
        assert(before.contains(before[0]));
        let rest = before.skip(1);
        assert forall|i: int| 0 <= i < rest.len() implies rest[i] != c by {
            assert(before.contains(before[i + 1]));
        }
        lemma_cut_at(rest, c, after);
        assert(s.skip(1) =~= rest + seq![c] + after);
        assert(seq![s[0]] + rest =~= before);
    }
}

/// Text without `c` is not cut.
pub proof fn lemma_cut_none(s: Seq<char>, c: char)
    requires
        !s.contains(c),
    ensures
        cut(s, c) is None,
    decreases s.len(),
{
    if s.len() > 0 {
        assert(s.contains(s[0]));
        let rest = s.skip(1);
        assert forall|i: int| 0 <= i < rest.len() implies rest[i] != c by {
            assert(s.contains(s[i + 1]));
        }
        lemma_cut_none(rest, c);
    }
}

/// What a cut gives back: the two parts and the character between them are the whole text.
pub proof fn lemma_cut_parts(s: Seq<char>, c: char)
    ensures
        match cut(s, c) {
            Some((before, after)) => s == before + seq![c] + after && !before.contains(c),
            None => !s.contains(c),
        },
    decreases s.len(),
{
    if s.len() > 0 {
        if s[0] == c {
            assert(s =~= Seq::empty() + seq![c] + s.skip(1));
        } else {
            lemma_cut_parts(s.skip(1), c);
            match cut(s.skip(1), c) {
                Some((before, after)) => {
                    let full = seq![s[0]] + before;
                    assert(s =~= seq![s[0]] + s.skip(1));
                    assert(s =~= full + seq![c] + after);
                    assert forall|i: int| 0 <= i < full.len() implies full[i] != c by {
                        if i > 0 {
                            assert(before.contains(before[i - 1]));
                        }
                    }
                },
                None => {
                    assert forall|i: int| 0 <= i < s.len() implies s[i] != c by {
                        if i > 0 {
                            assert(s.skip(1).contains(s.skip(1)[i - 1]));
                        }
                    }
                },
            }
        }
    }
}

/// `s` cut at its first `c`.
pub fn cut_at(s: &[char], c: char) -> (r: Option<(&[char], &[char])>)
    ensures
        match r {
            Some((before, after)) => cut(s@, c) == Some((before@, after@)),
            None => cut(s@, c) is None,
        },
{
    let mut i: usize = 0;
    while i < s.len()
        invariant
            i <= s.len(),
            forall|j: int| 0 <= j < i ==> s@[j] != c,
        decreases s.len() - i,
    {
        if s[i] == c {
            let before = slice_subrange(s, 0, i);
            let after = slice_subrange(s, i + 1, s.len());
            proof {
                lemma_cut_at(before@, c, after@);
                assert(s@ =~= before@ + seq![c] + after@);
            }
            return Some((before, after));
        }
        i = i + 1;
    }
    proof {
        lemma_cut_none(s@, c);
    }
    None
}

/// `s` cut at its last `c`.
pub open spec fn cut_last(s: Seq<char>, c: char) -> Option<(Seq<char>, Seq<char>)>
    decreases s.len(),
{
    if s.len() == 0 {
        None
    } else if s.last() == c {
        Some((s.drop_last(), Seq::empty()))
    } else {
        match cut_last(s.drop_last(), c) {
            Some((before, after)) => Some((before, after.push(s.last()))),
            None => None,
        }
    }
}

/// Any text, then `c`, then text without `c` is cut last at that `c`.
pub proof fn lemma_cut_last_at(before: Seq<char>, c: char, after: Seq<char>)
    requires
        !after.contains(c),
    ensures
        cut_last(before + seq![c] + after, c) == Some((before, after)),
    decreases after.len(),
{
    let s = before + seq![c] + after;
    if after.len() == 0 {
        assert(s.drop_last() =~= before);
        assert(after =~= Seq::empty());
    } else {
        assert(after.contains(after.last()));
        let rest = after.drop_last();
        assert forall|i: int| 0 <= i < rest.len() implies rest[i] != c by {
            assert(after.contains(after[i]));
        }
        lemma_cut_last_at(before, c, rest);
        assert(s.drop_last() =~= before + seq![c] + rest);
        assert(rest.push(s.last()) =~= after);
    }
}

/// Text without `c` is not cut last.
pub proof fn lemma_cut_last_none(s: Seq<char>, c: char)
    requires
        !s.contains(c),
    ensures
        cut_last(s, c) is None,
    decreases s.len(),
{
    if s.len() > 0 {
        assert(s.contains(s.last()));
        let rest = s.drop_last();
        assert forall|i: int| 0 <= i < rest.len() implies rest[i] != c by {
            assert(s.contains(s[i]));
        }
        lemma_cut_last_none(rest, c);
    }
}

/// `s` cut at its last `c`.
pub fn cut_last_at(s: &[char], c: char) -> (r: Option<(&[char], &[char])>)
    ensures
        match r {
            Some((before, after)) => cut_last(s@, c) == Some((before@, after@)),
            None => cut_last(s@, c) is None,
        },
{
    let mut n: usize = s.len();
    while n > 0
        invariant
            n <= s.len(),
            forall|j: int| n <= j < s.len() ==> s@[j] != c,
        decreases n,
    {
        if s[n - 1] == c {
            let before = slice_subrange(s, 0, n - 1);
            let after = slice_subrange(s, n, s.len());
            proof {
                lemma_cut_last_at(before@, c, after@);
                assert(s@ =~= before@ + seq![c] + after@);
            }
            return Some((before, after));
        }
        n = n - 1;
    }
    proof {
        lemma_cut_last_none(s@, c);
    }
    None
}

/// The pieces of `s` between the separators `c`; one more than there are separators.
pub open spec fn pieces(s: Seq<char>, c: char) -> Seq<Seq<char>>
    decreases s.len(),
    via pieces_decreases
{
    match cut(s, c) {
        Some((before, after)) => seq![before] + pieces(after, c),
        None => seq![s],
    }
}

#[via_fn]
proof fn pieces_decreases(s: Seq<char>, c: char) {
    lemma_cut_parts(s, c);
}

/// The pieces of `s` between the separators `c`.
pub fn split(s: &[char], c: char) -> (r: Vec<Vec<char>>)
    ensures
        texts(r@) == pieces(s@, c),
{
    let mut out: Vec<Vec<char>> = Vec::new();
    let mut rest = s;
    loop
        invariant
            pieces(s@, c) == texts(out@) + pieces(rest@, c),
        decreases rest@.len(),
    {
        let ghost before_out = texts(out@);
        match cut_at(rest, c) {
            Some((before, after)) => {
                proof {
                    lemma_cut_parts(rest@, c);
                }
                out.push(copy_chars(before));
                assert(texts(out@) =~= before_out.push(before@));
                assert(before_out + (seq![before@] + pieces(after@, c)) =~= texts(out@) + pieces(
                    after@,
                    c,
                ));
                rest = after;
            },
            None => {
                out.push(copy_chars(rest));
                assert(texts(out@) =~= before_out + seq![rest@]);
                return out;
            },
        }
    }
}

/// `line` without one trailing carriage return.
pub open spec fn without_cr(line: Seq<char>) -> Seq<char> {
    if line.len() > 0 && line.last() == '\r' {
        line.drop_last()
    } else {
        line
    }
}

/// The lines of `s`. Each ends in a line feed, which may follow a carriage return; neither is
/// part of the line. The line feed of the last line may be missing.
pub open spec fn lines_of(s: Seq<char>) -> Seq<Seq<char>>
    decreases s.len(),
    via lines_of_decreases
{
    if s.len() == 0 {
        Seq::empty()
    } else {
        match cut(s, '\n') {
            Some((line, rest)) => seq![without_cr(line)] + lines_of(rest),
            None => seq![s],
        }
    }
}

#[via_fn]
proof fn lines_of_decreases(s: Seq<char>) {
    lemma_cut_parts(s, '\n');
}

/// The lines of `s`.
pub fn lines(s: &[char]) -> (r: Vec<Vec<char>>)
    ensures
        texts(r@) == lines_of(s@),
{
    let mut out: Vec<Vec<char>> = Vec::new();
    let mut rest = s;
    assert(texts(out@) =~= Seq::empty());
    assert(Seq::<Seq<char>>::empty() + lines_of(s@) =~= lines_of(s@));
    while rest.len() > 0
        invariant
            lines_of(s@) == texts(out@) + lines_of(rest@),
        decreases rest@.len(),
    {
        let ghost before_out = texts(out@);
        match cut_at(rest, '\n') {
            Some((line, after)) => {
                proof {
                    lemma_cut_parts(rest@, '\n');
                }
                let bare = if line.len() > 0 && line[line.len() - 1] == '\r' {
                    slice_subrange(line, 0, line.len() - 1)
                } else {
                    line
                };
                assert(bare@ =~= without_cr(line@));
                out.push(copy_chars(bare));
                assert(texts(out@) =~= before_out.push(bare@));
                assert(before_out + (seq![bare@] + lines_of(after@)) =~= texts(out@) + lines_of(
                    after@,
                ));
                rest = after;
            },
            None => {
                out.push(copy_chars(rest));
                assert(texts(out@) =~= before_out + seq![rest@]);
                return out;
            },
        }
    }
    assert(texts(out@) + Seq::<Seq<char>>::empty() =~= texts(out@));
    out
}

/// A line of its own in front of other text is the first of its lines.
pub proof fn lemma_first_line(line: Seq<char>, rest: Seq<char>)
    requires
        !line.contains('\n'),
    ensures
        lines_of(line + seq!['\n'] + rest) == seq![without_cr(line)] + lines_of(rest),
{
    lemma_cut_at(line, '\n', rest);
}

/// The texts of `list` one after the other, `sep` between them.
pub open spec fn joined(list: Seq<Seq<char>>, sep: Seq<char>) -> Seq<char>
    decreases list.len(),
{
    if list.len() == 0 {
        Seq::empty()
    } else if list.len() == 1 {
        list[0]
    } else {
        joined(list.drop_last(), sep) + sep + list.last()
    }
}

/// The strings of `list` one after the other, `sep` between them.
pub fn join(list: &Vec<String>, sep: &str) -> (r: String)
    ensures
        r@ == joined(string_texts(list@), sep@),
{
    let mut out = String::new();
    let mut i: usize = 0;
    let ghost all = string_texts(list@);
    while i < list.len()
        invariant
            i <= list.len(),
            all == string_texts(list@),
            out@ == joined(all.take(i as int), sep@),
        decreases list.len() - i,
    {
        if i > 0 {
            out.append(sep);
        }
        out.append(list[i].as_str());
        proof {
            let now = all.take(i + 1);
            assert(now.drop_last() =~= all.take(i as int));
            assert(now.last() == list@[i as int]@);
            if i == 0 {
                assert(Seq::<char>::empty() + now[0] =~= now[0]);
            }
        }
        i = i + 1;
    }
    assert(all.take(list.len() as int) =~= all);
    out
}

/// Texts that are joined stand in their order, with the separator between each two and nowhere
/// else.
pub proof fn joined_in_order(list: Seq<Seq<char>>, more: Seq<char>, sep: Seq<char>)
    ensures
        joined(Seq::empty(), sep) == Seq::<char>::empty(),
        joined(seq![more], sep) == more,
        list.len() > 0 ==> joined(list.push(more), sep) == joined(list, sep) + sep + more,
{
    assert(list.push(more).drop_last() =~= list);
}

/// Trimmed text is the text between two places: what lies outside them is white space, and
/// neither its first nor its last character is.
pub proof fn trimmed_is_bare(s: Seq<char>)
    ensures
        exists|a: int, b: int| #[trigger] bare_between(s, trimmed(s), a, b),
{
    lemma_trimmed_start(s);
    let a = choose|a: int|
        0 <= a <= s.len() && trimmed_start(s) == #[trigger] s.skip(a) && forall|i: int|
            0 <= i < a ==> is_space(#[trigger] s[i]);
    let t = s.skip(a);
    lemma_trimmed_end(t);
    let n = choose|n: int|
        0 <= n <= t.len() && trimmed_end(t) == #[trigger] t.take(n) && forall|i: int|
            n <= i < t.len() ==> is_space(#[trigger] t[i]);
    assert(t.take(n) =~= s.subrange(a, a + n));
    assert forall|i: int| a + n <= i < s.len() implies is_space(#[trigger] s[i]) by {
        assert(is_space(t[i - a]));
    }
    if n > 0 {
        assert(t.take(n)[0] == t[0]);
        assert(t == trimmed_start(s));
    }
    assert(bare_between(s, trimmed(s), a, a + n));
}

/// Whether `bare` is `s` from `a` up to `b`, only white space lies outside, and it neither begins
/// nor ends with white space.
pub open spec fn bare_between(s: Seq<char>, bare: Seq<char>, a: int, b: int) -> bool {
    &&& 0 <= a <= b <= s.len()
    &&& bare == s.subrange(a, b)
    &&& forall|i: int| 0 <= i < a || b <= i < s.len() ==> is_space(#[trigger] s[i])
    &&& bare.len() > 0 ==> !is_space(bare[0]) && !is_space(bare.last())
}

proof fn lemma_trimmed_start(s: Seq<char>)
    ensures
        exists|a: int|
            0 <= a <= s.len() && trimmed_start(s) == #[trigger] s.skip(a) && forall|i: int|
                0 <= i < a ==> is_space(#[trigger] s[i]),
        trimmed_start(s).len() > 0 ==> !is_space(trimmed_start(s)[0]),
    decreases s.len(),
{
    if s.len() > 0 && is_space(s[0]) {
        let t = s.skip(1);
        lemma_trimmed_start(t);
        let a = choose|a: int|
            0 <= a <= t.len() && trimmed_start(t) == #[trigger] t.skip(a) && forall|i: int|
                0 <= i < a ==> is_space(#[trigger] t[i]);
        assert(t.skip(a) =~= s.skip(a + 1));
        assert forall|i: int| 0 <= i < a + 1 implies is_space(#[trigger] s[i]) by {
            if i > 0 {
                assert(is_space(t[i - 1]));
            }
        }
    } else {
        assert(s.skip(0) =~= s);
    }
}

proof fn lemma_trimmed_end(s: Seq<char>)
    ensures
        exists|n: int|
            0 <= n <= s.len() && trimmed_end(s) == #[trigger] s.take(n) && forall|i: int|
                n <= i < s.len() ==> is_space(#[trigger] s[i]),
        trimmed_end(s).len() > 0 ==> !is_space(trimmed_end(s).last()),
    decreases s.len(),
{
    if s.len() > 0 && is_space(s.last()) {
        let t = s.drop_last();
        lemma_trimmed_end(t);
        let n = choose|n: int|
            0 <= n <= t.len() && trimmed_end(t) == #[trigger] t.take(n) && forall|i: int|
                n <= i < t.len() ==> is_space(#[trigger] t[i]);
        assert(t.take(n) =~= s.take(n));
        assert forall|i: int| n <= i < s.len() implies is_space(#[trigger] s[i]) by {
            if i < t.len() {
                assert(is_space(t[i]));
            }
        }
    } else {
        assert(s.take(s.len() as int) =~= s);
    }
}

/// A cut at a text is made where the text stands first: the parts and the text between them are
/// the whole, and the text does not stand any earlier. There is none only where it stands nowhere.
pub proof fn cuts_are_made_first(s: Seq<char>, pat: Seq<char>)
    ensures
        match cut_text(s, pat) {
            Some((before, after)) => s == before + pat + after && forall|j: int|
                0 <= j < before.len() ==> !stands_at(s, pat, j),
            None => forall|j: int| !stands_at(s, pat, j),
        },
{
    lemma_first_is_first(s, pat, 0);
    match first_from(s, pat, 0) {
        Some(at) => {
            assert(s =~= s.take(at) + s.subrange(at, at + pat.len()) + s.skip(at + pat.len()));
        },
        None => {},
    }
}

proof fn lemma_first_is_first(s: Seq<char>, pat: Seq<char>, from: int)
    requires
        0 <= from,
    ensures
        match first_from(s, pat, from) {
            Some(at) => from <= at && stands_at(s, pat, at) && forall|j: int|
                from <= j < at ==> !stands_at(s, pat, j),
            None => forall|j: int| from <= j ==> !stands_at(s, pat, j),
        },
    decreases s.len() - from + 1,
{
    if from <= s.len() {
        lemma_first_is_first(s, pat, from + 1);
    }
}

/// Text that begins with a front is that front and what is left without it.
pub proof fn fronts_are_taken_off(front: Seq<char>, rest: Seq<char>, s: Seq<char>)
    ensures
        begins(front + rest, front),
        without_prefix(front + rest, front) == rest,
        begins(s, front) ==> s == front + without_prefix(s, front),
        !begins(s, front) ==> without_prefix(s, front) == s,
{
    let all = front + rest;
    assert(all.take(front.len() as int) =~= front);
    assert(all.skip(front.len() as int) =~= rest);
    if begins(s, front) {
        assert(s =~= s.take(front.len() as int) + s.skip(front.len() as int));
    }
}

/// A text mentions another if and only if that stands somewhere in it, whole.
pub proof fn mentioned_texts_stand_somewhere(
    before: Seq<char>,
    pat: Seq<char>,
    after: Seq<char>,
    s: Seq<char>,
)
    ensures
        mentions(before + pat + after, pat),
        mentions(s, pat) ==> exists|i: int|
            0 <= i <= s.len() && #[trigger] s.take(i) + pat + s.skip(i + pat.len()) == s,
{
    let all = before + pat + after;
    let at = before.len() as int;
    assert(all.subrange(at, at + pat.len()) =~= pat);
    assert(stands_at(all, pat, at));
    if mentions(s, pat) {
        let i = choose|i: int| stands_at(s, pat, i);
        assert(s =~= s.take(i) + s.subrange(i, i + pat.len()) + s.skip(i + pat.len()));
    }
}

/// White space are these twenty-five characters, and no others.
pub proof fn spaces_are_these(c: char)
    ensures
        is_space(c) <==> seq![
            0x09u32,
            0x0a,
            0x0b,
            0x0c,
            0x0d,
            0x20,
            0x85,
            0xa0,
            0x1680,
            0x2000,
            0x2001,
            0x2002,
            0x2003,
            0x2004,
            0x2005,
            0x2006,
            0x2007,
            0x2008,
            0x2009,
            0x200a,
            0x2028,
            0x2029,
            0x202f,
            0x205f,
            0x3000,
        ].contains(c as u32),
{
    let all = seq![
        0x09u32,
        0x0a,
        0x0b,
        0x0c,
        0x0d,
        0x20,
        0x85,
        0xa0,
        0x1680,
        0x2000,
        0x2001,
        0x2002,
        0x2003,
        0x2004,
        0x2005,
        0x2006,
        0x2007,
        0x2008,
        0x2009,
        0x200a,
        0x2028,
        0x2029,
        0x202f,
        0x205f,
        0x3000,
    ];
    let n = c as u32;
    if is_space(c) {
        let i: int = if n <= 0x0d {
            n - 9
        } else if n == 0x20 {
            5
        } else if n == 0x85 {
            6
        } else if n == 0xa0 {
            7
        } else if n == 0x1680 {
            8
        } else if n <= 0x200a {
            n - 0x2000 + 9
        } else if n <= 0x2029 {
            n - 0x2028 + 20
        } else if n == 0x202f {
            22
        } else if n == 0x205f {
            23
        } else {
            24
        };
        assert(all[i] == n);
    }
}

/// The pieces of a text are what stands between the characters it is cut at: none of them holds
/// that character, and put together with it they are the text.
pub proof fn pieces_make_the_text(s: Seq<char>, c: char)
    ensures
        pieces(s, c).len() > 0,
        joined(pieces(s, c), seq![c]) == s,
        forall|i: int| 0 <= i < pieces(s, c).len() ==> !(#[trigger] pieces(s, c)[i]).contains(c),
    decreases s.len(),
{
    lemma_cut_parts(s, c);
    match cut(s, c) {
        Some((before, after)) => {
            pieces_make_the_text(after, c);
            let rest = pieces(after, c);
            lemma_joined_front(before, rest, seq![c]);
            assert forall|i: int| 0 <= i < pieces(s, c).len() implies !(#[trigger] pieces(
                s,
                c,
            )[i]).contains(c) by {
                if i > 0 {
                    assert(pieces(s, c)[i] == rest[i - 1]);
                }
            }
        },
        None => {
            assert(joined(seq![s], seq![c]) == s);
        },
    }
}

proof fn lemma_joined_front(first: Seq<char>, list: Seq<Seq<char>>, sep: Seq<char>)
    requires
        list.len() > 0,
    ensures
        joined(seq![first] + list, sep) == first + sep + joined(list, sep),
    decreases list.len(),
{
    let all = seq![first] + list;
    if list.len() == 1 {
        assert(all.drop_last() =~= seq![first]);
        assert(joined(seq![first], sep) == first);
        assert(joined(list, sep) == list[0]);
    } else {
        lemma_joined_front(first, list.drop_last(), sep);
        assert(all.drop_last() =~= seq![first] + list.drop_last());
        assert(all.last() == list.last());
        assert(first + sep + joined(list.drop_last(), sep) + sep + list.last() =~= first + sep
            + joined(list, sep));
    }
}

} // verus!
