//! What holds of settings that are written and read back.
use vstd::prelude::*;

use crate::app_config::{
    at_least_one, image_text, ini_line, ini_lines, ini_list, ini_read, means_yes, names_in,
    number_or, path_or, slashed, unlines, unquoted, with_value, yes_digit, Settings,
};
use crate::number::{dec, decimal_in, digit, digits_value};
use crate::text::{
    cut, is_space, joined, lemma_cut_at, lemma_cut_none, lemma_cut_parts, lemma_first_line,
    lemma_trimmed_fixed, lines_of, lower, lowered, pieces, trimmed, trimmed_end, trimmed_start,
    without_cr,
};

verus! {

// ---------------------------------------------------------------------------------------
// Numbers
// ---------------------------------------------------------------------------------------
/// A number that is written in decimal is read back.
pub proof fn decimal_is_read_back(n: nat)
    ensures
        dec(n).len() > 0,
        digits_value(dec(n), 10) == Some(n),
        forall|i: int| 0 <= i < dec(n).len() ==> '0' <= #[trigger] dec(n)[i] <= '9',
    decreases n,
{
    if n >= 10 {
        decimal_is_read_back(n / 10);
        assert(dec(n).drop_last() =~= dec(n / 10));
        assert(dec(n).last() == digit(n % 10));
        assert(digit(n % 10) as int == 48 + n % 10);
        assert(10 * (n / 10) + n % 10 == n);
    } else {
        assert(dec(n).drop_last() =~= Seq::<char>::empty());
        assert(digits_value(Seq::<char>::empty(), 10) == Some(0nat));
        assert(digit(n) as int == 48 + n);
    }
}

proof fn lemma_dec_value(n: nat, most: nat)
    requires
        n <= most,
    ensures
        decimal_in(dec(n), most) == Some(n),
        plain(dec(n)),
{
    decimal_is_read_back(n);
    let s = dec(n);
    assert('0' <= s[0] <= '9');
    assert('0' <= s[s.len() - 1] <= '9');
    lemma_trimmed_fixed(s);
}

// ---------------------------------------------------------------------------------------
// Lines
// ---------------------------------------------------------------------------------------
pub(crate) proof fn lemma_unlines_front(list: Seq<Seq<char>>)
    requires
        list.len() > 0,
    ensures
        unlines(list) == list[0] + seq!['\n'] + unlines(list.skip(1)),
    decreases list.len(),
{
    reveal_strlit("\n");
    assert("\n"@ =~= seq!['\n']);
    if list.len() == 1 {
        assert(list.drop_last() =~= Seq::<Seq<char>>::empty());
        assert(list.skip(1) =~= Seq::<Seq<char>>::empty());
        assert(unlines(list) =~= list[0] + seq!['\n'] + unlines(list.skip(1)));
    } else {
        lemma_unlines_front(list.drop_last());
        assert(list.drop_last().skip(1) =~= list.skip(1).drop_last());
        assert(list.drop_last()[0] == list[0]);
        assert(list.skip(1).last() == list.last());
        assert(unlines(list) =~= list[0] + seq!['\n'] + unlines(list.skip(1)));
    }
}

/// Lines that are written are read back, each without a carriage return at its end.
pub proof fn lines_without_cr(list: Seq<Seq<char>>)
    requires
        forall|i: int| 0 <= i < list.len() ==> !(#[trigger] list[i]).contains('\n'),
    ensures
        lines_of(unlines(list)) == list.map_values(|line: Seq<char>| without_cr(line)),
    decreases list.len(),
{
    if list.len() == 0 {
        assert(lines_of(unlines(list)) =~= list.map_values(
            |line: Seq<char>| without_cr(line),
        ));
    } else {
        lemma_unlines_front(list);
        let rest = list.skip(1);
        assert forall|i: int| 0 <= i < rest.len() implies !(#[trigger] rest[i]).contains('\n') by {
            assert(!list[i + 1].contains('\n'));
        }
        lines_without_cr(rest);
        assert(!list[0].contains('\n'));
        lemma_first_line(list[0], unlines(rest));
        assert(seq![without_cr(list[0])] + rest.map_values(|line: Seq<char>| without_cr(line))
            =~= list.map_values(|line: Seq<char>| without_cr(line)));
    }
}

/// Whether a text is a line that is read as it was written.
pub open spec fn whole_line(line: Seq<char>) -> bool {
    !line.contains('\n') && (line.len() > 0 ==> line.last() != '\r')
}

/// Whole lines that are written are read back as they were.
pub proof fn lines_are_read_back(list: Seq<Seq<char>>)
    requires
        forall|i: int| 0 <= i < list.len() ==> whole_line(#[trigger] list[i]),
    ensures
        lines_of(unlines(list)) == list,
{
    assert forall|i: int| 0 <= i < list.len() implies !(#[trigger] list[i]).contains('\n') by {
        assert(whole_line(list[i]));
    }
    lines_without_cr(list);
    let mapped = list.map_values(|line: Seq<char>| without_cr(line));
    assert forall|i: int| 0 <= i < list.len() implies mapped[i] == list[i] by {
        assert(whole_line(list[i]));
    }
    assert(mapped =~= list);
}

// ---------------------------------------------------------------------------------------
// Values
// ---------------------------------------------------------------------------------------
/// Whether a value stands in a line as it is: on one line, without white space or a pair of
/// quotes around it.
pub open spec fn plain(v: Seq<char>) -> bool {
    &&& !v.contains('\n')
    &&& trimmed(v) == v
    &&& unquoted(v) == v
}

proof fn lemma_trimmed_ends(v: Seq<char>)
    requires
        trimmed(v) == v,
    ensures
        v.len() > 0 ==> !is_space(v[0]) && !is_space(v.last()),
{
    lemma_start_len(v);
    lemma_end_len(trimmed_start(v));
    if v.len() > 0 && is_space(v[0]) {
        lemma_start_len(v.skip(1));
    } else if v.len() > 0 && is_space(v.last()) {
        lemma_end_len(v.drop_last());
    }
}

proof fn lemma_start_len(s: Seq<char>)
    ensures
        trimmed_start(s).len() <= s.len(),
    decreases s.len(),
{
    if s.len() > 0 && is_space(s[0]) {
        lemma_start_len(s.skip(1));
    }
}

proof fn lemma_end_len(s: Seq<char>)
    ensures
        trimmed_end(s).len() <= s.len(),
    decreases s.len(),
{
    if s.len() > 0 && is_space(s.last()) {
        lemma_end_len(s.drop_last());
    }
}

/// Whether a text is a key: lower case, with neither white space around it nor an equals sign
/// in it, and not the beginning of a comment or a section.
pub open spec fn is_key(k: Seq<char>) -> bool {
    &&& k.len() > 0
    &&& forall|i: int| 0 <= i < k.len() ==> ('a' <= #[trigger] k[i] <= 'z' || k[i] == '_')
}

/// A line that gives a plain value to a key does so.
proof fn lemma_entry(section: Seq<char>, c: Settings, key: Seq<char>, v: Seq<char>)
    requires
        is_key(key),
        !v.contains('\n'),
        trimmed(v) == v,
    ensures
        ini_line(section, c, key + seq!['='] + v) == (
            section,
            with_value(c, section, key, unquoted(v)),
        ),
        whole_line(key + seq!['='] + v),
{
    reveal(ini_line);
    let line = key + seq!['='] + v;
    assert('a' <= key[0] <= 'z' || key[0] == '_');
    let last = key[key.len() - 1];
    assert('a' <= last <= 'z' || last == '_');
    lemma_trimmed_ends(v);
    assert(line[0] == key[0]);
    assert(v.len() > 0 ==> line.last() == v.last());
    assert(v.len() == 0 ==> line.last() == '=');
    lemma_trimmed_fixed(line);
    lemma_trimmed_fixed(key);
    assert forall|i: int| 0 <= i < key.len() implies #[trigger] key[i] != '=' && key[i] != '\n'
        && lower(key[i]) == key[i] by {
        assert('a' <= key[i] <= 'z' || key[i] == '_');
    }
    lemma_cut_at(key, '=', v);
    assert(lowered(key) =~= key);
    assert forall|i: int| 0 <= i < line.len() implies line[i] != '\n' by {
        if i < key.len() {
            assert(line[i] == key[i]);
        } else if i > key.len() {
            assert(line[i] == v[i - key.len() - 1]);
            assert(v.contains(v[i - key.len() - 1]));
        }
    }
}

proof fn lemma_yes(b: bool)
    ensures
        means_yes(yes_digit(b)) == b,
        plain(yes_digit(b)),
{
    reveal_strlit("1");
    reveal_strlit("0");
    reveal_strlit("true");
    reveal_strlit("yes");
    reveal_strlit("on");
    let v = yes_digit(b);
    lemma_trimmed_fixed(v);
    assert(lowered(v) =~= v);
    assert(v[0] == '1' || v[0] == '0');
}

// ---------------------------------------------------------------------------------------
// Names
// ---------------------------------------------------------------------------------------
/// Whether a text can be a name in a list.
pub open spec fn is_name(s: Seq<char>) -> bool {
    &&& s.len() > 0
    &&& trimmed(s) == s
    &&& !s.contains(',')
    &&& !s.contains('\n')
}

pub(crate) proof fn lemma_pieces_push(s: Seq<char>, c: char, t: Seq<char>)
    requires
        !t.contains(c),
    ensures
        pieces(s + seq![c] + t, c) == pieces(s, c).push(t),
    decreases s.len(),
{
    let all = s + seq![c] + t;
    lemma_cut_parts(s, c);
    match cut(s, c) {
        Some((before, after)) => {
            assert(all =~= before + seq![c] + (after + seq![c] + t));
            lemma_cut_at(before, c, after + seq![c] + t);
            lemma_pieces_push(after, c, t);
            assert(pieces(s, c) == seq![before] + pieces(after, c));
            assert(pieces(all, c) == seq![before] + pieces(after + seq![c] + t, c));
            assert(seq![before] + pieces(after, c).push(t) =~= (seq![before] + pieces(
                after,
                c,
            )).push(t));
        },
        None => {
            lemma_cut_at(s, c, t);
            lemma_cut_none(t, c);
            assert(pieces(t, c) == seq![t]);
            assert(pieces(s, c) == seq![s]);
            assert(pieces(all, c) == seq![s] + pieces(t, c));
            assert(seq![s] + seq![t] =~= seq![s].push(t));
        },
    }
}

/// Names that are written as a list are read back.
pub proof fn names_are_read_back(parts: Seq<Seq<char>>)
    requires
        forall|i: int| 0 <= i < parts.len() ==> is_name(#[trigger] parts[i]),
    ensures
        names_in(pieces(joined(parts, ","@), ',')) == parts,
        !joined(parts, ","@).contains('\n'),
    decreases parts.len(),
{
    reveal_strlit(",");
    assert(","@ =~= seq![',']);
    assert(names_in(Seq::<Seq<char>>::empty()) =~= Seq::<Seq<char>>::empty());
    if parts.len() == 0 {
        let none: Seq<char> = Seq::empty();
        lemma_cut_none(none, ',');
        assert(pieces(none, ',') =~= seq![none]);
        lemma_trimmed_fixed(none);
        assert(seq![none].drop_last() =~= Seq::<Seq<char>>::empty());
        assert(names_in(seq![none]) =~= parts);
    } else if parts.len() == 1 {
        assert(is_name(parts[0]));
        lemma_cut_none(parts[0], ',');
        assert(pieces(parts[0], ',') =~= seq![parts[0]]);
        assert(seq![parts[0]].drop_last() =~= Seq::<Seq<char>>::empty());
        assert(names_in(seq![parts[0]]) =~= parts);
    } else {
        let front = parts.drop_last();
        assert forall|i: int| 0 <= i < front.len() implies is_name(#[trigger] front[i]) by {
            assert(is_name(parts[i]));
        }
        names_are_read_back(front);
        let last = parts.last();
        assert(is_name(parts[parts.len() - 1]));
        let text = joined(front, ","@);
        lemma_pieces_push(text, ',', last);
        let list = pieces(text, ',').push(last);
        assert(list.drop_last() =~= pieces(text, ','));
        assert(front.push(last) =~= parts);
        let all = text + ","@ + last;
        assert forall|i: int| 0 <= i < all.len() implies all[i] != '\n' by {
            if i < text.len() {
                assert(text.contains(text[i]));
            } else if i > text.len() {
                assert(last.contains(last[i - text.len() - 1]));
            }
        }
    }
}

// ---------------------------------------------------------------------------------------
// The whole file
// ---------------------------------------------------------------------------------------
/// Whether settings can be written so that they are read back.
pub open spec fn storable(c: Settings) -> bool {
    &&& plain(c.language)
    &&& plain(image_text(c.image_path))
    &&& forall|i: int| 0 <= i < c.selected_parts.len() ==> is_name(#[trigger] c.selected_parts[i])
    &&& plain(slashed(c.app_dir))
    &&& plain(slashed(c.aiburn_dir))
    &&& plain(slashed(c.upgcmd_path))
    &&& plain(c.transport)
    &&& plain(c.serial_port)
}

/// The settings that come back when `c` is written and read over `base`: counts are at least
/// one, paths are written with slashes, and an empty path leaves what was there.
pub open spec fn read_back(base: Settings, c: Settings) -> Settings {
    Settings {
        retry_count: at_least_one(c.retry_count as nat) as u32,
        burn_timeout_secs: at_least_one(c.burn_timeout_secs as nat) as u64,
        image_path: if image_text(c.image_path).len() == 0 {
            base.image_path
        } else {
            Some(image_text(c.image_path))
        },
        app_dir: path_or(slashed(c.app_dir), base.app_dir),
        aiburn_dir: path_or(slashed(c.aiburn_dir), base.aiburn_dir),
        upgcmd_path: path_or(slashed(c.upgcmd_path), base.upgcmd_path),
        serial_auto_enter: base.serial_auto_enter,
        ..c
    }
}

proof fn lemma_section(section: Seq<char>, c: Settings, name: Seq<char>)
    requires
        is_key(name),
    ensures
        ini_line(section, c, seq!['['] + name + seq![']']) == (name, c),
        whole_line(seq!['['] + name + seq![']']),
{
    reveal(ini_line);
    let line = seq!['['] + name + seq![']'];
    assert(line[0] == '[' && line.last() == ']');
    lemma_trimmed_fixed(line);
    assert(line.subrange(1, line.len() - 1) =~= name);
    assert forall|i: int| 0 <= i < name.len() implies lower(#[trigger] name[i]) == name[i]
        && name[i] != '\n' by {
        assert('a' <= name[i] <= 'z' || name[i] == '_');
    }
    assert(lowered(name) =~= name);
    assert forall|i: int| 0 <= i < line.len() implies line[i] != '\n' by {
        if 0 < i < line.len() - 1 {
            assert(line[i] == name[i - 1]);
        }
    }
}

proof fn lemma_blank(section: Seq<char>, c: Settings)
    ensures
        ini_line(section, c, Seq::empty()) == (section, c),
        whole_line(Seq::empty()),
{
    reveal(ini_line);
    lemma_trimmed_fixed(Seq::empty());
}

/// One line that gives a value to a key, in its place.
proof fn lemma_step(
    base: Settings,
    list: Seq<Seq<char>>,
    n: nat,
    line_key: Seq<char>,
    key: Seq<char>,
    v: Seq<char>,
)
    requires
        n < list.len(),
        is_key(key),
        line_key == key + seq!['='],
        !v.contains('\n'),
        trimmed(v) == v,
        list[n as int] == line_key + v,
    ensures
        whole_line(list[n as int]),
        ini_lines(base, list, n + 1) == (
            ini_lines(base, list, n).0,
            with_value(
                ini_lines(base, list, n).1,
                ini_lines(base, list, n).0,
                key,
                unquoted(v),
            ),
        ),
{
    lemma_entry(ini_lines(base, list, n).0, ini_lines(base, list, n).1, key, v);
}

/// One line that begins a section, in its place.
proof fn lemma_step_section(base: Settings, list: Seq<Seq<char>>, n: nat, name: Seq<char>)
    requires
        n < list.len(),
        is_key(name),
        list[n as int] == seq!['['] + name + seq![']'],
    ensures
        whole_line(list[n as int]),
        ini_lines(base, list, n + 1) == (name, ini_lines(base, list, n).1),
{
    lemma_section(ini_lines(base, list, n).0, ini_lines(base, list, n).1, name);
}

/// A blank line, in its place.
proof fn lemma_step_blank(base: Settings, list: Seq<Seq<char>>, n: nat)
    requires
        n < list.len(),
        list[n as int] == Seq::<char>::empty(),
    ensures
        whole_line(list[n as int]),
        ini_lines(base, list, n + 1) == ini_lines(base, list, n),
{
    lemma_blank(ini_lines(base, list, n).0, ini_lines(base, list, n).1);
}

proof fn lemma_debug_name()
    ensures
        is_key("debug"@),
        "[debug]"@ == seq!['['] + "debug"@ + seq![']'],
{
    reveal_strlit("debug");
    reveal_strlit("[debug]");
    assert("[debug]"@ =~= seq!['['] + "debug"@ + seq![']']);
}

proof fn lemma_set_auto_burn(c: Settings, value: Seq<char>)
    ensures
        is_key("auto_burn"@),
        "auto_burn="@ == "auto_burn"@ + seq!['='],
        with_value(c, "debug"@, "auto_burn"@, value) == (Settings { auto_burn: means_yes(value), ..c }),
{
    reveal(with_value);
    reveal_strlit("auto_burn");
    reveal_strlit("auto_burn=");
    assert("auto_burn="@ =~= "auto_burn"@ + seq!['=']);
}

proof fn lemma_set_is_verbose(c: Settings, value: Seq<char>)
    ensures
        is_key("is_verbose"@),
        "is_verbose="@ == "is_verbose"@ + seq!['='],
        with_value(c, "debug"@, "is_verbose"@, value) == (Settings { verbose: means_yes(value), ..c }),
{
    reveal(with_value);
    reveal_strlit("is_verbose");
    reveal_strlit("is_verbose=");
    assert("is_verbose="@ =~= "is_verbose"@ + seq!['=']);
    reveal_strlit("auto_burn");
}

proof fn lemma_set_read_device_log(c: Settings, value: Seq<char>)
    ensures
        is_key("read_device_log"@),
        "read_device_log="@ == "read_device_log"@ + seq!['='],
        with_value(c, "debug"@, "read_device_log"@, value) == (Settings { read_device_log: means_yes(value), ..c }),
{
    reveal(with_value);
    reveal_strlit("read_device_log");
    reveal_strlit("read_device_log=");
    assert("read_device_log="@ =~= "read_device_log"@ + seq!['=']);
    reveal_strlit("auto_burn");
    reveal_strlit("is_verbose");
}

proof fn lemma_set_adb_scan(c: Settings, value: Seq<char>)
    ensures
        is_key("adb_scan"@),
        "adb_scan="@ == "adb_scan"@ + seq!['='],
        with_value(c, "debug"@, "adb_scan"@, value) == (Settings { adb_scan: means_yes(value), ..c }),
{
    reveal(with_value);
    reveal_strlit("adb_scan");
    reveal_strlit("adb_scan=");
    assert("adb_scan="@ =~= "adb_scan"@ + seq!['=']);
    reveal_strlit("auto_burn");
    reveal_strlit("is_verbose");
    reveal_strlit("read_device_log");
}

proof fn lemma_set_retry_cnt(c: Settings, value: Seq<char>)
    ensures
        is_key("retry_cnt"@),
        "retry_cnt="@ == "retry_cnt"@ + seq!['='],
        with_value(c, "debug"@, "retry_cnt"@, value) == (Settings {
            retry_count: at_least_one(number_or(value, c.retry_count as nat, u32::MAX as nat)) as u32,
            ..c
        }),
{
    reveal(with_value);
    reveal_strlit("retry_cnt");
    reveal_strlit("retry_cnt=");
    assert("retry_cnt="@ =~= "retry_cnt"@ + seq!['=']);
    reveal_strlit("auto_burn");
    assert("retry_cnt"@[0] != "auto_burn"@[0]);
    reveal_strlit("is_verbose");
    reveal_strlit("read_device_log");
    reveal_strlit("adb_scan");
}

proof fn lemma_set_block_err_log(c: Settings, value: Seq<char>)
    ensures
        is_key("block_err_log"@),
        "block_err_log="@ == "block_err_log"@ + seq!['='],
        with_value(c, "debug"@, "block_err_log"@, value) == (Settings { block_error_log: means_yes(value), ..c }),
{
    reveal(with_value);
    reveal_strlit("block_err_log");
    reveal_strlit("block_err_log=");
    assert("block_err_log="@ =~= "block_err_log"@ + seq!['=']);
    reveal_strlit("auto_burn");
    reveal_strlit("is_verbose");
    reveal_strlit("read_device_log");
    reveal_strlit("adb_scan");
    reveal_strlit("retry_cnt");
}

proof fn lemma_system_name()
    ensures
        is_key("system"@),
        "[system]"@ == seq!['['] + "system"@ + seq![']'],
{
    reveal_strlit("system");
    reveal_strlit("[system]");
    assert("[system]"@ =~= seq!['['] + "system"@ + seq![']']);
}

proof fn lemma_set_burn_timeout(c: Settings, value: Seq<char>)
    ensures
        is_key("burn_timeout"@),
        "burn_timeout="@ == "burn_timeout"@ + seq!['='],
        with_value(c, "system"@, "burn_timeout"@, value) == (Settings {
            burn_timeout_secs: at_least_one(number_or(value, c.burn_timeout_secs as nat, u64::MAX as nat)) as u64,
            ..c
        }),
{
    reveal(with_value);
    reveal_strlit("burn_timeout");
    reveal_strlit("burn_timeout=");
    assert("burn_timeout="@ =~= "burn_timeout"@ + seq!['=']);
    reveal_strlit("debug");
    reveal_strlit("system");
    assert("system"@.len() != "debug"@.len());
}

proof fn lemma_set_language(c: Settings, value: Seq<char>)
    ensures
        is_key("language"@),
        "language="@ == "language"@ + seq!['='],
        with_value(c, "system"@, "language"@, value) == (Settings { language: value, ..c }),
{
    reveal(with_value);
    reveal_strlit("language");
    reveal_strlit("language=");
    assert("language="@ =~= "language"@ + seq!['=']);
    reveal_strlit("debug");
    reveal_strlit("system");
    assert("system"@.len() != "debug"@.len());
    reveal_strlit("burn_timeout");
}

proof fn lemma_common_name()
    ensures
        is_key("common"@),
        "[common]"@ == seq!['['] + "common"@ + seq![']'],
{
    reveal_strlit("common");
    reveal_strlit("[common]");
    assert("[common]"@ =~= seq!['['] + "common"@ + seq![']']);
}

proof fn lemma_set_image_path(c: Settings, value: Seq<char>)
    ensures
        is_key("image_path"@),
        "image_path="@ == "image_path"@ + seq!['='],
        with_value(c, "common"@, "image_path"@, value) == (if value.len() == 0 {
            c
        } else {
            Settings { image_path: Some(value), ..c }
        }),
{
    reveal(with_value);
    reveal_strlit("image_path");
    reveal_strlit("image_path=");
    assert("image_path="@ =~= "image_path"@ + seq!['=']);
    reveal_strlit("debug");
    reveal_strlit("common");
    assert("common"@.len() != "debug"@.len());
    reveal_strlit("system");
    assert("common"@[0] != "system"@[0]);
}

proof fn lemma_set_selected_parts(c: Settings, value: Seq<char>)
    ensures
        is_key("selected_parts"@),
        "selected_parts="@ == "selected_parts"@ + seq!['='],
        with_value(c, "common"@, "selected_parts"@, value) == (Settings { selected_parts: names_in(pieces(value, ',')), ..c }),
{
    reveal(with_value);
    reveal_strlit("selected_parts");
    reveal_strlit("selected_parts=");
    assert("selected_parts="@ =~= "selected_parts"@ + seq!['=']);
    reveal_strlit("debug");
    reveal_strlit("common");
    assert("common"@.len() != "debug"@.len());
    reveal_strlit("system");
    assert("common"@[0] != "system"@[0]);
    reveal_strlit("image_path");
}

proof fn lemma_set_app_dir(c: Settings, value: Seq<char>)
    ensures
        is_key("app_dir"@),
        "app_dir="@ == "app_dir"@ + seq!['='],
        with_value(c, "common"@, "app_dir"@, value) == (Settings { app_dir: path_or(value, c.app_dir), ..c }),
{
    reveal(with_value);
    reveal_strlit("app_dir");
    reveal_strlit("app_dir=");
    assert("app_dir="@ =~= "app_dir"@ + seq!['=']);
    reveal_strlit("debug");
    reveal_strlit("common");
    assert("common"@.len() != "debug"@.len());
    reveal_strlit("system");
    assert("common"@[0] != "system"@[0]);
    reveal_strlit("image_path");
    reveal_strlit("selected_parts");
}

proof fn lemma_set_aiburn_dir(c: Settings, value: Seq<char>)
    ensures
        is_key("aiburn_dir"@),
        "aiburn_dir="@ == "aiburn_dir"@ + seq!['='],
        with_value(c, "common"@, "aiburn_dir"@, value) == (Settings { aiburn_dir: path_or(value, c.aiburn_dir), ..c }),
{
    reveal(with_value);
    reveal_strlit("aiburn_dir");
    reveal_strlit("aiburn_dir=");
    assert("aiburn_dir="@ =~= "aiburn_dir"@ + seq!['=']);
    reveal_strlit("debug");
    reveal_strlit("common");
    assert("common"@.len() != "debug"@.len());
    reveal_strlit("system");
    assert("common"@[0] != "system"@[0]);
    reveal_strlit("image_path");
    assert("aiburn_dir"@[0] != "image_path"@[0]);
    reveal_strlit("selected_parts");
    reveal_strlit("app_dir");
}

proof fn lemma_set_upgcmd_path(c: Settings, value: Seq<char>)
    ensures
        is_key("upgcmd_path"@),
        "upgcmd_path="@ == "upgcmd_path"@ + seq!['='],
        with_value(c, "common"@, "upgcmd_path"@, value) == (Settings { upgcmd_path: path_or(value, c.upgcmd_path), ..c }),
{
    reveal(with_value);
    reveal_strlit("upgcmd_path");
    reveal_strlit("upgcmd_path=");
    assert("upgcmd_path="@ =~= "upgcmd_path"@ + seq!['=']);
    reveal_strlit("debug");
    reveal_strlit("common");
    assert("common"@.len() != "debug"@.len());
    reveal_strlit("system");
    assert("common"@[0] != "system"@[0]);
    reveal_strlit("image_path");
    reveal_strlit("selected_parts");
    reveal_strlit("app_dir");
    reveal_strlit("aiburn_dir");
}

proof fn lemma_set_transport(c: Settings, value: Seq<char>)
    ensures
        is_key("transport"@),
        "transport="@ == "transport"@ + seq!['='],
        with_value(c, "common"@, "transport"@, value) == (Settings { transport: value, ..c }),
{
    reveal(with_value);
    reveal_strlit("transport");
    reveal_strlit("transport=");
    assert("transport="@ =~= "transport"@ + seq!['=']);
    reveal_strlit("debug");
    reveal_strlit("common");
    assert("common"@.len() != "debug"@.len());
    reveal_strlit("system");
    assert("common"@[0] != "system"@[0]);
    reveal_strlit("image_path");
    reveal_strlit("selected_parts");
    reveal_strlit("app_dir");
    reveal_strlit("aiburn_dir");
    reveal_strlit("upgcmd_path");
}

proof fn lemma_set_serial_port(c: Settings, value: Seq<char>)
    ensures
        is_key("serial_port"@),
        "serial_port="@ == "serial_port"@ + seq!['='],
        with_value(c, "common"@, "serial_port"@, value) == (Settings { serial_port: value, ..c }),
{
    reveal(with_value);
    reveal_strlit("serial_port");
    reveal_strlit("serial_port=");
    assert("serial_port="@ =~= "serial_port"@ + seq!['=']);
    reveal_strlit("debug");
    reveal_strlit("common");
    assert("common"@.len() != "debug"@.len());
    reveal_strlit("system");
    assert("common"@[0] != "system"@[0]);
    reveal_strlit("image_path");
    reveal_strlit("selected_parts");
    reveal_strlit("app_dir");
    reveal_strlit("aiburn_dir");
    reveal_strlit("upgcmd_path");
    assert("serial_port"@[0] != "upgcmd_path"@[0]);
    reveal_strlit("transport");
}

proof fn lemma_set_serial_baud(c: Settings, value: Seq<char>)
    ensures
        is_key("serial_baud"@),
        "serial_baud="@ == "serial_baud"@ + seq!['='],
        with_value(c, "common"@, "serial_baud"@, value) == (Settings {
            serial_baud: number_or(value, c.serial_baud as nat, u32::MAX as nat) as u32,
            ..c
        }),
{
    reveal(with_value);
    reveal_strlit("serial_baud");
    reveal_strlit("serial_baud=");
    assert("serial_baud="@ =~= "serial_baud"@ + seq!['=']);
    reveal_strlit("debug");
    reveal_strlit("common");
    assert("common"@.len() != "debug"@.len());
    reveal_strlit("system");
    assert("common"@[0] != "system"@[0]);
    reveal_strlit("image_path");
    reveal_strlit("selected_parts");
    reveal_strlit("app_dir");
    reveal_strlit("aiburn_dir");
    reveal_strlit("upgcmd_path");
    assert("serial_baud"@[0] != "upgcmd_path"@[0]);
    reveal_strlit("transport");
    reveal_strlit("serial_port");
    assert("serial_baud"@[7] != "serial_port"@[7]);
}

proof fn lemma_set_serial_speed(c: Settings, value: Seq<char>)
    ensures
        is_key("serial_speed"@),
        "serial_speed="@ == "serial_speed"@ + seq!['='],
        with_value(c, "common"@, "serial_speed"@, value) == (Settings {
            serial_speed: number_or(value, c.serial_speed as nat, u32::MAX as nat) as u32,
            ..c
        }),
{
    reveal(with_value);
    reveal_strlit("serial_speed");
    reveal_strlit("serial_speed=");
    assert("serial_speed="@ =~= "serial_speed"@ + seq!['=']);
    reveal_strlit("debug");
    reveal_strlit("common");
    assert("common"@.len() != "debug"@.len());
    reveal_strlit("system");
    assert("common"@[0] != "system"@[0]);
    reveal_strlit("image_path");
    reveal_strlit("selected_parts");
    reveal_strlit("app_dir");
    reveal_strlit("aiburn_dir");
    reveal_strlit("upgcmd_path");
    reveal_strlit("transport");
    reveal_strlit("serial_port");
    reveal_strlit("serial_baud");
}

/// The settings after the section `debug`.
spec fn debug_read(base: Settings, c: Settings) -> Settings {
    Settings {
        auto_burn: c.auto_burn,
        verbose: c.verbose,
        read_device_log: c.read_device_log,
        adb_scan: c.adb_scan,
        retry_count: at_least_one(c.retry_count as nat) as u32,
        block_error_log: c.block_error_log,
        ..base
    }
}

/// The settings after the section `system`.
spec fn system_read(base: Settings, c: Settings) -> Settings {
    Settings {
        burn_timeout_secs: at_least_one(c.burn_timeout_secs as nat) as u64,
        language: c.language,
        ..debug_read(base, c)
    }
}

proof fn lemma_debug_part(base: Settings, c: Settings, list: Seq<Seq<char>>)
    requires
        list.len() == 22,
        list[0] == "[debug]"@,
        list[1] == "auto_burn="@ + yes_digit(c.auto_burn),
        list[2] == "is_verbose="@ + yes_digit(c.verbose),
        list[3] == "read_device_log="@ + yes_digit(c.read_device_log),
        list[4] == "adb_scan="@ + yes_digit(c.adb_scan),
        list[5] == "retry_cnt="@ + dec(at_least_one(c.retry_count as nat)),
        list[6] == "block_err_log="@ + yes_digit(c.block_error_log),
        list[7] == Seq::<char>::empty(),
    ensures
        ini_lines(base, list, 8) == ("debug"@, debug_read(base, c)),
        whole_line(list[0]),
        whole_line(list[1]),
        whole_line(list[2]),
        whole_line(list[3]),
        whole_line(list[4]),
        whole_line(list[5]),
        whole_line(list[6]),
        whole_line(list[7]),
{
    lemma_debug_name();
    lemma_step_section(base, list, 0, "debug"@);
    lemma_yes(c.auto_burn);
    lemma_set_auto_burn(ini_lines(base, list, 1).1, yes_digit(c.auto_burn));
    lemma_step(base, list, 1, "auto_burn="@, "auto_burn"@, yes_digit(c.auto_burn));
    lemma_yes(c.verbose);
    lemma_set_is_verbose(ini_lines(base, list, 2).1, yes_digit(c.verbose));
    lemma_step(base, list, 2, "is_verbose="@, "is_verbose"@, yes_digit(c.verbose));
    lemma_yes(c.read_device_log);
    lemma_set_read_device_log(ini_lines(base, list, 3).1, yes_digit(c.read_device_log));
    lemma_step(base, list, 3, "read_device_log="@, "read_device_log"@, yes_digit(c.read_device_log));
    lemma_yes(c.adb_scan);
    lemma_set_adb_scan(ini_lines(base, list, 4).1, yes_digit(c.adb_scan));
    lemma_step(base, list, 4, "adb_scan="@, "adb_scan"@, yes_digit(c.adb_scan));
    lemma_dec_value(at_least_one(c.retry_count as nat), u32::MAX as nat);
    lemma_set_retry_cnt(ini_lines(base, list, 5).1, dec(at_least_one(c.retry_count as nat)));
    lemma_step(base, list, 5, "retry_cnt="@, "retry_cnt"@, dec(at_least_one(c.retry_count as nat)));
    lemma_yes(c.block_error_log);
    lemma_set_block_err_log(ini_lines(base, list, 6).1, yes_digit(c.block_error_log));
    lemma_step(base, list, 6, "block_err_log="@, "block_err_log"@, yes_digit(c.block_error_log));
    lemma_step_blank(base, list, 7);
}

proof fn lemma_system_part(base: Settings, c: Settings, list: Seq<Seq<char>>)
    requires
        list.len() == 22,
        plain(c.language),
        ini_lines(base, list, 8) == ("debug"@, debug_read(base, c)),
        list[8] == "[system]"@,
        list[9] == "burn_timeout="@ + dec(at_least_one(c.burn_timeout_secs as nat)),
        list[10] == "language="@ + c.language,
        list[11] == Seq::<char>::empty(),
    ensures
        ini_lines(base, list, 12) == ("system"@, system_read(base, c)),
        whole_line(list[8]),
        whole_line(list[9]),
        whole_line(list[10]),
        whole_line(list[11]),
{
    lemma_system_name();
    lemma_step_section(base, list, 8, "system"@);
    let v = dec(at_least_one(c.burn_timeout_secs as nat));
    lemma_dec_value(at_least_one(c.burn_timeout_secs as nat), u64::MAX as nat);
    lemma_set_burn_timeout(ini_lines(base, list, 9).1, v);
    lemma_step(base, list, 9, "burn_timeout="@, "burn_timeout"@, v);
    lemma_set_language(ini_lines(base, list, 10).1, c.language);
    lemma_step(base, list, 10, "language="@, "language"@, c.language);
    lemma_step_blank(base, list, 11);
}

/// A list of names in quotes, as the value of its key.
proof fn lemma_names_value(parts: Seq<Seq<char>>)
    requires
        forall|i: int| 0 <= i < parts.len() ==> is_name(#[trigger] parts[i]),
    ensures
        ({
            let v = seq!['"'] + joined(parts, ","@) + seq!['"'];
            &&& !v.contains('\n')
            &&& trimmed(v) == v
            &&& unquoted(v) == joined(parts, ","@)
            &&& "selected_parts=\""@ + joined(parts, ","@) + "\""@ == "selected_parts="@ + v
        }),
{
    names_are_read_back(parts);
    let text = joined(parts, ","@);
    let v = seq!['"'] + text + seq!['"'];
    assert(v[0] == '"' && v.last() == '"');
    lemma_trimmed_fixed(v);
    assert(v.subrange(1, v.len() - 1) =~= text);
    assert forall|i: int| 0 <= i < v.len() implies v[i] != '\n' by {
        if 0 < i < v.len() - 1 {
            assert(v[i] == text[i - 1]);
            assert(text.contains(text[i - 1]));
        }
    }
    reveal_strlit("selected_parts=\"");
    reveal_strlit("selected_parts=");
    reveal_strlit("\"");
    assert("selected_parts=\""@ =~= "selected_parts="@ + seq!['"']);
    assert("\""@ =~= seq!['"']);
    assert("selected_parts=\""@ + text + "\""@ =~= "selected_parts="@ + v);
}

proof fn lemma_common_part(base: Settings, c: Settings, list: Seq<Seq<char>>)
    requires
        list.len() == 22,
        storable(c),
        ini_lines(base, list, 12) == ("system"@, system_read(base, c)),
        list[12] == "[common]"@,
        list[13] == "image_path="@ + image_text(c.image_path),
        list[14] == "selected_parts=\""@ + joined(c.selected_parts, ","@) + "\""@,
        list[15] == "app_dir="@ + slashed(c.app_dir),
        list[16] == "aiburn_dir="@ + slashed(c.aiburn_dir),
        list[17] == "upgcmd_path="@ + slashed(c.upgcmd_path),
        list[18] == "transport="@ + c.transport,
        list[19] == "serial_port="@ + c.serial_port,
        list[20] == "serial_baud="@ + dec(c.serial_baud as nat),
        list[21] == "serial_speed="@ + dec(c.serial_speed as nat),
    ensures
        ini_lines(base, list, 22) == ("common"@, read_back(base, c)),
        whole_line(list[12]),
        whole_line(list[13]),
        whole_line(list[14]),
        whole_line(list[15]),
        whole_line(list[16]),
        whole_line(list[17]),
        whole_line(list[18]),
        whole_line(list[19]),
        whole_line(list[20]),
        whole_line(list[21]),
{
    lemma_common_name();
    lemma_step_section(base, list, 12, "common"@);
    lemma_set_image_path(ini_lines(base, list, 13).1, image_text(c.image_path));
    lemma_step(base, list, 13, "image_path="@, "image_path"@, image_text(c.image_path));
    let text = joined(c.selected_parts, ","@);
    lemma_names_value(c.selected_parts);
    names_are_read_back(c.selected_parts);
    lemma_set_selected_parts(ini_lines(base, list, 14).1, text);
    lemma_step(
        base,
        list,
        14,
        "selected_parts="@,
        "selected_parts"@,
        seq!['"'] + text + seq!['"'],
    );
    lemma_set_app_dir(ini_lines(base, list, 15).1, slashed(c.app_dir));
    lemma_step(base, list, 15, "app_dir="@, "app_dir"@, slashed(c.app_dir));
    lemma_set_aiburn_dir(ini_lines(base, list, 16).1, slashed(c.aiburn_dir));
    lemma_step(base, list, 16, "aiburn_dir="@, "aiburn_dir"@, slashed(c.aiburn_dir));
    lemma_set_upgcmd_path(ini_lines(base, list, 17).1, slashed(c.upgcmd_path));
    lemma_step(base, list, 17, "upgcmd_path="@, "upgcmd_path"@, slashed(c.upgcmd_path));
    lemma_set_transport(ini_lines(base, list, 18).1, c.transport);
    lemma_step(base, list, 18, "transport="@, "transport"@, c.transport);
    lemma_set_serial_port(ini_lines(base, list, 19).1, c.serial_port);
    lemma_step(base, list, 19, "serial_port="@, "serial_port"@, c.serial_port);
    lemma_dec_value(c.serial_baud as nat, u32::MAX as nat);
    lemma_set_serial_baud(ini_lines(base, list, 20).1, dec(c.serial_baud as nat));
    lemma_step(base, list, 20, "serial_baud="@, "serial_baud"@, dec(c.serial_baud as nat));
    lemma_dec_value(c.serial_speed as nat, u32::MAX as nat);
    lemma_set_serial_speed(ini_lines(base, list, 21).1, dec(c.serial_speed as nat));
    lemma_step(base, list, 21, "serial_speed="@, "serial_speed"@, dec(c.serial_speed as nat));
    assert(ini_lines(base, list, 22).1 =~= read_back(base, c));
}

/// Settings that are written are read back, whatever held before: every flag, number, text and
/// list of names as it was, paths with slashes for backslashes.
pub proof fn settings_are_read_back(base: Settings, c: Settings)
    requires
        storable(c),
    ensures
        ini_read(base, unlines(ini_list(c))) == read_back(base, c),
{
    let list = ini_list(c);
    lemma_debug_part(base, c, list);
    lemma_system_part(base, c, list);
    lemma_common_part(base, c, list);
    assert forall|i: int| 0 <= i < list.len() implies whole_line(#[trigger] list[i]) by {
        assert(list.len() == 22);
    }
    lines_are_read_back(list);
}

/// Settings whose counts are not zero and whose paths are not empty and hold no backslash come
/// back exactly, but for the one that is not kept in a file.
pub proof fn usual_settings_come_back(base: Settings, c: Settings)
    requires
        storable(c),
        c.retry_count > 0,
        c.burn_timeout_secs > 0,
        slashed(c.app_dir) == c.app_dir && c.app_dir.len() > 0,
        slashed(c.aiburn_dir) == c.aiburn_dir && c.aiburn_dir.len() > 0,
        slashed(c.upgcmd_path) == c.upgcmd_path && c.upgcmd_path.len() > 0,
        c.image_path matches Some(p) && slashed(p) == p && p.len() > 0,
    ensures
        ini_read(base, unlines(ini_list(c))) == (Settings {
            serial_auto_enter: base.serial_auto_enter,
            ..c
        }),
{
    settings_are_read_back(base, c);
}

} // verus!
