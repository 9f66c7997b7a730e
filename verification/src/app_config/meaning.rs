//! What the entries of a file of settings mean.
use vstd::prelude::*;

use crate::app_config::history::{about, entries, entry_of, history, history_line, others};
use crate::app_config::{
    default_settings, ini_line, ini_lines, ini_list, ini_read, means_yes, names_in, path_in, placed,
    slashed, start_settings, unlines, unquoted, with_value, IniPlace, Settings,
};
use crate::number::{dec, decimal_in};
use crate::platform::Platform;
use crate::text::{
    begins, joined, lemma_cut_at, lemma_cut_last_at, lines_of, lowered, pieces, trimmed,
    trimmed_start,
};

verus! {

// ---------------------------------------------------------------------------------------
// Values
// ---------------------------------------------------------------------------------------
/// A value means yes if and only if it is one of four words, whatever the case of its letters and
/// the white space around it.
pub proof fn yes_has_four_words(value: Seq<char>)
    ensures
        means_yes(value) <==> lowered(trimmed(value)) == seq!['1'] || lowered(trimmed(value))
            == seq!['t', 'r', 'u', 'e'] || lowered(trimmed(value)) == seq!['y', 'e', 's']
            || lowered(trimmed(value)) == seq!['o', 'n'],
{
    reveal_strlit("1");
    reveal_strlit("true");
    reveal_strlit("yes");
    reveal_strlit("on");
    assert("1"@ =~= seq!['1']);
    assert("true"@ =~= seq!['t', 'r', 'u', 'e']);
    assert("yes"@ =~= seq!['y', 'e', 's']);
    assert("on"@ =~= seq!['o', 'n']);
}

/// Only the capital letters of the Latin alphabet change when text is put in lower case, each into
/// the small one thirty-two places on.
pub proof fn capitals_become_small(s: Seq<char>, i: int)
    requires
        0 <= i < s.len(),
    ensures
        lowered(s).len() == s.len(),
        'A' <= s[i] <= 'Z' ==> lowered(s)[i] as int == s[i] as int + 32,
        !('A' <= s[i] <= 'Z') ==> lowered(s)[i] == s[i],
{
}

/// Quotes are taken off where they stand on both sides, and nowhere else.
pub proof fn quotes_are_taken_off(s: Seq<char>)
    ensures
        unquoted(seq!['"'] + s + seq!['"']) == s,
        s.len() < 2 || s[0] != '"' || s.last() != '"' ==> unquoted(s) == s,
{
    let quoted = seq!['"'] + s + seq!['"'];
    assert(quoted.subrange(1, quoted.len() - 1) =~= s);
}

/// The names of a list are its pieces without white space around them, in their order; blank ones
/// are left out.
pub proof fn names_are_the_pieces(list: Seq<Seq<char>>, piece: Seq<char>)
    ensures
        names_in(Seq::empty()) == Seq::<Seq<char>>::empty(),
        trimmed(piece).len() > 0 ==> names_in(list.push(piece)) == names_in(list).push(
            trimmed(piece),
        ),
        trimmed(piece).len() == 0 ==> names_in(list.push(piece)) == names_in(list),
{
    assert(list.push(piece).drop_last() =~= list);
}

/// Backslashes are written as slashes, and nothing else changes.
pub proof fn backslashes_are_turned(s: Seq<char>, i: int)
    requires
        0 <= i < s.len(),
    ensures
        slashed(s).len() == s.len(),
        slashed(s)[i] == (if s[i] == '\\' {
            '/'
        } else {
            s[i]
        }),
{
}

// ---------------------------------------------------------------------------------------
// Lines
// ---------------------------------------------------------------------------------------
/// How a line of a file of settings is taken: blank ones and comments are skipped, one in
/// brackets begins a section, whatever the case of its letters, and one with an equals sign gives
/// a value to a key of the section; any other is ignored.
pub proof fn lines_are_taken(section: Seq<char>, c: Settings, raw: Seq<char>)
    ensures
        ({
            let line = trimmed(raw);
            let skipped = line.len() == 0 || line[0] == ';' || line[0] == '#';
            let titled = !skipped && line[0] == '[' && line.last() == ']';
            &&& skipped ==> ini_line(section, c, raw) == (section, c)
            &&& titled ==> ini_line(section, c, raw) == (
                lowered(line.subrange(1, line.len() - 1)),
                c,
            )
            &&& !skipped && !titled && !line.contains('=') ==> ini_line(section, c, raw) == (
                section,
                c,
            )
        }),
{
    reveal(ini_line);
    let line = trimmed(raw);
    if !line.contains('=') {
        crate::text::lemma_cut_none(line, '=');
    }
}

/// The first equals sign of a line parts key and value; neither has white space around it, the
/// case of the key does not matter, and the value may stand in quotes.
pub proof fn entries_are_taken(
    section: Seq<char>,
    c: Settings,
    raw: Seq<char>,
    key: Seq<char>,
    value: Seq<char>,
)
    requires
        trimmed(raw) == key + seq!['='] + value,
        !key.contains('='),
        !(trimmed(raw)[0] == ';' || trimmed(raw)[0] == '#'),
        !(trimmed(raw)[0] == '[' && trimmed(raw).last() == ']'),
    ensures
        ini_line(section, c, raw) == (
            section,
            with_value(c, section, lowered(trimmed(key)), unquoted(trimmed(value))),
        ),
{
    reveal(ini_line);
    lemma_cut_at(key, '=', value);
}

/// Lines are taken one after the other, from the first on, outside any section at first.
pub proof fn files_are_read_line_by_line(c: Settings, list: Seq<Seq<char>>, n: nat, text: Seq<char>)
    ensures
        ini_lines(c, list, 0) == (Seq::<char>::empty(), c),
        n > 0 ==> ini_lines(c, list, n) == ini_line(
            ini_lines(c, list, (n - 1) as nat).0,
            ini_lines(c, list, (n - 1) as nat).1,
            list[n - 1],
        ),
        ini_read(c, text) == ini_lines(c, lines_of(text), lines_of(text).len()).1,
{
}

// ---------------------------------------------------------------------------------------
// Keys
// ---------------------------------------------------------------------------------------
/// The number that a value gives, at least one; what is no number changes nothing but that.
pub open spec fn count_given(value: Seq<char>, present: nat, most: nat) -> nat {
    match decimal_in(value, most) {
        Some(n) => if n == 0 {
            1
        } else {
            n
        },
        None => if present == 0 {
            1
        } else {
            present
        },
    }
}

/// What the keys of the section `debug` mean.
pub proof fn debug_keys_are_these(c: Settings, v: Seq<char>, key: Seq<char>)
    ensures
        with_value(c, "debug"@, "auto_burn"@, v) == (Settings { auto_burn: means_yes(v), ..c }),
        with_value(c, "debug"@, "is_verbose"@, v) == (Settings { verbose: means_yes(v), ..c }),
        with_value(c, "debug"@, "read_device_log"@, v) == (Settings {
            read_device_log: means_yes(v),
            ..c
        }),
        with_value(c, "debug"@, "adb_scan"@, v) == (Settings { adb_scan: means_yes(v), ..c }),
        with_value(c, "debug"@, "retry_cnt"@, v) == (Settings {
            retry_count: count_given(v, c.retry_count as nat, 0xffff_ffff) as u32,
            ..c
        }),
        with_value(c, "debug"@, "block_err_log"@, v) == (Settings {
            block_error_log: means_yes(v),
            ..c
        }),
        key != "auto_burn"@ && key != "is_verbose"@ && key != "read_device_log"@ && key
            != "adb_scan"@ && key != "retry_cnt"@ && key != "block_err_log"@ ==> with_value(
            c,
            "debug"@,
            key,
            v,
        ) == c,
{
    reveal(with_value);
    reveal_strlit("auto_burn");
    reveal_strlit("is_verbose");
    reveal_strlit("read_device_log");
    reveal_strlit("adb_scan");
    reveal_strlit("retry_cnt");
    reveal_strlit("block_err_log");
    assert("auto_burn"@[0] == 'a' && "auto_burn"@.len() == 9);
    assert("is_verbose"@[0] == 'i');
    assert("read_device_log"@[0] == 'r' && "read_device_log"@.len() == 15);
    assert("adb_scan"@[0] == 'a' && "adb_scan"@.len() == 8);
    assert("retry_cnt"@[0] == 'r' && "retry_cnt"@.len() == 9);
    assert("block_err_log"@[0] == 'b');
}

/// What the keys of the section `system` mean, and that sections of other names mean nothing.
pub proof fn system_keys_are_these(c: Settings, v: Seq<char>, key: Seq<char>, section: Seq<char>)
    ensures
        with_value(c, "system"@, "burn_timeout"@, v) == (Settings {
            burn_timeout_secs: count_given(
                v,
                c.burn_timeout_secs as nat,
                0xffff_ffff_ffff_ffff,
            ) as u64,
            ..c
        }),
        with_value(c, "system"@, "language"@, v) == (Settings { language: v, ..c }),
        key != "burn_timeout"@ && key != "language"@ ==> with_value(c, "system"@, key, v) == c,
        section != "debug"@ && section != "system"@ && section != "common"@ ==> with_value(
            c,
            section,
            key,
            v,
        ) == c,
{
    reveal(with_value);
    reveal_strlit("debug");
    reveal_strlit("system");
    reveal_strlit("common");
    reveal_strlit("burn_timeout");
    reveal_strlit("language");
    assert("debug"@[0] == 'd' && "system"@[0] == 's' && "common"@[0] == 'c');
    assert("burn_timeout"@[0] == 'b' && "language"@[0] == 'l');
}

/// What the keys of the section `common` mean.
pub proof fn common_keys_are_these(c: Settings, v: Seq<char>, key: Seq<char>)
    ensures
        with_value(c, "common"@, "image_path"@, v) == (if v.len() == 0 {
            c
        } else {
            Settings { image_path: Some(v), ..c }
        }),
        with_value(c, "common"@, "selected_parts"@, v) == (Settings {
            selected_parts: names_in(pieces(v, ',')),
            ..c
        }),
        with_value(c, "common"@, "app_dir"@, v) == (if v.len() == 0 {
            c
        } else {
            Settings { app_dir: v, ..c }
        }),
        with_value(c, "common"@, "aiburn_dir"@, v) == (if v.len() == 0 {
            c
        } else {
            Settings { aiburn_dir: v, ..c }
        }),
        with_value(c, "common"@, "upgcmd_path"@, v) == (if v.len() == 0 {
            c
        } else {
            Settings { upgcmd_path: v, ..c }
        }),
        with_value(c, "common"@, "transport"@, v) == (Settings { transport: v, ..c }),
        with_value(c, "common"@, "serial_port"@, v) == (Settings { serial_port: v, ..c }),
        with_value(c, "common"@, "serial_baud"@, v) == (match decimal_in(v, 0xffff_ffff) {
            Some(n) => Settings { serial_baud: n as u32, ..c },
            None => c,
        }),
        with_value(c, "common"@, "serial_speed"@, v) == (match decimal_in(v, 0xffff_ffff) {
            Some(n) => Settings { serial_speed: n as u32, ..c },
            None => c,
        }),
{
    reveal(with_value);
    reveal_strlit("debug");
    reveal_strlit("system");
    reveal_strlit("common");
    assert("debug"@[0] == 'd' && "system"@[0] == 's' && "common"@[0] == 'c');
    reveal_strlit("image_path");
    reveal_strlit("selected_parts");
    reveal_strlit("app_dir");
    reveal_strlit("aiburn_dir");
    reveal_strlit("upgcmd_path");
    reveal_strlit("transport");
    reveal_strlit("serial_port");
    reveal_strlit("serial_baud");
    reveal_strlit("serial_speed");
    assert("image_path"@[0] == 'i');
    assert("selected_parts"@[1] == 'e' && "selected_parts"@.len() == 14);
    assert("app_dir"@[0] == 'a' && "app_dir"@.len() == 7);
    assert("aiburn_dir"@[0] == 'a' && "aiburn_dir"@.len() == 10 && "aiburn_dir"@[1] == 'i');
    assert("upgcmd_path"@[0] == 'u');
    assert("transport"@[0] == 't');
    assert("serial_port"@[7] == 'p' && "serial_port"@.len() == 11 && "serial_port"@[0] == 's');
    assert("serial_baud"@[7] == 'b' && "serial_baud"@.len() == 11 && "serial_baud"@[0] == 's');
    assert("serial_speed"@.len() == 12 && "serial_speed"@[0] == 's');
    assert("image_path"@.len() == 10);
}

/// The digit that is written for a flag.
pub open spec fn flag(on: bool) -> Seq<char> {
    if on {
        seq!['1']
    } else {
        seq!['0']
    }
}

/// How settings are written: three sections, each line a key and its value; counts are at least
/// one, paths have slashes, and the partitions stand in quotes.
pub proof fn settings_are_written_so(c: Settings)
    ensures
        ({
            let l = ini_list(c);
            &&& l.len() == 22
            &&& l[0] == "[debug]"@ && l[8] == "[system]"@ && l[12] == "[common]"@
            &&& l[7].len() == 0 && l[11].len() == 0
            &&& l[1] == "auto_burn="@ + flag(c.auto_burn)
            &&& l[2] == "is_verbose="@ + flag(c.verbose)
            &&& l[3] == "read_device_log="@ + flag(c.read_device_log)
            &&& l[4] == "adb_scan="@ + flag(c.adb_scan)
            &&& l[5] == "retry_cnt="@ + dec(
                if c.retry_count == 0 {
                    1
                } else {
                    c.retry_count as nat
                },
            )
            &&& l[6] == "block_err_log="@ + flag(c.block_error_log)
            &&& l[9] == "burn_timeout="@ + dec(
                if c.burn_timeout_secs == 0 {
                    1
                } else {
                    c.burn_timeout_secs as nat
                },
            )
            &&& l[10] == "language="@ + c.language
            &&& c.image_path is None ==> l[13] == "image_path="@
            &&& c.image_path matches Some(path) ==> l[13] == "image_path="@ + slashed(path)
            &&& l[14] == "selected_parts="@ + seq!['"'] + joined(c.selected_parts, seq![',']) + seq![
                '"',
            ]
            &&& l[15] == "app_dir="@ + slashed(c.app_dir)
            &&& l[16] == "aiburn_dir="@ + slashed(c.aiburn_dir)
            &&& l[17] == "upgcmd_path="@ + slashed(c.upgcmd_path)
            &&& l[18] == "transport="@ + c.transport
            &&& l[19] == "serial_port="@ + c.serial_port
            &&& l[20] == "serial_baud="@ + dec(c.serial_baud as nat)
            &&& l[21] == "serial_speed="@ + dec(c.serial_speed as nat)
        }),
{
    reveal_strlit("1");
    reveal_strlit("0");
    reveal_strlit(",");
    reveal_strlit("\"");
    reveal_strlit("selected_parts=\"");
    reveal_strlit("selected_parts=");
    reveal_strlit("image_path=");
    assert("1"@ =~= seq!['1']);
    assert("0"@ =~= seq!['0']);
    assert(","@ =~= seq![',']);
    assert("\""@ =~= seq!['"']);
    assert("selected_parts=\""@ =~= "selected_parts="@ + seq!['"']);
    let l = ini_list(c);
    assert("image_path="@ + Seq::<char>::empty() =~= "image_path="@);
}

/// Every line of a file ends with a line feed.
pub proof fn lines_end_with_a_feed(list: Seq<Seq<char>>, line: Seq<char>)
    ensures
        unlines(Seq::empty()) == Seq::<char>::empty(),
        unlines(list.push(line)) == unlines(list) + line + seq!['\n'],
{
    reveal_strlit("\n");
    assert("\n"@ =~= seq!['\n']);
    assert(list.push(line).drop_last() =~= list);
}

// ---------------------------------------------------------------------------------------
// Where settings come from
// ---------------------------------------------------------------------------------------
/// The settings that hold without any file.
pub proof fn settings_without_a_file(platform: Platform, app_dir: Seq<char>)
    ensures
        ({
            let c = default_settings(platform, app_dir);
            &&& !c.auto_burn && !c.verbose && !c.read_device_log && !c.adb_scan
                && !c.block_error_log
            &&& c.retry_count == 1 && c.burn_timeout_secs == 60
            &&& c.language == "zh_cn"@ && c.image_path is None
            &&& c.selected_parts == seq!["spl"@, "env"@, "os"@]
            &&& c.app_dir == app_dir
            &&& c.transport == "usb"@ && c.serial_port.len() == 0
            &&& c.serial_baud == 115200 && c.serial_speed == 0 && c.serial_auto_enter
            &&& platform == Platform::Windows ==> c.aiburn_dir == "C:\\ArtInChip\\AiBurn"@
                && c.upgcmd_path == "C:\\ArtInChip\\AiBurn\\upgcmd.exe"@
            &&& platform != Platform::Windows ==> c.aiburn_dir.len() == 0 && c.upgcmd_path.len()
                == 0
        }),
{
    reveal_strlit("");
    reveal_strlit("C:\\ArtInChip\\AiBurn");
    reveal_strlit("upgcmd.exe");
    reveal_strlit("\\");
    reveal_strlit("C:\\ArtInChip\\AiBurn\\upgcmd.exe");
    let dir = "C:\\ArtInChip\\AiBurn"@;
    assert(dir.len() == 19 && dir[18] == 'n');
    assert(dir + "\\"@ + "upgcmd.exe"@ =~= "C:\\ArtInChip\\AiBurn\\upgcmd.exe"@);
}

/// The place of a file tells something only where its directory is known: a file of this
/// program's own, whatever the case of its name, says where its data is; one beside the vendor's
/// tool says where that is. Nothing else changes.
pub proof fn places_tell_where_things_are(
    c: Settings,
    platform: Platform,
    place: IniPlace,
    parent: String,
)
    ensures
        place.parent is None ==> placed(c, platform, place) == c,
        place.parent == Some(parent) ==> {
            let own = place.file_name matches Some(name) && lowered(name@) == lowered(
                "config.ini"@,
            );
            &&& own ==> placed(c, platform, place) == (Settings { app_dir: parent@, ..c })
            &&& !own && place.tool_beside ==> placed(c, platform, place) == (Settings {
                aiburn_dir: parent@,
                upgcmd_path: path_in(
                    platform,
                    parent@,
                    if platform == Platform::Windows {
                        "upgcmd.exe"@
                    } else {
                        "upgcmd"@
                    },
                ),
                ..c
            })
            &&& !own && !place.tool_beside ==> placed(c, platform, place) == c
        },
{
}

/// The program's own file goes before the vendor's, and neither moves the program's data.
pub proof fn own_file_goes_first(
    platform: Platform,
    app_dir: Seq<char>,
    place: IniPlace,
    text: String,
    official: Option<(IniPlace, String)>,
)
    ensures
        ({
            let base = default_settings(platform, app_dir);
            let read = Settings { app_dir, ..ini_read(placed(base, platform, place), text@) };
            &&& start_settings(platform, app_dir, Some((place, text)), official) == read
            &&& start_settings(platform, app_dir, None, Some((place, text))) == read
            &&& start_settings(platform, app_dir, None, None) == base
        }),
{
}

/// An entry of a directory stands behind the directory and one separator: the system's own where
/// the directory does not end in one.
pub proof fn entries_stand_behind_a_separator(
    platform: Platform,
    dir: Seq<char>,
    name: Seq<char>,
)
    ensures
        dir.len() == 0 ==> path_in(platform, dir, name) == name,
        dir.len() > 0 && dir.last() == '/' ==> path_in(platform, dir, name) == dir + name,
        dir.len() > 0 && platform == Platform::Windows && dir.last() == '\\' ==> path_in(
            platform,
            dir,
            name,
        ) == dir + name,
        dir.len() > 0 && platform != Platform::Windows && dir.last() != '/' ==> path_in(
            platform,
            dir,
            name,
        ) == dir + seq!['/'] + name,
        dir.len() > 0 && platform == Platform::Windows && dir.last() != '/' && dir.last() != '\\'
            && dir.last() != ':' ==> path_in(platform, dir, name) == dir + seq!['\\'] + name,
        platform == Platform::Windows && dir.len() == 2 && dir[1] == ':' && ('a' <= dir[0] <= 'z'
            || 'A' <= dir[0] <= 'Z') ==> path_in(platform, dir, name) == dir + name,
{
    reveal_strlit("/");
    reveal_strlit("\\");
    assert("/"@ =~= seq!['/']);
    assert("\\"@ =~= seq!['\\']);
    if dir.len() == 0 {
        assert(dir + name =~= name);
    }
}

// ---------------------------------------------------------------------------------------
// The history
// ---------------------------------------------------------------------------------------
/// An entry of the history is a path and, behind its last comma, a time, without white space
/// around either; a line without a comma is none.
pub proof fn history_entries_are_parted(path: Seq<char>, time: Seq<char>, line: Seq<char>)
    ensures
        !time.contains(',') ==> entry_of(path + seq![','] + time) == Some(
            (trimmed(path), trimmed(time)),
        ),
        !line.contains(',') ==> entry_of(line) is None,
{
    if !time.contains(',') {
        lemma_cut_last_at(path, ',', time);
    }
    if !line.contains(',') {
        crate::text::lemma_cut_last_none(line, ',');
    }
}

/// Of the lines of a history those about the image are left out, and only those, as long as the
/// others are not too many; what is kept stays in its order.
pub proof fn other_images_are_kept(list: Seq<Seq<char>>, image: Seq<char>, k: int, most: int)
    requires
        0 <= k,
    ensures
        others(list, image, k, most).len() <= (if most > 0 {
            most
        } else {
            0
        }),
        forall|n: int|
            0 <= n < others(list, image, k, most).len() ==> !begins(
                trimmed_start(#[trigger] others(list, image, k, most)[n]),
                image,
            ),
        list.len() - k <= most ==> forall|i: int|
            k <= i < list.len() && !begins(trimmed_start(#[trigger] list[i]), image) ==> others(
                list,
                image,
                k,
                most,
            ).contains(list[i]),
        k < list.len() && most > 0 && !begins(trimmed_start(list[k]), image) ==> others(
            list,
            image,
            k,
            most,
        ) == seq![list[k]] + others(list, image, k + 1, most - 1),
        k < list.len() && begins(trimmed_start(list[k]), image) ==> others(list, image, k, most)
            == others(list, image, k + 1, most),
    decreases list.len() - k,
{
    if k < list.len() && most > 0 {
        let all = others(list, image, k, most);
        if about(list[k], image) {
            other_images_are_kept(list, image, k + 1, most);
        } else {
            other_images_are_kept(list, image, k + 1, most - 1);
            let rest = others(list, image, k + 1, most - 1);
            assert(all[0] == list[k]);
            assert forall|n: int| 0 <= n < all.len() implies !begins(
                trimmed_start(#[trigger] all[n]),
                image,
            ) by {
                if n > 0 {
                    assert(all[n] == rest[n - 1]);
                }
            }
            if list.len() - k <= most {
                assert forall|i: int|
                    k <= i < list.len() && !begins(
                        trimmed_start(#[trigger] list[i]),
                        image,
                    ) implies all.contains(list[i]) by {
                    if i > k {
                        let n = choose|n: int| 0 <= n < rest.len() && rest[n] == list[i];
                        assert(all[n + 1] == list[i]);
                    }
                }
            }
        }
    } else if k < list.len() {
        other_images_are_kept(list, image, k + 1, most);
    }
}

/// The line for an image is its path with slashes, a comma and a blank, and the time.
pub proof fn history_lines_tell_path_and_time(image: Seq<char>, time: Seq<char>)
    ensures
        history_line(image, time) == slashed(image) + seq![',', ' '] + time,
{
    reveal_strlit(", ");
    assert(", "@ =~= seq![',', ' ']);
}

/// A history is read line by line, from the first on, and no further than the fiftieth; lines that
/// are no entries are skipped.
pub proof fn histories_are_read_line_by_line(text: Seq<char>, list: Seq<Seq<char>>, n: nat)
    ensures
        entries(list, 0) == Seq::<(Seq<char>, Seq<char>)>::empty(),
        n < list.len() ==> entries(list, n + 1) == (match entry_of(list[n as int]) {
            Some(entry) => entries(list, n).push(entry),
            None => entries(list, n),
        }),
        lines_of(text).len() <= 50 ==> history(text) == entries(
            lines_of(text),
            lines_of(text).len(),
        ),
        lines_of(text).len() > 50 ==> history(text) == entries(lines_of(text), 50),
{
}

} // verus!
