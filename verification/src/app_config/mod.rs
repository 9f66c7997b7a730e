//! The settings of the program, and the history of images.
pub mod history;
pub mod laws;
pub mod meaning;

use vstd::prelude::*;
use vstd::slice::slice_subrange;

use crate::number::{dec, decimal_in, parse_decimal, push_dec};
use crate::platform::Platform;
use crate::text::{
    chars_of, cut, cut_at, join, joined, lines, lines_of, lower, lower_chars, lowered, pieces,
    same_ignoring_case, same_text, split, string_of, string_texts, texts, to_lower, trim, trimmed,
};

verus! {

/// The settings of the program. Paths are text.
#[derive(Clone, Debug)]
pub struct AppConfig {
    pub auto_burn: bool,
    pub verbose: bool,
    pub read_device_log: bool,
    pub adb_scan: bool,
    pub retry_count: u32,
    pub block_error_log: bool,
    pub burn_timeout_secs: u64,
    pub language: String,
    pub image_path: Option<String>,
    pub selected_parts: Vec<String>,
    pub app_dir: String,
    pub aiburn_dir: String,
    pub upgcmd_path: String,
    /// How the device is reached: `usb` or `uart`.
    pub transport: String,
    pub serial_port: String,
    pub serial_baud: u32,
    /// The speed to negotiate, if it is higher than the first one.
    pub serial_speed: u32,
    pub serial_auto_enter: bool,
}

/// Settings, with texts as sequences of characters.
#[verifier::ext_equal]
pub struct Settings {
    pub auto_burn: bool,
    pub verbose: bool,
    pub read_device_log: bool,
    pub adb_scan: bool,
    pub retry_count: u32,
    pub block_error_log: bool,
    pub burn_timeout_secs: u64,
    pub language: Seq<char>,
    pub image_path: Option<Seq<char>>,
    pub selected_parts: Seq<Seq<char>>,
    pub app_dir: Seq<char>,
    pub aiburn_dir: Seq<char>,
    pub upgcmd_path: Seq<char>,
    pub transport: Seq<char>,
    pub serial_port: Seq<char>,
    pub serial_baud: u32,
    pub serial_speed: u32,
    pub serial_auto_enter: bool,
}

impl View for AppConfig {
    type V = Settings;

    open spec fn view(&self) -> Settings {
        Settings {
            auto_burn: self.auto_burn,
            verbose: self.verbose,
            read_device_log: self.read_device_log,
            adb_scan: self.adb_scan,
            retry_count: self.retry_count,
            block_error_log: self.block_error_log,
            burn_timeout_secs: self.burn_timeout_secs,
            language: self.language@,
            image_path: match self.image_path {
                Some(p) => Some(p@),
                None => None,
            },
            selected_parts: string_texts(self.selected_parts@),
            app_dir: self.app_dir@,
            aiburn_dir: self.aiburn_dir@,
            upgcmd_path: self.upgcmd_path@,
            transport: self.transport@,
            serial_port: self.serial_port@,
            serial_baud: self.serial_baud,
            serial_speed: self.serial_speed,
            serial_auto_enter: self.serial_auto_enter,
        }
    }
}

// ---------------------------------------------------------------------------------------
// Paths
// ---------------------------------------------------------------------------------------
/// Whether a character separates the parts of a path.
pub open spec fn is_separator(platform: Platform, c: char) -> bool {
    c == '/' || (platform == Platform::Windows && c == '\\')
}

/// Whether a path is a bare drive.
pub open spec fn is_drive(platform: Platform, path: Seq<char>) -> bool {
    platform == Platform::Windows && path.len() == 2 && path[1] == ':' && 'a' <= lower(
        path[0],
    ) <= 'z'
}

/// The entry `name` of the directory `dir`.
pub open spec fn path_in(platform: Platform, dir: Seq<char>, name: Seq<char>) -> Seq<char> {
    if dir.len() == 0 || is_separator(platform, dir.last()) || is_drive(platform, dir) {
        dir + name
    } else {
        dir + (if platform == Platform::Windows {
            "\\"@
        } else {
            "/"@
        }) + name
    }
}

/// The entry `name` of the directory `dir`.
pub fn join_path(platform: Platform, dir: &str, name: &str) -> (s: String)
    ensures
        s@ == path_in(platform, dir@, name@),
{
    let chars = chars_of(dir);
    let windows = platform == Platform::Windows;
    let drive = windows && chars.len() == 2 && chars[1] == ':' && 'a' <= to_lower(
        chars[0],
    ) && to_lower(chars[0]) <= 'z';
    let closed = chars.len() == 0 || chars[chars.len() - 1] == '/' || (windows
        && chars[chars.len() - 1] == '\\') || drive;
    let mut s = dir.to_string();
    if !closed {
        if windows {
            s.append("\\");
        } else {
            s.append("/");
        }
    }
    s.append(name);
    s
}

/// The directory where the vendor's tool is looked for at first.
pub fn default_compat_dir(platform: Platform) -> (s: &'static str)
    ensures
        s@ == (if platform == Platform::Windows {
            "C:\\ArtInChip\\AiBurn"@
        } else {
            ""@
        }),
{
    if platform == Platform::Windows {
        "C:\\ArtInChip\\AiBurn"
    } else {
        ""
    }
}

/// The name of the vendor's tool.
pub open spec fn tool_name(platform: Platform) -> Seq<char> {
    if platform == Platform::Windows {
        "upgcmd.exe"@
    } else {
        "upgcmd"@
    }
}

/// The name of the vendor's tool.
pub fn compat_tool_name(platform: Platform) -> (s: &'static str)
    ensures
        s@ == tool_name(platform),
{
    if platform == Platform::Windows {
        "upgcmd.exe"
    } else {
        "upgcmd"
    }
}

/// The vendor's tool in the directory `dir`.
pub fn compat_tool_path(platform: Platform, dir: &str) -> (s: String)
    ensures
        s@ == path_in(platform, dir@, tool_name(platform)),
{
    join_path(platform, dir, compat_tool_name(platform))
}

/// The vendor's tool in the directory `dir`; nothing where there is no directory.
pub open spec fn default_tool_path(platform: Platform, dir: Seq<char>) -> Seq<char> {
    if dir.len() == 0 {
        Seq::empty()
    } else {
        path_in(platform, dir, tool_name(platform))
    }
}

/// The vendor's tool in the directory `dir`; nothing where there is no directory.
pub fn default_compat_tool_path(platform: Platform, dir: &str) -> (s: String)
    ensures
        s@ == default_tool_path(platform, dir@),
{
    if dir.unicode_len() == 0 {
        String::new()
    } else {
        compat_tool_path(platform, dir)
    }
}

/// `s` with every backslash turned into a slash.
pub open spec fn slashed(s: Seq<char>) -> Seq<char> {
    s.map_values(
        |c: char|
            if c == '\\' {
                '/'
            } else {
                c
            },
    )
}

/// `s` with every backslash turned into a slash.
pub fn with_slashes(s: &str) -> (r: String)
    ensures
        r@ == slashed(s@),
{
    let chars = chars_of(s);
    let mut out = String::new();
    let mut i: usize = 0;
    while i < chars.len()
        invariant
            i <= chars.len(),
            chars@ == s@,
            out@ == slashed(s@.take(i as int)),
        decreases chars.len() - i,
    {
        out.push(
            if chars[i] == '\\' {
                '/'
            } else {
                chars[i]
            },
        );
        i = i + 1;
        assert(out@ =~= slashed(s@.take(i as int)));
    }
    assert(s@.take(s@.len() as int) =~= s@);
    out
}

// ---------------------------------------------------------------------------------------
// Values
// ---------------------------------------------------------------------------------------
/// Whether a value means yes.
pub open spec fn means_yes(value: Seq<char>) -> bool {
    let v = lowered(trimmed(value));
    v == "1"@ || v == "true"@ || v == "yes"@ || v == "on"@
}

/// Whether a value means yes.
pub fn parse_bool(value: &[char]) -> (r: bool)
    ensures
        r == means_yes(value@),
{
    let v = lower_chars(trim(value));
    same_text(v.as_slice(), "1") || same_text(v.as_slice(), "true") || same_text(
        v.as_slice(),
        "yes",
    ) || same_text(v.as_slice(), "on")
}

/// `value` without the quotes around it, if it has both.
pub open spec fn unquoted(value: Seq<char>) -> Seq<char> {
    if value.len() >= 2 && value[0] == '"' && value.last() == '"' {
        value.subrange(1, value.len() - 1)
    } else {
        value
    }
}

/// `value` without the quotes around it, if it has both.
pub fn unquote(value: &[char]) -> (r: &[char])
    ensures
        r@ == unquoted(value@),
{
    if value.len() >= 2 && value[0] == '"' && value[value.len() - 1] == '"' {
        slice_subrange(value, 1, value.len() - 1)
    } else {
        value
    }
}

/// The names in a list that commas separate, without blanks around them and without empty ones.
pub open spec fn names_in(list: Seq<Seq<char>>) -> Seq<Seq<char>>
    decreases list.len(),
{
    if list.len() == 0 {
        Seq::empty()
    } else {
        let front = names_in(list.drop_last());
        let name = trimmed(list.last());
        if name.len() == 0 {
            front
        } else {
            front.push(name)
        }
    }
}

/// The names in a list that commas separate.
fn parse_names(value: &[char]) -> (r: Vec<String>)
    ensures
        string_texts(r@) == names_in(pieces(value@, ',')),
{
    let list = split(value, ',');
    let ghost all = pieces(value@, ',');
    let mut r: Vec<String> = Vec::new();
    let mut i: usize = 0;
    assert(string_texts(r@) =~= names_in(all.take(0)));
    while i < list.len()
        invariant
            i <= list.len(),
            texts(list@) == all,
            string_texts(r@) == names_in(all.take(i as int)),
        decreases list.len() - i,
    {
        let ghost next = all.take(i + 1);
        assert(next.drop_last() =~= all.take(i as int));
        assert(next.last() == list@[i as int]@);
        let ghost before = string_texts(r@);
        let name = trim(list[i].as_slice());
        if name.len() > 0 {
            r.push(string_of(name));
            assert(string_texts(r@) =~= before.push(name@));
        }
        i = i + 1;
    }
    assert(all.take(list.len() as int) =~= all);
    r
}

// ---------------------------------------------------------------------------------------
// Reading
// ---------------------------------------------------------------------------------------
/// A path that a value gives; an empty one changes nothing.
pub open spec fn path_or(value: Seq<char>, present: Seq<char>) -> Seq<char> {
    if value.len() == 0 {
        present
    } else {
        value
    }
}

/// A number that a value gives, if it is one.
pub open spec fn number_or(value: Seq<char>, present: nat, most: nat) -> nat {
    match decimal_in(value, most) {
        Some(n) => n,
        None => present,
    }
}

/// `n`, but at least one.
pub open spec fn at_least_one(n: nat) -> nat {
    if n == 0 {
        1
    } else {
        n
    }
}

/// The settings after `key` of `section` was given `value`. What is not known is ignored.
#[verifier::opaque]
pub open spec fn with_value(
    c: Settings,
    section: Seq<char>,
    key: Seq<char>,
    value: Seq<char>,
) -> Settings {
    if section == "debug"@ {
        debug_value(c, key, value)
    } else if section == "system"@ {
        if key == "burn_timeout"@ {
            Settings {
                burn_timeout_secs: at_least_one(
                    number_or(value, c.burn_timeout_secs as nat, u64::MAX as nat),
                ) as u64,
                ..c
            }
        } else if key == "language"@ {
            Settings { language: value, ..c }
        } else {
            c
        }
    } else if section == "common"@ {
        common_value(c, key, value)
    } else {
        c
    }
}

/// The settings of the section `debug`.
pub open spec fn debug_value(c: Settings, key: Seq<char>, value: Seq<char>) -> Settings {
    if key == "auto_burn"@ {
        Settings { auto_burn: means_yes(value), ..c }
    } else if key == "is_verbose"@ {
        Settings { verbose: means_yes(value), ..c }
    } else if key == "read_device_log"@ {
        Settings { read_device_log: means_yes(value), ..c }
    } else if key == "adb_scan"@ {
        Settings { adb_scan: means_yes(value), ..c }
    } else if key == "retry_cnt"@ {
        Settings {
            retry_count: at_least_one(
                number_or(value, c.retry_count as nat, u32::MAX as nat),
            ) as u32,
            ..c
        }
    } else if key == "block_err_log"@ {
        Settings { block_error_log: means_yes(value), ..c }
    } else {
        c
    }
}

/// The settings of the section `common`.
pub open spec fn common_value(c: Settings, key: Seq<char>, value: Seq<char>) -> Settings {
    if key == "image_path"@ {
        if value.len() == 0 {
            c
        } else {
            Settings { image_path: Some(value), ..c }
        }
    } else if key == "selected_parts"@ {
        Settings { selected_parts: names_in(pieces(value, ',')), ..c }
    } else if key == "app_dir"@ {
        Settings { app_dir: path_or(value, c.app_dir), ..c }
    } else if key == "aiburn_dir"@ {
        Settings { aiburn_dir: path_or(value, c.aiburn_dir), ..c }
    } else if key == "upgcmd_path"@ {
        Settings { upgcmd_path: path_or(value, c.upgcmd_path), ..c }
    } else if key == "transport"@ {
        Settings { transport: value, ..c }
    } else if key == "serial_port"@ {
        Settings { serial_port: value, ..c }
    } else if key == "serial_baud"@ {
        Settings {
            serial_baud: number_or(value, c.serial_baud as nat, u32::MAX as nat) as u32,
            ..c
        }
    } else if key == "serial_speed"@ {
        Settings {
            serial_speed: number_or(value, c.serial_speed as nat, u32::MAX as nat) as u32,
            ..c
        }
    } else {
        c
    }
}

/// The section and the settings after one more line. Blank lines and comments are skipped; a
/// line in brackets begins a section; any other line gives a value to a key, or is ignored.
#[verifier::opaque]
pub open spec fn ini_line(section: Seq<char>, c: Settings, raw: Seq<char>) -> (
    Seq<char>,
    Settings,
) {
    let line = trimmed(raw);
    if line.len() == 0 || line[0] == ';' || line[0] == '#' {
        (section, c)
    } else if line[0] == '[' && line.last() == ']' {
        (lowered(line.subrange(1, line.len() - 1)), c)
    } else {
        match cut(line, '=') {
            None => (section, c),
            Some((key, value)) => (
                section,
                with_value(
                    c,
                    section,
                    lowered(trimmed(key)),
                    unquoted(trimmed(value)),
                ),
            ),
        }
    }
}

/// The section and the settings after the first `n` lines.
pub open spec fn ini_lines(c: Settings, list: Seq<Seq<char>>, n: nat) -> (Seq<char>, Settings)
    decreases n,
{
    if n == 0 {
        (Seq::empty(), c)
    } else {
        let (section, before) = ini_lines(c, list, (n - 1) as nat);
        ini_line(section, before, list[n - 1])
    }
}

/// The settings that a file of settings makes of `c`.
pub open spec fn ini_read(c: Settings, text: Seq<char>) -> Settings {
    ini_lines(c, lines_of(text), lines_of(text).len()).1
}

/// Where a file of settings lies.
pub struct IniPlace {
    /// The directory that the file is in.
    pub parent: Option<String>,
    /// The name of the file.
    pub file_name: Option<String>,
    /// Whether the vendor's tool lies beside it.
    pub tool_beside: bool,
}

/// The settings that hold before a file in `place` is read: a file of this program's own says
/// by its place where the program's data is, a file of the vendor's tool where that tool is.
pub open spec fn placed(c: Settings, platform: Platform, place: IniPlace) -> Settings {
    match place.parent {
        None => c,
        Some(parent) => if place.file_name matches Some(name) && lowered(name@) == lowered(
            "config.ini"@,
        ) {
            Settings { app_dir: parent@, ..c }
        } else if place.tool_beside {
            Settings {
                aiburn_dir: parent@,
                upgcmd_path: path_in(platform, parent@, tool_name(platform)),
                ..c
            }
        } else {
            c
        },
    }
}

/// The settings that hold without any file.
pub open spec fn default_settings(platform: Platform, app_dir: Seq<char>) -> Settings {
    let aiburn_dir = if platform == Platform::Windows {
        "C:\\ArtInChip\\AiBurn"@
    } else {
        ""@
    };
    Settings {
        auto_burn: false,
        verbose: false,
        read_device_log: false,
        adb_scan: false,
        retry_count: 1,
        block_error_log: false,
        burn_timeout_secs: 60,
        language: "zh_cn"@,
        image_path: None,
        selected_parts: seq!["spl"@, "env"@, "os"@],
        app_dir,
        aiburn_dir,
        upgcmd_path: default_tool_path(platform, aiburn_dir),
        transport: "usb"@,
        serial_port: ""@,
        serial_baud: 115200,
        serial_speed: 0,
        serial_auto_enter: true,
    }
}

impl AppConfig {
    /// The settings that hold without any file, the program's data being in `app_dir`.
    pub fn default_in(platform: Platform, app_dir: &str) -> (c: Self)
        ensures
            c@ == default_settings(platform, app_dir@),
    {
        let aiburn_dir = default_compat_dir(platform);
        let mut selected_parts: Vec<String> = Vec::new();
        selected_parts.push("spl".to_string());
        selected_parts.push("env".to_string());
        selected_parts.push("os".to_string());
        assert(string_texts(selected_parts@) =~= seq!["spl"@, "env"@, "os"@]);
        AppConfig {
            auto_burn: false,
            verbose: false,
            read_device_log: false,
            adb_scan: false,
            retry_count: 1,
            block_error_log: false,
            burn_timeout_secs: 60,
            language: "zh_cn".to_string(),
            image_path: None,
            selected_parts,
            app_dir: app_dir.to_string(),
            upgcmd_path: default_compat_tool_path(platform, aiburn_dir),
            aiburn_dir: aiburn_dir.to_string(),
            transport: "usb".to_string(),
            serial_port: "".to_string(),
            serial_baud: 115200,
            serial_speed: 0,
            serial_auto_enter: true,
        }
    }

    /// Gives `key` of `section` the value `value`.
    fn apply_ini_value(&mut self, section: &[char], key: &[char], value: &[char])
        ensures
            final(self)@ == with_value(old(self)@, section@, lowered(key@), value@),
    {
        reveal(with_value);
        let key = lower_chars(key);
        let key = key.as_slice();
        if same_text(section, "debug") {
            self.apply_debug(key, value);
        } else if same_text(section, "system") {
            if same_text(key, "burn_timeout") {
                let n: u64 = parse_or(value, self.burn_timeout_secs, u64::MAX);
                self.burn_timeout_secs = if n == 0 {
                    1
                } else {
                    n
                };
            } else if same_text(key, "language") {
                self.language = string_of(value);
            }
        } else if same_text(section, "common") {
            self.apply_common(key, value);
        }
    }

    fn apply_debug(&mut self, key: &[char], value: &[char])
        ensures
            final(self)@ == debug_value(old(self)@, key@, value@),
    {
        if same_text(key, "auto_burn") {
            self.auto_burn = parse_bool(value);
        } else if same_text(key, "is_verbose") {
            self.verbose = parse_bool(value);
        } else if same_text(key, "read_device_log") {
            self.read_device_log = parse_bool(value);
        } else if same_text(key, "adb_scan") {
            self.adb_scan = parse_bool(value);
        } else if same_text(key, "retry_cnt") {
            let n: u64 = parse_or(value, self.retry_count as u64, u32::MAX as u64);
            self.retry_count = if n == 0 {
                1
            } else {
                n as u32
            };
        } else if same_text(key, "block_err_log") {
            self.block_error_log = parse_bool(value);
        }
    }

    fn apply_common(&mut self, key: &[char], value: &[char])
        ensures
            final(self)@ == common_value(old(self)@, key@, value@),
    {
        if same_text(key, "image_path") {
            if value.len() > 0 {
                self.image_path = Some(string_of(value));
            }
        } else if same_text(key, "selected_parts") {
            self.selected_parts = parse_names(value);
        } else if same_text(key, "app_dir") {
            if value.len() > 0 {
                self.app_dir = string_of(value);
            }
        } else if same_text(key, "aiburn_dir") {
            if value.len() > 0 {
                self.aiburn_dir = string_of(value);
            }
        } else if same_text(key, "upgcmd_path") {
            if value.len() > 0 {
                self.upgcmd_path = string_of(value);
            }
        } else if same_text(key, "transport") {
            self.transport = string_of(value);
        } else if same_text(key, "serial_port") {
            self.serial_port = string_of(value);
        } else if same_text(key, "serial_baud") {
            self.serial_baud = parse_or(value, self.serial_baud as u64, u32::MAX as u64) as u32;
        } else if same_text(key, "serial_speed") {
            self.serial_speed = parse_or(value, self.serial_speed as u64, u32::MAX as u64) as u32;
        }
    }

    /// Takes one line of a file of settings, in the section `section`.
    fn apply_line(&mut self, section: &mut Vec<char>, raw: &[char])
        ensures
            (final(section)@, final(self)@) == ini_line(old(section)@, old(self)@, raw@),
    {
        reveal(ini_line);
        let line = trim(raw);
        if line.len() == 0 || line[0] == ';' || line[0] == '#' {
            return;
        }
        if line[0] == '[' && line[line.len() - 1] == ']' {
            *section = lower_chars(slice_subrange(line, 1, line.len() - 1));
            return;
        }
        match cut_at(line, '=') {
            None => {},
            Some((key, value)) => {
                self.apply_ini_value(section.as_slice(), trim(key), unquote(trim(value)));
            },
        }
    }

    /// The settings that a file in `place` holds whose contents are `text`; what it does not
    /// hold is as it is without any file.
    pub fn load_from(platform: Platform, app_dir: &str, place: &IniPlace, text: &str) -> (c: Self)
        ensures
            c@ == ini_read(
                placed(default_settings(platform, app_dir@), platform, *place),
                text@,
            ),
    {
        let mut c = AppConfig::default_in(platform, app_dir);
        if let Some(parent) = &place.parent {
            let own = match &place.file_name {
                Some(name) => same_ignoring_case(name.as_str(), "config.ini"),
                None => false,
            };
            if own {
                c.app_dir = parent.clone();
            } else if place.tool_beside {
                c.aiburn_dir = parent.clone();
                c.upgcmd_path = compat_tool_path(platform, parent.as_str());
            }
        }
        let ghost start = c@;
        let list = lines(chars_of(text).as_slice());
        let ghost all = lines_of(text@);
        let mut section: Vec<char> = Vec::new();
        assert(section@ =~= Seq::<char>::empty());
        let mut i: usize = 0;
        while i < list.len()
            invariant
                i <= list.len(),
                texts(list@) == all,
                (section@, c@) == ini_lines(start, all, i as nat),
            decreases list.len() - i,
        {
            let raw = list[i].as_slice();
            assert(all[i as int] == raw@);
            c.apply_line(&mut section, raw);
            i = i + 1;
        }
        c
    }

    /// The settings to begin with: those of the program's own file where it can be read, else
    /// those of the vendor's, else those that hold without any file. The program's data stays
    /// where it is.
    pub fn load_default(
        platform: Platform,
        app_dir: &str,
        project: &Option<(IniPlace, String)>,
        official: &Option<(IniPlace, String)>,
    ) -> (c: Self)
        ensures
            c@ == start_settings(platform, app_dir@, *project, *official),
    {
        if let Some((place, text)) = project {
            let mut c = AppConfig::load_from(platform, app_dir, place, text.as_str());
            c.app_dir = app_dir.to_string();
            return c;
        }
        if let Some((place, text)) = official {
            let mut c = AppConfig::load_from(platform, app_dir, place, text.as_str());
            c.app_dir = app_dir.to_string();
            return c;
        }
        AppConfig::default_in(platform, app_dir)
    }
}

/// The settings to begin with.
pub open spec fn start_settings(
    platform: Platform,
    app_dir: Seq<char>,
    project: Option<(IniPlace, String)>,
    official: Option<(IniPlace, String)>,
) -> Settings {
    let base = default_settings(platform, app_dir);
    match (project, official) {
        (Some((place, text)), _) => Settings {
            app_dir,
            ..ini_read(placed(base, platform, place), text@)
        },
        (None, Some((place, text))) => Settings {
            app_dir,
            ..ini_read(placed(base, platform, place), text@)
        },
        (None, None) => base,
    }
}

/// The number that `value` gives, or `present`.
fn parse_or(value: &[char], present: u64, most: u64) -> (n: u64)
    ensures
        n == number_or(value@, present as nat, most as nat),
        n <= most || n == present,
{
    match parse_decimal(value, most) {
        Some(n) => n,
        None => present,
    }
}

// ---------------------------------------------------------------------------------------
// Writing
// ---------------------------------------------------------------------------------------
/// The digit for yes or no.
pub open spec fn yes_digit(b: bool) -> Seq<char> {
    if b {
        "1"@
    } else {
        "0"@
    }
}

/// The digit for yes or no.
fn bool_to_int(b: bool) -> (s: &'static str)
    ensures
        s@ == yes_digit(b),
{
    if b {
        "1"
    } else {
        "0"
    }
}

/// A path as it is written; none is written as nothing.
pub open spec fn image_text(path: Option<Seq<char>>) -> Seq<char> {
    match path {
        Some(p) => slashed(p),
        None => Seq::empty(),
    }
}

/// The settings as lines of a file.
pub open spec fn ini_list(c: Settings) -> Seq<Seq<char>> {
    seq![
        "[debug]"@,
        "auto_burn="@ + yes_digit(c.auto_burn),
        "is_verbose="@ + yes_digit(c.verbose),
        "read_device_log="@ + yes_digit(c.read_device_log),
        "adb_scan="@ + yes_digit(c.adb_scan),
        "retry_cnt="@ + dec(at_least_one(c.retry_count as nat)),
        "block_err_log="@ + yes_digit(c.block_error_log),
        Seq::empty(),
        "[system]"@,
        "burn_timeout="@ + dec(at_least_one(c.burn_timeout_secs as nat)),
        "language="@ + c.language,
        Seq::empty(),
        "[common]"@,
        "image_path="@ + image_text(c.image_path),
        "selected_parts=\""@ + joined(c.selected_parts, ","@) + "\""@,
        "app_dir="@ + slashed(c.app_dir),
        "aiburn_dir="@ + slashed(c.aiburn_dir),
        "upgcmd_path="@ + slashed(c.upgcmd_path),
        "transport="@ + c.transport,
        "serial_port="@ + c.serial_port,
        "serial_baud="@ + dec(c.serial_baud as nat),
        "serial_speed="@ + dec(c.serial_speed as nat),
    ]
}

/// Lines as the text of a file, each with its line feed.
pub open spec fn unlines(list: Seq<Seq<char>>) -> Seq<char>
    decreases list.len(),
{
    if list.len() == 0 {
        Seq::empty()
    } else {
        unlines(list.drop_last()) + list.last() + "\n"@
    }
}

/// Appends a line whose value is a text.
fn put(out: &mut String, list: &mut Ghost<Seq<Seq<char>>>, key: &str, value: &str)
    requires
        old(out)@ == unlines(old(list)@),
    ensures
        final(out)@ == unlines(final(list)@),
        final(list)@ == old(list)@.push(key@ + value@),
{
    out.append(key);
    out.append(value);
    out.append("\n");
    let ghost next = list@.push(key@ + value@);
    assert(next.drop_last() =~= list@);
    assert(out@ =~= unlines(next));
    *list = Ghost(next);
}

/// Appends a line whose value is a number.
fn put_number(out: &mut String, list: &mut Ghost<Seq<Seq<char>>>, key: &str, value: u64)
    requires
        old(out)@ == unlines(old(list)@),
    ensures
        final(out)@ == unlines(final(list)@),
        final(list)@ == old(list)@.push(key@ + dec(value as nat)),
{
    let mut digits = String::new();
    push_dec(&mut digits, value);
    assert(digits@ =~= dec(value as nat));
    put(out, list, key, digits.as_str());
}

impl AppConfig {
    /// The settings as the text of a file.
    pub fn ini_text(&self) -> (s: String)
        ensures
            s@ == unlines(ini_list(self@)),
    {
        let image = match &self.image_path {
            Some(p) => with_slashes(p.as_str()),
            None => String::new(),
        };
        let mut parts = join(&self.selected_parts, ",");
        parts.append("\"");
        let mut out = String::new();
        let mut list: Ghost<Seq<Seq<char>>> = Ghost(Seq::empty());
        put(&mut out, &mut list, "[debug]", "");
        put(&mut out, &mut list, "auto_burn=", bool_to_int(self.auto_burn));
        put(&mut out, &mut list, "is_verbose=", bool_to_int(self.verbose));
        put(&mut out, &mut list, "read_device_log=", bool_to_int(self.read_device_log));
        put(&mut out, &mut list, "adb_scan=", bool_to_int(self.adb_scan));
        put_number(
            &mut out,
            &mut list,
            "retry_cnt=",
            if self.retry_count == 0 {
                1
            } else {
                self.retry_count as u64
            },
        );
        put(&mut out, &mut list, "block_err_log=", bool_to_int(self.block_error_log));
        put(&mut out, &mut list, "", "");
        put(&mut out, &mut list, "[system]", "");
        put_number(
            &mut out,
            &mut list,
            "burn_timeout=",
            if self.burn_timeout_secs == 0 {
                1
            } else {
                self.burn_timeout_secs
            },
        );
        put(&mut out, &mut list, "language=", self.language.as_str());
        put(&mut out, &mut list, "", "");
        put(&mut out, &mut list, "[common]", "");
        put(&mut out, &mut list, "image_path=", image.as_str());
        put(&mut out, &mut list, "selected_parts=\"", parts.as_str());
        put(&mut out, &mut list, "app_dir=", with_slashes(self.app_dir.as_str()).as_str());
        put(&mut out, &mut list, "aiburn_dir=", with_slashes(self.aiburn_dir.as_str()).as_str());
        put(
            &mut out,
            &mut list,
            "upgcmd_path=",
            with_slashes(self.upgcmd_path.as_str()).as_str(),
        );
        put(&mut out, &mut list, "transport=", self.transport.as_str());
        put(&mut out, &mut list, "serial_port=", self.serial_port.as_str());
        put_number(&mut out, &mut list, "serial_baud=", self.serial_baud as u64);
        put_number(&mut out, &mut list, "serial_speed=", self.serial_speed as u64);
        proof {
            reveal_strlit("");
            assert(list@ =~~= ini_list(self@));
        }
        out
    }
}

} // verus!
