//! The program's place on the system: its directories, its report on the environment and the
//! setup of USB access.
use vstd::prelude::*;

use crate::app_config::history::HISTORY_FILE;
use crate::app_config::{join_path, path_in};
use crate::number::{dec, push_dec};
use crate::paths::{last_part, lemma_last_part, path_parts, same_path};
use crate::platform::Platform;
use crate::text::{chars_of, join, joined, string_texts};
use crate::usb::ioreg::device_views;
use crate::usb::search::DeviceInfo;

verus! {

/// The vendor number of a device in upgrade mode.
pub const AIC_USB_VID: u16 = 0x33C3;

/// The product number of a device in upgrade mode.
pub const AIC_USB_PID: u16 = 0x6677;

/// The name of the program.
pub const APP_NAME: &'static str = "artinchip-flash";

/// The name that the program had before.
pub const LEGACY_APP_NAME: &'static str = "aic-flash";

/// The name of the file with the settings.
pub const CONFIG_FILE: &'static str = "config.ini";

// ---------------------------------------------------------------------------------------
// Directories
// ---------------------------------------------------------------------------------------
/// What the environment says of the user's directories.
pub struct UserDirs<S = String> {
    /// `APPDATA`
    pub appdata: Option<S>,
    /// `XDG_CONFIG_HOME`
    pub xdg_config_home: Option<S>,
    /// `HOME`
    pub home: Option<S>,
    /// `USERPROFILE`
    pub userprofile: Option<S>,
}

/// A text that may be missing.
pub open spec fn maybe_text(s: Option<String>) -> Option<Seq<char>> {
    match s {
        Some(t) => Some(t@),
        None => None,
    }
}

impl View for UserDirs {
    type V = UserDirs<Seq<char>>;

    open spec fn view(&self) -> UserDirs<Seq<char>> {
        UserDirs {
            appdata: maybe_text(self.appdata),
            xdg_config_home: maybe_text(self.xdg_config_home),
            home: maybe_text(self.home),
            userprofile: maybe_text(self.userprofile),
        }
    }
}

/// The user's home directory.
pub open spec fn home_of(dirs: UserDirs<Seq<char>>) -> Option<Seq<char>> {
    match dirs.home {
        Some(home) => Some(home),
        None => dirs.userprofile,
    }
}

/// The directory for the data of a program where the system has no place of its own for it.
pub open spec fn last_resort_dir(
    platform: Platform,
    dirs: UserDirs<Seq<char>>,
    name: Seq<char>,
) -> Seq<char> {
    match (dirs.appdata, dirs.userprofile) {
        (Some(appdata), _) => path_in(platform, appdata, name),
        (None, Some(home)) => path_in(platform, home, "."@ + name),
        (None, None) => "."@ + name,
    }
}

/// The directory for the data of a program.
pub open spec fn app_dir_of(
    platform: Platform,
    dirs: UserDirs<Seq<char>>,
    name: Seq<char>,
) -> Seq<char> {
    match platform {
        Platform::Windows => last_resort_dir(platform, dirs, name),
        Platform::MacOs => match home_of(dirs) {
            Some(home) => path_in(
                platform,
                path_in(platform, path_in(platform, home, "Library"@), "Application Support"@),
                name,
            ),
            None => last_resort_dir(platform, dirs, name),
        },
        _ => match (dirs.xdg_config_home, home_of(dirs)) {
            (Some(xdg), _) => path_in(platform, xdg, name),
            (None, Some(home)) => path_in(platform, path_in(platform, home, ".config"@), name),
            (None, None) => last_resort_dir(platform, dirs, name),
        },
    }
}

/// The directory for the data of a program where the system has no place of its own for it.
fn fallback_dir(platform: Platform, dirs: &UserDirs, name: &str) -> (s: String)
    ensures
        s@ == last_resort_dir(platform, dirs@, name@),
{
    if let Some(appdata) = &dirs.appdata {
        return join_path(platform, appdata.as_str(), name);
    }
    let mut hidden = ".".to_string();
    hidden.append(name);
    if let Some(home) = &dirs.userprofile {
        return join_path(platform, home.as_str(), hidden.as_str());
    }
    hidden
}

/// The user's home directory.
fn home_dir(dirs: &UserDirs) -> (r: Option<String>)
    ensures
        maybe_text(r) == home_of(dirs@),
{
    match &dirs.home {
        Some(home) => Some(home.clone()),
        None => match &dirs.userprofile {
            Some(home) => Some(home.clone()),
            None => None,
        },
    }
}

/// The directory for the data of a program.
pub fn app_dir_for(platform: Platform, dirs: &UserDirs, name: &str) -> (s: String)
    ensures
        s@ == app_dir_of(platform, dirs@, name@),
{
    match platform {
        Platform::Windows => fallback_dir(platform, dirs, name),
        Platform::MacOs => match home_dir(dirs) {
            Some(home) => {
                let library = join_path(platform, home.as_str(), "Library");
                let support = join_path(platform, library.as_str(), "Application Support");
                join_path(platform, support.as_str(), name)
            },
            None => fallback_dir(platform, dirs, name),
        },
        _ => {
            if let Some(xdg) = &dirs.xdg_config_home {
                return join_path(platform, xdg.as_str(), name);
            }
            match home_dir(dirs) {
                Some(home) => {
                    let config = join_path(platform, home.as_str(), ".config");
                    join_path(platform, config.as_str(), name)
                },
                None => fallback_dir(platform, dirs, name),
            }
        },
    }
}

/// The directory for the program's data.
pub fn default_app_dir(platform: Platform, dirs: &UserDirs) -> (s: String)
    ensures
        s@ == app_dir_of(platform, dirs@, APP_NAME@),
{
    app_dir_for(platform, dirs, APP_NAME)
}

/// The directory for the data of the program under its former name.
pub fn legacy_app_dir(platform: Platform, dirs: &UserDirs) -> (s: String)
    ensures
        s@ == app_dir_of(platform, dirs@, LEGACY_APP_NAME@),
{
    app_dir_for(platform, dirs, LEGACY_APP_NAME)
}

/// The file that the settings are in.
pub fn config_path(platform: Platform, dirs: &UserDirs) -> (s: String)
    ensures
        s@ == path_in(platform, app_dir_of(platform, dirs@, APP_NAME@), CONFIG_FILE@),
{
    join_path(platform, default_app_dir(platform, dirs).as_str(), CONFIG_FILE)
}

/// The file that the history of images is in.
pub fn image_history_path(platform: Platform, dirs: &UserDirs) -> (s: String)
    ensures
        s@ == path_in(platform, app_dir_of(platform, dirs@, APP_NAME@), HISTORY_FILE@),
{
    join_path(platform, default_app_dir(platform, dirs).as_str(), HISTORY_FILE)
}

/// Whether the environment gives a place in which a program's directory may stand openly.
pub open spec fn place_known(platform: Platform, dirs: UserDirs<Seq<char>>) -> bool {
    dirs.appdata is Some || match platform {
        Platform::Windows => false,
        Platform::MacOs => home_of(dirs) is Some,
        _ => dirs.xdg_config_home is Some || home_of(dirs) is Some,
    }
}

/// The name of a program's directory: the program's own, with a dot in front where no place is
/// known for it.
pub open spec fn dir_name(
    platform: Platform,
    dirs: UserDirs<Seq<char>>,
    name: Seq<char>,
) -> Seq<char> {
    if place_known(platform, dirs) {
        name
    } else {
        "."@ + name
    }
}

proof fn lemma_dir_name(platform: Platform, dirs: UserDirs<Seq<char>>, name: Seq<char>)
    requires
        forall|i: int|
            0 <= i < name.len() ==> name[i] != '/' && name[i] != '\\' && #[trigger] name[i] != ':',
    ensures
        last_part(platform, app_dir_of(platform, dirs, name)) == dir_name(platform, dirs, name),
{
    reveal_strlit(".");
    let hidden = "."@ + name;
    assert forall|dir: Seq<char>|
        last_part(platform, #[trigger] path_in(platform, dir, name)) == name by {
        lemma_last_part(platform, dir, name);
    }
    assert forall|dir: Seq<char>|
        last_part(platform, #[trigger] path_in(platform, dir, hidden)) == hidden by {
        lemma_last_part(platform, dir, hidden);
    }
    assert(path_in(platform, Seq::empty(), hidden) =~= hidden);
    assert(last_part(platform, path_in(platform, Seq::empty(), hidden)) == hidden);
}

/// Wherever it is, the directory of the program is named after the program, under its name or
/// its former one, with a dot in front only where no place is known for it; and the files in it
/// are named as they are.
pub proof fn app_paths_are_named(platform: Platform, dirs: UserDirs<Seq<char>>)
    ensures
        last_part(platform, app_dir_of(platform, dirs, APP_NAME@)) == dir_name(
            platform,
            dirs,
            APP_NAME@,
        ),
        last_part(platform, app_dir_of(platform, dirs, LEGACY_APP_NAME@)) == dir_name(
            platform,
            dirs,
            LEGACY_APP_NAME@,
        ),
        last_part(
            platform,
            path_in(platform, app_dir_of(platform, dirs, APP_NAME@), CONFIG_FILE@),
        ) == CONFIG_FILE@,
        last_part(
            platform,
            path_in(platform, app_dir_of(platform, dirs, APP_NAME@), HISTORY_FILE@),
        ) == HISTORY_FILE@,
{
    reveal_strlit("artinchip-flash");
    reveal_strlit("aic-flash");
    reveal_strlit("config.ini");
    reveal_strlit("img_history.txt");
    lemma_dir_name(platform, dirs, APP_NAME@);
    lemma_dir_name(platform, dirs, LEGACY_APP_NAME@);
    let dir = app_dir_of(platform, dirs, APP_NAME@);
    lemma_last_part(platform, dir, CONFIG_FILE@);
    lemma_last_part(platform, dir, HISTORY_FILE@);
}

/// Whether the data under the program's former name is to be taken over.
pub fn migration_due(
    platform: Platform,
    source: &str,
    destination: &str,
    source_exists: bool,
) -> (r: bool)
    ensures
        r == (path_parts(platform, source@) != path_parts(platform, destination@)
            && source_exists),
{
    !same_path(platform, source, destination) && source_exists
}

/// Whether a file is taken over: it is there, and nothing is in its place.
pub fn migrates(source_is_file: bool, destination_exists: bool) -> (r: bool)
    ensures
        r == (source_is_file && !destination_exists),
{
    source_is_file && !destination_exists
}

// ---------------------------------------------------------------------------------------
// Quoting
// ---------------------------------------------------------------------------------------
/// `s` with every single quote replaced by `by`.
pub open spec fn quotes_replaced(s: Seq<char>, by: Seq<char>) -> Seq<char>
    decreases s.len(),
{
    if s.len() == 0 {
        Seq::empty()
    } else {
        quotes_replaced(s.drop_last(), by) + if s.last() == '\'' {
            by
        } else {
            seq![s.last()]
        }
    }
}

/// A text as one word of a shell command.
pub open spec fn sh_word(s: Seq<char>) -> Seq<char> {
    "'"@ + quotes_replaced(s, "'\"'\"'"@) + "'"@
}

/// A text as one word of a PowerShell command.
pub open spec fn powershell_word(s: Seq<char>) -> Seq<char> {
    "'"@ + quotes_replaced(s, "''"@) + "'"@
}

fn quoted(value: &str, by: &str) -> (s: String)
    ensures
        s@ == "'"@ + quotes_replaced(value@, by@) + "'"@,
{
    let chars = chars_of(value);
    let mut s = "'".to_string();
    let mut i: usize = 0;
    assert(s@ =~= "'"@ + quotes_replaced(value@.take(0), by@));
    while i < chars.len()
        invariant
            i <= chars.len(),
            chars@ == value@,
            s@ == "'"@ + quotes_replaced(value@.take(i as int), by@),
        decreases chars.len() - i,
    {
        let ghost before = s@;
        if chars[i] == '\'' {
            s.append(by);
        } else {
            s.push(chars[i]);
        }
        proof {
            let next = value@.take(i + 1);
            assert(next.drop_last() =~= value@.take(i as int));
            assert(next.last() == value@[i as int]);
            assert(s@ =~= "'"@ + quotes_replaced(next, by@));
        }
        i = i + 1;
    }
    assert(value@.take(value@.len() as int) =~= value@);
    s.append("'");
    s
}

/// A text as one word of a shell command.
pub fn sh_single_quoted(value: &str) -> (s: String)
    ensures
        s@ == sh_word(value@),
{
    quoted(value, "'\"'\"'")
}

/// A text as one word of a PowerShell command.
pub fn powershell_single_quoted(value: &str) -> (s: String)
    ensures
        s@ == powershell_word(value@),
{
    quoted(value, "''")
}

/// How a shell reads a word: where it stands, and what it read so far.
pub struct ShReading {
    /// The quote that is open, if one is.
    pub quote: Option<char>,
    pub word: Seq<char>,
}

/// How a shell goes on reading: quotes open and close, and between them every character that
/// is used here stands for itself. Outside quotes nothing but a quote is expected.
pub open spec fn sh_read(r: Option<ShReading>, s: Seq<char>) -> Option<ShReading>
    decreases s.len(),
{
    if s.len() == 0 {
        r
    } else {
        let before = sh_read(r, s.drop_last());
        let c = s.last();
        match before {
            None => None,
            Some(b) => match b.quote {
                None => if c == '\'' || c == '"' {
                    Some(ShReading { quote: Some(c), ..b })
                } else {
                    None
                },
                Some(q) => if c == q {
                    Some(ShReading { quote: None, ..b })
                } else if q == '"' && c != '\'' {
                    None
                } else {
                    Some(ShReading { word: b.word.push(c), ..b })
                },
            },
        }
    }
}

proof fn lemma_sh_read_add(r: Option<ShReading>, s: Seq<char>, t: Seq<char>)
    ensures
        sh_read(r, s + t) == sh_read(sh_read(r, s), t),
    decreases t.len(),
{
    if t.len() == 0 {
        assert(s + t =~= s);
    } else {
        assert((s + t).drop_last() =~= s + t.drop_last());
        lemma_sh_read_add(r, s, t.drop_last());
    }
}

proof fn lemma_sh_read_body(word: Seq<char>, s: Seq<char>)
    ensures
        sh_read(
            Some(ShReading { quote: Some('\''), word }),
            quotes_replaced(s, "'\"'\"'"@),
        ) == Some(ShReading { quote: Some('\''), word: word + s }),
    decreases s.len(),
{
    let start = Some(ShReading { quote: Some('\''), word });
    reveal_strlit("'\"'\"'");
    if s.len() == 0 {
        assert(word + s =~= word);
    } else {
        let front = s.drop_last();
        let c = s.last();
        lemma_sh_read_body(word, front);
        let middle = ShReading { quote: Some('\''), word: word + front };
        assert((word + front).push(c) =~= word + s);
        if c == '\'' {
            let by = "'\"'\"'"@;
            lemma_sh_read_add(start, quotes_replaced(front, by), by);
            assert(by =~= seq!['\'', '"', '\'', '"', '\'']);
            let b4 = by.drop_last();
            let b3 = b4.drop_last();
            let b2 = b3.drop_last();
            let b1 = b2.drop_last();
            assert(b1.drop_last() =~= Seq::<char>::empty());
            let r0 = Some(middle);
            assert(sh_read(r0, b1.drop_last()) == r0);
            assert(sh_read(r0, b1) == Some(ShReading { quote: None, ..middle }));
            assert(sh_read(r0, b2) == Some(ShReading { quote: Some('"'), ..middle }));
            assert(sh_read(r0, b3) == Some(
                ShReading { quote: Some('"'), word: middle.word.push('\'') },
            ));
            assert(sh_read(r0, b4) == Some(
                ShReading { quote: None, word: middle.word.push('\'') },
            ));
        } else {
            lemma_sh_read_add(start, quotes_replaced(front, "'\"'\"'"@), seq![c]);
            assert(seq![c].drop_last() =~= Seq::<char>::empty());
            assert(sh_read(Some(middle), Seq::<char>::empty()) == Some(middle));
        }
    }
}

/// Whatever a text holds, the word made of it is read by a shell as exactly that text.
pub proof fn shell_reads_the_word(s: Seq<char>)
    ensures
        sh_read(Some(ShReading { quote: None, word: Seq::empty() }), sh_word(s)) == Some(
            ShReading { quote: None, word: s },
        ),
{
    let start = Some(ShReading { quote: None, word: Seq::<char>::empty() });
    let body = quotes_replaced(s, "'\"'\"'"@);
    reveal_strlit("'");
    assert("'"@ =~= seq!['\'']);
    assert(seq!['\''].drop_last() =~= Seq::<char>::empty());
    assert(sh_read(start, Seq::<char>::empty()) == start);
    lemma_sh_read_add(start, "'"@, body);
    lemma_sh_read_body(Seq::empty(), s);
    assert(Seq::<char>::empty() + s =~= s);
    lemma_sh_read_add(start, "'"@ + body, "'"@);
    let inside = Some(ShReading { quote: Some('\''), word: s });
    assert(sh_read(inside, Seq::<char>::empty()) == inside);
}

/// What PowerShell reads between single quotes: two of them stand for one, a single one cannot
/// stand there, and every other character stands for itself.
pub open spec fn powershell_read(s: Seq<char>) -> Option<Seq<char>>
    decreases s.len(),
{
    if s.len() == 0 {
        Some(Seq::empty())
    } else if s[0] != '\'' {
        match powershell_read(s.skip(1)) {
            Some(rest) => Some(seq![s[0]] + rest),
            None => None,
        }
    } else if s.len() >= 2 && s[1] == '\'' {
        match powershell_read(s.skip(2)) {
            Some(rest) => Some(seq!['\''] + rest),
            None => None,
        }
    } else {
        None
    }
}

proof fn lemma_powershell_read_add(a: Seq<char>, b: Seq<char>)
    requires
        powershell_read(a) is Some,
        powershell_read(b) is Some,
    ensures
        powershell_read(a + b) == Some(powershell_read(a)->0 + powershell_read(b)->0),
    decreases a.len(),
{
    if a.len() == 0 {
        assert(a + b =~= b);
        assert(powershell_read(a)->0 + powershell_read(b)->0 =~= powershell_read(b)->0);
    } else {
        let n: int = if a[0] != '\'' {
            1
        } else {
            2
        };
        assert((a + b).skip(n) =~= a.skip(n) + b);
        lemma_powershell_read_add(a.skip(n), b);
        let rest = powershell_read(a.skip(n))->0;
        assert(seq![a[0]] + (rest + powershell_read(b)->0) =~= (seq![a[0]] + rest)
            + powershell_read(b)->0);
    }
}

proof fn lemma_powershell_read_body(s: Seq<char>)
    ensures
        powershell_read(quotes_replaced(s, "''"@)) == Some(s),
    decreases s.len(),
{
    if s.len() == 0 {
        assert(s =~= Seq::<char>::empty());
    } else {
        let c = s.last();
        let last = if c == '\'' {
            "''"@
        } else {
            seq![c]
        };
        reveal_strlit("''");
        lemma_powershell_read_body(s.drop_last());
        assert(powershell_read(last) == Some(seq![c])) by {
            let n: int = if c == '\'' {
                2
            } else {
                1
            };
            assert(last.skip(n) =~= Seq::<char>::empty());
            assert(powershell_read(last.skip(n)) == Some(Seq::<char>::empty()));
            assert(seq![c] + Seq::<char>::empty() =~= seq![c]);
        }
        lemma_powershell_read_add(quotes_replaced(s.drop_last(), "''"@), last);
        assert(s.drop_last() + seq![c] =~= s);
    }
}

/// Whatever a text holds, the word made of it stands between single quotes and is read by
/// PowerShell as exactly that text.
pub proof fn powershell_reads_the_word(s: Seq<char>)
    ensures
        powershell_word(s).len() >= 2,
        powershell_word(s)[0] == '\'',
        powershell_word(s).last() == '\'',
        powershell_read(powershell_word(s).subrange(1, powershell_word(s).len() - 1)) == Some(s),
{
    reveal_strlit("'");
    let body = quotes_replaced(s, "''"@);
    assert(powershell_word(s).subrange(1, powershell_word(s).len() - 1) =~= body);
    lemma_powershell_read_body(s);
}

// ---------------------------------------------------------------------------------------
// USB access
// ---------------------------------------------------------------------------------------
/// The rule that lets users of a Linux system reach a device in upgrade mode.
pub open spec fn udev_rule() -> Seq<char> {
    "SUBSYSTEM==\"usb\", ATTR{idVendor}==\"33c3\", ATTR{idProduct}==\"6677\", TAG+=\"uaccess\", MODE=\"0666\"\n"@
}

/// The udev rule that opens the device to its users.
pub fn linux_udev_rule() -> (s: &'static str)
    ensures
        s@ == udev_rule(),
{
    "SUBSYSTEM==\"usb\", ATTR{idVendor}==\"33c3\", ATTR{idProduct}==\"6677\", TAG+=\"uaccess\", MODE=\"0666\"\n"
}

/// The name of the file that holds the rule.
pub const UDEV_RULE_FILE: &'static str = "99-artinchip-flash.rules";

/// The name of the file that binds the driver on Windows.
pub const WINUSB_INF_FILE: &'static str = "aic-winusb.inf";

/// What the setup of USB access takes.
pub enum AccessSetup<S = String> {
    /// Nothing.
    Nothing,
    /// There is no setup for this system.
    Unsupported(S),
    /// Write the rule to the file, then have one of the two commands run by a shell: the second
    /// where the first cannot be started.
    Udev { rule: S, first: S, second: S },
    /// Write the driver's description to the file, then have the command run by PowerShell.
    WinUsb { inf: S, command: S },
}

impl View for AccessSetup {
    type V = AccessSetup<Seq<char>>;

    open spec fn view(&self) -> AccessSetup<Seq<char>> {
        match *self {
            AccessSetup::Nothing => AccessSetup::Nothing,
            AccessSetup::Unsupported(s) => AccessSetup::Unsupported(s@),
            AccessSetup::Udev { rule, first, second } => AccessSetup::Udev {
                rule: rule@,
                first: first@,
                second: second@,
            },
            AccessSetup::WinUsb { inf, command } => AccessSetup::WinUsb {
                inf: inf@,
                command: command@,
            },
        }
    }
}

/// The commands that put the rule in place.
pub open spec fn udev_script(file: Seq<char>) -> Seq<char> {
    "cp "@ + sh_word(file)
        + " /etc/udev/rules.d/99-artinchip-flash.rules && udevadm control --reload-rules && udevadm trigger"@
}

/// The command that adds the driver.
pub open spec fn pnputil_command(file: Seq<char>) -> Seq<char> {
    "Start-Process -FilePath 'pnputil.exe' -ArgumentList @('/add-driver',"@ + powershell_word(file)
        + ",'/install') -Verb RunAs -Wait"@
}

/// What the setup of USB access takes, its file being `file`.
pub open spec fn access_setup(platform: Platform, file: Seq<char>, inf: Seq<char>) -> AccessSetup<
    Seq<char>,
> {
    match platform {
        Platform::Windows => AccessSetup::WinUsb { inf, command: pnputil_command(file) },
        Platform::Linux => AccessSetup::Udev {
            rule: udev_rule(),
            first: "pkexec sh -c "@ + sh_word(udev_script(file)),
            second: "sudo sh -c "@ + sh_word(udev_script(file)),
        },
        Platform::MacOs => AccessSetup::Nothing,
        Platform::Other => AccessSetup::Unsupported(
            "USB access installer is not implemented for this platform"@,
        ),
    }
}

/// What the setup of USB access takes, its file being `file`; `inf` describes the driver for
/// Windows.
pub fn install_driver(platform: Platform, file: &str, inf: &str) -> (setup: AccessSetup)
    ensures
        setup@ == access_setup(platform, file@, inf@),
{
    match platform {
        Platform::Windows => {
            let mut command =
                "Start-Process -FilePath 'pnputil.exe' -ArgumentList @('/add-driver',".to_string();
            command.append(powershell_single_quoted(file).as_str());
            command.append(",'/install') -Verb RunAs -Wait");
            AccessSetup::WinUsb { inf: inf.to_string(), command }
        },
        Platform::Linux => {
            let mut script = "cp ".to_string();
            script.append(sh_single_quoted(file).as_str());
            script.append(
                " /etc/udev/rules.d/99-artinchip-flash.rules && udevadm control --reload-rules && udevadm trigger",
            );
            let word = sh_single_quoted(script.as_str());
            let mut first = "pkexec sh -c ".to_string();
            first.append(word.as_str());
            let mut second = "sudo sh -c ".to_string();
            second.append(word.as_str());
            AccessSetup::Udev { rule: linux_udev_rule().to_string(), first, second }
        },
        Platform::MacOs => AccessSetup::Nothing,
        Platform::Other => AccessSetup::Unsupported(
            "USB access installer is not implemented for this platform".to_string(),
        ),
    }
}

/// The name of the file that the setup of USB access needs, if it needs one.
pub fn access_file_name(platform: Platform) -> (r: Option<&'static str>)
    ensures
        match r {
            Some(s) => platform == Platform::Windows && s@ == WINUSB_INF_FILE@ || platform
                == Platform::Linux && s@ == UDEV_RULE_FILE@,
            None => platform != Platform::Windows && platform != Platform::Linux,
        },
{
    match platform {
        Platform::Windows => Some(WINUSB_INF_FILE),
        Platform::Linux => Some(UDEV_RULE_FILE),
        _ => None,
    }
}

/// What is said where the rule was not put in place: how the command ended, and what to do.
pub fn udev_failed_text(status: &str, file: &str) -> (s: String)
    ensures
        s@ == "udev rule install exited with "@ + status@
            + ". You can run manually: sudo cp "@ + file@
            + " /etc/udev/rules.d/99-artinchip-flash.rules && sudo udevadm control --reload-rules && sudo udevadm trigger"@,
{
    let mut s = "udev rule install exited with ".to_string();
    s.append(status);
    s.append(". You can run manually: sudo cp ");
    s.append(file);
    s.append(
        " /etc/udev/rules.d/99-artinchip-flash.rules && sudo udevadm control --reload-rules && sudo udevadm trigger",
    );
    s
}

// ---------------------------------------------------------------------------------------
// Report on the environment
// ---------------------------------------------------------------------------------------
/// The name of a system; `other` is the name of one that has none here.
pub open spec fn platform_text(platform: Platform, other: Seq<char>) -> Seq<char> {
    match platform {
        Platform::Windows => "Windows"@,
        Platform::MacOs => "macOS"@,
        Platform::Linux => "Linux"@,
        Platform::Other => other,
    }
}

/// What the report says of the setup of USB access.
pub open spec fn driver_text(platform: Platform) -> Seq<char> {
    match platform {
        Platform::Windows => "Driver installer: built-in pnputil WinUSB INF"@,
        Platform::Linux => "USB permissions: built-in udev rule installer"@,
        Platform::MacOs => "USB permissions: macOS normally needs no driver install"@,
        Platform::Other => "USB permissions: no installer for this platform"@,
    }
}

/// What the report advises on USB access.
pub open spec fn hint_text(platform: Platform) -> Seq<char> {
    match platform {
        Platform::Windows =>
            "Hint: use the Driver button or `artinchip-flash install-usb-access` to bind WinUSB when USB open/claim fails."@,
        Platform::Linux =>
            "Hint: use the Driver button or `artinchip-flash install-usb-access`, then reconnect the device."@,
        Platform::MacOs =>
            "Hint: macOS usually needs no driver. If USB access fails, close other artinchip-flash/AiBurn instances, unplug and reconnect the board, and avoid USB hubs while testing."@,
        Platform::Other => "Hint: configure USB permissions for this platform manually."@,
    }
}

/// What to do about access to the device.
pub fn driver_help_text(platform: Platform) -> (s: &'static str)
    ensures
        s@ == driver_text(platform),
{
    match platform {
        Platform::Windows => "Driver installer: built-in pnputil WinUSB INF",
        Platform::Linux => "USB permissions: built-in udev rule installer",
        Platform::MacOs => "USB permissions: macOS normally needs no driver install",
        Platform::Other => "USB permissions: no installer for this platform",
    }
}

/// What to try where the device cannot be opened.
pub fn usb_permission_hint(platform: Platform) -> (s: &'static str)
    ensures
        s@ == hint_text(platform),
{
    match platform {
        Platform::Windows =>
            "Hint: use the Driver button or `artinchip-flash install-usb-access` to bind WinUSB when USB open/claim fails.",
        Platform::Linux =>
            "Hint: use the Driver button or `artinchip-flash install-usb-access`, then reconnect the device.",
        Platform::MacOs =>
            "Hint: macOS usually needs no driver. If USB access fails, close other artinchip-flash/AiBurn instances, unplug and reconnect the board, and avoid USB hubs while testing.",
        Platform::Other => "Hint: configure USB permissions for this platform manually.",
    }
}

/// What is known of an image.
pub struct ImageFacts {
    pub platform: String,
    pub product: String,
    pub version: String,
    pub components: usize,
}

/// What was found out about the environment.
pub struct EnvironmentFacts {
    pub version: String,
    pub build: String,
    pub commit: String,
    pub platform: Platform,
    /// The name of a system that has none here.
    pub other_name: String,
    pub config_dir: String,
    /// Whether the directory could be made, and if so whether it could be written to.
    pub config_dir_test: Result<Result<(), String>, String>,
    pub scan: Result<Vec<DeviceInfo>, String>,
    /// Whether a device could be opened, where one was ready.
    pub access: Result<(), String>,
    /// What became of the image, if one was chosen.
    pub image: Option<Result<ImageFacts, String>>,
}

/// Whether one of the devices is ready, so that opening one is worth a try.
pub open spec fn ready_device(devices: Seq<DeviceInfo<Seq<char>>>) -> bool {
    exists|i: int| 0 <= i < devices.len() && (#[trigger] devices[i]).ready
}

/// Whether one of the devices is ready, so that opening one is worth a try.
pub fn any_device_ready(devices: &Vec<DeviceInfo>) -> (r: bool)
    ensures
        r == ready_device(device_views(devices@)),
{
    let ghost all = device_views(devices@);
    let mut i: usize = 0;
    while i < devices.len()
        invariant
            i <= devices.len(),
            all == device_views(devices@),
            forall|j: int| 0 <= j < i ==> !(#[trigger] all[j]).ready,
        decreases devices.len() - i,
    {
        assert(all[i as int] == devices@[i as int]@);
        if devices[i].ready {
            assert(all[i as int].ready);
            return true;
        }
        i = i + 1;
    }
    false
}

/// The lines about the directory for the settings.
pub open spec fn dir_lines(test: Result<Result<(), String>, String>) -> Seq<Seq<char>> {
    match test {
        Ok(Ok(())) => seq!["Config dir writable: OK"@],
        Ok(Err(e)) => seq!["Config dir writable: FAILED ("@ + e@ + ")"@],
        Err(e) => seq!["Config dir: FAILED ("@ + e@ + ")"@],
    }
}

/// The word for whether a device is ready.
pub open spec fn ready_text(ready: bool) -> Seq<char> {
    if ready {
        "ready"@
    } else {
        "not-ready"@
    }
}

/// The word for whether a device is ready.
pub fn ready_word(ready: bool) -> (s: &'static str)
    ensures
        s@ == ready_text(ready),
{
    if ready {
        "ready"
    } else {
        "not-ready"
    }
}

/// The lines about the first `n` devices.
pub open spec fn device_lines(devices: Seq<DeviceInfo<Seq<char>>>, n: nat) -> Seq<Seq<char>>
    decreases n,
{
    if n == 0 {
        Seq::empty()
    } else {
        let d = devices[n - 1];
        let line = "  bus="@ + dec(d.bus_number as nat) + " address="@ + dec(d.address as nat)
            + " path="@ + d.port_path + " speed="@ + d.speed + " status="@ + ready_text(d.ready);
        let front = device_lines(devices, (n - 1) as nat).push(line);
        match d.status {
            Some(s) => front.push("    "@ + s),
            None => front,
        }
    }
}

/// The lines about devices.
pub open spec fn scan_lines(facts: EnvironmentFacts) -> Seq<Seq<char>> {
    match facts.scan {
        Err(e) => seq!["USB scan: FAILED ("@ + e@ + ")"@],
        Ok(list) => {
            let devices = device_views(list@);
            if devices.len() == 0 {
                seq!["USB device: not connected (VID=33C3 PID=6677)"@]
            } else {
                seq!["USB device: "@ + dec(devices.len()) + " detected"@] + device_lines(
                    devices,
                    devices.len(),
                ) + seq![
                    if !ready_device(devices) {
                        "USB access: SKIPPED (device detected but not ready for USB transfers)"@
                    } else {
                        match facts.access {
                            Ok(()) => "USB access: OK"@,
                            Err(e) => "USB access: FAILED ("@ + e@ + ")"@,
                        }
                    },
                ]
            }
        },
    }
}

/// The line about the image.
pub open spec fn image_line(image: Option<Result<ImageFacts, String>>) -> Seq<char> {
    match image {
        None => "Image: not selected"@,
        Some(Err(e)) => "Image: FAILED ("@ + e@ + ")"@,
        Some(Ok(f)) => "Image: OK ("@ + f.platform@ + " "@ + f.product@ + " v"@ + f.version@
            + ", "@ + dec(f.components as nat) + " components)"@,
    }
}

/// The report on the environment.
pub open spec fn report_lines(facts: EnvironmentFacts) -> Seq<Seq<char>> {
    seq![
        "artinchip-flash standalone environment check"@,
        "Version: "@ + facts.version@,
        "Build: "@ + facts.build@,
        "Commit: "@ + facts.commit@,
        "Platform: "@ + platform_text(facts.platform, facts.other_name@),
        "Config dir: "@ + facts.config_dir@,
    ] + dir_lines(facts.config_dir_test) + scan_lines(facts) + seq![image_line(facts.image)]
        + seq![driver_text(facts.platform), hint_text(facts.platform)]
}

/// `before` followed by `after`.
fn labelled(before: &str, after: &str) -> (s: String)
    ensures
        s@ == before@ + after@,
{
    let mut s = before.to_string();
    s.append(after);
    s
}

/// `before`, then `e`, then a closing bracket.
fn failed(before: &str, e: &str) -> (s: String)
    ensures
        s@ == before@ + e@ + ")"@,
{
    let mut s = before.to_string();
    s.append(e);
    s.append(")");
    s
}

/// Appends a line to the report.
fn add_line(lines: &mut Vec<String>, line: String)
    ensures
        string_texts(final(lines)@) == string_texts(old(lines)@).push(line@),
{
    let ghost before = string_texts(lines@);
    lines.push(line);
    assert(string_texts(lines@) =~= before.push(line@));
}

/// Appends the lines about devices.
fn add_scan_lines(lines: &mut Vec<String>, facts: &EnvironmentFacts)
    ensures
        string_texts(final(lines)@) == string_texts(old(lines)@) + scan_lines(*facts),
{
    let ghost start = string_texts(lines@);
    match &facts.scan {
        Err(e) => {
            add_line(lines, failed("USB scan: FAILED (", e.as_str()));
        },
        Ok(list) => {
            let ghost devices = device_views(list@);
            if list.len() == 0 {
                add_line(lines, "USB device: not connected (VID=33C3 PID=6677)".to_string());
            } else {
                let mut head = "USB device: ".to_string();
                push_dec(&mut head, list.len() as u64);
                head.append(" detected");
                let ghost head_text = head@;
                add_line(lines, head);
                let mut i: usize = 0;
                assert(string_texts(lines@) =~= start + seq![head_text] + device_lines(
                    devices,
                    0,
                ));
                while i < list.len()
                    invariant
                        i <= list.len(),
                        devices == device_views(list@),
                        string_texts(lines@) == start + seq![head_text] + device_lines(
                            devices,
                            i as nat,
                        ),
                    decreases list.len() - i,
                {
                    let d = &list[i];
                    assert(devices[i as int] == d@);
                    let ghost before = string_texts(lines@);
                    let mut line = "  bus=".to_string();
                    push_dec(&mut line, d.bus_number as u64);
                    line.append(" address=");
                    push_dec(&mut line, d.address as u64);
                    line.append(" path=");
                    line.append(d.port_path.as_str());
                    line.append(" speed=");
                    line.append(d.speed.as_str());
                    line.append(" status=");
                    line.append(ready_word(d.ready));
                    add_line(lines, line);
                    if let Some(status) = &d.status {
                        add_line(lines, labelled("    ", status.as_str()));
                    }
                    i = i + 1;
                    assert(string_texts(lines@) =~= start + seq![head_text] + device_lines(
                        devices,
                        i as nat,
                    ));
                }
                let verdict = if !any_device_ready(list) {
                    "USB access: SKIPPED (device detected but not ready for USB transfers)".to_string()
                } else {
                    match &facts.access {
                        Ok(()) => "USB access: OK".to_string(),
                        Err(e) => failed("USB access: FAILED (", e.as_str()),
                    }
                };
                add_line(lines, verdict);
            }
        },
    }
    assert(string_texts(lines@) =~= start + scan_lines(*facts));
}

/// The report on the environment, from what was found out about it.
pub fn environment_report(facts: &EnvironmentFacts) -> (s: String)
    ensures
        s@ == joined(report_lines(*facts), "\n"@),
{
    let mut lines: Vec<String> = Vec::new();
    let name = match facts.platform {
        Platform::Windows => "Windows",
        Platform::MacOs => "macOS",
        Platform::Linux => "Linux",
        Platform::Other => facts.other_name.as_str(),
    };
    add_line(&mut lines, "artinchip-flash standalone environment check".to_string());
    add_line(&mut lines, labelled("Version: ", facts.version.as_str()));
    add_line(&mut lines, labelled("Build: ", facts.build.as_str()));
    add_line(&mut lines, labelled("Commit: ", facts.commit.as_str()));
    add_line(&mut lines, labelled("Platform: ", name));
    add_line(&mut lines, labelled("Config dir: ", facts.config_dir.as_str()));
    match &facts.config_dir_test {
        Ok(Ok(())) => add_line(&mut lines, "Config dir writable: OK".to_string()),
        Ok(Err(e)) => add_line(
            &mut lines,
            failed("Config dir writable: FAILED (", e.as_str()),
        ),
        Err(e) => add_line(&mut lines, failed("Config dir: FAILED (", e.as_str())),
    }
    let ghost front = string_texts(lines@);
    add_scan_lines(&mut lines, facts);
    let image = match &facts.image {
        None => "Image: not selected".to_string(),
        Some(Err(e)) => failed("Image: FAILED (", e.as_str()),
        Some(Ok(f)) => {
            let mut s = "Image: OK (".to_string();
            s.append(f.platform.as_str());
            s.append(" ");
            s.append(f.product.as_str());
            s.append(" v");
            s.append(f.version.as_str());
            s.append(", ");
            push_dec(&mut s, f.components as u64);
            s.append(" components)");
            s
        },
    };
    add_line(&mut lines, image);
    add_line(&mut lines, driver_help_text(facts.platform).to_string());
    add_line(&mut lines, usb_permission_hint(facts.platform).to_string());
    proof {
        let head = seq![
            "artinchip-flash standalone environment check"@,
            "Version: "@ + facts.version@,
            "Build: "@ + facts.build@,
            "Commit: "@ + facts.commit@,
            "Platform: "@ + platform_text(facts.platform, facts.other_name@),
            "Config dir: "@ + facts.config_dir@,
        ];
        assert(front =~= head + dir_lines(facts.config_dir_test));
        assert(string_texts(lines@) =~= report_lines(*facts));
    }
    join(&lines, "\n")
}

} // verus!
