//! What is changed in the windows.
use vstd::prelude::*;

use crate::app_config::{compat_tool_path, join_path, path_in, tool_name, AppConfig, Settings};
use crate::gui::labels::{transport_value, TransportKind};
use crate::paths::{path_parts, same_path};
use crate::platform::Platform;
use crate::standalone::CONFIG_FILE;
use crate::text::{str_trim, trimmed};

verus! {

/// Takes the directory for the program's data that the user typed; gives the file that the
/// settings are in from now on, where the directory is another one. An empty text changes
/// nothing.
pub fn edit_app_dir(platform: Platform, config: &mut AppConfig, typed: &str) -> (r: Option<String>)
    ensures
        ({
            let dir = trimmed(typed@);
            if dir.len() > 0 && path_parts(platform, dir) != path_parts(
                platform,
                old(config)@.app_dir,
            ) {
                final(config)@ == (Settings { app_dir: dir, ..old(config)@ }) && (r matches Some(s)
                    && s@ == path_in(platform, dir, CONFIG_FILE@))
            } else {
                final(config)@ == old(config)@ && r is None
            }
        }),
{
    let dir = str_trim(typed);
    if dir.as_str().unicode_len() == 0 || same_path(
        platform,
        dir.as_str(),
        config.app_dir.as_str(),
    ) {
        return None;
    }
    let file = join_path(platform, dir.as_str(), CONFIG_FILE);
    config.app_dir = dir;
    Some(file)
}

/// Takes the directory of the vendor's tool that the user typed; the tool is looked for in it
/// from now on, where the directory is another one.
pub fn edit_compat_dir(platform: Platform, config: &mut AppConfig, typed: &str)
    ensures
        ({
            let dir = trimmed(typed@);
            final(config)@ == (if path_parts(platform, dir) != path_parts(
                platform,
                old(config)@.aiburn_dir,
            ) {
                Settings {
                    aiburn_dir: dir,
                    upgcmd_path: path_in(platform, dir, tool_name(platform)),
                    ..old(config)@
                }
            } else {
                old(config)@
            })
        }),
{
    let dir = str_trim(typed);
    if !same_path(platform, dir.as_str(), config.aiburn_dir.as_str()) {
        config.upgcmd_path = compat_tool_path(platform, dir.as_str());
        config.aiburn_dir = dir;
    }
}

/// The image to load where the user typed its path: none where nothing was typed, or the path of
/// the image that is there.
pub fn typed_image(platform: Platform, config: &AppConfig, typed: &str) -> (r: Option<String>)
    ensures
        ({
            let path = trimmed(typed@);
            let there = match config@.image_path {
                Some(p) => path_parts(platform, p) == path_parts(platform, path),
                None => false,
            };
            if path.len() > 0 && !there {
                r matches Some(s) && s@ == path
            } else {
                r is None
            }
        }),
{
    let path = str_trim(typed);
    if path.as_str().unicode_len() == 0 {
        return None;
    }
    match &config.image_path {
        Some(p) => {
            if same_path(platform, p.as_str(), path.as_str()) {
                return None;
            }
        },
        None => {},
    }
    Some(path)
}

/// Takes the way to the device that the user chose; says whether a scan follows, and whether an
/// open monitor is closed first.
pub fn choose_transport(present: TransportKind, chosen: TransportKind, config: &mut AppConfig) -> (r: (
    bool,
    bool,
))
    ensures
        r.0 == (chosen != present),
        r.1 == (chosen != present && present == TransportKind::Uart),
        final(config)@ == (if chosen != present {
            Settings { transport: transport_value(chosen), ..old(config)@ }
        } else {
            old(config)@
        }),
{
    if chosen == present {
        return (false, false);
    }
    config.transport = chosen.config_value().to_string();
    (true, present == TransportKind::Uart)
}

/// What a scan looks for.
#[derive(Clone, Copy, Debug, Eq, PartialEq, Structural)]
pub enum ScanFor {
    /// Nothing: a scan is under way.
    Nothing,
    Devices,
    SerialPorts,
}

/// What a scan looks for.
pub fn scan_target(scanning: bool, transport: TransportKind) -> (r: ScanFor)
    ensures
        r == (if scanning {
            ScanFor::Nothing
        } else if transport == TransportKind::Uart {
            ScanFor::SerialPorts
        } else {
            ScanFor::Devices
        }),
{
    if scanning {
        ScanFor::Nothing
    } else if transport == TransportKind::Uart {
        ScanFor::SerialPorts
    } else {
        ScanFor::Devices
    }
}

/// Whether the device is talked into upgrade mode by other means before a burn: only over USB.
pub fn adb_scan_due(config: &AppConfig, transport: TransportKind) -> (r: bool)
    ensures
        r == (config@.adb_scan && transport != TransportKind::Uart),
{
    config.adb_scan && transport != TransportKind::Uart
}

/// How long a device may stay away during a burn, in milliseconds.
pub fn burn_timeout_millis(config: &AppConfig) -> (ms: u64)
    ensures
        ms == ({
            let secs: int = if config@.burn_timeout_secs == 0 {
                1
            } else {
                config@.burn_timeout_secs as int
            };
            if secs * 1000 > u64::MAX {
                u64::MAX as int
            } else {
                secs * 1000
            }
        }),
{
    let secs: u64 = if config.burn_timeout_secs == 0 {
        1
    } else {
        config.burn_timeout_secs
    };
    match secs.checked_mul(1000) {
        Some(ms) => ms,
        None => u64::MAX,
    }
}

/// A report on a device, with its log behind a divider where that was asked for.
pub fn with_device_log(info: &str, divider: &str, log: &Option<String>) -> (s: String)
    ensures
        s@ == (match log {
            Some(text) => info@ + "\n\n"@ + divider@ + "\n"@ + text@,
            None => info@,
        }),
{
    let mut s = info.to_string();
    if let Some(text) = log {
        s.append("\n\n");
        s.append(divider);
        s.append("\n");
        s.append(text.as_str());
    }
    s
}

} // verus!
