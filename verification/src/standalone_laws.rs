//! What holds of the program's directories, of the setup of USB access and of the report on the
//! environment.
use vstd::prelude::*;

use crate::app_config::path_in;
use crate::number::dec;
use crate::platform::Platform;
use crate::standalone::{
    access_setup, app_dir_of, device_lines, dir_lines, driver_text, hint_text, image_line,
    platform_text, powershell_word, ready_device, report_lines, scan_lines, sh_word, AccessSetup,
    EnvironmentFacts, ImageFacts, UserDirs,
};
use crate::usb::ioreg::device_views;
use crate::usb::search::DeviceInfo;

verus! {

/// Where the data of a program is: in the roaming data of the user on Windows, in the user's
/// library on macOS, in the directory for settings elsewhere; and where the environment gives no
/// such place, in the user's profile or the present directory, hidden.
pub proof fn data_is_where_the_system_puts_it(
    dirs: UserDirs<Seq<char>>,
    name: Seq<char>,
    place: Seq<char>,
)
    ensures
        ({
            let windows = app_dir_of(Platform::Windows, dirs, name);
            let mac = app_dir_of(Platform::MacOs, dirs, name);
            let linux = app_dir_of(Platform::Linux, dirs, name);
            let home = dirs.home == Some(place) || dirs.home is None && dirs.userprofile == Some(
                place,
            );
            let homeless = dirs.home is None && dirs.userprofile is None;
            &&& dirs.appdata == Some(place) ==> windows == path_in(Platform::Windows, place, name)
            &&& dirs.appdata is None && dirs.userprofile == Some(place) ==> windows == path_in(
                Platform::Windows,
                place,
                "."@ + name,
            )
            &&& dirs.appdata is None && dirs.userprofile is None ==> windows == "."@ + name
            &&& home ==> mac == path_in(
                Platform::MacOs,
                path_in(
                    Platform::MacOs,
                    path_in(Platform::MacOs, place, "Library"@),
                    "Application Support"@,
                ),
                name,
            )
            &&& homeless && dirs.appdata == Some(place) ==> mac == path_in(
                Platform::MacOs,
                place,
                name,
            )
            &&& homeless && dirs.appdata is None ==> mac == "."@ + name
            &&& dirs.xdg_config_home == Some(place) ==> linux == path_in(
                Platform::Linux,
                place,
                name,
            )
            &&& dirs.xdg_config_home is None && home ==> linux == path_in(
                Platform::Linux,
                path_in(Platform::Linux, place, ".config"@),
                name,
            )
            &&& dirs.xdg_config_home is None && homeless && dirs.appdata is None ==> linux == "."@
                + name
        }),
        app_dir_of(Platform::Other, dirs, name) == app_dir_of(Platform::Linux, dirs, name),
{
    assert forall|a: Seq<char>, b: Seq<char>|
        path_in(Platform::Other, a, b) == #[trigger] path_in(Platform::Linux, a, b) by {}
}

/// What the setup of USB access takes: on Windows the driver's description and a command that
/// adds it, on Linux the rule and two ways to put it in place, on macOS nothing; elsewhere there is
/// none. The file is handed to a shell as one word.
pub proof fn access_is_set_up_by_system(file: Seq<char>, inf: Seq<char>)
    ensures
        ({
            let script = "cp "@ + sh_word(file)
                + " /etc/udev/rules.d/99-artinchip-flash.rules && udevadm control --reload-rules && udevadm trigger"@;
            &&& access_setup(Platform::Windows, file, inf) == (AccessSetup::WinUsb {
                inf,
                command: "Start-Process -FilePath 'pnputil.exe' -ArgumentList @('/add-driver',"@
                    + powershell_word(file) + ",'/install') -Verb RunAs -Wait"@,
            })
            &&& access_setup(Platform::Linux, file, inf) == (AccessSetup::Udev {
                rule: "SUBSYSTEM==\"usb\", ATTR{idVendor}==\"33c3\", ATTR{idProduct}==\"6677\", TAG+=\"uaccess\", MODE=\"0666\"\n"@,
                first: "pkexec sh -c "@ + sh_word(script),
                second: "sudo sh -c "@ + sh_word(script),
            })
            &&& access_setup(Platform::MacOs, file, inf) is Nothing
            &&& access_setup(Platform::Other, file, inf) == (AccessSetup::<
                Seq<char>,
            >::Unsupported("USB access installer is not implemented for this platform"@))
        }),
{
}

/// The names of the systems, and what is said of the setup of USB access on each.
pub proof fn systems_are_told_apart(other: Seq<char>)
    ensures
        platform_text(Platform::Windows, other) == "Windows"@,
        platform_text(Platform::MacOs, other) == "macOS"@,
        platform_text(Platform::Linux, other) == "Linux"@,
        platform_text(Platform::Other, other) == other,
        driver_text(Platform::Windows) == "Driver installer: built-in pnputil WinUSB INF"@,
        driver_text(Platform::Linux) == "USB permissions: built-in udev rule installer"@,
        driver_text(Platform::MacOs)
            == "USB permissions: macOS normally needs no driver install"@,
        driver_text(Platform::Other) == "USB permissions: no installer for this platform"@,
        hint_text(Platform::Windows)
            == "Hint: use the Driver button or `artinchip-flash install-usb-access` to bind WinUSB when USB open/claim fails."@,
        hint_text(Platform::Linux)
            == "Hint: use the Driver button or `artinchip-flash install-usb-access`, then reconnect the device."@,
        hint_text(Platform::MacOs)
            == "Hint: macOS usually needs no driver. If USB access fails, close other artinchip-flash/AiBurn instances, unplug and reconnect the board, and avoid USB hubs while testing."@,
        hint_text(Platform::Other)
            == "Hint: configure USB permissions for this platform manually."@,
{
}

/// The order of the report: what the program is, where it runs and where its settings are, whether
/// they can be written, the devices, the image, and the setup of USB access.
pub proof fn report_has_this_order(f: EnvironmentFacts)
    ensures
        ({
            let r = report_lines(f);
            let a = dir_lines(f.config_dir_test);
            let b = scan_lines(f);
            let n = 6 + a.len() as int;
            let m = n + b.len();
            &&& r.len() == m + 3
            &&& r[0] == "artinchip-flash standalone environment check"@
            &&& r[1] == "Version: "@ + f.version@
            &&& r[2] == "Build: "@ + f.build@
            &&& r[3] == "Commit: "@ + f.commit@
            &&& r[4] == "Platform: "@ + platform_text(f.platform, f.other_name@)
            &&& r[5] == "Config dir: "@ + f.config_dir@
            &&& r.subrange(6, n) == a
            &&& r.subrange(n, m) == b
            &&& r[m] == image_line(f.image)
            &&& r[m + 1] == driver_text(f.platform)
            &&& r[m + 2] == hint_text(f.platform)
        }),
{
    let r = report_lines(f);
    let a = dir_lines(f.config_dir_test);
    let b = scan_lines(f);
    let n = 6 + a.len() as int;
    let m = n + b.len();
    assert(r.subrange(6, n) =~= a);
    assert(r.subrange(n, m) =~= b);
}

/// What the report says of the directory for the settings.
pub proof fn directory_is_reported(e: String)
    ensures
        dir_lines(Ok(Ok(()))) == seq!["Config dir writable: OK"@],
        dir_lines(Ok(Err(e))) == seq!["Config dir writable: FAILED ("@ + e@ + ")"@],
        dir_lines(Err(e)) == seq!["Config dir: FAILED ("@ + e@ + ")"@],
{
}

/// What the report says of the image.
pub proof fn image_is_reported(e: String, f: ImageFacts)
    ensures
        image_line(None) == "Image: not selected"@,
        image_line(Some(Err(e))) == "Image: FAILED ("@ + e@ + ")"@,
        image_line(Some(Ok(f))) == "Image: OK ("@ + f.platform@ + " "@ + f.product@ + " v"@
            + f.version@ + ", "@ + dec(f.components as nat) + " components)"@,
{
}

/// What the report says of the devices: that the scan failed, that there is none, or how many there
/// are, each of them, and at last whether one can be opened, which is tried only where one is
/// ready.
pub proof fn devices_are_reported(f: EnvironmentFacts, list: Vec<DeviceInfo>, e: String)
    ensures
        f.scan == Err::<Vec<DeviceInfo>, String>(e) ==> scan_lines(f) == seq![
            "USB scan: FAILED ("@ + e@ + ")"@,
        ],
        f.scan == Ok::<Vec<DeviceInfo>, String>(list) && list@.len() == 0 ==> scan_lines(f) == seq![
            "USB device: not connected (VID=33C3 PID=6677)"@,
        ],
        f.scan == Ok::<Vec<DeviceInfo>, String>(list) && list@.len() > 0 ==> {
            let l = scan_lines(f);
            let all = device_lines(device_views(list@), list@.len());
            let ready = exists|i: int| 0 <= i < list@.len() && (#[trigger] list@[i]).ready;
            &&& l.len() == all.len() + 2
            &&& l[0] == "USB device: "@ + dec(list@.len()) + " detected"@
            &&& l.subrange(1, l.len() - 1) == all
            &&& l.last() == (if !ready {
                "USB access: SKIPPED (device detected but not ready for USB transfers)"@
            } else {
                match f.access {
                    Ok(()) => "USB access: OK"@,
                    Err(why) => "USB access: FAILED ("@ + why@ + ")"@,
                }
            })
        },
{
    if f.scan == Ok::<Vec<DeviceInfo>, String>(list) && list@.len() > 0 {
        let devices = device_views(list@);
        let l = scan_lines(f);
        let all = device_lines(devices, list@.len());
        assert(l.subrange(1, l.len() - 1) =~= all);
        if ready_device(devices) {
            let i = choose|i: int| 0 <= i < devices.len() && (#[trigger] devices[i]).ready;
            assert(list@[i].ready);
        }
        if exists|i: int| 0 <= i < list@.len() && (#[trigger] list@[i]).ready {
            let i = choose|i: int| 0 <= i < list@.len() && (#[trigger] list@[i]).ready;
            assert(devices[i].ready);
        }
    }
}

/// A device in the report has a line, and one below it where something keeps it from being used.
pub proof fn each_device_is_reported(devices: Seq<DeviceInfo<Seq<char>>>, n: nat)
    requires
        n < devices.len(),
    ensures
        ({
            let d = devices[n as int];
            let line = "  bus="@ + dec(d.bus_number as nat) + " address="@ + dec(d.address as nat)
                + " path="@ + d.port_path + " speed="@ + d.speed + " status="@ + (if d.ready {
                "ready"@
            } else {
                "not-ready"@
            });
            let before = device_lines(devices, n);
            device_lines(devices, n + 1) == match d.status {
                None => before.push(line),
                Some(s) => before.push(line).push("    "@ + s),
            }
        }),
        device_lines(devices, 0) == Seq::<Seq<char>>::empty(),
{
}

} // verus!
