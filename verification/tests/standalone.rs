use std::path::Path;

use artinchip_flash::platform::Platform;
use artinchip_flash::standalone::{
    app_dir_for, config_path, default_app_dir, environment_report, image_history_path,
    install_driver, legacy_app_dir, linux_udev_rule, migrates, migration_due,
    powershell_single_quoted, sh_single_quoted, AccessSetup, EnvironmentFacts, ImageFacts,
    UserDirs,
};
use artinchip_flash::usb::search::DeviceInfo;

#[test]
fn linux_rule_targets_artinchip_upgrade_vid_pid() {
    let rule = linux_udev_rule();
    assert!(rule.contains("33c3"));
    assert!(rule.contains("6677"));
    assert!(rule.contains("uaccess"));
}

fn dirs() -> UserDirs {
    UserDirs {
        appdata: None,
        xdg_config_home: None,
        home: Some("/home/user".to_string()),
        userprofile: None,
    }
}

#[test]
fn app_paths_end_with_project_name() {
    for platform in [Platform::Linux, Platform::MacOs, Platform::Other] {
        let d = dirs();
        let app = default_app_dir(platform, &d);
        assert_eq!(
            Path::new(&app)
                .file_name()
                .and_then(|name| name.to_str())
                .unwrap(),
            "artinchip-flash"
        );
        let config = config_path(platform, &d);
        assert_eq!(Path::new(&config).file_name().unwrap(), "config.ini");
        let history = image_history_path(platform, &d);
        assert_eq!(Path::new(&history).file_name().unwrap(), "img_history.txt");
    }
}

#[test]
fn app_dir_follows_the_platform() {
    let mut d = dirs();
    assert_eq!(
        default_app_dir(Platform::Linux, &d),
        "/home/user/.config/artinchip-flash"
    );
    assert_eq!(
        default_app_dir(Platform::MacOs, &d),
        "/home/user/Library/Application Support/artinchip-flash"
    );
    assert_eq!(default_app_dir(Platform::Windows, &d), ".artinchip-flash");
    d.xdg_config_home = Some("/xdg".to_string());
    assert_eq!(default_app_dir(Platform::Linux, &d), "/xdg/artinchip-flash");
    d.appdata = Some("C:\\Users\\u\\AppData".to_string());
    assert_eq!(
        default_app_dir(Platform::Windows, &d),
        "C:\\Users\\u\\AppData\\artinchip-flash"
    );
    assert_eq!(
        legacy_app_dir(Platform::Windows, &d),
        "C:\\Users\\u\\AppData\\aic-flash"
    );
    let bare = UserDirs {
        appdata: None,
        xdg_config_home: None,
        home: None,
        userprofile: Some("/up".to_string()),
    };
    assert_eq!(app_dir_for(Platform::Windows, &bare, "x"), "/up\\.x");
    assert_eq!(app_dir_for(Platform::Linux, &bare, "x"), "/up/.config/x");
}

#[test]
fn words_are_quoted_for_shells() {
    assert_eq!(sh_single_quoted("a b"), "'a b'");
    assert_eq!(sh_single_quoted("it's"), "'it'\"'\"'s'");
    assert_eq!(powershell_single_quoted("it's"), "'it''s'");
}

#[test]
fn access_setup_follows_the_platform() {
    match install_driver(Platform::Linux, "/d/r.rules", "") {
        AccessSetup::Udev { rule, first, second } => {
            assert_eq!(rule, linux_udev_rule());
            assert_eq!(
                first,
                "pkexec sh -c 'cp '\"'\"'/d/r.rules'\"'\"' /etc/udev/rules.d/99-artinchip-flash.rules && udevadm control --reload-rules && udevadm trigger'"
            );
            assert!(second.starts_with("sudo sh -c 'cp "));
        }
        _ => panic!("Linux has a rule"),
    }
    match install_driver(Platform::Windows, "C:\\x.inf", "text") {
        AccessSetup::WinUsb { inf, command } => {
            assert_eq!(inf, "text");
            assert_eq!(
                command,
                "Start-Process -FilePath 'pnputil.exe' -ArgumentList @('/add-driver','C:\\x.inf','/install') -Verb RunAs -Wait"
            );
        }
        _ => panic!("Windows has a driver"),
    }
    assert!(matches!(install_driver(Platform::MacOs, "", ""), AccessSetup::Nothing));
    match install_driver(Platform::Other, "", "") {
        AccessSetup::Unsupported(e) => {
            assert_eq!(e, "USB access installer is not implemented for this platform")
        }
        _ => panic!("nothing is known of other systems"),
    }
}

#[test]
fn former_data_is_taken_over_once() {
    assert!(migration_due(Platform::Linux, "/a", "/b", true));
    assert!(!migration_due(Platform::Linux, "/a", "/a/", true));
    assert!(!migration_due(Platform::Linux, "/a", "/b", false));
    assert!(migrates(true, false));
    assert!(!migrates(true, true));
    assert!(!migrates(false, false));
}

fn facts() -> EnvironmentFacts {
    EnvironmentFacts {
        version: "1.2".to_string(),
        build: "b".to_string(),
        commit: "c".to_string(),
        platform: Platform::Linux,
        other_name: String::new(),
        config_dir: "/cfg".to_string(),
        config_dir_test: Ok(Ok(())),
        scan: Ok(Vec::new()),
        access: Ok(()),
        image: None,
    }
}

#[test]
fn environment_report_without_device() {
    assert_eq!(
        environment_report(&facts()),
        "artinchip-flash standalone environment check\nVersion: 1.2\nBuild: b\nCommit: c\n\
         Platform: Linux\nConfig dir: /cfg\nConfig dir writable: OK\n\
         USB device: not connected (VID=33C3 PID=6677)\nImage: not selected\n\
         USB permissions: built-in udev rule installer\n\
         Hint: use the Driver button or `artinchip-flash install-usb-access`, then reconnect the device."
    );
}

#[test]
fn environment_report_with_devices() {
    let device = DeviceInfo {
        bus_number: 1,
        address: 2,
        vendor_id: 0x33c3,
        product_id: 0x6677,
        port_path: "1-2".to_string(),
        speed: "High".to_string(),
        ready: false,
        status: Some("asleep".to_string()),
    };
    let mut f = facts();
    f.config_dir_test = Ok(Err("read-only".to_string()));
    f.scan = Ok(vec![device.clone()]);
    f.image = Some(Ok(ImageFacts {
        platform: "d21x".to_string(),
        product: "demo".to_string(),
        version: "3".to_string(),
        components: 4,
    }));
    let report = environment_report(&f);
    assert!(report.contains("\nConfig dir writable: FAILED (read-only)\n"));
    assert!(report.contains(
        "\nUSB device: 1 detected\n  bus=1 address=2 path=1-2 speed=High status=not-ready\n    asleep\nUSB access: SKIPPED (device detected but not ready for USB transfers)\n"
    ));
    assert!(report.contains("\nImage: OK (d21x demo v3, 4 components)\n"));
    let mut ready = device;
    ready.ready = true;
    ready.status = None;
    f.scan = Ok(vec![ready]);
    f.access = Err("busy".to_string());
    f.config_dir_test = Err("none".to_string());
    f.image = Some(Err("bad".to_string()));
    let report = environment_report(&f);
    assert!(report.contains("\nConfig dir: FAILED (none)\n"));
    assert!(report.contains("status=ready\nUSB access: FAILED (busy)\nImage: FAILED (bad)\n"));
    f.scan = Err("no bus".to_string());
    assert!(environment_report(&f).contains("\nUSB scan: FAILED (no bus)\n"));
}
