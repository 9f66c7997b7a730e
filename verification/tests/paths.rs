use std::path::Path;

use artinchip_flash::app_config::AppConfig;
use artinchip_flash::gui::settings::{edit_app_dir, edit_compat_dir, typed_image};
use artinchip_flash::paths::same_path;
use artinchip_flash::platform::Platform;

#[test]
fn paths_are_told_apart_as_the_system_does() {
    let texts = [
        "", ".", "./", "..", "/", "//", "///", "/.", "x", "x/", "x//", "./x", "././x", "x/.",
        "x/./", "x/..", "x/../y", "x/y", "x//y", "x/./y", "x/y/", "/x", "/x/", "//x", "/./x",
        "/x/.", "/x/y", "\\x", "x\\y", "C:", "C:x", "c:x", "..x", ".x", "./.", "X",
    ];
    for a in texts {
        for b in texts {
            assert_eq!(
                same_path(Platform::Linux, a, b),
                Path::new(a) == Path::new(b),
                "{:?} and {:?}",
                a,
                b
            );
        }
    }
}

#[test]
fn paths_are_told_apart_on_windows() {
    let same = [
        ("C:\\x", "c:/x/"),
        ("C:\\x\\.\\y", "C:\\x\\\\y"),
        ("\\x", "/x"),
        ("C:.\\x", "C:x"),
        ("\\\\server\\share\\x", "//server/share/x/."),
        ("\\\\server\\share", "\\\\server\\share\\"),
        ("\\\\.\\COM1", "//./COM1/"),
        ("\\\\?\\C:\\x", "\\\\?\\c:\\x\\"),
        ("\\\\?\\UNC\\server\\share\\x", "\\\\?\\UNC\\server\\share\\\\x"),
    ];
    for (a, b) in same {
        assert!(same_path(Platform::Windows, a, b), "{:?} and {:?}", a, b);
    }
    let other = [
        ("C:\\x", "D:\\x"),
        ("C:\\x", "C:x"),
        ("C:\\x", "\\x"),
        ("C:\\x", "C:\\X"),
        ("\\\\server\\share\\x", "\\server\\share\\x"),
        ("\\\\server\\share\\x", "\\\\?\\UNC\\server\\share\\x"),
        ("\\\\?\\C:\\x", "C:\\x"),
        ("\\\\?\\C:\\x\\.", "\\\\?\\C:\\x"),
        ("\\\\?\\a\\b/c", "\\\\?\\a\\b\\c"),
        (".\\x", "x"),
    ];
    for (a, b) in other {
        assert!(!same_path(Platform::Windows, a, b), "{:?} and {:?}", a, b);
    }
}

#[test]
fn same_directory_typed_otherwise_changes_nothing() {
    let mut c = AppConfig::default_in(Platform::Linux, "/x");
    assert!(edit_app_dir(Platform::Linux, &mut c, "/x/").is_none());
    assert!(edit_app_dir(Platform::Linux, &mut c, "//x/.").is_none());
    assert_eq!(c.app_dir, "/x");
    assert_eq!(edit_app_dir(Platform::Linux, &mut c, "/x/y/").unwrap(), "/x/y/config.ini");
    assert_eq!(c.app_dir, "/x/y/");
    edit_compat_dir(Platform::Linux, &mut c, "/burn");
    c.upgcmd_path = "mine".to_string();
    edit_compat_dir(Platform::Linux, &mut c, "/burn/./");
    assert_eq!((c.aiburn_dir.as_str(), c.upgcmd_path.as_str()), ("/burn", "mine"));
    edit_compat_dir(Platform::Linux, &mut c, "/burn/..");
    assert_eq!(c.upgcmd_path, "/burn/../upgcmd");
    assert_eq!(typed_image(Platform::Linux, &c, " a.img ").unwrap(), "a.img");
    assert!(typed_image(Platform::Linux, &c, "  ").is_none());
    c.image_path = Some("/i/a.img".to_string());
    assert!(typed_image(Platform::Linux, &c, "/i//a.img").is_none());
    assert_eq!(typed_image(Platform::Linux, &c, "/i/b.img").unwrap(), "/i/b.img");
}
