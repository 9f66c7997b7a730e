use artinchip_flash::app_config::history::{
    append_image_history, load_image_history, timestamp_text,
};
use artinchip_flash::app_config::{
    compat_tool_name, compat_tool_path, default_compat_tool_path, join_path, AppConfig, IniPlace,
};
use artinchip_flash::platform::Platform;

#[test]
fn compat_tool_name_matches_platform() {
    assert_eq!(compat_tool_name(Platform::Windows), "upgcmd.exe");
    assert_eq!(compat_tool_name(Platform::Linux), "upgcmd");
    assert_eq!(compat_tool_name(Platform::MacOs), "upgcmd");
    assert_eq!(compat_tool_name(Platform::Other), "upgcmd");
}

#[test]
fn empty_default_compat_dir_does_not_create_fake_tool_path() {
    let path = default_compat_tool_path(Platform::Linux, "");
    assert!(path.is_empty());
    assert!(default_compat_tool_path(Platform::Windows, "").is_empty());
}

#[test]
fn saves_and_loads_project_paths() {
    let dir = "/tmp/artinchip-flash-test";
    let mut cfg = AppConfig::default_in(Platform::Linux, "/home/user/.config/artinchip-flash");
    cfg.app_dir = dir.to_string();
    cfg.aiburn_dir = join_path(Platform::Linux, dir, "compat");
    cfg.upgcmd_path = compat_tool_path(Platform::Linux, &cfg.aiburn_dir);
    cfg.selected_parts = vec!["spl".to_string(), "os".to_string()];

    let text = cfg.ini_text();
    let place = IniPlace {
        parent: Some(dir.to_string()),
        file_name: Some("config.ini".to_string()),
        tool_beside: false,
    };
    let loaded = AppConfig::load_from(
        Platform::Linux,
        "/home/user/.config/artinchip-flash",
        &place,
        &text,
    );

    assert_eq!(loaded.app_dir, dir);
    assert_eq!(loaded.aiburn_dir, cfg.aiburn_dir);
    assert_eq!(loaded.upgcmd_path, cfg.upgcmd_path);
    assert_eq!(loaded.selected_parts, cfg.selected_parts);
}

fn nowhere() -> IniPlace {
    IniPlace { parent: None, file_name: None, tool_beside: false }
}

#[test]
fn ini_text_is_laid_out_in_sections() {
    let mut cfg = AppConfig::default_in(Platform::Linux, "/data");
    cfg.auto_burn = true;
    cfg.retry_count = 0;
    cfg.image_path = Some("C:\\images\\a.img".to_string());
    cfg.serial_speed = 921600;
    assert_eq!(
        cfg.ini_text(),
        "[debug]\nauto_burn=1\nis_verbose=0\nread_device_log=0\nadb_scan=0\nretry_cnt=1\n\
         block_err_log=0\n\n[system]\nburn_timeout=60\nlanguage=zh_cn\n\n[common]\n\
         image_path=C:/images/a.img\nselected_parts=\"spl,env,os\"\napp_dir=/data\n\
         aiburn_dir=\nupgcmd_path=\ntransport=usb\nserial_port=\nserial_baud=115200\n\
         serial_speed=921600\n"
    );
}

#[test]
fn ini_reader_is_lenient() {
    let text = "; comment\n# comment\n [Debug] \r\n Auto_Burn = YES \r\nretry_cnt=abc\n\
                unknown=1\nno equals sign\n[system]\nburn_timeout=0\nlanguage=\"en\"\n\
                [COMMON]\nselected_parts=\" spl, ,os ,\"\nimage_path=\napp_dir=\n\
                serial_baud=+9600\ntransport=UART\n[other]\nlanguage=zz\n";
    let cfg = AppConfig::load_from(Platform::Linux, "/data", &nowhere(), text);
    assert!(cfg.auto_burn);
    assert_eq!(cfg.retry_count, 1);
    assert_eq!(cfg.burn_timeout_secs, 1);
    assert_eq!(cfg.language, "en");
    assert_eq!(cfg.selected_parts, vec!["spl".to_string(), "os".to_string()]);
    assert!(cfg.image_path.is_none());
    assert_eq!(cfg.app_dir, "/data");
    assert_eq!(cfg.serial_baud, 9600);
    assert_eq!(cfg.transport, "UART");
    assert!(cfg.serial_auto_enter);
}

#[test]
fn settings_come_back_as_they_were_saved() {
    let mut cfg = AppConfig::default_in(Platform::Linux, "/data");
    cfg.verbose = true;
    cfg.adb_scan = true;
    cfg.block_error_log = true;
    cfg.retry_count = 7;
    cfg.burn_timeout_secs = 123456789012;
    cfg.language = "en".to_string();
    cfg.image_path = Some("/images/x.img".to_string());
    cfg.selected_parts = vec!["a b".to_string(), "\"q\"".to_string()];
    cfg.app_dir = "/other".to_string();
    cfg.aiburn_dir = "/burn".to_string();
    cfg.upgcmd_path = "/burn/upgcmd".to_string();
    cfg.transport = "uart".to_string();
    cfg.serial_port = "/dev/ttyUSB0".to_string();
    cfg.serial_baud = 57600;
    cfg.serial_speed = 3000000;
    let back = AppConfig::load_from(Platform::Linux, "/data", &nowhere(), &cfg.ini_text());
    assert_eq!(format!("{:?}", back), format!("{:?}", cfg));
}

#[test]
fn file_place_decides_directories() {
    let own = IniPlace {
        parent: Some("/cfg".to_string()),
        file_name: Some("CONFIG.INI".to_string()),
        tool_beside: true,
    };
    assert_eq!(AppConfig::load_from(Platform::Linux, "/data", &own, "").app_dir, "/cfg");
    let vendor = IniPlace {
        parent: Some("D:\\AiBurn".to_string()),
        file_name: Some("AiBurn.ini".to_string()),
        tool_beside: true,
    };
    let cfg = AppConfig::load_from(Platform::Windows, "X:\\data", &vendor, "");
    assert_eq!(cfg.app_dir, "X:\\data");
    assert_eq!(cfg.aiburn_dir, "D:\\AiBurn");
    assert_eq!(cfg.upgcmd_path, "D:\\AiBurn\\upgcmd.exe");
}

#[test]
fn own_settings_come_before_the_vendors() {
    let project = Some((nowhere(), "[common]\napp_dir=/lost\ntransport=uart\n".to_string()));
    let official = Some((nowhere(), "[common]\ntransport=other\n".to_string()));
    let cfg = AppConfig::load_default(Platform::Linux, "/data", &project, &official);
    assert_eq!(cfg.transport, "uart");
    assert_eq!(cfg.app_dir, "/data");
    let cfg = AppConfig::load_default(Platform::Linux, "/data", &None, &official);
    assert_eq!(cfg.transport, "other");
    let cfg = AppConfig::load_default(Platform::Windows, "/data", &None, &None);
    assert_eq!(cfg.transport, "usb");
    assert_eq!(cfg.upgcmd_path, "C:\\ArtInChip\\AiBurn\\upgcmd.exe");
}

#[test]
fn paths_are_joined_as_the_system_does() {
    assert_eq!(join_path(Platform::Linux, "", "a"), "a");
    assert_eq!(join_path(Platform::Linux, "/x", "a"), "/x/a");
    assert_eq!(join_path(Platform::Linux, "/x/", "a"), "/x/a");
    assert_eq!(join_path(Platform::Linux, "x\\", "a"), "x\\/a");
    assert_eq!(join_path(Platform::Windows, "x\\", "a"), "x\\a");
    assert_eq!(join_path(Platform::Windows, "x/", "a"), "x/a");
    assert_eq!(join_path(Platform::Windows, "C:", "a"), "C:a");
    assert_eq!(join_path(Platform::Windows, "C:\\d", "a"), "C:\\d\\a");
}

#[test]
fn history_keeps_the_last_image_first() {
    let text = append_image_history("", "C:\\a.img", &timestamp_text(17));
    assert_eq!(text, "C:/a.img, unix_17\n");
    let text = append_image_history(&text, "/b,c.img", "unix_18");
    assert_eq!(text, "/b,c.img, unix_18\nC:/a.img, unix_17\n");
    let text = append_image_history(&text, "C:/a.img", "unix_19");
    assert_eq!(text, "C:/a.img, unix_19\n/b,c.img, unix_18\n");
    assert_eq!(
        load_image_history(&text),
        vec![
            ("C:/a.img".to_string(), "unix_19".to_string()),
            ("/b,c.img".to_string(), "unix_18".to_string()),
        ]
    );
    assert!(load_image_history("no comma\n").is_empty());
}

#[test]
fn history_is_limited() {
    let mut text = String::new();
    for i in 0..60 {
        text = append_image_history(&text, &format!("/img{:02}", i), "unix_1");
    }
    assert_eq!(text.lines().count(), 50);
    let list = load_image_history(&text);
    assert_eq!(list.len(), 50);
    assert_eq!(list[0].0, "/img59");
    assert_eq!(list[49].0, "/img10");
}
