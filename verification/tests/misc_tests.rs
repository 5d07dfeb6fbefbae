use dloop::action::Action;
use dloop::adb::AdbClient;
use dloop::config::{join_path, project_config_path};
use dloop::device::scan_devices;
use dloop::event::{map_key, AppEvent, Key, Modal};
use dloop::text::{fmt_i32, fmt_u64, fmt_usize};
use dloop::tools::newest_application_id;

#[test]
fn decimal_formatting() {
    assert_eq!(fmt_usize(0), "0");
    assert_eq!(fmt_usize(1234), "1234");
    assert_eq!(fmt_u64(18_446_744_073_709_551_615), "18446744073709551615");
    assert_eq!(fmt_i32(-5), "-5");
    assert_eq!(fmt_i32(i32::MIN), "-2147483648");
}

#[test]
fn devices_are_parsed_from_adb_output() {
    let adb = AdbClient::new("adb".to_string());
    let out = "List of devices attached\nemulator-5554\tdevice product:sdk model:sdk_gphone64 device:emu\nR5CT\tunauthorized usb:1\n\n";
    let devices = adb.list_devices(out);
    assert_eq!(devices.len(), 2);
    assert_eq!(devices[0].serial, "emulator-5554");
    assert_eq!(devices[0].state, "device");
    assert_eq!(devices[0].model, "sdk_gphone64");
    assert_eq!(devices[1].serial, "R5CT");
    assert_eq!(scan_devices(&adb, out).len(), 2);
}

#[test]
fn install_and_uninstall_results() {
    let adb = AdbClient::new("adb".to_string());
    assert!(adb.install_apk("Performing Streamed Install\nSuccess\n", "").is_ok());
    assert!(adb.install_apk("Failure [X]", "oops").is_err());
    assert_eq!(
        adb.install_apk_args("emu", "/a.apk", false),
        Err("APK does not exist: /a.apk".to_string())
    );
    assert_eq!(
        adb.install_apk_args("emu", "/a.apk", true),
        Ok(vec!["-s", "emu", "install", "-r", "-d", "/a.apk"].into_iter().map(String::from).collect())
    );
    assert!(adb.uninstall_package("Success").is_ok());
    assert!(adb.uninstall_package("Failure").is_err());
    assert_eq!(
        adb.uninstall_package_args("emu", "p.q"),
        vec!["-s", "emu", "uninstall", "p.q"]
    );
}

#[test]
fn key_routing() {
    assert_eq!(map_key(Modal::Main, Key::Char('q'), false), Some(AppEvent::Action(Action::Quit)));
    assert_eq!(map_key(Modal::Filter, Key::Char('q'), false), Some(AppEvent::Text('q')));
    assert_eq!(map_key(Modal::Main, Key::End, false), Some(AppEvent::Action(Action::ScrollTail)));
    assert_eq!(
        map_key(Modal::LevelPicker, Key::Enter, false),
        Some(AppEvent::Action(Action::PickerConfirm))
    );
    assert_eq!(map_key(Modal::Main, Key::Other, false), None);
}

#[test]
fn config_paths() {
    assert_eq!(join_path("/proj", ".byedroid.toml"), "/proj/.byedroid.toml");
    assert_eq!(join_path("/proj/", "x"), "/proj/x");
    assert_eq!(
        project_config_path("/proj", true, true, true),
        Some("/proj/.byedroid.toml".to_string())
    );
    assert_eq!(
        project_config_path("/proj", false, true, true),
        Some("/proj/.loopcat.toml".to_string())
    );
    assert_eq!(
        project_config_path("/proj", false, false, true),
        Some("/proj/.droid-loop.toml".to_string())
    );
    assert_eq!(project_config_path("/proj", false, false, false), None);
}

#[test]
fn newest_build_metadata_names_the_package() {
    let meta = |id: &str| format!("{{\"elements\": [{{\"applicationId\": \"{id}\"}}]}}");
    let files = vec![
        (100u64, 5u32, meta("a.old")),
        (200, 0, meta("b.new")),
        (200, 0, meta("c.tie")),
        (300, 0, "{}".to_string()),
        (150, 9, meta("d.mid")),
    ];
    assert_eq!(newest_application_id(&files), Some("b.new".to_string()));
    assert_eq!(newest_application_id(&vec![(1, 0, "{}".to_string())]), None);
}

#[test]
fn escape_and_typing_in_every_modal() {
    let modals = [
        Modal::Main,
        Modal::Filter,
        Modal::ExcludeFilter,
        Modal::LevelPicker,
        Modal::VariantPicker,
        Modal::DevicePicker,
        Modal::BuildPopup,
        Modal::PackagePicker,
        Modal::BuildHistory,
        Modal::CrashDetail,
        Modal::HelpPopup,
    ];
    for m in modals {
        assert!(map_key(m, Key::Esc, false).is_some());
        assert!(map_key(m, Key::Esc, true).is_some());
    }
    for m in [Modal::Filter, Modal::ExcludeFilter, Modal::PackagePicker] {
        assert_eq!(map_key(m, Key::Char('q'), false), Some(AppEvent::Text('q')));
    }
    assert_eq!(map_key(Modal::Main, Key::Esc, false), Some(AppEvent::Action(Action::ConfirmNo)));
}

#[test]
fn refresh_and_pane_keys() {
    assert_eq!(map_key(Modal::Main, Key::Char('r'), false), Some(AppEvent::Action(Action::RefreshDevices)));
    assert_eq!(map_key(Modal::Main, Key::Char('R'), false), Some(AppEvent::Action(Action::RunApp)));
    assert_eq!(map_key(Modal::Main, Key::Char('n'), false), Some(AppEvent::Action(Action::RunApp)));
    assert_eq!(map_key(Modal::Main, Key::Tab, false), Some(AppEvent::Action(Action::NextPane)));
    assert_eq!(map_key(Modal::Main, Key::BackTab, false), Some(AppEvent::Action(Action::PrevPane)));
}

#[test]
fn periodic_refreshes_come_due() {
    let due = dloop::app::lifecycle::refresh_due;
    assert!(due(None, 0, 30_000));
    assert!(!due(Some(1_000), 1_999, 1_000));
    assert!(due(Some(1_000), 2_000, 1_000));
    assert!(!due(Some(5_000), 4_000, 1_000));
}

#[test]
fn millisecond_padding_counts_bytes() {
    let e = dloop::logcat::parse_log_line("02-03 15:44:41.7  2359  3654 I MyTag: hi").expect("parse");
    assert_eq!(e.timestamp, "15:44:41.700");
    let wide = dloop::logcat::parse_log_line("02-03 15:44:41.é  2359  3654 I MyTag: hi").expect("parse");
    assert_eq!(wide.timestamp, "15:44:41.é0");
}
