use dloop::action::Action;
use dloop::adb::Device;
use dloop::app::state::{
    App, BuildKind, ClipboardPurpose, CommandOutcome, DeviceCommand, Effect,
};
use dloop::app::events::device_command_args;
use dloop::app::{
    build_variant_list, effective_package_list, extract_application_id_from_metadata,
    merge_known_packages, package_match_score, preferred_device_index, scroll_offset_to_entry,
    url_encode_query, LevelFilterMode, PackageMatchScore,
};
use dloop::config::{GlobalConfig, MergedConfig, ProjectConfig};
use dloop::event::Modal;
use dloop::logcat::LogEntry;
use dloop::project::ProjectInference;

fn entry(raw: &str) -> LogEntry {
    LogEntry {
        raw: raw.to_string(),
        timestamp: "12:00:00.000".to_string(),
        pid: "1234".to_string(),
        tag: "AndroidRuntime".to_string(),
        level: "E".to_string(),
        message: raw.to_string(),
        crash_start: false,
        is_stack_trace: false,
        cached_search_text: String::new(),
    }
}

fn device(serial: &str, model: &str) -> Device {
    Device { serial: serial.to_string(), state: "device".to_string(), model: model.to_string() }
}

#[test]
fn scroll_offset_matches_visible_entries_after_target() {
    let before = entry("before");
    let crash = entry("FATAL EXCEPTION: main");
    let after_one = entry("after-one");
    let after_two = entry("after-two");

    let lines = vec![before.clone(), crash.clone(), after_one.clone(), after_two.clone()];

    let scroll = scroll_offset_to_entry(&lines, &crash, |_| true);
    assert_eq!(scroll, Some(2));
}

#[test]
fn scroll_offset_skips_hidden_entries() {
    let before = entry("before");
    let crash = entry("FATAL EXCEPTION: main");
    let hidden = entry("hidden");
    let after = entry("after");

    let lines = vec![before.clone(), crash.clone(), hidden.clone(), after.clone()];

    let scroll = scroll_offset_to_entry(&lines, &crash, |entry: &LogEntry| entry.raw != "hidden");
    assert_eq!(scroll, Some(1));
}

#[test]
fn merge_known_packages_keeps_priority_and_dedups() {
    let effective = vec!["ai.wayve.app.dev".to_string()];
    let inferred = vec!["ai.wayve.app".to_string(), "ai.wayve.app.dev".to_string()];
    let installed = vec![
        "android".to_string(),
        "ai.wayve.app".to_string(),
        "com.example.tool".to_string(),
    ];

    assert_eq!(
        merge_known_packages(&effective, &inferred, &installed),
        vec![
            "ai.wayve.app.dev".to_string(),
            "ai.wayve.app".to_string(),
            "android".to_string(),
            "com.example.tool".to_string(),
        ]
    );
}

#[test]
fn package_match_prefers_prefix_then_contains_then_fuzzy() {
    let prefix = package_match_score("wayve.driver", "way").unwrap();
    let contains = package_match_score("com.wayve.driver", "way").unwrap();
    let fuzzy = package_match_score("com.wax_y.app", "way").unwrap();

    assert_eq!(
        package_match_score("ai.wayve.driver", "ai"),
        Some(PackageMatchScore {
            tier: 0,
            metric: "ai.wayve.driver".len() - 2,
            len: "ai.wayve.driver".len(),
        })
    );
    assert!(prefix < contains);
    assert!(contains < fuzzy);
    assert!(package_match_score("com.example.app", "wve").is_none());
}

#[test]
fn level_filter_mode_maps_to_expected_levels() {
    assert_eq!(LevelFilterMode::ErrorsOnly.levels(), Some("E,F"));
    assert_eq!(LevelFilterMode::WarningsPlus.levels(), Some("W,E,F"));
    assert_eq!(LevelFilterMode::All.levels(), Some(""));
    assert_eq!(LevelFilterMode::ConfigDefault.levels(), None);
}

#[test]
fn preferred_device_index_prefers_previous_serial_then_preferred_serial() {
    let devices = vec![device("emulator-5554", "Emulator"), device("pixel-serial", "Pixel")];

    assert_eq!(
        preferred_device_index(&devices, Some("pixel-serial"), Some("emulator-5554"), 0),
        1
    );
    assert_eq!(preferred_device_index(&devices, None, Some("pixel-serial"), 0), 1);
    assert_eq!(preferred_device_index(&devices, None, None, 0), 0);
}

#[test]
fn preferred_device_index_clamps_previous_row() {
    let devices = vec![device("a", "A"), device("b", "B")];
    assert_eq!(preferred_device_index(&devices, Some("gone"), None, 5), 1);
    assert_eq!(preferred_device_index(&devices, None, None, 1), 1);
}

#[test]
fn level_filter_titles_and_summaries() {
    assert_eq!(LevelFilterMode::InfoPlus.title(), "Info + Warnings + Errors");
    assert_eq!(LevelFilterMode::FatalOnly.summary(), "fatal");
    assert_eq!(LevelFilterMode::Verbose.levels(), Some("V,D,I,W,E,F"));
}

#[test]
fn url_encoding_of_queries() {
    assert_eq!(url_encode_query("a b/c~d"), "a%20b%2Fc~d");
    assert_eq!(url_encode_query("é"), "%C3%A9");
    assert_eq!(url_encode_query("Az09-_."), "Az09-_.");
}

#[test]
fn application_id_from_output_metadata() {
    let json = r#"{ "version": 3, "applicationId" : "com.example.app.dev", "variantName": "devDebug" }"#;
    assert_eq!(extract_application_id_from_metadata(json), Some("com.example.app.dev".to_string()));
    assert_eq!(extract_application_id_from_metadata(r#"{"applicationId": ""}"#), None);
    assert_eq!(extract_application_id_from_metadata(r#"{"other": 1}"#), None);
    assert_eq!(extract_application_id_from_metadata(r#"{"applicationId": 5}"#), None);
}

#[test]
fn fuzzy_score_counts_gaps() {
    let s = package_match_score("com.wax_y.app", "way").unwrap();
    assert_eq!(s.tier, 2);
    let c = package_match_score("com.wayve.driver", "way").unwrap();
    assert_eq!(c, PackageMatchScore { tier: 1, metric: 4, len: 16 });
    assert_eq!(package_match_score("Anything", ""), Some(PackageMatchScore { tier: 0, metric: 0, len: 8 }));
}

fn config() -> MergedConfig {
    MergedConfig {
        global: GlobalConfig::empty(),
        project: ProjectConfig::empty(),
        project_root: "/proj".to_string(),
    }
}

fn inference() -> ProjectInference {
    dloop::project::infer_from_gradle_text(
        r#"android { defaultConfig { applicationId "com.example.app" } }"#,
    )
}

fn new_app() -> App {
    App::new("/proj".to_string(), config(), inference(), Some("main".to_string()), 1_000)
}

fn toast(app: &App) -> Option<String> {
    app.toast.as_ref().map(|(m, _)| m.clone())
}

#[test]
fn new_app_uses_inferred_packages_and_tasks() {
    let app = new_app();
    assert_eq!(app.effective_packages, vec!["com.example.app".to_string()]);
    assert_eq!(app.effective_assemble, "assembleDebug");
    assert_eq!(app.effective_install, "installDebug");
    assert!(!app.show_all_logs);
    assert_eq!(app.picker_variants.len(), 1);
    assert_eq!(app.picker_variants[0].0, "Debug");
    assert_eq!(app.active_modal(), Modal::Main);
    assert_eq!(app.max_log_lines, 10_000);
}

#[test]
fn config_packages_override_inference() {
    let mut c = config();
    c.project.packages = Some(vec!["a.b".to_string(), "c.d".to_string()]);
    c.project.assemble_task = Some("assembleFooDebug".to_string());
    let inf = inference();
    assert_eq!(effective_package_list(&c, &inf), vec!["a.b".to_string(), "c.d".to_string()]);
    let app = App::new("/p".to_string(), c, inf, None, 0);
    assert_eq!(app.effective_assemble, "assembleFooDebug");
}

#[test]
fn variant_list_for_single_dimension_flavors() {
    let inf = dloop::project::infer_from_gradle_text(
        "android {\n    defaultConfig { applicationId \"x.y\" }\n    productFlavors {\n        dev { }\n        prod { }\n    }\n}\n",
    );
    let v = build_variant_list(&inf, "assembleDevDebug", "installDevDebug");
    let labels: Vec<String> = v.iter().map(|t| t.0.clone()).collect();
    assert_eq!(labels, vec!["DevDebug".to_string(), "ProdDebug".to_string(), "Debug".to_string()]);
    assert_eq!(v[1].1, "assembleProdDebug");
    assert_eq!(v[2].2, "installDebug");
}

#[test]
fn startup_with_a_device_starts_logcat() {
    let mut app = new_app();
    let fx = app.startup(vec![device("emu", "Emulator")]);
    assert_eq!(app.selected_serial(), Some("emu"));
    match fx.last() {
        Some(Effect::StartLogcat { serial, packages, report_failure }) => {
            assert_eq!(serial, "emu");
            assert_eq!(packages, &vec!["com.example.app".to_string()]);
            assert!(!report_failure);
        }
        other => panic!("unexpected effect {:?}", other),
    }
    app.logcat_started();
    assert!(app.logcat_running);
}

#[test]
fn startup_without_devices_asks_nothing_of_logcat() {
    let mut app = new_app();
    let fx = app.startup(vec![]);
    assert!(fx.iter().all(|e| !matches!(e, Effect::StartLogcat { .. })));
    assert!(app.selected_serial().is_none());
}

#[test]
fn confirm_no_closes_everything() {
    let mut app = new_app();
    app.handle_action(Action::OpenHelp);
    app.handle_action(Action::FocusFilter);
    assert_eq!(app.active_modal(), Modal::Filter);
    let fx = app.handle_action(Action::ConfirmNo);
    assert!(fx.is_empty());
    assert_eq!(app.active_modal(), Modal::Main);
    assert!(!app.help_open);
}

#[test]
fn pause_twice_restores_streaming() {
    let mut app = new_app();
    app.handle_action(Action::ToggleLogcatPause);
    assert!(app.logcat_paused);
    app.handle_action(Action::ToggleLogcatPause);
    assert!(!app.logcat_paused);
}

#[test]
fn focus_moves_between_filter_fields() {
    let mut app = new_app();
    app.handle_action(Action::FocusFilter);
    app.handle_action(Action::FocusExclude);
    assert!(app.exclude_focused && !app.filter_focused);
    app.handle_text('x');
    assert_eq!(app.exclude_input, "x");
    app.handle_backspace();
    assert_eq!(app.exclude_input, "");
}

#[test]
fn scrolling_the_log_pane() {
    let mut app = new_app();
    app.handle_action(Action::ScrollPageUp);
    assert_eq!(app.log_scroll, 20);
    app.handle_action(Action::ScrollUp);
    assert_eq!(app.log_scroll, 21);
    app.handle_action(Action::ScrollPageDown);
    assert_eq!(app.log_scroll, 1);
    app.handle_action(Action::ScrollPageDown);
    assert_eq!(app.log_scroll, 0);
    app.handle_action(Action::ScrollPageUp);
    app.handle_action(Action::ScrollTail);
    assert_eq!(app.log_scroll, 0);
}

#[test]
fn level_picker_cycles_and_confirms() {
    let mut app = new_app();
    app.handle_action(Action::OpenLevelPicker);
    assert_eq!(app.active_modal(), Modal::LevelPicker);
    assert_eq!(app.level_picker_cursor, 0);
    app.handle_action(Action::PickerPrev);
    assert_eq!(app.level_picker_cursor, 7);
    app.handle_action(Action::PickerNext);
    app.handle_action(Action::PickerNext);
    app.handle_action(Action::PickerNext);
    assert_eq!(app.level_picker_cursor, 2);
    app.handle_action(Action::PickerConfirm);
    assert_eq!(app.level_filter_mode, LevelFilterMode::ErrorsOnly);
    assert_eq!(toast(&app), Some("Levels: Errors only (E,F)".to_string()));
    assert_eq!(app.current_level_filter_summary(), "errors");
    assert_eq!(app.active_modal(), Modal::Main);
}

#[test]
fn package_filter_toggle_toasts() {
    let mut app = new_app();
    app.handle_action(Action::TogglePackageFilter);
    assert!(app.show_all_logs);
    assert_eq!(toast(&app), Some("Logcat: all logs".to_string()));
    app.handle_action(Action::TogglePackageFilter);
    assert_eq!(toast(&app), Some("Logcat: package filter".to_string()));
}

#[test]
fn build_actions_need_a_device_and_no_running_build() {
    let mut app = new_app();
    let fx = app.handle_action(Action::BuildDebug);
    assert!(fx.is_empty());
    assert_eq!(toast(&app), Some("No device selected".to_string()));
    app.startup(vec![device("emu", "E")]);
    let fx = app.handle_action(Action::CleanBuild);
    match &fx[..] {
        [Effect::RunGradle { tasks, display, serial, kind }] => {
            assert_eq!(tasks, &vec!["clean".to_string(), "assembleDebug".to_string()]);
            assert_eq!(display, "clean assembleDebug");
            assert_eq!(serial, "emu");
            assert_eq!(*kind, BuildKind::CleanBuild);
        }
        other => panic!("unexpected effects {:?}", other),
    }
    app.build_started("clean assembleDebug".to_string());
    assert!(app.build_running && app.build_popup_open);
    let fx = app.handle_action(Action::RunApp);
    assert!(fx.is_empty());
    assert_eq!(toast(&app), Some("Already running (s to stop)".to_string()));
}

#[test]
fn finished_build_is_recorded_and_launches_after_run() {
    let mut app = new_app();
    app.startup(vec![device("emu", "E")]);
    let fx = app.handle_action(Action::RunApp);
    assert!(matches!(&fx[..], [Effect::RunGradle { kind: BuildKind::Run, .. }]));
    assert!(app.launch_after_build);
    app.build_started("installDebug".to_string());
    app.tick(4_000);
    let fx = app.build_finished(Some(0));
    assert_eq!(app.build_history.len(), 1);
    assert_eq!(app.build_history[0].task, "installDebug");
    assert_eq!(app.build_history[0].exit_code, Some(0));
    assert_eq!(app.build_history[0].duration_ms, 3_000);
    assert_eq!(toast(&app), Some("installDebug OK".to_string()));
    assert_eq!(app.build_popup_auto_close, Some(7_000));
    assert!(!app.launch_after_build && !app.build_running);
    assert!(matches!(
        &fx[..],
        [Effect::RunDeviceCommand { command: DeviceCommand::Launch, .. }]
    ));
    app.tick(7_000);
    assert!(!app.build_popup_open);
}

#[test]
fn failed_build_toast_names_the_exit_code() {
    let mut app = new_app();
    app.startup(vec![device("emu", "E")]);
    app.handle_action(Action::BuildDebug);
    app.build_started("assembleDebug".to_string());
    let fx = app.build_finished(Some(-1));
    assert!(fx.is_empty());
    assert_eq!(toast(&app), Some("assembleDebug failed: exit Some(-1)".to_string()));
    app.handle_action(Action::InstallDebug);
    app.build_started("installDebug".to_string());
    app.build_finished(None);
    assert_eq!(toast(&app), Some("installDebug failed: exit None".to_string()));
}

#[test]
fn build_spawn_failure_reports_and_cancels_launch() {
    let mut app = new_app();
    app.startup(vec![device("emu", "E")]);
    app.handle_action(Action::RunApp);
    app.build_spawn_failed(BuildKind::Run, "no such file");
    assert_eq!(toast(&app), Some("run: no such file".to_string()));
    assert!(!app.launch_after_build);
    app.gradlew_missing();
    assert_eq!(toast(&app), Some("gradlew not found in project root".to_string()));
}

#[test]
fn toasts_expire_after_four_seconds() {
    let mut app = new_app();
    app.handle_action(Action::TogglePackageFilter);
    app.tick(5_000);
    assert!(app.toast.is_some());
    app.tick(5_001);
    assert!(app.toast.is_none());
}

#[test]
fn stop_process_stops_build_and_logcat() {
    let mut app = new_app();
    let fx = app.handle_action(Action::StopProcess);
    assert!(matches!(&fx[..], [Effect::StopBuild, Effect::StopLogcat]));
    assert!(!app.build_running && !app.logcat_running);
}

#[test]
fn ingest_appends_parsed_lines_and_detects_crashes() {
    let mut app = new_app();
    app.handle_action(Action::TogglePackageFilter);
    assert!(app.ingest_log_line("02-03 15:44:41.704 1 2 I Foo: hello"));
    assert!(app.ingest_log_line("02-03 15:44:41.705 1 2 E AndroidRuntime: FATAL EXCEPTION: main"));
    assert!(app.ingest_log_line("02-03 15:44:41.706 1 2 E AndroidRuntime: \tat a.B.c(B.java:1)"));
    assert!(app.ingest_log_line("02-03 15:44:41.707 1 2 I Foo: after"));
    assert_eq!(app.log_lines.len(), 4);
    assert!(app.log_lines[1].crash_start);
    assert_eq!(app.crash_events.len(), 1);
    assert_eq!(app.crash_events[0].lines.len(), 2);
    assert_eq!(app.crash_events[0].summary, "FATAL EXCEPTION: main");
    assert!(app.current_crash.is_none());
    assert!(!app.ingest_log_line("garbage"));
    assert!(app.ingest_log_line("[adb logcat stderr] device offline"));
    assert_eq!(app.log_lines.last().unwrap().tag, "adb");
}

#[test]
fn paused_stream_drops_lines() {
    let mut app = new_app();
    app.handle_action(Action::ToggleLogcatPause);
    assert!(!app.ingest_log_line("02-03 15:44:41.704 1 2 I Foo: hello"));
    assert!(app.log_lines.is_empty());
}

#[test]
fn log_buffer_keeps_the_newest_lines() {
    let mut app = new_app();
    app.show_all_logs = true;
    app.max_log_lines = 3;
    for i in 0..5 {
        assert!(app.ingest_log_line(&format!("02-03 15:44:41.704 1 2 I Foo: line {i}")));
    }
    let msgs: Vec<String> = app.log_lines.iter().map(|e| e.message.clone()).collect();
    assert_eq!(msgs, vec!["line 2", "line 3", "line 4"]);
}

#[test]
fn scrolled_pane_follows_new_lines() {
    let mut app = new_app();
    app.handle_action(Action::ScrollUp);
    app.after_ingest(true);
    assert_eq!(app.log_scroll, 2);
    app.handle_action(Action::ScrollTail);
    app.after_ingest(true);
    assert_eq!(app.log_scroll, 0);
}

#[test]
fn crash_actions_without_crash_say_so() {
    let mut app = new_app();
    assert!(app.handle_action(Action::CrashCopy).is_empty());
    assert_eq!(toast(&app), Some("yank: no crash captured yet".to_string()));
    assert!(app.handle_action(Action::CrashSearch).is_empty());
    assert_eq!(toast(&app), Some("search: no crash captured yet".to_string()));
    app.handle_action(Action::OpenCrashDetail);
    assert_eq!(toast(&app), Some("no crash captured yet".to_string()));
}

#[test]
fn crash_actions_with_a_crash() {
    let mut app = new_app();
    app.show_all_logs = true;
    app.ingest_log_line("02-03 15:44:41.705 1 2 E AndroidRuntime: FATAL EXCEPTION: main");
    app.ingest_log_line("02-03 15:44:41.706 1 2 I Foo: after");
    app.handle_action(Action::ScrollPageUp);
    app.handle_action(Action::OpenCrashDetail);
    assert!(app.crash_detail_open);
    assert_eq!(app.log_scroll, 1);
    assert_eq!(app.crash_detail_scroll, 1);
    let fx = app.handle_action(Action::CrashCopy);
    match &fx[..] {
        [Effect::CopyToClipboard { text, purpose }] => {
            assert_eq!(
                text,
                "--- FATAL EXCEPTION: main @ 15:44:41.705 ---\n02-03 15:44:41.705 1 2 E AndroidRuntime: FATAL EXCEPTION: main\n"
            );
            assert_eq!(*purpose, ClipboardPurpose::CrashDetails { lines: 1 });
        }
        other => panic!("unexpected effects {:?}", other),
    }
    app.clipboard_done(ClipboardPurpose::CrashDetails { lines: 1 }, Ok(()));
    assert_eq!(toast(&app), Some("Copied crash details (1 lines)".to_string()));
    assert!(!app.crash_detail_open);
    let fx = app.handle_action(Action::CrashSearch);
    match &fx[..] {
        [Effect::OpenUrl { url }] => assert_eq!(
            url,
            "https://www.google.com/search?q=FATAL%20EXCEPTION%3A%20main%2015%3A44%3A41.705"
        ),
        other => panic!("unexpected effects {:?}", other),
    }
    app.url_opened(Err("no browser".to_string()));
    assert_eq!(toast(&app), Some("search: no browser".to_string()));
}

#[test]
fn device_commands_and_outcomes() {
    let mut app = new_app();
    assert!(app.handle_action(Action::UninstallApp).is_empty());
    app.startup(vec![device("emu", "E")]);
    let fx = app.handle_action(Action::ClearAppCache);
    assert!(matches!(
        &fx[..],
        [Effect::RunDeviceCommand { command: DeviceCommand::ClearCache, .. }]
    ));
    assert_eq!(app.resolve_target_package(None), Some("com.example.app".to_string()));
    assert_eq!(
        app.resolve_target_package(Some("com.example.app.dev".to_string())),
        Some("com.example.app.dev".to_string())
    );
    assert_eq!(
        device_command_args(DeviceCommand::ClearCache, "emu", "p.q"),
        vec!["-s", "emu", "shell", "pm", "clear", "--cache-only", "p.q"]
    );
    app.device_command_finished(DeviceCommand::Uninstall, "p.q", CommandOutcome::Succeeded);
    assert_eq!(toast(&app), Some("Uninstalled p.q".to_string()));
    app.device_command_finished(
        DeviceCommand::ClearData,
        "p.q",
        CommandOutcome::Failed("denied".to_string()),
    );
    assert_eq!(toast(&app), Some("Clear data failed: denied".to_string()));
    app.no_target_package(DeviceCommand::Launch);
    assert_eq!(toast(&app), Some("No package known — can't launch".to_string()));
}

#[test]
fn devices_disconnect_and_reconnect() {
    let mut app = new_app();
    app.startup(vec![device("emu", "E")]);
    app.logcat_started();
    app.device_info(vec![("ro.build.version.sdk".to_string(), "34".to_string())], Some(50));
    let fx = app.devices_refreshed(vec![]);
    assert!(matches!(&fx[..], [Effect::StopLogcat]));
    assert_eq!(toast(&app), Some("Device disconnected — stopped logcat".to_string()));
    assert!(!app.logcat_running);
    assert!(app.device_props.is_empty());
    assert_eq!(app.device_battery, None);
    assert!(app.installed_device_packages.is_empty());
    let fx = app.devices_refreshed(vec![device("emu", "E")]);
    assert!(matches!(fx.last(), Some(Effect::StartLogcat { .. })));
    assert_eq!(app.selected_serial(), Some("emu"));
}

#[test]
fn device_picker_confirm_persists_the_choice() {
    let mut app = new_app();
    app.startup(vec![device("a", "A"), device("b", "B")]);
    app.handle_action(Action::OpenDevicePicker);
    app.handle_action(Action::PickerNext);
    let fx = app.handle_action(Action::PickerConfirm);
    assert_eq!(app.selected_serial(), Some("b"));
    assert_eq!(app.config.global.preferred_device_serial, Some("b".to_string()));
    assert!(matches!(fx.first(), Some(Effect::SavePreferredDevice { serial }) if serial == "b"));
    assert!(!app.device_picker_open);
}

#[test]
fn package_picker_choices() {
    let mut app = new_app();
    app.device_packages(vec!["com.other".to_string()]);
    app.package_picker_open = true;
    app.handle_text('o');
    app.handle_text('t');
    assert_eq!(app.filtered_package_list(), vec!["com.other".to_string()]);
    app.handle_action(Action::PickerNext);
    assert_eq!(app.package_picker_cursor, 1);
    app.handle_action(Action::PickerConfirm);
    assert_eq!(app.active_package_filter, Some("com.other".to_string()));
    assert_eq!(toast(&app), Some("Filtering: com.other".to_string()));
    assert!(!app.package_picker_open && app.package_picker_input.is_empty());
    assert_eq!(app.filter_packages(), vec!["com.other".to_string()]);
}

#[test]
fn variant_picker_sets_tasks() {
    let inf = dloop::project::infer_from_gradle_text(
        "android {\n    defaultConfig { applicationId \"x.y\" }\n    productFlavors {\n        dev { }\n        prod { }\n    }\n}\n",
    );
    let mut app = App::new("/p".to_string(), config(), inf, None, 0);
    app.handle_action(Action::OpenVariantPicker);
    app.handle_action(Action::PickerNext);
    app.handle_action(Action::PickerConfirm);
    assert_eq!(app.effective_assemble, "assembleProdDebug");
    assert_eq!(app.effective_install, "installProdDebug");
    assert_eq!(toast(&app), Some("Variant: ProdDebug".to_string()));
}

#[test]
fn branch_changes_are_announced() {
    let mut app = new_app();
    app.branch_discovered(Some("main".to_string()));
    assert!(app.toast.is_none());
    app.branch_discovered(Some("feature/x".to_string()));
    assert_eq!(toast(&app), Some("Branch: feature/x".to_string()));
    assert_eq!(app.current_branch, Some("feature/x".to_string()));
}

#[test]
fn exported_logs_toast() {
    let mut app = new_app();
    let fx = app.handle_action(Action::ExportLogs);
    assert!(matches!(&fx[..], [Effect::ExportLogs]));
    app.logs_exported(12, "/proj/byedroid-1.log");
    assert_eq!(toast(&app), Some("Exported 12 lines to /proj/byedroid-1.log".to_string()));
}

#[test]
fn build_task_runs_on_the_selected_device_and_stops() {
    let mut app = new_app();
    let fx = app.run_build_task("assembleDebug", BuildKind::Build);
    assert!(fx.is_empty());
    assert_eq!(toast(&app).as_deref(), Some("No device selected"));
    app.devices = vec![device("s1", "Pixel")];
    app.launch_after_build = true;
    let fx = app.run_build_task("installDebug", BuildKind::Run);
    match &fx[..] {
        [Effect::RunGradle { tasks, display, serial, kind }] => {
            assert_eq!(tasks, &vec!["installDebug".to_string()]);
            assert_eq!(display, "installDebug");
            assert_eq!(serial, "s1");
            assert_eq!(*kind, BuildKind::Run);
        }
        other => panic!("unexpected effects {other:?}"),
    }
    assert!(app.launch_after_build);
    app.build_started("installDebug".to_string());
    assert!(app.build_running);
    let fx = app.stop_build();
    assert!(matches!(&fx[..], [Effect::StopBuild]));
    assert!(!app.build_running);
    assert_eq!(app.build_task, None);
    assert_eq!(app.build_start_ms, None);
    let fx = app.run_clean_build();
    match &fx[..] {
        [Effect::RunGradle { tasks, display, .. }] => {
            assert_eq!(tasks, &vec!["clean".to_string(), "assembleDebug".to_string()]);
            assert_eq!(display, "clean assembleDebug");
        }
        other => panic!("unexpected effects {other:?}"),
    }
    assert!(!app.launch_after_build);
}

#[test]
fn scrolling_up_then_down_returns_to_the_same_line() {
    let mut app = new_app();
    app.log_scroll = 4;
    let f1 = app.handle_action(Action::ScrollUp);
    assert_eq!(app.log_scroll, 5);
    let f2 = app.handle_action(Action::ScrollDown);
    assert_eq!(app.log_scroll, 4);
    assert!(f1.is_empty() && f2.is_empty());
}

#[test]
fn chosen_variant_is_the_one_built() {
    let inf = dloop::project::infer_from_gradle_text(
        "android {\n    defaultConfig { applicationId \"x.y\" }\n    productFlavors {\n        dev { }\n        prod { }\n    }\n}\n",
    );
    let mut app = App::new("/p".to_string(), config(), inf, None, 0);
    app.devices = vec![device("s1", "Pixel")];
    app.handle_action(Action::OpenVariantPicker);
    app.handle_action(Action::PickerNext);
    let f1 = app.handle_action(Action::PickerConfirm);
    assert!(f1.is_empty());
    let fx = app.handle_action(Action::BuildDebug);
    match &fx[..] {
        [Effect::RunGradle { tasks, serial, kind, .. }] => {
            assert_eq!(tasks, &vec!["assembleProdDebug".to_string()]);
            assert_eq!(serial, "s1");
            assert_eq!(*kind, BuildKind::Build);
        }
        other => panic!("unexpected effects {other:?}"),
    }
}

#[test]
fn chosen_level_governs_which_lines_are_kept() {
    let mut app = new_app();
    app.handle_action(Action::OpenLevelPicker);
    while dloop::app::level_filter_option(app.level_picker_cursor) != LevelFilterMode::ErrorsOnly {
        app.handle_action(Action::PickerNext);
    }
    let f = app.handle_action(Action::PickerConfirm);
    assert!(f.is_empty());
    assert_eq!(app.level_filter_mode, LevelFilterMode::ErrorsOnly);
    assert!(!app.ingest_log_line("02-03 15:44:41.704  2359  3654 I MyTag: hello"));
    assert!(app.ingest_log_line("02-03 15:44:41.704  2359  3654 E MyTag: broken"));
    assert_eq!(app.log_lines.len(), 1);
    assert_eq!(app.log_lines[0].level, "E");
}

#[test]
fn picker_cancel_closes_every_popup() {
    let mut app = new_app();
    app.device_picker_open = true;
    app.help_open = true;
    app.build_history_open = true;
    app.package_picker_open = true;
    app.package_picker_input = "abc".to_string();
    let fx = app.handle_action(Action::PickerCancel);
    assert!(fx.is_empty());
    assert_eq!(app.active_modal(), Modal::Main);
    assert!(app.package_picker_input.is_empty());
    app.filter_focused = true;
    app.level_picker_open = true;
    app.handle_action(Action::PickerCancel);
    assert_eq!(app.active_modal(), Modal::Filter);
}

#[test]
fn pausing_and_resuming_the_stream() {
    let mut app = new_app();
    app.show_all_logs = true;
    app.handle_action(Action::ToggleLogcatPause);
    assert!(app.logcat_paused);
    assert!(!app.ingest_log_line("02-03 15:44:41.704  2359  3654 I MyTag: hello"));
    assert!(app.log_lines.is_empty());
    app.handle_action(Action::ToggleLogcatPause);
    assert!(app.ingest_log_line("02-03 15:44:41.704  2359  3654 I MyTag: hello"));
    assert_eq!(app.log_lines.len(), 1);
}

#[test]
fn refresh_key_asks_for_devices_and_tab_keeps_the_log_pane() {
    let mut app = new_app();
    let fx = app.handle_action(Action::RefreshDevices);
    assert!(matches!(&fx[..], [Effect::RefreshDevices]));
    let fx = app.handle_action(Action::NextPane);
    assert!(fx.is_empty());
    assert_eq!(app.active_pane, dloop::app::Pane::Logs);
    let fx = app.handle_action(Action::PrevPane);
    assert!(fx.is_empty());
    assert_eq!(app.active_pane, dloop::app::Pane::Logs);
}
