use dloop::adb::{battery_level, installed_packages, Device};
use dloop::app::state::App;
use dloop::config::{init_config, GlobalConfig, MergedConfig, ProjectConfig};
use dloop::doctor::{
    collect_checks, doctor_counts, failure_error, failure_summary, is_executable,
    java_version_suffix, sdk_env_detail, status_badge, success_summary, AdbProbe, CheckStatus,
    DoctorFacts,
};
use dloop::project::infer_from_gradle_text;
use dloop::tools::{
    crash_export_name, detached_label, gradle_output_line, gradlew_path, is_application_module,
    log_export_name, logcat_output_line, rev_parse, scrcpy_args, RevParse,
};
use dloop::ui::{right_pad, short_task, status_text, truncate, truncate_label, version_label, word_wrap};

#[test]
fn truncation_with_ellipsis() {
    assert_eq!(truncate("hello", 10), "hello");
    assert_eq!(truncate("hello world", 6), "hello…");
    assert_eq!(truncate("hello", 0), "…");
    assert_eq!(truncate_label("hello", 0), "…");
    assert_eq!(truncate_label("h", 0), "h");
}

#[test]
fn short_task_names() {
    assert_eq!(short_task("assembleCanaryDevDebug"), "CanaryDevDebug");
    assert_eq!(short_task("installDebug"), "Debug");
    assert_eq!(short_task("clean"), "clean");
}

#[test]
fn padding_to_a_column() {
    assert_eq!(right_pad("ab", 4), "ab  ");
    assert_eq!(right_pad("abcdef", 3), "abc");
    assert_eq!(right_pad("", 0), "");
}

#[test]
fn wrapping_messages_at_spaces() {
    assert_eq!(word_wrap("short", 10), vec!["short"]);
    assert_eq!(word_wrap("anything", 0), vec!["anything"]);
    assert_eq!(word_wrap("hello world again", 11), vec!["hello", "world again"]);
    assert_eq!(word_wrap("abcdefghij", 4), vec!["abcd", "efgh", "ij"]);
    assert_eq!(word_wrap("a  b", 2), vec!["a", "b"]);
}

#[test]
fn device_version_labels() {
    assert_eq!(version_label("14", "34"), "  Android 14  API 34");
    assert_eq!(version_label("14", ""), "  Android 14");
    assert_eq!(version_label("", "34"), "  API 34");
    assert_eq!(version_label("", ""), "");
}

fn app() -> App {
    let config = MergedConfig {
        global: GlobalConfig::empty(),
        project: ProjectConfig::empty(),
        project_root: "/p".to_string(),
    };
    let inf = infer_from_gradle_text(r#"android { defaultConfig { applicationId "a.b" } }"#);
    App::new("/p".to_string(), config, inf, None, 0)
}

#[test]
fn status_line_texts() {
    let mut a = app();
    assert_eq!(status_text(&a), "No devices — connect one or press r to refresh");
    a.devices = vec![Device { serial: "s".to_string(), state: "device".to_string(), model: "m".to_string() }];
    assert_eq!(status_text(&a), "1 device  ·  0 log lines");
    a.logcat_paused = true;
    assert_eq!(status_text(&a), "Logcat PAUSED  —  Space to resume");
    a.log_scroll = 3;
    assert_eq!(status_text(&a), "Scrolled ↑3  —  End or G to follow tail");
    a.build_task = Some("assembleDebug".to_string());
    assert_eq!(status_text(&a), "Building: assembleDebug …");
}

#[test]
fn exported_lines_follow_the_pane() {
    let mut a = app();
    a.show_all_logs = true;
    a.ingest_log_line("02-03 15:44:41.704 1 2 I Foo: keep me");
    a.ingest_log_line("02-03 15:44:41.704 1 2 I Bar: drop me");
    a.exclude_input = "drop".to_string();
    assert_eq!(a.exported_lines(), vec!["02-03 15:44:41.704 1 2 I Foo: keep me".to_string()]);
}

#[test]
fn battery_and_packages_from_adb() {
    assert_eq!(battery_level("Current Battery Service state:\n  AC powered: false\n  level: 87\n  scale: 100\n"), Some(87));
    assert_eq!(battery_level("  level: 300\n"), None);
    assert_eq!(battery_level("nothing"), None);
    assert_eq!(
        installed_packages("package:com.a\npackage:com.b\r\nnoise\npackage:\n"),
        vec!["com.a".to_string(), "com.b".to_string()]
    );
}

#[test]
fn init_writes_inferred_settings() {
    let inf = infer_from_gradle_text(r#"android { defaultConfig { applicationId "a.b" } }"#);
    let cfg = init_config(&inf);
    assert_eq!(cfg.packages, Some(vec!["a.b".to_string()]));
    assert_eq!(cfg.assemble_task.as_deref(), Some("assembleDebug"));
    assert_eq!(cfg.variant.as_deref(), Some("debug (no flavors)"));
    assert_eq!(cfg.log_level.as_deref(), Some("D,I,W,E,V"));
}

#[test]
fn tool_helpers() {
    assert_eq!(
        scrcpy_args("emu", &vec!["--max-size".to_string(), "1024".to_string()]),
        vec!["-s", "emu", "--max-size", "1024"]
    );
    assert_eq!(gradlew_path("/p", true, true), Some("/p/gradlew".to_string()));
    assert_eq!(gradlew_path("/p", false, true), Some("/p/gradlew.bat".to_string()));
    assert_eq!(gradlew_path("/p", false, false), None);
    assert!(is_application_module("plugins { id 'com.android.application' }"));
    assert!(!is_application_module("plugins { id 'com.android.library' }"));
    assert_eq!(gradle_output_line(true, "BUILD FAILED  \n"), "[stderr] BUILD FAILED");
    assert_eq!(logcat_output_line(false, "line\r\n"), "line");
    assert_eq!(logcat_output_line(true, "offline\n"), "[adb logcat stderr] offline");
    assert!(matches!(rev_parse("main\n"), RevParse::Branch(b) if b == "main"));
    assert!(matches!(rev_parse("HEAD\n"), RevParse::Detached));
    assert!(matches!(rev_parse("  \n"), RevParse::NoBranch));
    assert_eq!(detached_label(true, "abc123\n"), "detached@abc123");
    assert_eq!(detached_label(false, "abc123\n"), "detached");
    assert_eq!(log_export_name(17), "byedroid-17.log");
    assert_eq!(crash_export_name(5), "crash-5.log");
}

#[test]
fn doctor_checks_and_summaries() {
    let facts = DoctorFacts {
        project_root: "/p".to_string(),
        adb: AdbProbe::Found {
            path: "/sdk/adb".to_string(),
            version_output: Some("\nAndroid Debug Bridge version 1.0.41\nVersion 34\n".to_string()),
        },
        java_path: None,
        java_version: None,
        gradlew: Some(("/p/gradlew".to_string(), false)),
        app_gradle: None,
        inference: Err("read failed".to_string()),
        sdk_root: Some("  ".to_string()),
        android_home: Some("/sdk".to_string()),
        scrcpy: Some("/usr/bin/scrcpy".to_string()),
        devices: Ok(vec![Device { serial: "emu".to_string(), state: "device".to_string(), model: "Pixel".to_string() }]),
    };
    let checks = collect_checks(&facts);
    assert_eq!(checks.len(), 9);
    assert_eq!(checks[1].detail, "/sdk/adb (Android Debug Bridge version 1.0.41)");
    assert_eq!(checks[2].status, CheckStatus::Warn);
    assert_eq!(checks[3].detail, "/p/gradlew (not executable)");
    assert_eq!(checks[4].status, CheckStatus::Fail);
    assert_eq!(checks[5].detail, "read failed");
    assert_eq!(checks[6].detail, "ANDROID_HOME=/sdk");
    assert_eq!(checks[8].detail, "Pixel (emu)");
    assert_eq!(doctor_counts(&checks), (2, 2));
    assert_eq!(failure_summary(2, 2), "Doctor found 2 blocking issue(s) and 2 warning(s)");
    assert_eq!(failure_summary(1, 0), "Doctor found 1 blocking issue(s)");
    assert_eq!(success_summary(0), "Doctor passed with no warnings");
    assert_eq!(success_summary(3), "Doctor passed with 3 warning(s)");
    assert_eq!(failure_error(2), "doctor found 2 blocking issue(s)");
    assert_eq!(status_badge(CheckStatus::Warn), "[warn]");
    assert!(is_executable(0o755));
    assert!(!is_executable(0o644));
    assert_eq!(java_version_suffix("", "openjdk version \"17\"\nmore"), Some(" (openjdk version \"17\")".to_string()));
    assert_eq!(java_version_suffix("x 1\n", ""), Some(" (x 1)".to_string()));
    assert_eq!(sdk_env_detail(&Some("/a".to_string()), &Some("/b".to_string())), Some("ANDROID_SDK_ROOT=/a".to_string()));
    assert_eq!(sdk_env_detail(&None, &None), None);
}

#[test]
fn doctor_inference_line() {
    let mut inf = infer_from_gradle_text(r#"android { defaultConfig { applicationId "a.b" } }"#);
    inf.gradle_file = Some("/p/app/build.gradle".to_string());
    let facts = DoctorFacts {
        project_root: "/p".to_string(),
        adb: AdbProbe::Missing { error: "adb not found".to_string() },
        java_path: Some("/usr/bin/java".to_string()),
        java_version: Some((String::new(), "openjdk 17\n".to_string())),
        gradlew: None,
        app_gradle: Some("/p/app/build.gradle".to_string()),
        inference: Ok(inf),
        sdk_root: None,
        android_home: None,
        scrcpy: None,
        devices: Ok(vec![]),
    };
    let checks = collect_checks(&facts);
    assert_eq!(checks[1].status, CheckStatus::Fail);
    assert_eq!(checks[2].detail, "/usr/bin/java (openjdk 17)");
    assert_eq!(
        checks[5].detail,
        "variant debug (no flavors) | assemble assembleDebug | install installDebug | packages a.b"
    );
    assert_eq!(checks[8].detail, "skipped because adb is unavailable");
}
