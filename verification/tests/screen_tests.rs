use dloop::adb::Device;
use dloop::app::state::App;
use dloop::app::BuildRecord;
use dloop::config::{GlobalConfig, MergedConfig, ProjectConfig};
use dloop::logcat::CrashEvent;
use dloop::project::infer_from_gradle_text;
use dloop::screen::{
    build_line_display, build_window, closing_secs, highlight_range, info_row1, info_row2, Segment,
    Tone,
};

fn fresh_app() -> App {
    let config = MergedConfig {
        global: GlobalConfig::empty(),
        project: ProjectConfig::empty(),
        project_root: "/p".to_string(),
    };
    let inf = infer_from_gradle_text(r#"android { defaultConfig { applicationId "a.b" } }"#);
    App::new("/p".to_string(), config, inf, None, 0)
}

fn shape(v: Vec<Segment>) -> Vec<(String, Tone)> {
    v.into_iter().map(|s| (s.text, s.tone)).collect()
}

fn s(t: &str, tone: Tone) -> (String, Tone) {
    (t.to_string(), tone)
}

fn sep() -> (String, Tone) {
    s("  │  ", Tone::Separator)
}

fn device(serial: &str, model: &str) -> Device {
    Device { serial: serial.to_string(), state: "device".to_string(), model: model.to_string() }
}

#[test]
fn info_first_row_without_device() {
    let a = fresh_app();
    assert_eq!(
        shape(info_row1(&a)),
        vec![
            s("⚠ no device", Tone::Warning),
            sep(),
            s("Debug", Tone::Variant),
            sep(),
            s("no build yet", Tone::Dim),
        ]
    );
}

#[test]
fn info_first_row_with_device_and_build() {
    let mut a = fresh_app();
    a.devices = vec![device("s1", "Pixel")];
    a.device_props = vec![
        ("ro.build.version.sdk".to_string(), "34".to_string()),
        ("ro.build.version.release".to_string(), "14".to_string()),
    ];
    a.device_battery = Some(80);
    a.current_branch = Some("main".to_string());
    a.build_history = vec![BuildRecord { task: "assembleDebug".to_string(), exit_code: Some(0), duration_ms: 1200 }];
    assert_eq!(
        shape(info_row1(&a)),
        vec![
            s("󰟜 ", Tone::DeviceIcon),
            s("Pixel", Tone::DeviceModel),
            s("  Android 14  API 34", Tone::DeviceVersion),
            s("  🔋80%", Tone::Battery),
            sep(),
            s("Debug", Tone::Variant),
            sep(),
            s(" ", Tone::BranchIcon),
            s("main", Tone::Branch),
            sep(),
            s("✓ ", Tone::BuildOk),
        ]
    );
    a.build_history[0].exit_code = Some(1);
    assert_eq!(shape(info_row1(&a)).last().unwrap(), &s("✗ ", Tone::BuildFailed));
    a.build_task = Some("assembleDebug".to_string());
    assert_eq!(shape(info_row1(&a)).last().unwrap(), &s("⟳ building…", Tone::Building));
}

#[test]
fn info_second_row_states() {
    let mut a = fresh_app();
    assert_eq!(
        shape(info_row2(&a, 0)),
        vec![s("○ logcat off", Tone::Dim), sep(), s("a.b", Tone::Package)]
    );
    a.logcat_running = true;
    a.log_scroll = 2;
    a.filter_input = "x".to_string();
    a.crash_events = vec![CrashEvent {
        timestamp: "t".to_string(),
        summary: "boom".to_string(),
        lines: Vec::new(),
    }];
    a.devices = vec![device("s1", "A"), device("s2", "B")];
    a.show_all_logs = true;
    assert_eq!(
        shape(info_row2(&a, 0)),
        vec![
            s("● ", Tone::LiveDot),
            s("0 lines", Tone::LiveCount),
            s("  ↑+2", Tone::Dim),
            sep(),
            s("all packages", Tone::Dim),
            sep(),
            s("filter: x", Tone::FilterText),
            sep(),
            s("1 crash", Tone::Crashes),
            sep(),
            s("2 devices", Tone::Dim),
        ]
    );
    a.toast = Some(("hi".to_string(), 0));
    assert_eq!(shape(info_row2(&a, 0)), vec![s("hi", Tone::Toast)]);
}

#[test]
fn build_banner_row() {
    let mut a = fresh_app();
    a.build_task = Some("installDebug".to_string());
    a.build_start_ms = Some(1000);
    assert_eq!(
        shape(info_row2(&a, 3500)),
        vec![
            s(" ⠹ ", Tone::SpinnerBadge),
            s(" INSTALLING ", Tone::BuildBanner),
            s(" Debug  2s", Tone::BuildDetail),
        ]
    );
    a.launch_after_build = true;
    a.build_task = Some("assembleDebug".to_string());
    assert_eq!(shape(info_row2(&a, 1000))[1], s(" BUILDING + LAUNCHING ", Tone::BuildBanner));
}

#[test]
fn build_popup_window_and_lines() {
    assert_eq!(build_window(100, 5, 10), (85, 95));
    assert_eq!(build_window(100, 500, 10), (0, 10));
    assert_eq!(build_window(5, 3, 10), (0, 5));
    assert_eq!(build_line_display("[stderr] boom", 80), ("boom".to_string(), true));
    assert_eq!(build_line_display("[stdout] hello world", 5), ("hello".to_string(), false));
    assert_eq!(closing_secs(5000, 3500), 2);
    assert_eq!(closing_secs(1000, 3000), 1);
}

#[test]
fn package_search_highlight() {
    assert_eq!(highlight_range("com.Example.app", "example"), Some((4, 11)));
    assert_eq!(highlight_range("com.example.app", "zzz"), None);
    assert_eq!(highlight_range("ä.app", "app"), Some((3, 6)));
}
