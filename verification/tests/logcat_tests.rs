use dloop::logcat::{
    is_crash_continuation, is_crash_start, level_style, looks_like_stack_trace,
    matches_any_exclude, matches_any_exclude_with_cached, matches_level_filter, parse_log_line,
    refresh_pids, refresh_pids_for_packages, clear_buffer, tag_color, LogcatFilter, TagColorCache,
    TermColor,
};
use dloop::adb::AdbClient;

#[test]
fn parse_sample_logcat_line() {
    let line = "02-03 15:44:41.704  2359  3654 I MyTag: hello world";
    let e = parse_log_line(line).expect("parse");
    assert_eq!(e.level, "I");
    assert_eq!(e.pid, "2359");
    assert_eq!(e.tag, "MyTag");
    assert_eq!(e.message, "hello world");
}

#[test]
fn exclude_substrings_drop_matching_lines() {
    let f = LogcatFilter {
        filter_by_application_ids: false,
        tag_substrings: vec![],
        levels: None,
        content: None,
        exclude_substrings: vec!["chatty".to_string()],
    };
    let e = parse_log_line("02-03 15:44:41.704  2359  3654 I chatty: blah").expect("parse");
    assert!(!f.allows(&e, &[]));
    let ok = parse_log_line("02-03 15:44:41.704  2359  3654 I MyTag: hello").expect("parse");
    assert!(f.allows(&ok, &[]));
}

#[test]
fn level_filter_matches_expected_levels() {
    assert!(matches_level_filter(None, "E"));
    assert!(matches_level_filter(Some("E,F"), "E"));
    assert!(matches_level_filter(Some("E,F"), "F"));
    assert!(!matches_level_filter(Some("E,F"), "W"));
}

#[test]
fn parse_fills_timestamp_and_search_text() {
    let e = parse_log_line("02-03 15:44:41.7  2359  3654 W Net: Timeout Error: x").expect("parse");
    assert_eq!(e.timestamp, "15:44:41.700");
    assert_eq!(e.tag, "Net");
    assert_eq!(e.message, "Timeout Error: x");
    assert!(e.is_stack_trace);
    assert!(!e.crash_start);
    assert_eq!(
        e.cached_search_text,
        "net w timeout error: x 02-03 15:44:41.7  2359  3654 w net: timeout error: x"
    );
}

#[test]
fn parse_rejects_short_lines() {
    assert!(parse_log_line("--------- beginning of main").is_none());
    assert!(parse_log_line("").is_none());
}

#[test]
fn parse_without_colon_keeps_all_as_tag() {
    let e = parse_log_line("02-03 15:44:41.704 1 2 D lonelytag").expect("parse");
    assert_eq!(e.tag, "lonelytag");
    assert_eq!(e.message, "");
    assert_eq!(e.timestamp, "15:44:41.704");
}

#[test]
fn crash_detection() {
    let start = parse_log_line("02-03 15:44:41.704 1 2 E AndroidRuntime: FATAL EXCEPTION: main")
        .expect("parse");
    assert!(is_crash_start(&start));
    assert!(!is_crash_continuation(&start));
    let cont = parse_log_line("02-03 15:44:41.704 1 2 E AndroidRuntime: \tat com.x.Y.z(Y.java:1)")
        .expect("parse");
    assert!(!is_crash_start(&cont));
    assert!(is_crash_continuation(&cont));
    let other = parse_log_line("02-03 15:44:41.704 1 2 I Foo: all good").expect("parse");
    assert!(!is_crash_start(&other));
    assert!(!is_crash_continuation(&other));
    let anr = parse_log_line("02-03 15:44:41.704 1 2 E ActivityManager: ANR in com.x").expect("parse");
    assert!(is_crash_start(&anr));
}

#[test]
fn stack_trace_heuristic() {
    assert!(looks_like_stack_trace("   at com.example.Foo.bar(Foo.kt:3)"));
    assert!(looks_like_stack_trace("java.lang.IllegalStateException: boom"));
    assert!(looks_like_stack_trace("Caused by: x"));
    assert!(!looks_like_stack_trace("hello"));
}

#[test]
fn excludes_are_case_insensitive_and_skip_empty_patterns() {
    let e = parse_log_line("02-03 15:44:41.704 1 2 I Chatty: Blah").expect("parse");
    assert!(matches_any_exclude(&["CHATTY".to_string()], &e));
    assert!(!matches_any_exclude(&["".to_string()], &e));
    assert!(!matches_any_exclude(&[], &e));
    assert!(matches_any_exclude_with_cached(&["blah".to_string()], &e));
    assert!(!matches_any_exclude_with_cached(&["zzz".to_string()], &e));
}

#[test]
fn filter_by_pids_tags_levels_and_content() {
    let e = parse_log_line("02-03 15:44:41.704 42 2 W OkHttp: GET /health").expect("parse");
    let mut f = LogcatFilter {
        filter_by_application_ids: true,
        tag_substrings: vec![],
        levels: None,
        content: None,
        exclude_substrings: vec![],
    };
    assert!(f.allows(&e, &["42".to_string()]));
    assert!(!f.allows(&e, &["7".to_string()]));
    assert!(f.allows(&e, &[]));
    f.filter_by_application_ids = false;
    f.tag_substrings = vec!["okhttp".to_string()];
    assert!(f.allows(&e, &[]));
    f.tag_substrings = vec!["Retrofit".to_string()];
    assert!(!f.allows(&e, &[]));
    f.tag_substrings = vec![];
    f.levels = Some("E,F".to_string());
    assert!(!f.allows(&e, &[]));
    f.levels = Some("W".to_string());
    assert!(f.allows(&e, &[]));
    f.content = Some("HEALTH".to_string());
    assert!(f.allows(&e, &[]));
    f.content = Some("metrics".to_string());
    assert!(!f.allows(&e, &[]));
}

#[test]
fn open_filter_allows_everything() {
    let f = LogcatFilter {
        filter_by_application_ids: false,
        tag_substrings: vec![],
        levels: None,
        content: None,
        exclude_substrings: vec![],
    };
    let e = parse_log_line("02-03 15:44:41.704 9 9 V Any: thing").expect("parse");
    assert!(f.allows(&e, &["1".to_string()]));
}

#[test]
fn level_colors() {
    assert_eq!(level_style("E"), TermColor::Red);
    assert_eq!(level_style("W"), TermColor::Yellow);
}

#[test]
fn tag_colors_are_stable() {
    let mut cache = TagColorCache::new();
    let a = tag_color("Alpha", &mut cache);
    let b = tag_color("Beta", &mut cache);
    assert_eq!(cache.len(), 2);
    assert_eq!(tag_color("Alpha", &mut cache), a);
    assert_eq!(tag_color("Beta", &mut cache), b);
    assert_eq!(cache.len(), 2);
}

#[test]
fn pids_from_ps_output() {
    let adb = AdbClient::new("adb".to_string());
    let ps = "USER PID PPID VSZ RSS WCHAN ADDR S NAME\nu0_a1 123 1 0 0 0 0 S com.example.app\nu0_a2 456 1 0 0 0 0 S com.example.app:remote\nu0_a3 789 1 0 0 0 0 S com.other\n";
    let pids = refresh_pids(&adb, "com.example.app", ps).expect("pids");
    assert_eq!(pids, vec!["123".to_string(), "456".to_string()]);
    let both = refresh_pids_for_packages(
        &adb,
        &["com.other".to_string(), "com.example.app".to_string()],
        ps,
    )
    .expect("pids");
    assert_eq!(both, vec!["123".to_string(), "456".to_string(), "789".to_string()]);
}

#[test]
fn clear_buffer_arguments() {
    let adb = AdbClient::new("adb".to_string());
    assert_eq!(
        clear_buffer(&adb, "emulator-5554"),
        vec!["-s".to_string(), "emulator-5554".to_string(), "logcat".to_string(), "-c".to_string()]
    );
}
