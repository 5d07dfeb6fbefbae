use dloop::logcat::LogEntry;
use dloop::pane::{log_title, log_view};

fn tagged(tag: &str, message: &str) -> LogEntry {
    LogEntry {
        raw: message.to_string(),
        timestamp: "12:00:00.000".to_string(),
        pid: "1".to_string(),
        tag: tag.to_string(),
        level: "I".to_string(),
        message: message.to_string(),
        crash_start: false,
        is_stack_trace: false,
        cached_search_text: String::new(),
    }
}

#[test]
fn empty_log_has_no_rows() {
    let v = log_view(&Vec::new(), 0, 10, 100, false);
    assert!(v.rows.is_empty());
    assert_eq!(v.hidden, 0);
}

#[test]
fn repeated_tag_is_left_blank_above_its_twin() {
    let lines = vec![tagged("A", "one"), tagged("A", "two"), tagged("B", "three")];
    let v = log_view(&lines, 0, 10, 100, false);
    let shape: Vec<(usize, bool, bool, &str)> = v
        .rows
        .iter()
        .map(|r| (r.entry, r.first, r.show_tag, r.text.as_str()))
        .collect();
    assert_eq!(
        shape,
        vec![(0, true, false, "one"), (1, true, true, "two"), (2, true, true, "three")]
    );
    assert_eq!(v.hidden, 0);
}

#[test]
fn scrolled_view_collects_three_windows_from_its_bottom() {
    let lines: Vec<LogEntry> = (0..30).map(|i| tagged(&format!("T{i}"), "m")).collect();
    // Five rows fit: fifteen are collected, ending three entries above the tail.
    let v = log_view(&lines, 3, 5, 100, false);
    assert_eq!(v.rows.len(), 15);
    assert_eq!(v.hidden, 10);
    assert_eq!(v.rows[0].entry, 12);
    assert_eq!(v.rows[14].entry, 26);
    // Scrolling past the top stops where a full window is left.
    let top = log_view(&lines, 1000, 5, 100, false);
    assert_eq!(top.rows.last().unwrap().entry, 4);
    assert_eq!(top.rows.len(), 5);
    // The filter line takes a row.
    let filtered = log_view(&lines, 0, 5, 100, true);
    assert_eq!(filtered.rows.len(), 12);
    assert_eq!(filtered.hidden, 8);
}

#[test]
fn long_messages_wrap_under_the_message_column() {
    let msg = "aaaa bbbb cccc dddd eeee ffff";
    let lines = vec![tagged("W", msg)];
    // 61 columns leave 20 for the message.
    let v = log_view(&lines, 0, 10, 61, false);
    let texts: Vec<&str> = v.rows.iter().map(|r| r.text.as_str()).collect();
    assert_eq!(texts, vec!["aaaa bbbb cccc dddd", "eeee ffff"]);
    assert!(v.rows[0].first && v.rows[0].show_tag);
    assert!(!v.rows[1].first && !v.rows[1].show_tag);
    // A narrow pane still wraps at twenty characters.
    let narrow = log_view(&lines, 0, 10, 10, false);
    assert_eq!(narrow.rows.len(), 2);
}

#[test]
fn pane_titles() {
    assert_eq!(log_title(true, true, true), " Logcat  [FILTER] ");
    assert_eq!(log_title(false, true, true), " Logcat  PAUSED ");
    assert_eq!(log_title(false, false, true), " Logcat  ↑scrolled — End to tail ");
    assert_eq!(log_title(false, false, false), " Logcat ");
}

#[test]
fn following_the_tail_ends_on_the_newest_entry() {
    let lines: Vec<LogEntry> = (0..7)
        .map(|i| tagged("T", &format!("message number {i} with a few words to wrap")))
        .collect();
    let v = log_view(&lines, 0, 4, 50, false);
    assert_eq!(v.rows.last().unwrap().entry, 6);
    assert!(v.rows.iter().all(|r| r.entry < lines.len()));
}
