//! Incoming logcat lines: the ingest filter, the crash detector and the bounded log buffer.
use vstd::prelude::*;

use crate::app::entry_views;
use crate::app::state::{App, MAX_CRASH_EVENTS, MAX_CRASH_LINES};
use crate::logcat::{
    is_crash_continuation, is_crash_start, parse_log_line, spec_any_pattern_in_seqs,
    spec_filter_allows, spec_filter_haystack, spec_has_string, spec_is_crash_continuation,
    spec_is_crash_start, spec_matches_level_filter, spec_parse_log_line, spec_search_text,
    spec_tag_selected, CrashEvent, LogEntry, LogEntryModel, LogcatFilter,
};
use crate::text;

verus! {

/// The model of a crash block.
pub struct CrashModel {
    pub timestamp: Seq<char>,
    pub summary: Seq<char>,
    pub lines: Seq<LogEntryModel>,
}

/// The model of a crash block.
pub open spec fn crash_model(c: CrashEvent) -> CrashModel {
    CrashModel { timestamp: c.timestamp@, summary: c.summary@, lines: entry_views(c.lines@) }
}

/// The models of a list of crash blocks.
pub open spec fn crash_models(s: Seq<CrashEvent>) -> Seq<CrashModel> {
    s.map_values(|c: CrashEvent| crash_model(c))
}

/// The model of an optional crash block.
pub open spec fn opt_crash_model(c: Option<CrashEvent>) -> Option<CrashModel> {
    match c {
        Some(c) => Some(crash_model(c)),
        None => None,
    }
}

/// The crash list after closing the current block: a non-empty block is appended, the
/// oldest block dropped when the list is full.
pub open spec fn spec_finalize(events: Seq<CrashModel>, cur: Option<CrashModel>) -> Seq<CrashModel> {
    match cur {
        Some(c) => if c.lines.len() > 0 {
            let kept = if events.len() >= MAX_CRASH_EVENTS {
                events.subrange(events.len() - MAX_CRASH_EVENTS + 1, events.len() as int)
            } else {
                events
            };
            kept.push(c)
        } else {
            events
        },
        None => events,
    }
}

/// An entry marked as the first line of a crash.
pub open spec fn started_entry(e: LogEntryModel) -> LogEntryModel {
    LogEntryModel { crash_start: true, ..e }
}

/// The crash block that an entry starts.
pub open spec fn new_crash(e: LogEntryModel) -> CrashModel {
    CrashModel { timestamp: e.timestamp, summary: e.message, lines: seq![started_entry(e)] }
}

/// One step of the crash detector on entry `e`: the crash list, the open block, and
/// whether `e` starts a block. A full block is closed first; a continuation line joins
/// the open block; any other line closes it, and a crash start opens a new one.
pub open spec fn spec_crash_step(events: Seq<CrashModel>, cur: Option<CrashModel>, e: LogEntryModel) -> (
    Seq<CrashModel>,
    Option<CrashModel>,
    bool,
) {
    let full = cur matches Some(c) && c.lines.len() >= MAX_CRASH_LINES;
    let ev1 = if full {
        spec_finalize(events, cur)
    } else {
        events
    };
    let cur1 = if full {
        None
    } else {
        cur
    };
    match cur1 {
        Some(c) => if c.lines.len() < MAX_CRASH_LINES && spec_is_crash_continuation(e) {
            (ev1, Some(CrashModel { lines: c.lines.push(e), ..c }), false)
        } else if spec_is_crash_start(e) {
            (spec_finalize(ev1, cur1), Some(new_crash(e)), true)
        } else {
            (spec_finalize(ev1, cur1), None, false)
        },
        None => if spec_is_crash_start(e) {
            (ev1, Some(new_crash(e)), true)
        } else {
            (ev1, None, false)
        },
    }
}

/// The bounds the crash detector keeps: at most `MAX_CRASH_EVENTS` blocks, and an open
/// block has between one and `MAX_CRASH_LINES` lines.
pub open spec fn crash_bounds(events: Seq<CrashEvent>, cur: Option<CrashEvent>) -> bool {
    &&& events.len() <= MAX_CRASH_EVENTS
    &&& cur matches Some(c) ==> 0 < c.lines@.len() <= MAX_CRASH_LINES
}

/// Close the block `cur` into `events`.
fn finalize_into(events: &mut Vec<CrashEvent>, cur: Option<CrashEvent>)
    requires
        old(events)@.len() <= MAX_CRASH_EVENTS,
    ensures
        crash_models(final(events)@) == spec_finalize(crash_models(old(events)@), opt_crash_model(cur)),
        final(events)@.len() <= MAX_CRASH_EVENTS,
{
    let ghost before = crash_models(events@);
    if let Some(c) = cur {
        if c.lines.len() > 0 {
            if events.len() >= MAX_CRASH_EVENTS {
                events.remove(0);
                assert(crash_models(events@) =~= before.subrange(
                    before.len() - MAX_CRASH_EVENTS + 1,
                    before.len() as int,
                ));
            }
            let ghost kept = crash_models(events@);
            events.push(c);
            assert(crash_models(events@) =~= kept.push(crash_model(c)));
        }
    }
}

/// The crash block that `entry` starts, marking it as a crash start.
fn start_crash(entry: &mut LogEntry) -> (r: CrashEvent)
    ensures
        final(entry)@ == started_entry(old(entry)@),
        crash_model(r) == new_crash(old(entry)@),
        r.lines@.len() == 1,
{
    entry.crash_start = true;
    let mut lines: Vec<LogEntry> = Vec::new();
    lines.push(entry.duplicate());
    assert(entry_views(lines@) =~= seq![started_entry(old(entry)@)]);
    CrashEvent { timestamp: entry.timestamp.clone(), summary: entry.message.clone(), lines }
}

/// One step of the crash detector on `entry`.
fn crash_step(events: Vec<CrashEvent>, cur: Option<CrashEvent>, entry: &mut LogEntry) -> (r: (
    Vec<CrashEvent>,
    Option<CrashEvent>,
))
    requires
        crash_bounds(events@, cur),
    ensures
        crash_bounds(r.0@, r.1),
        ({
            let (ev, c, st) = spec_crash_step(crash_models(events@), opt_crash_model(cur), old(entry)@);
            &&& crash_models(r.0@) == ev
            &&& opt_crash_model(r.1) == c
            &&& final(entry)@ == if st {
                started_entry(old(entry)@)
            } else {
                old(entry)@
            }
        }),
{
    let mut events = events;
    let mut cur = cur;
    let full = match &cur {
        Some(c) => c.lines.len() >= MAX_CRASH_LINES,
        None => false,
    };
    if full {
        finalize_into(&mut events, cur);
        cur = None;
    }
    match cur {
        Some(c) => {
            let mut c = c;
            if c.lines.len() < MAX_CRASH_LINES && is_crash_continuation(entry) {
                let ghost before = entry_views(c.lines@);
                c.lines.push(entry.duplicate());
                assert(entry_views(c.lines@) =~= before.push(entry@));
                (events, Some(c))
            } else {
                finalize_into(&mut events, Some(c));
                if is_crash_start(entry) {
                    let n = start_crash(entry);
                    (events, Some(n))
                } else {
                    (events, None)
                }
            }
        },
        None => {
            if is_crash_start(entry) {
                let n = start_crash(entry);
                (events, Some(n))
            } else {
                (events, None)
            }
        },
    }
}

/// Only the crash list and the open crash block change.
#[verifier::opaque]
pub open spec fn crash_state_changed(old: App, new: App) -> bool {
    new == (App { crash_events: new.crash_events, current_crash: new.current_crash, ..old })
}

impl App {
    /// Close the open crash block into the crash list.
    pub fn finalize_crash(&mut self)
        requires
            old(self).wf(),
        ensures
            final(self).wf(),
            crash_state_changed(*old(self), *final(self)),
            final(self).current_crash is None,
            crash_models(final(self).crash_events@) == spec_finalize(
                crash_models(old(self).crash_events@),
                opt_crash_model(old(self).current_crash),
            ),
    {
        let ghost o = *self;
        let cur = self.current_crash.take();
        finalize_into(&mut self.crash_events, cur);
        assert(crash_state_changed(o, *self)) by {
            reveal(crash_state_changed);
        }
    }

    /// Run the crash detector on an incoming entry, marking it when it starts a crash.
    pub fn apply_crash_fsm(&mut self, entry: &mut LogEntry)
        requires
            old(self).wf(),
        ensures
            final(self).wf(),
            crash_state_changed(*old(self), *final(self)),
            ({
                let (ev, c, st) = spec_crash_step(
                    crash_models(old(self).crash_events@),
                    opt_crash_model(old(self).current_crash),
                    old(entry)@,
                );
                &&& crash_models(final(self).crash_events@) == ev
                &&& opt_crash_model(final(self).current_crash) == c
                &&& final(entry)@ == if st {
                    started_entry(old(entry)@)
                } else {
                    old(entry)@
                }
            }),
    {
        let ghost o = *self;
        let mut events: Vec<CrashEvent> = Vec::new();
        std::mem::swap(&mut events, &mut self.crash_events);
        let cur = self.current_crash.take();
        let (events, cur) = crash_step(events, cur, entry);
        self.crash_events = events;
        self.current_crash = cur;
        assert(crash_state_changed(o, *self)) by {
            reveal(crash_state_changed);
        }
    }
}

} // verus!

verus! {

/// Whether the ingest filter of a state lets `e` through: the PIDs of the watched packages
/// when filtering by package, the configured tag patterns, the level list in force, the
/// content filter and the excludes.
pub open spec fn spec_ingest_allows(app: App, e: LogEntryModel) -> bool {
    let by_package = !app.show_all_logs && (app.active_package_filter is Some
        || app.effective_packages@.len() > 0);
    &&& !(by_package && app.package_pids@.len() > 0 && !spec_has_string(app.package_pids@, e.pid))
    &&& (app.config.project.log_filters@.len() == 0 || spec_tag_selected(
        app.config.project.log_filters@,
        e.tag,
    ))
    &&& spec_matches_level_filter(app.spec_effective_log_levels(), e.level)
    &&& (app.filter_input@.len() == 0 || text::spec_contains(
        spec_filter_haystack(e),
        text::spec_to_lowercase(app.filter_input@),
    ))
    &&& !spec_any_pattern_in_seqs(app.spec_merged_excludes(), spec_filter_haystack(e))
}

/// The filter built from a state decides as `spec_ingest_allows` does.
proof fn lemma_filter_of_state(app: App, f: LogcatFilter, e: LogEntryModel)
    requires
        app.spec_log_filter_ok(f),
    ensures
        spec_filter_allows(f, e, app.package_pids@) == spec_ingest_allows(app, e),
{
    let lower_tag = text::spec_to_lowercase(e.tag);
    crate::logcat::lemma_any_pattern_in_seqs(f.tag_substrings@, lower_tag);
    crate::logcat::lemma_any_pattern_in_seqs(app.config.project.log_filters@, lower_tag);
    crate::logcat::lemma_any_pattern_in_seqs(f.exclude_substrings@, spec_filter_haystack(e));
    assert(text::strs(f.tag_substrings@).len() == f.tag_substrings@.len());
    assert(text::strs(app.config.project.log_filters@).len()
        == app.config.project.log_filters@.len());
}

/// The log buffer after appending `e`: the oldest entries are dropped so that at most
/// `max` remain.
pub open spec fn spec_capped_push(lines: Seq<LogEntryModel>, e: LogEntryModel, max: int) -> Seq<
    LogEntryModel,
> {
    let kept = if lines.len() >= max {
        lines.subrange(lines.len() - max + 1, lines.len() as int)
    } else {
        lines
    };
    kept.push(e)
}

/// The entry shown for a diagnostic line of the `adb` reader itself.
pub open spec fn adb_entry(line: Seq<char>) -> LogEntryModel {
    LogEntryModel {
        raw: line,
        timestamp: Seq::<char>::empty(),
        pid: Seq::<char>::empty(),
        tag: "adb"@,
        level: "E"@,
        message: line,
        crash_start: false,
        is_stack_trace: false,
        cached_search_text: spec_search_text("adb"@, "E"@, line, line),
    }
}

/// An entry that passed the ingest filter runs the crash detector (which may mark it as a
/// crash start) and is appended to the bounded log buffer.
#[verifier::opaque]
pub open spec fn entry_ingested(old: App, new: App, e: LogEntryModel) -> bool {
    let (ev, cur, st) = spec_crash_step(
        crash_models(old.crash_events@),
        opt_crash_model(old.current_crash),
        e,
    );
    let shown = if st {
        started_entry(e)
    } else {
        e
    };
    &&& new == (App {
        log_lines: new.log_lines,
        crash_events: new.crash_events,
        current_crash: new.current_crash,
        ..old
    })
    &&& entry_views(new.log_lines@) == spec_capped_push(
        entry_views(old.log_lines@),
        shown,
        old.max_log_lines as int,
    )
    &&& crash_models(new.crash_events@) == ev
    &&& opt_crash_model(new.current_crash) == cur
}

/// A diagnostic line of the reader is appended.
#[verifier::opaque]
pub open spec fn adb_line_appended(old: App, new: App, line: Seq<char>) -> bool {
    &&& new == (App { log_lines: new.log_lines, ..old })
    &&& entry_views(new.log_lines@) == entry_views(old.log_lines@).push(adb_entry(line))
}

/// A scrolled log pane moves with new lines so that the same lines stay in view.
#[verifier::opaque]
pub open spec fn scroll_followed(old: App, new: App, got_new: bool) -> bool {
    new == (App {
        log_scroll: if got_new && old.log_scroll > 0 {
            (old.log_scroll + 1) as usize
        } else {
            old.log_scroll
        },
        ..old
    })
}

/// What an incoming line does: nothing while paused; a parsed entry that the ingest filter
/// lets through runs the crash detector and is appended to the bounded buffer; a diagnostic
/// line of the reader (`[adb...`) is appended while the buffer has room; anything else is
/// dropped. `got` says whether an entry was appended.
#[verifier::opaque]
pub open spec fn spec_ingest(old: App, line: Seq<char>, new: App, got: bool) -> bool {
    if old.logcat_paused {
        new == old && !got
    } else {
        match spec_parse_log_line(line) {
            Some(e) => if spec_ingest_allows(old, e) {
                entry_ingested(old, new, e) && got
            } else {
                new == old && !got
            },
            None => if text::spec_starts_with(line, "[adb"@) && old.log_lines@.len()
                < old.max_log_lines {
                adb_line_appended(old, new, line) && got
            } else {
                new == old && !got
            },
        }
    }
}

/// Append `e`, dropping the oldest entry when the buffer is full.
fn push_entry_capped(v: &mut Vec<LogEntry>, e: LogEntry, max: usize)
    requires
        1 <= max,
        old(v)@.len() <= max,
    ensures
        entry_views(final(v)@) == spec_capped_push(entry_views(old(v)@), e@, max as int),
        final(v)@.len() <= max,
{
    let ghost before = entry_views(v@);
    if v.len() >= max {
        v.remove(0);
        assert(entry_views(v@) =~= before.subrange(before.len() - max + 1, before.len() as int));
    }
    let ghost kept = entry_views(v@);
    v.push(e);
    assert(entry_views(v@) =~= kept.push(e@));
}

/// The entry shown for a diagnostic line of the reader.
fn make_adb_entry(line: &str) -> (r: LogEntry)
    ensures
        r@ == adb_entry(line@),
{
    let l = text::to_chars(line);
    let tag = text::to_chars("adb");
    let level = text::to_chars("E");
    let cached = crate::logcat::search_text(&tag, &level, &l, &l);
    LogEntry {
        raw: line.to_owned(),
        timestamp: String::new(),
        pid: String::new(),
        tag: "adb".to_owned(),
        level: "E".to_owned(),
        message: line.to_owned(),
        crash_start: false,
        is_stack_trace: false,
        cached_search_text: text::to_string(&cached),
    }
}

impl App {
    /// `ingest_log_line` for an entry that the ingest filter lets through.
    fn ingest_entry(&mut self, entry: LogEntry)
        requires
            old(self).wf(),
        ensures
            final(self).wf(),
            entry_ingested(*old(self), *final(self), entry@),
    {
        let ghost o = *self;
        let ghost e = entry@;
        let mut entry = entry;
        self.apply_crash_fsm(&mut entry);
        let max = self.max_log_lines;
        push_entry_capped(&mut self.log_lines, entry, max);
        assert(entry_ingested(o, *self, e)) by {
            reveal(entry_ingested);
            reveal(crash_state_changed);
        }
    }

    /// Append a diagnostic line of the reader.
    fn append_adb_line(&mut self, line: &str)
        requires
            old(self).wf(),
            old(self).log_lines@.len() < old(self).max_log_lines,
        ensures
            final(self).wf(),
            adb_line_appended(*old(self), *final(self), line@),
    {
        let ghost o = *self;
        let e = make_adb_entry(line);
        let ghost before = entry_views(self.log_lines@);
        self.log_lines.push(e);
        assert(entry_views(self.log_lines@) =~= before.push(adb_entry(line@)));
        assert(adb_line_appended(o, *self, line@)) by {
            reveal(adb_line_appended);
        }
    }

    /// An incoming logcat line; returns whether an entry was appended.
    pub fn ingest_log_line(&mut self, line: &str) -> (got: bool)
        requires
            old(self).wf(),
        ensures
            final(self).wf(),
            spec_ingest(*old(self), line@, *final(self), got),
    {
        let ghost o = *self;
        if self.logcat_paused {
            assert(spec_ingest(o, line@, *self, false)) by {
                reveal(spec_ingest);
            }
            return false;
        }
        match parse_log_line(line) {
            Some(entry) => {
                let filter = self.current_log_filter();
                proof {
                    lemma_filter_of_state(*self, filter, entry@);
                }
                if !filter.allows(&entry, self.package_pids.as_slice()) {
                    assert(spec_ingest(o, line@, *self, false)) by {
                        reveal(spec_ingest);
                    }
                    return false;
                }
                self.ingest_entry(entry);
                assert(spec_ingest(o, line@, *self, true)) by {
                    reveal(spec_ingest);
                }
                true
            },
            None => {
                let is_adb = text::starts_with(&text::to_chars(line), &text::to_chars("[adb"));
                if is_adb && self.log_lines.len() < self.max_log_lines {
                    self.append_adb_line(line);
                    assert(spec_ingest(o, line@, *self, true)) by {
                        reveal(spec_ingest);
                    }
                    true
                } else {
                    assert(spec_ingest(o, line@, *self, false)) by {
                        reveal(spec_ingest);
                    }
                    false
                }
            },
        }
    }

    /// After a batch of lines: a scrolled log pane moves with the new lines so the same
    /// lines stay in view.
    pub fn after_ingest(&mut self, got_new: bool)
        requires
            old(self).wf(),
            old(self).log_scroll < usize::MAX,
        ensures
            final(self).wf(),
            scroll_followed(*old(self), *final(self), got_new),
    {
        let ghost o = *self;
        let s = if got_new && self.log_scroll > 0 {
            self.log_scroll + 1
        } else {
            self.log_scroll
        };
        self.log_scroll = s;
        assert(scroll_followed(o, *self, got_new)) by {
            reveal(scroll_followed);
        }
    }
}

} // verus!
