//! Logcat line parsing and filtering.
use vstd::prelude::*;

use crate::text::{
    concat, contains, find, join_from, lower, slice, split_char, split_whitespace, starts_with,
    to_chars, to_string, trim, trim_end_matches, trim_start, trim_start_matches,
};
use crate::text;

verus! {

/// One parsed logcat line.
#[derive(Debug, Clone)]
pub struct LogEntry {
    pub raw: String,
    pub timestamp: String,
    pub pid: String,
    pub tag: String,
    pub level: String,
    pub message: String,
    /// First line of a detected crash / ANR block (for UI highlight).
    pub crash_start: bool,
    /// Pre-computed flag for stack trace detection.
    pub is_stack_trace: bool,
    /// Pre-computed searchable content (tag, level, message and raw line, lowercased).
    pub cached_search_text: String,
}

/// The abstract content of a [`LogEntry`].
pub struct LogEntryModel {
    pub raw: Seq<char>,
    pub timestamp: Seq<char>,
    pub pid: Seq<char>,
    pub tag: Seq<char>,
    pub level: Seq<char>,
    pub message: Seq<char>,
    pub crash_start: bool,
    pub is_stack_trace: bool,
    pub cached_search_text: Seq<char>,
}

impl View for LogEntry {
    type V = LogEntryModel;

    open spec fn view(&self) -> LogEntryModel {
        LogEntryModel {
            raw: self.raw@,
            timestamp: self.timestamp@,
            pid: self.pid@,
            tag: self.tag@,
            level: self.level@,
            message: self.message@,
            crash_start: self.crash_start,
            is_stack_trace: self.is_stack_trace,
            cached_search_text: self.cached_search_text@,
        }
    }
}

/// `s` cut to its first three characters, then `'0'` appended while it is shorter than three
/// bytes of UTF-8.
pub open spec fn spec_millis3(s: Seq<char>) -> Seq<char> {
    let t = if s.len() <= 3 { s } else { s.subrange(0, 3) };
    let b = text::byte_len(t);
    if b >= 3 {
        t
    } else {
        t + Seq::new((3 - b) as nat, |i: int| '0')
    }
}

/// Heuristic stack-trace detection on one line of text.
pub open spec fn spec_looks_like_stack_trace(line: Seq<char>) -> bool {
    text::spec_starts_with(text::spec_trim_start(line), "at "@) || text::spec_contains(line, "Exception"@)
        || text::spec_contains(line, "Error:"@) || text::spec_starts_with(text::spec_trim_start(line), "Caused by:"@)
}

/// Tag and message of the text after the level column: split at the first `": "`.
pub open spec fn spec_tag_message(tm: Seq<char>) -> (Seq<char>, Seq<char>) {
    match text::spec_find(tm, ": "@) {
        Some(pos) => (
            text::spec_trim_end_matches(text::spec_trim(tm.subrange(0, pos)), ':'),
            text::spec_trim_start_matches(tm.subrange(pos, tm.len() as int), ": "@),
        ),
        None => (tm, Seq::<char>::empty()),
    }
}

/// The lowercased search text of an entry: tag, level, message and raw line, space separated.
pub open spec fn spec_search_text(
    tag: Seq<char>,
    level: Seq<char>,
    message: Seq<char>,
    raw: Seq<char>,
) -> Seq<char> {
    text::spec_to_lowercase(tag + " "@ + level + " "@ + message + " "@ + raw)
}

/// The entry that `parse_log_line` produces for `line`, if any.
///
/// The line is split at whitespace; at least six columns are needed: date, time, pid,
/// tid, level, then tag and message.
pub open spec fn spec_parse_log_line(line: Seq<char>) -> Option<LogEntryModel> {
    let parts = text::spec_split_whitespace(line);
    if parts.len() < 6 {
        None
    } else {
        let time_parts = text::spec_split(parts[1], '.');
        let ms_raw = if time_parts.len() > 1 { time_parts[1] } else { "000"@ };
        let timestamp = time_parts[0] + "."@ + spec_millis3(ms_raw);
        let tm = text::spec_join(parts.subrange(5, parts.len() as int), " "@);
        let tag = spec_tag_message(tm).0;
        let message = spec_tag_message(tm).1;
        Some(
            LogEntryModel {
                raw: line,
                timestamp,
                pid: parts[2],
                tag,
                level: parts[4],
                message,
                crash_start: false,
                is_stack_trace: spec_looks_like_stack_trace(message)
                    || spec_looks_like_stack_trace(line),
                cached_search_text: spec_search_text(tag, parts[4], message, line),
            },
        )
    }
}

/// Whether a line of text looks like part of a stack trace.
pub fn looks_like_stack_trace(line: &str) -> (r: bool)
    ensures
        r == spec_looks_like_stack_trace(line@),
{
    let l = to_chars(line);
    looks_like_stack_trace_chars(&l)
}

fn looks_like_stack_trace_chars(l: &Vec<char>) -> (r: bool)
    ensures
        r == spec_looks_like_stack_trace(l@),
{
    let t = trim_start(l);
    starts_with(&t, &to_chars("at ")) || contains(l, &to_chars("Exception")) || contains(
        l,
        &to_chars("Error:"),
    ) || starts_with(&t, &to_chars("Caused by:"))
}

fn millis3(s: &Vec<char>) -> (r: Vec<char>)
    ensures
        r@ == spec_millis3(s@),
{
    let mut t = if s.len() <= 3 {
        s.clone()
    } else {
        slice(s, 0, 3)
    };
    let ghost t0 = t@;
    assert(t0.subrange(0, t0.len() as int) =~= t0);
    let b = text::byte_len_prefix(&t, t.len());
    if b < 3 {
        let pad: usize = 3 - b;
        let mut k: usize = 0;
        while k < pad
            invariant
                k <= pad,
                t@ == t0 + Seq::new(k as nat, |i: int| '0'),
            decreases pad - k,
        {
            t.push('0');
            k = k + 1;
            assert(t@ =~= t0 + Seq::new(k as nat, |i: int| '0'));
        }
    }
    t
}

fn tag_message(tm: &Vec<char>) -> (r: (Vec<char>, Vec<char>))
    ensures
        (r.0@, r.1@) == spec_tag_message(tm@),
{
    let sep = to_chars(": ");
    proof {
        text::lemma_find_contains(tm@, sep@);
    }
    match find(tm, &sep) {
        Some(pos) => {
            let left = slice(tm, 0, pos);
            let right = slice(tm, pos, tm.len());
            let t = trim(&left);
            (trim_end_matches(&t, ':'), trim_start_matches(&right, &sep))
        },
        None => (tm.clone(), Vec::new()),
    }
}

pub(crate) fn search_text(tag: &Vec<char>, level: &Vec<char>, message: &Vec<char>, raw: &Vec<char>) -> (r:
    Vec<char>)
    ensures
        r@ == spec_search_text(tag@, level@, message@, raw@),
{
    let sp = to_chars(" ");
    let a = concat(tag, &sp);
    let b = concat(&a, level);
    let c = concat(&b, &sp);
    let d = concat(&c, message);
    let e = concat(&d, &sp);
    let f = concat(&e, raw);
    lower(&f)
}

/// Parse a standard `logcat -v threadtime` line.
pub fn parse_log_line(line: &str) -> (r: Option<LogEntry>)
    ensures
        r matches Some(e) ==> spec_parse_log_line(line@) == Some(e@),
        r is None ==> spec_parse_log_line(line@) is None,
{
    let l = to_chars(line);
    let parts = split_whitespace(&l);
    if parts.len() < 6 {
        return None;
    }
    let ghost vparts = text::views(parts@);
    assert(vparts[1] == parts@[1]@);
    let time_parts = split_char(&parts[1], '.');
    proof {
        let ghost s = parts@[1]@;
        // split always yields at least one piece
        assert(text::views(time_parts@).len() >= 1) by {
            lemma_split_nonempty(s, '.', 0, Seq::<char>::empty());
        }
    }
    let ms_raw = if time_parts.len() > 1 {
        time_parts[1].clone()
    } else {
        to_chars("000")
    };
    let ms = millis3(&ms_raw);
    let dot = to_chars(".");
    let ts0 = concat(&time_parts[0], &dot);
    let ts = concat(&ts0, &ms);
    let tm = join_from(&parts, 5, &to_chars(" "));
    assert(text::views(parts@).subrange(5, parts.len() as int) == vparts.subrange(5, vparts.len() as int));
    let (tag, message) = tag_message(&tm);
    let is_stack = looks_like_stack_trace_chars(&message) || looks_like_stack_trace_chars(&l);
    let cached = search_text(&tag, &parts[4], &message, &l);
    let e = LogEntry {
        raw: to_string(&l),
        timestamp: to_string(&ts),
        pid: to_string(&parts[2]),
        tag: to_string(&tag),
        level: to_string(&parts[4]),
        message: to_string(&message),
        crash_start: false,
        is_stack_trace: is_stack,
        cached_search_text: to_string(&cached),
    };
    Some(e)
}

proof fn lemma_split_nonempty(s: Seq<char>, sep: char, i: int, cur: Seq<char>)
    ensures
        text::split_acc(s, sep, i, cur).len() >= 1,
    decreases s.len() - i,
{
    if i >= s.len() {
    } else if s[i] == sep {
        lemma_split_nonempty(s, sep, i + 1, seq![]);
    } else {
        lemma_split_nonempty(s, sep, i + 1, cur.push(s[i]));
    }
}

} // verus!

verus! {

/// The first line of a Java crash or ANR, judged on the model of an entry.
pub open spec fn spec_is_crash_start(e: LogEntryModel) -> bool {
    let m = text::spec_to_lowercase(e.message);
    let r = text::spec_to_lowercase(e.raw);
    text::spec_contains(m, "fatal exception"@) || text::spec_contains(r, "fatal exception"@)
        || text::spec_contains(m, "anr in "@) || text::spec_contains(r, "anr in "@)
        || text::spec_contains(m, "crash:"@) || text::spec_contains(r, "crash:"@)
}

/// A line that continues a crash block already started.
pub open spec fn spec_is_crash_continuation(e: LogEntryModel) -> bool {
    !spec_is_crash_start(e) && (spec_looks_like_stack_trace(e.message)
        || spec_looks_like_stack_trace(e.raw) || text::spec_starts_with(
        text::spec_trim_start(e.message),
        "at "@,
    ) || text::spec_contains(e.message, "Caused by:"@) || text::spec_contains(
        e.message,
        "Suppressed:"@,
    ) || e.tag == "AndroidRuntime"@ || e.tag == "System.err"@)
}

/// Detects the first line of a Java crash or ANR in logcat.
pub fn is_crash_start(entry: &LogEntry) -> (r: bool)
    ensures
        r == spec_is_crash_start(entry@),
{
    let m = lower(&text::string_chars(&entry.message));
    let r = lower(&text::string_chars(&entry.raw));
    let fatal = to_chars("fatal exception");
    let anr = to_chars("anr in ");
    let crash = to_chars("crash:");
    contains(&m, &fatal) || contains(&r, &fatal) || contains(&m, &anr) || contains(&r, &anr)
        || contains(&m, &crash) || contains(&r, &crash)
}

/// Lines that belong to the same crash stack trace / follow-up.
pub fn is_crash_continuation(entry: &LogEntry) -> (r: bool)
    ensures
        r == spec_is_crash_continuation(entry@),
        r ==> !spec_is_crash_start(entry@),
{
    if is_crash_start(entry) {
        return false;
    }
    let m = text::string_chars(&entry.message);
    let raw = text::string_chars(&entry.raw);
    let tag = text::string_chars(&entry.tag);
    looks_like_stack_trace_chars(&m) || looks_like_stack_trace_chars(&raw) || starts_with(
        &trim_start(&m),
        &to_chars("at "),
    ) || contains(&m, &to_chars("Caused by:")) || contains(&m, &to_chars("Suppressed:"))
        || text::chars_eq(&tag, &to_chars("AndroidRuntime")) || text::chars_eq(
        &tag,
        &to_chars("System.err"),
    )
}

/// Whether `level` passes a comma-separated list of accepted levels (no list: all pass).
pub open spec fn spec_matches_level_filter(levels: Option<Seq<char>>, level: Seq<char>) -> bool {
    match levels {
        None => true,
        Some(l) => l.len() == 0 || exists|i: int|
            0 <= i < text::spec_split(l, ',').len() && #[trigger] text::spec_trim(
                text::spec_split(l, ',')[i],
            ) == level,
    }
}

/// Level check against a comma-separated level list such as `"E,F"`.
pub fn matches_level_filter(levels: Option<&str>, level: &str) -> (r: bool)
    ensures
        r == spec_matches_level_filter(
            match levels {
                Some(l) => Some(l@),
                None => None,
            },
            level@,
        ),
{
    let l = match levels {
        None => {
            return true;
        },
        Some(l) => l,
    };
    let lc = to_chars(l);
    if lc.len() == 0 {
        return true;
    }
    let lev = to_chars(level);
    let pieces = split_char(&lc, ',');
    let ghost ps = text::views(pieces@);
    let mut i: usize = 0;
    while i < pieces.len()
        invariant
            i <= pieces.len(),
            ps == text::views(pieces@),
            ps == text::spec_split(lc@, ','),
            lc@ == l@,
            levels == Some(l),
            lev@ == level@,
            forall|j: int| 0 <= j < i ==> text::spec_trim(ps[j]) != level@,
        decreases pieces.len() - i,
    {
        let t = trim(&pieces[i]);
        assert(ps[i as int] == pieces@[i as int]@);
        if text::chars_eq(&t, &lev) {
            assert(text::spec_trim(text::spec_split(l@, ',')[i as int]) == level@);
            return true;
        }
        i = i + 1;
    }
    assert(text::spec_split(l@, ',') == ps);
    false
}

/// The lowercased text that content and exclude filters search: tag, message and raw line.
pub open spec fn spec_filter_haystack(e: LogEntryModel) -> Seq<char> {
    text::spec_to_lowercase(e.tag + " "@ + e.message + " "@ + e.raw)
}

fn filter_haystack(entry: &LogEntry) -> (r: Vec<char>)
    ensures
        r@ == spec_filter_haystack(entry@),
{
    let sp = to_chars(" ");
    let a = concat(&text::string_chars(&entry.tag), &sp);
    let b = concat(&a, &text::string_chars(&entry.message));
    let c = concat(&b, &sp);
    let d = concat(&c, &text::string_chars(&entry.raw));
    lower(&d)
}

/// Some non-empty pattern of `pats`, lowercased, occurs in `hay`.
pub open spec fn spec_any_pattern_in(pats: Seq<String>, hay: Seq<char>) -> bool {
    exists|i: int|
        0 <= i < pats.len() && pats[i]@.len() > 0 && #[trigger] text::spec_contains(
            hay,
            text::spec_to_lowercase(pats[i]@),
        )
}

fn any_pattern_in(pats: &[String], hay: &Vec<char>) -> (r: bool)
    ensures
        r == spec_any_pattern_in(pats@, hay@),
{
    let mut i: usize = 0;
    while i < pats.len()
        invariant
            i <= pats.len(),
            forall|j: int|
                0 <= j < i ==> !(pats@[j]@.len() > 0 && #[trigger] text::spec_contains(
                    hay@,
                    text::spec_to_lowercase(pats@[j]@),
                )),
        decreases pats.len() - i,
    {
        let p = text::string_chars(&pats[i]);
        if p.len() > 0 && contains(hay, &lower(&p)) {
            return true;
        }
        i = i + 1;
    }
    false
}

/// Exclusion check against the lowercased tag, message and raw line.
pub fn matches_any_exclude(excludes: &[String], entry: &LogEntry) -> (r: bool)
    ensures
        r == spec_any_pattern_in(excludes@, spec_filter_haystack(entry@)),
{
    if excludes.len() == 0 {
        return false;
    }
    any_pattern_in(excludes, &filter_haystack(entry))
}

/// Exclusion check against the entry's pre-computed search text.
pub fn matches_any_exclude_with_cached(excludes: &[String], entry: &LogEntry) -> (r: bool)
    ensures
        r == spec_any_pattern_in(excludes@, entry.cached_search_text@),
{
    if excludes.len() == 0 {
        return false;
    }
    any_pattern_in(excludes, &text::string_chars(&entry.cached_search_text))
}

/// Runtime filter applied to incoming logcat lines.
pub struct LogcatFilter {
    /// When true and `pids` is non-empty, only lines whose PID is in `pids` pass.
    pub filter_by_application_ids: bool,
    pub tag_substrings: Vec<String>,
    /// Comma-separated accepted levels, e.g. `"D,I,W,E"`.
    pub levels: Option<String>,
    pub content: Option<String>,
    /// If any substring matches tag/message/raw (case-insensitive), the line is dropped.
    pub exclude_substrings: Vec<String>,
}

/// `s` is one of `v`.
pub open spec fn spec_has_string(v: Seq<String>, s: Seq<char>) -> bool {
    exists|i: int| 0 <= i < v.len() && #[trigger] v[i]@ == s
}

/// Whether `s` is one of `v`.
pub fn has_string(v: &[String], s: &String) -> (r: bool)
    ensures
        r == spec_has_string(v@, s@),
{
    let mut i: usize = 0;
    while i < v.len()
        invariant
            i <= v.len(),
            forall|j: int| 0 <= j < i ==> #[trigger] v@[j]@ != s@,
        decreases v.len() - i,
    {
        if v[i] == *s {
            return true;
        }
        i = i + 1;
    }
    false
}

/// Some non-empty tag pattern occurs, case-insensitively, in the tag.
pub open spec fn spec_tag_selected(tags: Seq<String>, tag: Seq<char>) -> bool {
    spec_any_pattern_in(tags, text::spec_to_lowercase(tag))
}

/// Whether a filter lets an entry through, given the PIDs of the watched packages.
pub open spec fn spec_filter_allows(f: LogcatFilter, e: LogEntryModel, pids: Seq<String>) -> bool {
    &&& !(f.filter_by_application_ids && pids.len() > 0 && !spec_has_string(pids, e.pid))
    &&& (f.tag_substrings@.len() == 0 || spec_tag_selected(f.tag_substrings@, e.tag))
    &&& spec_matches_level_filter(
        match f.levels {
            Some(l) => Some(l@),
            None => None,
        },
        e.level,
    )
    &&& match f.content {
        Some(c) => c@.len() == 0 || text::spec_contains(
            spec_filter_haystack(e),
            text::spec_to_lowercase(c@),
        ),
        None => true,
    }
    &&& !spec_any_pattern_in(f.exclude_substrings@, spec_filter_haystack(e))
}

impl LogcatFilter {
    /// Whether `entry` passes this filter.
    pub fn allows(&self, entry: &LogEntry, pids: &[String]) -> (r: bool)
        ensures
            r == spec_filter_allows(*self, entry@, pids@),
    {
        if self.filter_by_application_ids && pids.len() > 0 && !has_string(pids, &entry.pid) {
            return false;
        }
        if self.tag_substrings.len() > 0 {
            let tag_lower = lower(&text::string_chars(&entry.tag));
            if !any_pattern_in(self.tag_substrings.as_slice(), &tag_lower) {
                return false;
            }
        }
        let levels: Option<&str> = match &self.levels {
            Some(l) => Some(l.as_str()),
            None => None,
        };
        if !matches_level_filter(levels, entry.level.as_str()) {
            return false;
        }
        if let Some(c) = &self.content {
            let cc = text::string_chars(c);
            if cc.len() > 0 {
                let hay = filter_haystack(entry);
                if !contains(&hay, &lower(&cc)) {
                    return false;
                }
            }
        }
        if self.exclude_substrings.len() > 0 {
            let hay = filter_haystack(entry);
            if any_pattern_in(self.exclude_substrings.as_slice(), &hay) {
                return false;
            }
        }
        true
    }
}

/// A filter with no PID filtering and no patterns lets every entry through.
pub proof fn law_open_filter_allows_all(f: LogcatFilter, e: LogEntryModel, pids: Seq<String>)
    requires
        !f.filter_by_application_ids,
        f.tag_substrings@.len() == 0,
        f.levels is None,
        f.content is None,
        f.exclude_substrings@.len() == 0,
    ensures
        spec_filter_allows(f, e, pids),
{
}

} // verus!

verus! {

impl LogEntry {
    /// A copy of this entry with the same content.
    pub fn duplicate(&self) -> (r: LogEntry)
        ensures
            r@ == self@,
    {
        LogEntry {
            raw: self.raw.clone(),
            timestamp: self.timestamp.clone(),
            pid: self.pid.clone(),
            tag: self.tag.clone(),
            level: self.level.clone(),
            message: self.message.clone(),
            crash_start: self.crash_start,
            is_stack_trace: self.is_stack_trace,
            cached_search_text: self.cached_search_text.clone(),
        }
    }
}

/// A captured crash / ANR block.
#[derive(Debug, Clone)]
pub struct CrashEvent {
    pub timestamp: String,
    pub summary: String,
    pub lines: Vec<LogEntry>,
}

/// Terminal colors used for log levels and tags.
#[derive(Debug, Clone, Copy, PartialEq, Eq, Structural)]
pub enum TermColor {
    Red,
    Green,
    Yellow,
    Blue,
    Magenta,
    Cyan,
    Gray,
    LightRed,
    LightGreen,
    LightYellow,
    LightBlue,
    LightMagenta,
    LightCyan,
}

/// Color of a log level column.
pub open spec fn spec_level_color(level: Seq<char>) -> TermColor {
    if level == "D"@ {
        TermColor::Cyan
    } else if level == "I"@ {
        TermColor::Green
    } else if level == "W"@ {
        TermColor::Yellow
    } else if level == "E"@ {
        TermColor::Red
    } else if level == "V"@ {
        TermColor::Blue
    } else if level == "F"@ {
        TermColor::Red
    } else {
        TermColor::Gray
    }
}

/// Color for a log level.
pub fn level_style(level: &str) -> (r: TermColor)
    ensures
        r == spec_level_color(level@),
{
    let l = to_chars(level);
    if text::chars_eq(&l, &to_chars("D")) {
        TermColor::Cyan
    } else if text::chars_eq(&l, &to_chars("I")) {
        TermColor::Green
    } else if text::chars_eq(&l, &to_chars("W")) {
        TermColor::Yellow
    } else if text::chars_eq(&l, &to_chars("E")) {
        TermColor::Red
    } else if text::chars_eq(&l, &to_chars("V")) {
        TermColor::Blue
    } else if text::chars_eq(&l, &to_chars("F")) {
        TermColor::Red
    } else {
        TermColor::Gray
    }
}

/// The tag palette, indexed modulo its length (twelve colors).
pub open spec fn spec_tag_palette(i: int) -> TermColor {
    let k = i % 12;
    if k == 0 {
        TermColor::Red
    } else if k == 1 {
        TermColor::Green
    } else if k == 2 {
        TermColor::Yellow
    } else if k == 3 {
        TermColor::Blue
    } else if k == 4 {
        TermColor::Magenta
    } else if k == 5 {
        TermColor::Cyan
    } else if k == 6 {
        TermColor::LightRed
    } else if k == 7 {
        TermColor::LightGreen
    } else if k == 8 {
        TermColor::LightYellow
    } else if k == 9 {
        TermColor::LightBlue
    } else if k == 10 {
        TermColor::LightMagenta
    } else {
        TermColor::LightCyan
    }
}

fn tag_palette(i: usize) -> (r: TermColor)
    ensures
        r == spec_tag_palette(i as int),
{
    let k = i % 12;
    if k == 0 {
        TermColor::Red
    } else if k == 1 {
        TermColor::Green
    } else if k == 2 {
        TermColor::Yellow
    } else if k == 3 {
        TermColor::Blue
    } else if k == 4 {
        TermColor::Magenta
    } else if k == 5 {
        TermColor::Cyan
    } else if k == 6 {
        TermColor::LightRed
    } else if k == 7 {
        TermColor::LightGreen
    } else if k == 8 {
        TermColor::LightYellow
    } else if k == 9 {
        TermColor::LightBlue
    } else if k == 10 {
        TermColor::LightMagenta
    } else {
        TermColor::LightCyan
    }
}

/// Tags in the order they were first seen; a tag's color is chosen by its position.
pub struct TagColorCache {
    tags: Vec<String>,
}

impl View for TagColorCache {
    type V = Seq<Seq<char>>;

    closed spec fn view(&self) -> Seq<Seq<char>> {
        self.tags@.map_values(|t: String| t@)
    }
}

impl TagColorCache {
    /// No tag occurs twice.
    pub closed spec fn wf(&self) -> bool {
        forall|i: int, j: int| 0 <= i < j < self@.len() ==> self@[i] != self@[j]
    }

    /// An empty cache.
    pub fn new() -> (r: TagColorCache)
        ensures
            r@ == Seq::<Seq<char>>::empty(),
            r.wf(),
    {
        let r = TagColorCache { tags: Vec::new() };
        assert(r@ =~= Seq::<Seq<char>>::empty());
        r
    }

    /// Number of tags seen.
    pub fn len(&self) -> (r: usize)
        ensures
            r == self@.len(),
    {
        self.tags.len()
    }
}

/// Color for a tag: the tag keeps the position it first got in the cache.
pub fn tag_color(tag: &str, cache: &mut TagColorCache) -> (r: TermColor)
    requires
        old(cache).wf(),
    ensures
        final(cache).wf(),
        old(cache)@.contains(tag@) ==> final(cache)@ == old(cache)@,
        !old(cache)@.contains(tag@) ==> final(cache)@ == old(cache)@.push(tag@),
        exists|i: int|
            0 <= i < final(cache)@.len() && final(cache)@[i] == tag@ && r == spec_tag_palette(i),
{
    let t = tag.to_owned();
    let ghost old_view = cache@;
    let mut i: usize = 0;
    while i < cache.tags.len()
        invariant
            i <= cache.tags.len(),
            cache@ == old_view,
            cache.wf(),
            cache@.len() == cache.tags.len(),
            t@ == tag@,
            forall|j: int| 0 <= j < i ==> cache@[j] != tag@,
        decreases cache.tags.len() - i,
    {
        assert(cache@[i as int] == cache.tags@[i as int]@);
        if cache.tags[i] == t {
            assert(cache@.contains(tag@));
            return tag_palette(i);
        }
        i = i + 1;
    }
    let n = cache.tags.len();
    cache.tags.push(t);
    proof {
        assert(cache@ =~= old_view.push(tag@));
        assert(!old_view.contains(tag@));
        assert(cache@[n as int] == tag@);
        assert forall|a: int, b: int| 0 <= a < b < cache@.len() implies cache@[a] != cache@[b] by {
            if b == n {
                assert(cache@[a] == old_view[a]);
            } else {
                assert(cache@[a] == old_view[a] && cache@[b] == old_view[b]);
            }
        }
    }
    tag_palette(n)
}

} // verus!

verus! {

/// PIDs for one package pattern (none for an empty pattern); `None` for an invalid pattern.
pub open spec fn spec_refresh_pids(pattern: Seq<char>, ps_output: Seq<char>) -> Option<
    Seq<Seq<char>>,
> {
    if pattern.len() == 0 {
        Some(seq![])
    } else {
        crate::adb::spec_pids_for_package(pattern, ps_output)
    }
}

/// PIDs of all the non-empty package IDs, in order; `None` if one pattern is invalid.
pub open spec fn spec_collect_pids(ids: Seq<Seq<char>>, ps_output: Seq<char>) -> Option<
    Seq<Seq<char>>,
>
    decreases ids.len(),
{
    if ids.len() == 0 {
        Some(seq![])
    } else {
        match spec_collect_pids(ids.drop_last(), ps_output) {
            None => None,
            Some(acc) => if ids.last().len() == 0 {
                Some(acc)
            } else {
                match crate::adb::spec_pids_for_package(ids.last(), ps_output) {
                    None => None,
                    Some(p) => Some(acc + p),
                }
            },
        }
    }
}

/// Resolve PIDs for one package pattern (may be empty if the app is not running).
pub fn refresh_pids(adb: &crate::adb::AdbClient, pattern: &str, ps_output: &str) -> (r: Option<
    Vec<String>,
>)
    ensures
        r is None <==> spec_refresh_pids(pattern@, ps_output@) is None,
        r matches Some(v) ==> spec_refresh_pids(pattern@, ps_output@) == Some(text::strs(v@)),
{
    if pattern.is_empty() {
        let v: Vec<String> = Vec::new();
        assert(text::strs(v@) =~= Seq::<Seq<char>>::empty());
        return Some(v);
    }
    adb.pids_for_package(pattern, ps_output)
}

/// Merge PIDs for all application IDs (e.g. `ai.wayve.app` and `ai.wayve.app.dev`):
/// sorted, duplicates removed.
pub fn refresh_pids_for_packages(
    adb: &crate::adb::AdbClient,
    package_ids: &[String],
    ps_output: &str,
) -> (r: Option<Vec<String>>)
    ensures
        r is None <==> spec_collect_pids(text::strs(package_ids@), ps_output@) is None,
        r matches Some(v) ==> spec_collect_pids(text::strs(package_ids@), ps_output@) matches Some(
            all,
        ) && text::strs(v@) == text::spec_dedup(text::spec_sort(all)),
{
    let ghost ids = text::strs(package_ids@);
    let mut out: Vec<Vec<char>> = Vec::new();
    let mut i: usize = 0;
    assert(ids.subrange(0, 0) =~= Seq::<Seq<char>>::empty());
    assert(text::views(out@) =~= Seq::<Seq<char>>::empty());
    while i < package_ids.len()
        invariant
            i <= package_ids.len(),
            ids == text::strs(package_ids@),
            spec_collect_pids(ids.subrange(0, i as int), ps_output@) == Some(text::views(out@)),
        decreases package_ids.len() - i,
    {
        let ghost sub = ids.subrange(0, i + 1);
        assert(sub.drop_last() =~= ids.subrange(0, i as int));
        assert(sub.last() == package_ids@[i as int]@);
        if !package_ids[i].as_str().is_empty() {
            match adb.pids_for_package(package_ids[i].as_str(), ps_output) {
                None => {
                    proof {
                        lemma_collect_none_extends(ids, ps_output@, i as int);
                    }
                    return None;
                },
                Some(p) => {
                    let ghost before = text::views(out@);
                    let pc = text::strings_chars(p.as_slice());
                    let mut j: usize = 0;
                    while j < pc.len()
                        invariant
                            j <= pc.len(),
                            text::views(out@) == before + text::views(pc@).subrange(0, j as int),
                        decreases pc.len() - j,
                    {
                        let ghost b2 = text::views(out@);
                        out.push(pc[j].clone());
                        assert(text::views(out@) =~= b2.push(pc@[j as int]@));
                        assert(text::views(pc@).subrange(0, j + 1) =~= text::views(pc@).subrange(
                            0,
                            j as int,
                        ).push(pc@[j as int]@));
                        j = j + 1;
                    }
                    assert(text::views(pc@).subrange(0, pc.len() as int) =~= text::views(pc@));
                },
            }
        }
        i = i + 1;
    }
    assert(ids.subrange(0, package_ids.len() as int) =~= ids);
    let sorted = text::sort_chars(&out);
    let d = text::dedup_chars(&sorted);
    Some(text::to_strings(&d))
}

proof fn lemma_collect_none_extends(ids: Seq<Seq<char>>, ps: Seq<char>, i: int)
    requires
        0 <= i < ids.len(),
        spec_collect_pids(ids.subrange(0, i + 1), ps) is None,
    ensures
        spec_collect_pids(ids, ps) is None,
    decreases ids.len() - i,
{
    if i + 1 < ids.len() {
        assert(ids.subrange(0, i + 2).drop_last() =~= ids.subrange(0, i + 1));
        lemma_collect_none_extends(ids, ps, i + 1);
    } else {
        assert(ids.subrange(0, i + 1) =~= ids);
    }
}

/// Arguments of the `adb` command that clears the logcat buffer on a device.
pub fn clear_buffer(adb: &crate::adb::AdbClient, device: &str) -> (r: Vec<String>)
    ensures
        text::strs(r@) == seq!["-s"@, device@, "logcat"@, "-c"@],
{
    let mut v: Vec<String> = Vec::new();
    v.push("-s".to_owned());
    v.push(device.to_owned());
    v.push("logcat".to_owned());
    v.push("-c".to_owned());
    assert(text::strs(v@) =~= seq!["-s"@, device@, "logcat"@, "-c"@]);
    v
}

} // verus!

verus! {

/// Some non-empty pattern of `pats`, lowercased, occurs in `hay`.
pub open spec fn spec_any_pattern_in_seqs(pats: Seq<Seq<char>>, hay: Seq<char>) -> bool {
    exists|i: int|
        0 <= i < pats.len() && pats[i].len() > 0 && #[trigger] text::spec_contains(
            hay,
            text::spec_to_lowercase(pats[i]),
        )
}

/// The pattern test over strings agrees with the one over their character sequences.
pub proof fn lemma_any_pattern_in_seqs(pats: Seq<String>, hay: Seq<char>)
    ensures
        spec_any_pattern_in(pats, hay) == spec_any_pattern_in_seqs(text::strs(pats), hay),
{
    if spec_any_pattern_in(pats, hay) {
        let i = choose|i: int|
            0 <= i < pats.len() && pats[i]@.len() > 0 && #[trigger] text::spec_contains(
                hay,
                text::spec_to_lowercase(pats[i]@),
            );
        assert(text::strs(pats)[i] == pats[i]@);
    }
    if spec_any_pattern_in_seqs(text::strs(pats), hay) {
        let i = choose|i: int|
            0 <= i < text::strs(pats).len() && text::strs(pats)[i].len() > 0
                && #[trigger] text::spec_contains(hay, text::spec_to_lowercase(text::strs(pats)[i]));
        assert(text::strs(pats)[i] == pats[i]@);
    }
}

} // verus!

verus! {

/// Inside a crash block, a line of the `AndroidRuntime` or `System.err` tag continues the
/// block (its `Process:` line and the like) unless it starts a new crash; a crash start never
/// continues one.
pub proof fn law_runtime_lines_continue_a_crash(e: LogEntryModel)
    ensures
        (e.tag == "AndroidRuntime"@ || e.tag == "System.err"@) && !spec_is_crash_start(e)
            ==> spec_is_crash_continuation(e),
        spec_is_crash_start(e) ==> !spec_is_crash_continuation(e),
{
}

} // verus!
