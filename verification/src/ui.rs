//! The text the screens show: truncated labels, wrapped and padded log columns, the status
//! line and the device summary.
use vstd::prelude::*;

use crate::app::state::App;
use crate::text;

verus! {

/// `s` cut to `max` characters: when longer, its first `max - 1` characters and `…`.
pub open spec fn spec_truncate(s: Seq<char>, max: int) -> Seq<char> {
    if s.len() <= max {
        s
    } else {
        s.subrange(0, if max >= 1 { max - 1 } else { 0 }) + seq!['…']
    }
}

/// `s` cut to `max` characters (at least one): when longer, its first `max - 1` characters
/// and `…`.
pub fn truncate(s: &str, max: usize) -> (r: String)
    ensures
        r@ == spec_truncate(s@, max as int),
{
    let c = text::to_chars(s);
    if c.len() <= max {
        s.to_owned()
    } else {
        let keep = if max >= 1 {
            max - 1
        } else {
            0
        };
        let mut t = text::slice(&c, 0, keep);
        t.push('…');
        text::to_string(&t)
    }
}

/// `truncate` with a width of at least one character, as labels in the device list use.
pub fn truncate_label(s: &str, max: usize) -> (r: String)
    ensures
        r@ == spec_truncate(s@, if max >= 1 { max as int } else { 1 }),
{
    let m = if max >= 1 {
        max
    } else {
        1
    };
    truncate(s, m)
}

/// A Gradle task without its `assemble` or `install` prefix.
pub open spec fn spec_short_task(task: Seq<char>) -> Seq<char> {
    if text::spec_starts_with(task, "assemble"@) {
        task.subrange(8, task.len() as int)
    } else if text::spec_starts_with(task, "install"@) {
        task.subrange(7, task.len() as int)
    } else {
        task
    }
}

/// A Gradle task without its `assemble` or `install` prefix: the variant it builds.
pub fn short_task(task: &str) -> (r: String)
    ensures
        r@ == spec_short_task(task@),
{
    proof {
        reveal_strlit("assemble");
        reveal_strlit("install");
    }
    let c = text::to_chars(task);
    let assemble = text::to_chars("assemble");
    let install = text::to_chars("install");
    if text::starts_with(&c, &assemble) {
        text::to_string(&text::slice(&c, 8, c.len()))
    } else if text::starts_with(&c, &install) {
        text::to_string(&text::slice(&c, 7, c.len()))
    } else {
        task.to_owned()
    }
}

/// `s` padded with spaces, or cut, to exactly `width` characters.
pub open spec fn spec_right_pad(s: Seq<char>, width: int) -> Seq<char> {
    if s.len() >= width {
        s.subrange(0, width)
    } else {
        s + Seq::new((width - s.len()) as nat, |i: int| ' ')
    }
}

/// `s` padded with spaces, or cut, to exactly `width` characters.
pub fn right_pad(s: &str, width: usize) -> (r: String)
    ensures
        r@ == spec_right_pad(s@, width as int),
{
    let c = text::to_chars(s);
    if c.len() >= width {
        text::to_string(&text::slice(&c, 0, width))
    } else {
        let mut t = c;
        let ghost base = t@;
        while t.len() < width
            invariant
                base.len() <= t.len() <= width,
                t@ == base + Seq::new((t.len() - base.len()) as nat, |i: int| ' '),
            decreases width - t.len(),
        {
            t.push(' ');
            assert(t@ =~= base + Seq::new((t.len() - base.len()) as nat, |i: int| ' '));
        }
        text::to_string(&t)
    }
}

/// Index of the last `c` in `s`, if any.
pub open spec fn last_index_of(s: Seq<char>, c: char) -> Option<int>
    decreases s.len(),
{
    if s.len() == 0 {
        None
    } else if s.last() == c {
        Some(s.len() - 1)
    } else {
        last_index_of(s.drop_last(), c)
    }
}

pub proof fn lemma_last_index_of(s: Seq<char>, c: char)
    ensures
        last_index_of(s, c) matches Some(i) ==> 0 <= i < s.len() && s[i] == c,
    decreases s.len(),
{
    if s.len() > 0 && s.last() != c {
        lemma_last_index_of(s.drop_last(), c);
    }
}

pub proof fn lemma_byte_len_at_least_len(s: Seq<char>)
    ensures
        text::byte_len(s) >= s.len(),
    decreases s.len(),
{
    if s.len() > 0 {
        lemma_byte_len_at_least_len(s.drop_last());
        assert(s.drop_last().push(s.last()) =~= s);
        text::lemma_byte_len_push(s.drop_last(), s.last());
    }
}

pub proof fn lemma_trim_start_char_len(s: Seq<char>, c: char)
    ensures
        text::spec_trim_start_char(s, c).len() <= s.len(),
        s.len() > 0 && s[0] == c ==> text::spec_trim_start_char(s, c).len() < s.len(),
    decreases s.len(),
{
    if s.len() > 0 && s[0] == c {
        lemma_trim_start_char_len(s.drop_first(), c);
    }
}

/// Where a line of at most `m` characters is cut off `r`: at the last space among the first
/// `m` characters, else after `m` characters. The position of that space is counted in
/// bytes of UTF-8 and then taken as a character position (the whole rest when past its
/// end), as the pane's wrapping does.
pub open spec fn wrap_cut(r: Seq<char>, m: int) -> int {
    match last_index_of(r.subrange(0, m), ' ') {
        Some(i) => {
            let b = text::byte_len(r.subrange(0, i)) as int;
            if b < r.len() {
                b
            } else {
                r.len() as int
            }
        },
        None => m,
    }
}

/// The lines that `r` (longer than `m` characters at first) is wrapped into.
pub open spec fn wrap_lines(r: Seq<char>, m: int) -> Seq<Seq<char>>
    decreases r.len(),
{
    if r.len() == 0 || m <= 0 {
        Seq::<Seq<char>>::empty()
    } else if r.len() <= m {
        seq![r]
    } else {
        let k = wrap_cut(r, m);
        proof {
            lemma_last_index_of(r.subrange(0, m), ' ');
            if let Some(i) = last_index_of(r.subrange(0, m), ' ') {
                lemma_byte_len_at_least_len(r.subrange(0, i));
                assert(r.subrange(0, i).len() == i);
            }
            lemma_trim_start_char_len(r.subrange(k, r.len() as int), ' ');
        }
        seq![r.subrange(0, k)] + wrap_lines(
            text::spec_trim_start_char(r.subrange(k, r.len() as int), ' '),
            m,
        )
    }
}

/// A message wrapped to lines of `max` characters: kept whole when it fits or when `max`
/// is zero; else cut at spaces (see `wrap_cut`), spaces at the start of a continuation
/// line dropped.
pub open spec fn spec_word_wrap(msg: Seq<char>, max: int) -> Seq<Seq<char>> {
    if max == 0 || msg.len() <= max {
        seq![msg]
    } else {
        wrap_lines(msg, max)
    }
}

/// Position of the last space in `s[..m]`, if any.
fn last_space(s: &Vec<char>, m: usize) -> (r: Option<usize>)
    requires
        m <= s.len(),
    ensures
        match r {
            Some(i) => last_index_of(s@.subrange(0, m as int), ' ') == Some(i as int),
            None => last_index_of(s@.subrange(0, m as int), ' ') is None,
        },
{
    let mut j: usize = m;
    while j > 0
        invariant
            j <= m <= s.len(),
            last_index_of(s@.subrange(0, m as int), ' ') == last_index_of(
                s@.subrange(0, j as int),
                ' ',
            ),
        decreases j,
    {
        if s[j - 1] == ' ' {
            return Some(j - 1);
        }
        assert(s@.subrange(0, j as int).drop_last() =~= s@.subrange(0, j - 1));
        j = j - 1;
    }
    None
}

/// The cut position of `wrap_cut`.
fn cut_position(r: &Vec<char>, m: usize) -> (k: usize)
    requires
        0 < m < r.len(),
    ensures
        k as int == wrap_cut(r@, m as int),
{
    match last_space(r, m) {
        Some(i) => {
            proof {
                lemma_last_index_of(r@.subrange(0, m as int), ' ');
                assert(r@.subrange(0, m as int).subrange(0, i as int) =~= r@.subrange(0, i as int));
            }
            let total = text::byte_len_prefix(r, r.len());
            let b = text::byte_len_prefix(r, i);
            proof {
                assert(r@.subrange(0, r.len() as int) =~= r@);
                lemma_byte_len_at_least_len(r@);
            }
            if b < r.len() {
                b
            } else {
                r.len()
            }
        },
        None => m,
    }
}

/// A log message wrapped to lines of at most `max_chars` characters for the log pane.
pub fn word_wrap(msg: &str, max_chars: usize) -> (r: Vec<String>)
    ensures
        text::strs(r@) == spec_word_wrap(msg@, max_chars as int),
{
    let all = text::to_chars(msg);
    if max_chars == 0 || all.len() <= max_chars {
        let mut v: Vec<String> = Vec::new();
        v.push(msg.to_owned());
        assert(text::strs(v@) =~= seq![msg@]);
        return v;
    }
    let mut lines: Vec<String> = Vec::new();
    let mut rem = all;
    assert(text::strs(lines@) =~= Seq::<Seq<char>>::empty());
    while rem.len() > max_chars
        invariant
            max_chars > 0,
            text::strs(lines@) + wrap_lines(rem@, max_chars as int) == wrap_lines(
                msg@,
                max_chars as int,
            ),
        decreases rem.len(),
    {
        let k = cut_position(&rem, max_chars);
        let ghost before = text::strs(lines@);
        lines.push(text::to_string(&text::slice(&rem, 0, k)));
        let rest = text::slice(&rem, k, rem.len());
        proof {
            lemma_last_index_of(rem@.subrange(0, max_chars as int), ' ');
            if let Some(i) = last_index_of(rem@.subrange(0, max_chars as int), ' ') {
                lemma_byte_len_at_least_len(rem@.subrange(0, i));
                assert(rem@.subrange(0, i).len() == i);
            }
            lemma_trim_start_char_len(rest@, ' ');
            assert(text::strs(lines@) =~= before.push(rem@.subrange(0, k as int)));
            assert(before + wrap_lines(rem@, max_chars as int) =~= before.push(
                rem@.subrange(0, k as int),
            ) + wrap_lines(text::spec_trim_start_char(rest@, ' '), max_chars as int));
        }
        rem = text::trim_start_char(&rest, ' ');
    }
    if rem.len() > 0 {
        let ghost before = text::strs(lines@);
        lines.push(text::to_string(&rem));
        assert(text::strs(lines@) =~= before + wrap_lines(rem@, max_chars as int));
    } else {
        assert(text::strs(lines@) =~= text::strs(lines@) + wrap_lines(rem@, max_chars as int));
    }
    lines
}

/// The Android release and API level of a device, as the info bar shows them.
pub open spec fn spec_version_label(release: Seq<char>, sdk: Seq<char>) -> Seq<char> {
    if release.len() > 0 && sdk.len() > 0 {
        "  Android "@ + release + "  API "@ + sdk
    } else if release.len() > 0 {
        "  Android "@ + release
    } else if sdk.len() > 0 {
        "  API "@ + sdk
    } else {
        Seq::<char>::empty()
    }
}

/// The Android release and API level of a device, as the info bar shows them.
pub fn version_label(release: &str, sdk: &str) -> (r: String)
    ensures
        r@ == spec_version_label(release@, sdk@),
{
    let rel_empty = release.is_empty();
    let sdk_empty = sdk.is_empty();
    if !rel_empty && !sdk_empty {
        let a = text::cat("  Android ", release);
        text::cat3(a.as_str(), "  API ", sdk)
    } else if !rel_empty {
        text::cat("  Android ", release)
    } else if !sdk_empty {
        text::cat("  API ", sdk)
    } else {
        String::new()
    }
}

/// The status line when no toast is shown: a running build, a scrolled log, a paused
/// stream, no devices, or the device and line counts.
pub open spec fn spec_status_text(app: App) -> Seq<char> {
    match app.build_task {
        Some(task) => "Building: "@ + task@ + " …"@,
        None => if app.log_scroll > 0 {
            "Scrolled ↑"@ + text::spec_decimal(app.log_scroll as nat)
                + "  —  End or G to follow tail"@
        } else if app.logcat_paused {
            "Logcat PAUSED  —  Space to resume"@
        } else if app.devices@.len() == 0 {
            "No devices — connect one or press r to refresh"@
        } else {
            text::spec_decimal(app.devices@.len()) + " device"@ + (if app.devices@.len() == 1 {
                ""@
            } else {
                "s"@
            }) + "  ·  "@ + text::spec_decimal(app.log_lines@.len()) + " log lines"@
        },
    }
}

/// The status line when no toast is shown.
pub fn status_text(app: &App) -> (r: String)
    ensures
        r@ == spec_status_text(*app),
{
    if let Some(task) = &app.build_task {
        return text::cat3("Building: ", task.as_str(), " …");
    }
    if app.log_scroll > 0 {
        let n = text::fmt_usize(app.log_scroll);
        return text::cat3("Scrolled ↑", n.as_str(), "  —  End or G to follow tail");
    }
    if app.logcat_paused {
        return "Logcat PAUSED  —  Space to resume".to_owned();
    }
    let n = app.devices.len();
    if n == 0 {
        return "No devices — connect one or press r to refresh".to_owned();
    }
    let count = text::fmt_usize(n);
    let plural = if n == 1 {
        ""
    } else {
        "s"
    };
    let a = text::cat3(count.as_str(), " device", plural);
    let lines = text::fmt_usize(app.log_lines.len());
    let b = text::cat3(a.as_str(), "  ·  ", lines.as_str());
    text::cat(b.as_str(), " log lines")
}

} // verus!
