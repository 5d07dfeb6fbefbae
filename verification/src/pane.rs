//! The rows of the log pane: which entries are in view, how their messages wrap, and where
//! the tag column is left blank.
use vstd::prelude::*;

use crate::logcat::{LogEntry, LogEntryModel};
use crate::text;
use crate::ui::{spec_word_wrap, word_wrap};

verus! {

/// Width of the timestamp column.
pub const TS_WIDTH: usize = 12;

/// Width of the tag column.
pub const TAG_WIDTH: usize = 23;

/// Width of everything before the message: timestamp, tag and level columns with their
/// separating spaces.
pub const PREFIX_WIDTH: usize = 41;

/// One row of the log pane.
#[derive(Debug)]
pub struct LogRow {
    /// Index of the log entry the row belongs to.
    pub entry: usize,
    /// The entry's first row, which carries the timestamp, tag and level columns.
    pub first: bool,
    /// The tag column shows the tag (on a first row whose tag differs from the entry below).
    pub show_tag: bool,
    /// The part of the message on this row.
    pub text: String,
}

/// The model of a row.
pub struct RowModel {
    pub entry: int,
    pub first: bool,
    pub show_tag: bool,
    pub text: Seq<char>,
}

impl View for LogRow {
    type V = RowModel;

    open spec fn view(&self) -> RowModel {
        RowModel {
            entry: self.entry as int,
            first: self.first,
            show_tag: self.show_tag,
            text: self.text@,
        }
    }
}

/// The models of a list of rows.
pub open spec fn row_views(v: Seq<LogRow>) -> Seq<RowModel> {
    v.map_values(|r: LogRow| r@)
}

/// The models of a list of log entries.
pub open spec fn entry_views(v: Seq<LogEntry>) -> Seq<LogEntryModel> {
    v.map_values(|e: LogEntry| e@)
}

/// The rows of entry `idx`, from its last row up: one per wrapped chunk, the first chunk
/// last; only that row is a first row, and it shows the tag when `show_tag`.
pub open spec fn entry_rows(idx: int, chunks: Seq<Seq<char>>, show_tag: bool) -> Seq<RowModel> {
    Seq::new(
        chunks.len(),
        |k: int|
            RowModel {
                entry: idx,
                first: k == chunks.len() - 1,
                show_tag: k == chunks.len() - 1 && show_tag,
                text: chunks[chunks.len() - 1 - k],
            },
    )
}

/// Rows collected from the bottom up, starting below entry `i` with the rows `acc` already
/// collected and `below_tag` the tag of the entry below: entries are taken until none is
/// left or at least `limit` rows are collected.
pub open spec fn collect_rows(
    lines: Seq<LogEntryModel>,
    i: int,
    acc: Seq<RowModel>,
    below_tag: Seq<char>,
    limit: int,
    width: int,
) -> Seq<RowModel>
    decreases i,
{
    if i <= 0 || acc.len() >= limit {
        acc
    } else {
        let e = lines[i - 1];
        collect_rows(
            lines,
            i - 1,
            acc + entry_rows(i - 1, spec_word_wrap(e.message, width), e.tag != below_tag),
            e.tag,
            limit,
            width,
        )
    }
}

/// `a - b`, or zero when `b` is larger.
pub open spec fn sat_sub(a: int, b: int) -> int {
    if a >= b {
        a - b
    } else {
        0
    }
}

/// The number of message rows that fit a pane of `height` rows, one of them taken by the
/// filter line when it is shown.
pub open spec fn visible_rows(height: int, filter_line: bool) -> int {
    let h = sat_sub(height, if filter_line { 1 } else { 0 });
    if h >= 1 { h } else { 1 }
}

/// The width messages wrap to in a pane `width` columns wide: what is left after the
/// columns, at least twenty.
pub open spec fn message_width(width: int) -> int {
    let w = sat_sub(width, PREFIX_WIDTH as int);
    if w >= 20 { w } else { 20 }
}

/// The bottom-most entry in view, plus one: the log is scrolled up by `log_scroll` entries,
/// at most as far as leaves a full window.
pub open spec fn view_end(total: int, log_scroll: int, visible: int) -> int {
    let max_scroll = sat_sub(total, visible);
    let scroll = if log_scroll <= max_scroll { log_scroll } else { max_scroll };
    total - scroll
}

/// The log pane: its rows top down (collected from the bottom of the view up to three
/// windows' worth), and how many rows at the top fall above the window.
pub open spec fn spec_log_view(
    lines: Seq<LogEntryModel>,
    log_scroll: int,
    height: int,
    width: int,
    filter_line: bool,
) -> (Seq<RowModel>, int) {
    let visible = visible_rows(height, filter_line);
    let end = view_end(lines.len() as int, log_scroll, visible);
    let rows = collect_rows(
        lines,
        end,
        Seq::empty(),
        Seq::empty(),
        3 * visible,
        message_width(width),
    ).reverse();
    (rows, sat_sub(rows.len() as int, visible))
}


/// Rows taken by `collect_rows` keep the rows collected before them, and belong to
/// entries below `i` when those did.
pub proof fn lemma_collect_rows(
    lines: Seq<LogEntryModel>,
    i: int,
    acc: Seq<RowModel>,
    below_tag: Seq<char>,
    limit: int,
    width: int,
)
    requires
        i <= lines.len(),
        forall|k: int| 0 <= k < acc.len() ==> 0 <= #[trigger] acc[k].entry < lines.len(),
    ensures
        collect_rows(lines, i, acc, below_tag, limit, width).len() >= acc.len(),
        collect_rows(lines, i, acc, below_tag, limit, width).subrange(0, acc.len() as int) == acc,
        forall|k: int|
            0 <= k < collect_rows(lines, i, acc, below_tag, limit, width).len() ==> 0
                <= #[trigger] collect_rows(lines, i, acc, below_tag, limit, width)[k].entry
                < lines.len(),
    decreases i,
{
    if i <= 0 || acc.len() >= limit {
        assert(acc.subrange(0, acc.len() as int) =~= acc);
    } else {
        let e = lines[i - 1];
        let more = entry_rows(i - 1, spec_word_wrap(e.message, width), e.tag != below_tag);
        let next = acc + more;
        assert forall|k: int| 0 <= k < next.len() implies 0 <= #[trigger] next[k].entry < lines.len() by {
            if k >= acc.len() {
                assert(next[k] == more[k - acc.len()]);
            }
        }
        lemma_collect_rows(lines, i - 1, next, e.tag, limit, width);
        let r = collect_rows(lines, i - 1, next, e.tag, limit, width);
        assert(r.subrange(0, acc.len() as int) =~= r.subrange(0, next.len() as int).subrange(
            0,
            acc.len() as int,
        ));
        assert(next.subrange(0, acc.len() as int) =~= acc);
    }
}

/// A wrapped message has at least one row.
pub proof fn lemma_word_wrap_nonempty(msg: Seq<char>, max: int)
    requires
        max >= 0,
    ensures
        spec_word_wrap(msg, max).len() > 0,
{
    if !(max == 0 || msg.len() <= max) {
        let k = crate::ui::wrap_cut(msg, max);
        crate::ui::lemma_last_index_of(msg.subrange(0, max), ' ');
        assert(crate::ui::wrap_lines(msg, max) =~= seq![msg.subrange(0, k)]
            + crate::ui::wrap_lines(
            text::spec_trim_start_char(msg.subrange(k, msg.len() as int), ' '),
            max,
        ));
    }
}

/// Every row of the pane belongs to an entry of the log.
pub proof fn lemma_log_view_entries(
    lines: Seq<LogEntryModel>,
    log_scroll: int,
    height: int,
    width: int,
    filter_line: bool,
)
    requires
        log_scroll >= 0,
    ensures
        forall|k: int|
            0 <= k < spec_log_view(lines, log_scroll, height, width, filter_line).0.len() ==> 0
                <= #[trigger] spec_log_view(lines, log_scroll, height, width, filter_line).0[k].entry
                < lines.len(),
{
    let visible = visible_rows(height, filter_line);
    let end = view_end(lines.len() as int, log_scroll, visible);
    let b = collect_rows(lines, end, Seq::empty(), Seq::empty(), 3 * visible, message_width(width));
    lemma_collect_rows(lines, end, Seq::empty(), Seq::empty(), 3 * visible, message_width(width));
    let rows = b.reverse();
    assert forall|k: int| 0 <= k < rows.len() implies 0 <= #[trigger] rows[k].entry < lines.len() by {
        assert(rows[k] == b[b.len() - 1 - k]);
    }
}

/// Following the tail, the bottom row of a non-empty log belongs to its newest entry.
pub proof fn law_tail_row_is_newest_entry(
    lines: Seq<LogEntryModel>,
    height: int,
    width: int,
    filter_line: bool,
)
    requires
        lines.len() > 0,
    ensures
        spec_log_view(lines, 0, height, width, filter_line).0.len() > 0,
        spec_log_view(lines, 0, height, width, filter_line).0.last().entry == lines.len() - 1,
{
    let visible = visible_rows(height, filter_line);
    let w = message_width(width);
    let end = view_end(lines.len() as int, 0, visible);
    assert(end == lines.len());
    let e = lines[end - 1];
    let chunks = spec_word_wrap(e.message, w);
    lemma_word_wrap_nonempty(e.message, w);
    let first = entry_rows(end - 1, chunks, e.tag != Seq::<char>::empty());
    let acc1 = Seq::<RowModel>::empty() + first;
    assert(collect_rows(lines, end, Seq::empty(), Seq::empty(), 3 * visible, w) == collect_rows(
        lines,
        end - 1,
        acc1,
        e.tag,
        3 * visible,
        w,
    ));
    assert forall|k: int| 0 <= k < acc1.len() implies 0 <= #[trigger] acc1[k].entry < lines.len() by {
        assert(acc1[k] == first[k]);
    }
    lemma_collect_rows(lines, end - 1, acc1, e.tag, 3 * visible, w);
    let b = collect_rows(lines, end - 1, acc1, e.tag, 3 * visible, w);
    assert(b[0] == b.subrange(0, acc1.len() as int)[0]);
    assert(acc1[0] == first[0]);
    let rows = b.reverse();
    assert(rows.last() == b[0]);
}

/// The rows of the log pane and how many of them are above the window.
pub struct LogView {
    pub rows: Vec<LogRow>,
    pub hidden: usize,
}

/// Append the rows of entry `idx` (bottom-up) to `acc`.
fn push_entry_rows(acc: &mut Vec<LogRow>, idx: usize, chunks: &Vec<String>, show_tag: bool)
    ensures
        row_views(final(acc)@) == row_views(old(acc)@) + entry_rows(
            idx as int,
            text::strs(chunks@),
            show_tag,
        ),
{
    let ghost base = row_views(acc@);
    let ghost want = entry_rows(idx as int, text::strs(chunks@), show_tag);
    let n = chunks.len();
    let mut k: usize = 0;
    while k < n
        invariant
            n == chunks.len(),
            k <= n,
            want == entry_rows(idx as int, text::strs(chunks@), show_tag),
            row_views(acc@) == base + want.subrange(0, k as int),
        decreases n - k,
    {
        let ci = n - 1 - k;
        let last = k == n - 1;
        let row = LogRow { entry: idx, first: last, show_tag: last && show_tag, text: chunks[ci].clone() };
        let ghost before = row_views(acc@);
        acc.push(row);
        proof {
            assert(want[k as int] == row@);
            assert(want.subrange(0, k + 1) =~= want.subrange(0, k as int).push(want[k as int]));
            assert(row_views(acc@) =~= before.push(row@));
        }
        k = k + 1;
    }
    assert(want.subrange(0, n as int) =~= want);
}

/// `v` in reverse order.
fn reversed(v: Vec<LogRow>) -> (r: Vec<LogRow>)
    ensures
        row_views(r@) == row_views(v@).reverse(),
{
    let ghost orig = row_views(v@);
    let mut v = v;
    let mut out: Vec<LogRow> = Vec::new();
    while v.len() > 0
        invariant
            orig.len() == v.len() + out.len(),
            row_views(v@) == orig.subrange(0, v.len() as int),
            row_views(out@) == orig.subrange(v.len() as int, orig.len() as int).reverse(),
        decreases v.len(),
    {
        let ghost vb = row_views(v@);
        let ghost ob = row_views(out@);
        let x = v.pop().unwrap();
        proof {
            assert(vb[vb.len() - 1] == x@);
        }
        out.push(x);
        proof {
            assert(row_views(v@) =~= orig.subrange(0, v.len() as int));
            assert(row_views(out@) =~= ob.push(x@));
            assert(orig.subrange(v.len() as int, orig.len() as int) =~= seq![x@] + orig.subrange(
                v.len() + 1,
                orig.len() as int,
            ));
            assert(orig.subrange(v.len() as int, orig.len() as int).reverse() =~= ob.push(x@));
        }
    }
    assert(orig.subrange(0, orig.len() as int).reverse() =~= row_views(out@));
    assert(orig.subrange(0, orig.len() as int) =~= orig);
    out
}

/// The rows of the log pane for a pane of `height` rows and `width` columns (inside its
/// border), the log scrolled up by `log_scroll` entries, with or without the filter line.
pub fn log_view(lines: &Vec<LogEntry>, log_scroll: usize, height: u16, width: u16, filter_line: bool) -> (r: LogView)
    ensures
        (row_views(r.rows@), r.hidden as int) == spec_log_view(
            entry_views(lines@),
            log_scroll as int,
            height as int,
            width as int,
            filter_line,
        ),
        forall|k: int| 0 <= k < r.rows@.len() ==> #[trigger] r.rows@[k].entry < lines@.len(),
{
    let ghost ls = entry_views(lines@);
    let header: u16 = if filter_line { 1 } else { 0 };
    let h = height - if height >= header { header } else { height };
    let visible: usize = if h >= 1 { h as usize } else { 1 };
    let w: usize = width as usize;
    let msg_width: usize = if w >= PREFIX_WIDTH + 20 { w - PREFIX_WIDTH } else { 20 };
    let total = lines.len();
    let max_scroll = if total >= visible { total - visible } else { 0 };
    let scroll = if log_scroll <= max_scroll { log_scroll } else { max_scroll };
    let end = total - scroll;
    let limit = 3 * visible;
    proof {
        assert(visible as int == visible_rows(height as int, filter_line));
        assert(msg_width as int == message_width(width as int));
        assert(end as int == view_end(total as int, log_scroll as int, visible as int));
    }
    let mut acc: Vec<LogRow> = Vec::new();
    let mut below: Vec<char> = Vec::new();
    let mut i: usize = end;
    let ghost want = collect_rows(ls, end as int, Seq::empty(), Seq::empty(), limit as int, msg_width as int);
    assert(row_views(acc@) =~= Seq::<RowModel>::empty());
    while i > 0 && acc.len() < limit
        invariant
            i <= end <= lines.len(),
            ls == entry_views(lines@),
            want == collect_rows(ls, i as int, row_views(acc@), below@, limit as int, msg_width as int),
        decreases i,
    {
        let e = &lines[i - 1];
        proof {
            assert(ls[i - 1] == e@);
        }
        let chunks = word_wrap(e.message.as_str(), msg_width);
        let tag = text::to_chars(e.tag.as_str());
        let show = !text::chars_eq(&tag, &below);
        push_entry_rows(&mut acc, i - 1, &chunks, show);
        below = tag;
        i = i - 1;
    }
    let ghost bottom_up = row_views(acc@);
    assert(want == bottom_up);
    let rows = reversed(acc);
    proof {
        lemma_log_view_entries(ls, log_scroll as int, height as int, width as int, filter_line);
        let ghost spec_rows = spec_log_view(ls, log_scroll as int, height as int, width as int, filter_line).0;
        assert(row_views(rows@) == spec_rows);
        assert forall|k: int| 0 <= k < rows@.len() implies #[trigger] rows@[k].entry < lines@.len() by {
            assert(row_views(rows@)[k] == rows@[k]@);
            assert(spec_rows[k].entry < ls.len());
        }
    }
    let n = rows.len();
    let hidden = if n >= visible { n - visible } else { 0 };
    LogView { rows, hidden }
}

/// The title of the log pane: the filter input has the focus, the stream is paused, or the
/// view is scrolled up from the tail.
pub fn log_title(filter_focused: bool, paused: bool, scrolled: bool) -> (r: &'static str)
    ensures
        r@ == (if filter_focused {
            " Logcat  [FILTER] "@
        } else if paused {
            " Logcat  PAUSED "@
        } else if scrolled {
            " Logcat  ↑scrolled — End to tail "@
        } else {
            " Logcat "@
        }),
{
    if filter_focused {
        " Logcat  [FILTER] "
    } else if paused {
        " Logcat  PAUSED "
    } else if scrolled {
        " Logcat  ↑scrolled — End to tail "
    } else {
        " Logcat "
    }
}

} // verus!
