//! What the info bar at the top of the screen says: pieces of text with the role each
//! plays, which the drawing code gives a color.
use vstd::prelude::*;

use crate::app::state::App;
use crate::text;
use crate::ui::{short_task, spec_short_task, spec_version_label, version_label};

verus! {

/// The role of a piece of the info bar.
#[derive(Debug, Clone, Copy, PartialEq, Eq, Structural)]
pub enum Tone {
    Warning,
    DeviceIcon,
    DeviceModel,
    DeviceVersion,
    Battery,
    Separator,
    Variant,
    BranchIcon,
    Branch,
    Building,
    BuildOk,
    BuildFailed,
    Dim,
    SpinnerBadge,
    BuildBanner,
    BuildDetail,
    Toast,
    LiveDot,
    LiveCount,
    Package,
    Level,
    FilterText,
    ExcludeText,
    Crashes,
}

/// A piece of text and its role.
#[derive(Debug)]
pub struct Segment {
    pub text: String,
    pub tone: Tone,
}

/// The models of a list of segments.
pub open spec fn seg_views(v: Seq<Segment>) -> Seq<(Seq<char>, Tone)> {
    v.map_values(|s: Segment| (s.text@, s.tone))
}

/// The separator between the parts of a bar.
pub open spec fn sep() -> (Seq<char>, Tone) {
    ("  │  "@, Tone::Separator)
}

/// The value of the device property `key`, empty when the device did not report it.
pub open spec fn prop_value(props: Seq<(Seq<char>, Seq<char>)>, key: Seq<char>) -> Seq<char>
    decreases props.len(),
{
    if props.len() == 0 {
        Seq::empty()
    } else if props[0].0 == key {
        props[0].1
    } else {
        prop_value(props.drop_first(), key)
    }
}

/// The device part of the first row: a warning without devices, else the selected
/// device's model, Android version and battery level.
pub open spec fn device_part(app: App) -> Seq<(Seq<char>, Tone)> {
    if app.devices@.len() == 0 {
        seq![("⚠ no device"@, Tone::Warning)]
    } else {
        let d = app.devices@[app.selected_device as int];
        let props = text::str_pairs(app.device_props@);
        let label = spec_version_label(
            prop_value(props, "ro.build.version.release"@),
            prop_value(props, "ro.build.version.sdk"@),
        );
        seq![("󰟜 "@, Tone::DeviceIcon), (d.model@, Tone::DeviceModel)] + (if label.len() > 0 {
            seq![(label, Tone::DeviceVersion)]
        } else {
            Seq::empty()
        }) + match app.device_battery {
            Some(b) => seq![("  🔋"@ + text::spec_decimal(b as nat) + "%"@, Tone::Battery)],
            None => Seq::empty(),
        }
    }
}

/// The build part of the first row: a build running, the outcome of the last one (its
/// duration follows, written by the caller), or none yet.
pub open spec fn build_part(app: App) -> Seq<(Seq<char>, Tone)> {
    if app.build_task is Some {
        seq![("⟳ building…"@, Tone::Building)]
    } else if app.build_history@.len() > 0 {
        if app.build_history@.last().exit_code == Some(0i32) {
            seq![("✓ "@, Tone::BuildOk)]
        } else {
            seq![("✗ "@, Tone::BuildFailed)]
        }
    } else {
        seq![("no build yet"@, Tone::Dim)]
    }
}

/// The first row of the info bar: device, variant, branch and build.
pub open spec fn spec_info_row1(app: App) -> Seq<(Seq<char>, Tone)> {
    device_part(app) + seq![sep(), (spec_short_task(app.effective_assemble@), Tone::Variant)]
        + match app.current_branch {
        Some(b) => seq![sep(), (" "@, Tone::BranchIcon), (b@, Tone::Branch)],
        None => Seq::empty(),
    } + seq![sep()] + build_part(app)
}

/// The frame of the build spinner shown after `secs` seconds.
pub open spec fn spinner(secs: int) -> char {
    let k = secs % 10;
    if k == 0 {
        '⠋'
    } else if k == 1 {
        '⠙'
    } else if k == 2 {
        '⠹'
    } else if k == 3 {
        '⠸'
    } else if k == 4 {
        '⠼'
    } else if k == 5 {
        '⠴'
    } else if k == 6 {
        '⠦'
    } else if k == 7 {
        '⠧'
    } else if k == 8 {
        '⠇'
    } else {
        '⠏'
    }
}

/// Whole seconds the running build has taken at clock `now`.
pub open spec fn build_secs(app: App, now: u64) -> int {
    match app.build_start_ms {
        Some(s) => (if now >= s { now - s } else { 0 }) / 1000,
        None => 0,
    }
}

/// The banner of a running build: spinner, what it does, and its variant and seconds.
pub open spec fn banner(app: App, task: Seq<char>, now: u64) -> Seq<(Seq<char>, Tone)> {
    let secs = build_secs(app, now);
    let action = if text::spec_starts_with(task, "install"@) {
        "INSTALLING"@
    } else {
        "BUILDING"@
    };
    let label = if app.launch_after_build {
        action + " + LAUNCHING"@
    } else {
        action
    };
    seq![
        (seq![' ', spinner(secs), ' '], Tone::SpinnerBadge),
        (" "@ + label + " "@, Tone::BuildBanner),
        (" "@ + spec_short_task(task) + "  "@ + text::spec_decimal(secs as nat) + "s"@, Tone::BuildDetail),
    ]
}

/// The line count of the live stream: in thousands from a thousand lines on.
pub open spec fn line_count(n: nat) -> Seq<char> {
    if n >= 1000 {
        text::spec_decimal(n / 1000) + "k"@
    } else {
        text::spec_decimal(n)
    }
}

/// The stream part of the second row.
pub open spec fn stream_part(app: App) -> Seq<(Seq<char>, Tone)> {
    if app.logcat_running {
        seq![("● "@, Tone::LiveDot), (line_count(app.log_lines@.len()) + " lines"@, Tone::LiveCount)]
            + if app.log_scroll > 0 {
            seq![("  ↑+"@ + text::spec_decimal(app.log_scroll as nat), Tone::Dim)]
        } else {
            Seq::empty()
        }
    } else {
        seq![("○ logcat off"@, Tone::Dim)]
    }
}

/// The package part of the second row: all packages, or the one filtered on.
pub open spec fn package_part(app: App) -> Seq<(Seq<char>, Tone)> {
    if app.show_all_logs {
        seq![sep(), ("all packages"@, Tone::Dim)]
    } else {
        let pkg = match app.active_package_filter {
            Some(p) => p@,
            None => if app.effective_packages@.len() > 0 {
                app.effective_packages@[0]@
            } else {
                "?"@
            },
        };
        seq![sep(), (pkg, Tone::Package)]
    }
}

/// The level filter, unless it is the configured default or all levels.
pub open spec fn level_piece(app: App) -> Seq<(Seq<char>, Tone)> {
    let lvl = app.spec_level_filter_summary();
    if lvl != "config"@ && lvl != "all"@ {
        seq![sep(), (lvl, Tone::Level)]
    } else {
        Seq::empty()
    }
}

/// The text filter, while it has the focus or holds text.
pub open spec fn filter_piece(app: App) -> Seq<(Seq<char>, Tone)> {
    if app.filter_focused || app.filter_input@.len() > 0 {
        seq![sep(), ("filter: "@ + app.filter_input@, Tone::FilterText)]
    } else {
        Seq::empty()
    }
}

/// The exclude filter, while it has the focus or holds text.
pub open spec fn exclude_piece(app: App) -> Seq<(Seq<char>, Tone)> {
    if app.exclude_focused || app.exclude_input@.len() > 0 {
        seq![sep(), ("exclude: "@ + app.exclude_input@, Tone::ExcludeText)]
    } else {
        Seq::empty()
    }
}

/// The number of crashes caught, when there are any.
pub open spec fn crash_piece(app: App) -> Seq<(Seq<char>, Tone)> {
    let nc = app.crash_events@.len();
    if nc > 0 {
        seq![
            sep(),
            (text::spec_decimal(nc) + " crash"@ + (if nc == 1 {
                ""@
            } else {
                "es"@
            }), Tone::Crashes),
        ]
    } else {
        Seq::empty()
    }
}

/// The number of devices, when there are several.
pub open spec fn devices_piece(app: App) -> Seq<(Seq<char>, Tone)> {
    if app.devices@.len() > 1 {
        seq![sep(), (text::spec_decimal(app.devices@.len()) + " devices"@, Tone::Dim)]
    } else {
        Seq::empty()
    }
}

/// The second row after the stream state: package, level filter, text filters, crashes
/// and the number of devices.
pub open spec fn filters_part(app: App) -> Seq<(Seq<char>, Tone)> {
    package_part(app) + level_piece(app) + filter_piece(app) + exclude_piece(app) + crash_piece(
        app,
    ) + devices_piece(app)
}

/// The second row of the info bar at clock `now`: the banner of a running build, else the
/// toast, else the stream state and filters.
pub open spec fn spec_info_row2(app: App, now: u64) -> Seq<(Seq<char>, Tone)> {
    match app.build_task {
        Some(task) => banner(app, task@, now),
        None => match app.toast {
            Some((msg, _)) => seq![(msg@, Tone::Toast)],
            None => stream_part(app) + filters_part(app),
        },
    }
}

fn seg(text: String, tone: Tone) -> (r: Segment)
    ensures
        r.text@ == text@,
        r.tone == tone,
{
    Segment { text, tone }
}

fn push_seg(v: &mut Vec<Segment>, text: String, tone: Tone)
    ensures
        seg_views(final(v)@) == seg_views(old(v)@).push((text@, tone)),
{
    let ghost before = seg_views(v@);
    v.push(seg(text, tone));
    assert(seg_views(v@) =~= before.push((text@, tone)));
}

fn push_sep(v: &mut Vec<Segment>)
    ensures
        seg_views(final(v)@) == seg_views(old(v)@).push(sep()),
{
    push_seg(v, "  │  ".to_owned(), Tone::Separator);
}

fn prop_of(props: &Vec<(String, String)>, key: &str) -> (r: String)
    ensures
        r@ == prop_value(text::str_pairs(props@), key@),
{
    let ghost ps = text::str_pairs(props@);
    let k = text::to_chars(key);
    let mut i: usize = 0;
    assert(ps.subrange(0, ps.len() as int) =~= ps);
    while i < props.len()
        invariant
            i <= props.len(),
            ps == text::str_pairs(props@),
            k@ == key@,
            prop_value(ps, key@) == prop_value(ps.subrange(i as int, ps.len() as int), key@),
        decreases props.len() - i,
    {
        let ghost rest = ps.subrange(i as int, ps.len() as int);
        assert(rest[0] == (props@[i as int].0@, props@[i as int].1@));
        if text::chars_eq(&text::to_chars(props[i].0.as_str()), &k) {
            return props[i].1.clone();
        }
        assert(rest.drop_first() =~= ps.subrange(i + 1, ps.len() as int));
        i = i + 1;
    }
    String::new()
}

/// The first row of the info bar: device, variant, branch and build outcome; the duration
/// of the last build, when it is shown, follows and is written by the caller.
pub fn info_row1(app: &App) -> (r: Vec<Segment>)
    requires
        app.devices@.len() > 0 ==> app.selected_device < app.devices@.len(),
    ensures
        seg_views(r@) == spec_info_row1(*app),
{
    let mut v: Vec<Segment> = Vec::new();
    if app.devices.len() == 0 {
        push_seg(&mut v, "⚠ no device".to_owned(), Tone::Warning);
    } else {
        let d = &app.devices[app.selected_device];
        push_seg(&mut v, "󰟜 ".to_owned(), Tone::DeviceIcon);
        push_seg(&mut v, d.model.clone(), Tone::DeviceModel);
        let rel = prop_of(&app.device_props, "ro.build.version.release");
        let sdk = prop_of(&app.device_props, "ro.build.version.sdk");
        let label = version_label(rel.as_str(), sdk.as_str());
        if !label.as_str().is_empty() {
            push_seg(&mut v, label, Tone::DeviceVersion);
        }
        if let Some(b) = app.device_battery {
            let n = text::fmt_u64(b as u64);
            push_seg(&mut v, text::cat3("  🔋", n.as_str(), "%"), Tone::Battery);
        }
    }
    let ghost dev = seg_views(v@);
    assert(dev =~= device_part(*app));
    push_sep(&mut v);
    push_seg(&mut v, short_task(app.effective_assemble.as_str()), Tone::Variant);
    if let Some(b) = &app.current_branch {
        push_sep(&mut v);
        push_seg(&mut v, " ".to_owned(), Tone::BranchIcon);
        push_seg(&mut v, b.clone(), Tone::Branch);
    }
    push_sep(&mut v);
    let ghost head = seg_views(v@);
    if app.build_task.is_some() {
        push_seg(&mut v, "⟳ building…".to_owned(), Tone::Building);
    } else if app.build_history.len() > 0 {
        let last = &app.build_history[app.build_history.len() - 1];
        if last.exit_code == Some(0i32) {
            push_seg(&mut v, "✓ ".to_owned(), Tone::BuildOk);
        } else {
            push_seg(&mut v, "✗ ".to_owned(), Tone::BuildFailed);
        }
    } else {
        push_seg(&mut v, "no build yet".to_owned(), Tone::Dim);
    }
    assert(seg_views(v@) =~= head + build_part(*app));
    assert(seg_views(v@) =~= spec_info_row1(*app));
    v
}

fn spinner_char(secs: u64) -> (c: char)
    ensures
        c == spinner(secs as int),
{
    let k = secs % 10;
    if k == 0 {
        '⠋'
    } else if k == 1 {
        '⠙'
    } else if k == 2 {
        '⠹'
    } else if k == 3 {
        '⠸'
    } else if k == 4 {
        '⠼'
    } else if k == 5 {
        '⠴'
    } else if k == 6 {
        '⠦'
    } else if k == 7 {
        '⠧'
    } else if k == 8 {
        '⠇'
    } else {
        '⠏'
    }
}

fn banner_segments(app: &App, task: &String, now: u64) -> (r: Vec<Segment>)
    ensures
        seg_views(r@) == banner(*app, task@, now),
{
    proof {
        reveal_strlit("install");
    }
    let secs: u64 = match app.build_start_ms {
        Some(s) => (if now >= s { now - s } else { 0 }) / 1000,
        None => 0,
    };
    let mut badge: Vec<char> = Vec::new();
    badge.push(' ');
    badge.push(spinner_char(secs));
    badge.push(' ');
    assert(badge@ =~= seq![' ', spinner(secs as int), ' ']);
    let installing = text::starts_with(&text::to_chars(task.as_str()), &text::to_chars("install"));
    let action = if installing {
        "INSTALLING"
    } else {
        "BUILDING"
    };
    let label = if app.launch_after_build {
        text::cat(action, " + LAUNCHING")
    } else {
        action.to_owned()
    };
    let short = short_task(task.as_str());
    let n = text::fmt_u64(secs);
    let detail_head = text::cat3(" ", short.as_str(), "  ");
    let mut v: Vec<Segment> = Vec::new();
    push_seg(&mut v, text::to_string(&badge), Tone::SpinnerBadge);
    push_seg(&mut v, text::cat3(" ", label.as_str(), " "), Tone::BuildBanner);
    push_seg(&mut v, text::cat3(detail_head.as_str(), n.as_str(), "s"), Tone::BuildDetail);
    assert(seg_views(v@) =~= banner(*app, task@, now));
    v
}

fn stream_segments(app: &App) -> (r: Vec<Segment>)
    ensures
        seg_views(r@) == stream_part(*app),
{
    let mut v: Vec<Segment> = Vec::new();
    if app.logcat_running {
        let count = app.log_lines.len();
        let c = if count >= 1000 {
            let k = text::fmt_usize(count / 1000);
            text::cat(k.as_str(), "k")
        } else {
            text::fmt_usize(count)
        };
        push_seg(&mut v, "● ".to_owned(), Tone::LiveDot);
        push_seg(&mut v, text::cat(c.as_str(), " lines"), Tone::LiveCount);
        if app.log_scroll > 0 {
            let s = text::fmt_usize(app.log_scroll);
            push_seg(&mut v, text::cat("  ↑+", s.as_str()), Tone::Dim);
        }
    } else {
        push_seg(&mut v, "○ logcat off".to_owned(), Tone::Dim);
    }
    assert(seg_views(v@) =~= stream_part(*app));
    v
}

fn package_segments(app: &App, v: &mut Vec<Segment>)
    ensures
        seg_views(final(v)@) == seg_views(old(v)@) + package_part(*app),
{
    let ghost before = seg_views(v@);
    push_sep(v);
    if app.show_all_logs {
        push_seg(v, "all packages".to_owned(), Tone::Dim);
    } else {
        let pkg = match &app.active_package_filter {
            Some(p) => p.clone(),
            None => if app.effective_packages.len() > 0 {
                app.effective_packages[0].clone()
            } else {
                "?".to_owned()
            },
        };
        push_seg(v, pkg, Tone::Package);
    }
    assert(seg_views(v@) =~= before + package_part(*app));
}

fn level_segments(app: &App, v: &mut Vec<Segment>)
    ensures
        seg_views(final(v)@) == seg_views(old(v)@) + level_piece(*app),
{
    proof {
        reveal_strlit("config");
        reveal_strlit("all");
    }
    let ghost before = seg_views(v@);
    let lvl = app.current_level_filter_summary();
    let lc = text::to_chars(lvl.as_str());
    let is_config = text::chars_eq(&lc, &text::to_chars("config"));
    let is_all = text::chars_eq(&lc, &text::to_chars("all"));
    if !is_config && !is_all {
        push_sep(v);
        push_seg(v, lvl, Tone::Level);
    }
    assert(seg_views(v@) =~= before + level_piece(*app));
}

fn input_segments(app: &App, v: &mut Vec<Segment>)
    ensures
        seg_views(final(v)@) == seg_views(old(v)@) + filter_piece(*app) + exclude_piece(*app),
{
    let ghost before = seg_views(v@);
    if app.filter_focused || !app.filter_input.as_str().is_empty() {
        push_sep(v);
        push_seg(v, text::cat("filter: ", app.filter_input.as_str()), Tone::FilterText);
    }
    let ghost mid = seg_views(v@);
    assert(mid =~= before + filter_piece(*app));
    if app.exclude_focused || !app.exclude_input.as_str().is_empty() {
        push_sep(v);
        push_seg(v, text::cat("exclude: ", app.exclude_input.as_str()), Tone::ExcludeText);
    }
    assert(seg_views(v@) =~= mid + exclude_piece(*app));
}

fn count_segments(app: &App, v: &mut Vec<Segment>)
    ensures
        seg_views(final(v)@) == seg_views(old(v)@) + crash_piece(*app) + devices_piece(*app),
{
    let ghost before = seg_views(v@);
    let nc = app.crash_events.len();
    if nc > 0 {
        push_sep(v);
        let n = text::fmt_usize(nc);
        let plural = if nc == 1 {
            ""
        } else {
            "es"
        };
        push_seg(v, text::cat3(n.as_str(), " crash", plural), Tone::Crashes);
    }
    let ghost mid = seg_views(v@);
    assert(mid =~= before + crash_piece(*app));
    if app.devices.len() > 1 {
        push_sep(v);
        let n = text::fmt_usize(app.devices.len());
        push_seg(v, text::cat(n.as_str(), " devices"), Tone::Dim);
    }
    assert(seg_views(v@) =~= mid + devices_piece(*app));
}

fn filters_segments(app: &App, v: &mut Vec<Segment>)
    ensures
        seg_views(final(v)@) == seg_views(old(v)@) + filters_part(*app),
{
    let ghost before = seg_views(v@);
    package_segments(app, v);
    level_segments(app, v);
    input_segments(app, v);
    count_segments(app, v);
    assert(seg_views(v@) =~= before + filters_part(*app));
}

/// The second row of the info bar at clock `now` (ms): the banner of a running build, else
/// the toast, else the stream state and filters.
pub fn info_row2(app: &App, now: u64) -> (r: Vec<Segment>)
    ensures
        seg_views(r@) == spec_info_row2(*app, now),
{
    if let Some(task) = &app.build_task {
        return banner_segments(app, task, now);
    }
    if let Some((msg, _)) = &app.toast {
        let mut v: Vec<Segment> = Vec::new();
        push_seg(&mut v, msg.clone(), Tone::Toast);
        assert(seg_views(v@) =~= seq![(msg@, Tone::Toast)]);
        return v;
    }
    let mut v = stream_segments(app);
    filters_segments(app, &mut v);
    v
}


/// The lines `[start, end)` of `total` build output lines shown in a popup with room for
/// `visible` lines, scrolled up by `scroll` lines: at most as far as leaves a full window.
pub open spec fn spec_build_window(total: int, scroll: int, visible: int) -> (int, int) {
    let max_scroll = if total >= visible { total - visible } else { 0 };
    let s = if scroll <= max_scroll { scroll } else { max_scroll };
    let end = total - s;
    (if end >= visible { end - visible } else { 0 }, end)
}

/// The lines of build output the popup shows.
pub fn build_window(total: usize, scroll: usize, visible: usize) -> (r: (usize, usize))
    ensures
        (r.0 as int, r.1 as int) == spec_build_window(total as int, scroll as int, visible as int),
{
    let max_scroll = if total >= visible { total - visible } else { 0 };
    let s = if scroll <= max_scroll { scroll } else { max_scroll };
    let end = total - s;
    (if end >= visible { end - visible } else { 0 }, end)
}

/// A build output line as the popup shows it: without its stream tags, cut to `width`
/// characters, and whether it came from the error stream.
pub open spec fn spec_build_line(raw: Seq<char>, width: int) -> (Seq<char>, bool) {
    let t = text::spec_trim_start_matches(
        text::spec_trim_start_matches(raw, "[stdout] "@),
        "[stderr] "@,
    );
    (if t.len() <= width { t } else { t.subrange(0, width) }, text::spec_contains(raw, "[stderr]"@))
}

/// A build output line as the popup shows it, and whether it came from the error stream.
pub fn build_line_display(raw: &str, width: usize) -> (r: (String, bool))
    ensures
        (r.0@, r.1) == spec_build_line(raw@, width as int),
{
    let c = text::to_chars(raw);
    let t1 = text::trim_start_matches(&c, &text::to_chars("[stdout] "));
    let t = text::trim_start_matches(&t1, &text::to_chars("[stderr] "));
    let shown = if t.len() <= width {
        t
    } else {
        text::slice(&t, 0, width)
    };
    let err = text::contains(&c, &text::to_chars("[stderr]"));
    (text::to_string(&shown), err)
}

/// Seconds shown until the build popup closes, counted up.
pub fn closing_secs(deadline: u64, now: u64) -> (r: u64)
    ensures
        r == (if deadline >= now { deadline - now } else { 0 }) / 1000 + 1,
{
    (if deadline >= now { deadline - now } else { 0 }) / 1000 + 1
}


/// The part of a package name that the package picker highlights for a search: the first
/// occurrence of the lowercased search in the lowercased name, as a range of bytes of the
/// lowercased name.
pub open spec fn spec_highlight(pkg: Seq<char>, query: Seq<char>) -> Option<(int, int)> {
    let lower = text::spec_to_lowercase(pkg);
    let q = text::spec_to_lowercase(query);
    match text::spec_find(lower, q) {
        Some(i) => {
            let start = text::byte_len(lower.subrange(0, i)) as int;
            Some((start, start + text::byte_len(q)))
        },
        None => None,
    }
}

/// The byte range of a package name that the package picker highlights for a search.
pub fn highlight_range(pkg: &str, query: &str) -> (r: Option<(usize, usize)>)
    ensures
        match r {
            Some((a, b)) => spec_highlight(pkg@, query@) == Some((a as int, b as int)),
            None => spec_highlight(pkg@, query@) is None,
        },
{
    let lower_s = text::to_lowercase(pkg);
    let q_s = text::to_lowercase(query);
    let lower = text::string_chars(&lower_s);
    let q = text::string_chars(&q_s);
    match text::find(&lower, &q) {
        None => None,
        Some(i) => {
            proof {
                text::lemma_find_contains(lower@, q@);
                let pre = lower@.subrange(0, i as int);
                let rest = lower@.subrange(i + q@.len(), lower@.len() as int);
                assert(lower@ =~= pre + q@ + rest);
                text::lemma_byte_len_concat(pre, q@);
                text::lemma_byte_len_concat(pre + q@, rest);
            }
            let total = text::str_byte_len(lower_s.as_str());
            let start = text::byte_offset(&lower, i, total);
            let qlen = text::str_byte_len(q_s.as_str());
            Some((start, start + qlen))
        },
    }
}

} // verus!
