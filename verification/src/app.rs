//! Application state and its pure helpers: level filter modes, build variants, package
//! lists and matching, device selection and log scrolling.
use vstd::prelude::*;

use crate::adb::Device;
use crate::config::MergedConfig;
use crate::logcat::LogEntry;
use crate::project::ProjectInference;
use crate::text;

pub mod actions;
pub mod events;
pub mod ingest;
pub mod lifecycle;
pub mod laws;
pub mod state;

verus! {

/// The single pane of the layout.
#[derive(Debug, Clone, Copy, PartialEq, Eq, Structural)]
pub enum Pane {
    Logs,
}

/// A finished Gradle run.
#[derive(Debug, Clone)]
pub struct BuildRecord {
    pub task: String,
    pub exit_code: Option<i32>,
    /// Wall-clock duration of the run, in milliseconds.
    pub duration_ms: u64,
}

/// Log level filter choices offered by the level picker.
#[derive(Debug, Clone, Copy, PartialEq, Eq, Structural)]
pub enum LevelFilterMode {
    ConfigDefault,
    All,
    ErrorsOnly,
    WarningsPlus,
    InfoPlus,
    DebugPlus,
    Verbose,
    FatalOnly,
}

/// Title shown in the level picker.
pub open spec fn spec_level_title(m: LevelFilterMode) -> Seq<char> {
    match m {
        LevelFilterMode::ConfigDefault => "Config default"@,
        LevelFilterMode::All => "All levels"@,
        LevelFilterMode::ErrorsOnly => "Errors only"@,
        LevelFilterMode::WarningsPlus => "Warnings + Errors"@,
        LevelFilterMode::InfoPlus => "Info + Warnings + Errors"@,
        LevelFilterMode::DebugPlus => "Debug +"@,
        LevelFilterMode::Verbose => "Verbose"@,
        LevelFilterMode::FatalOnly => "Fatal only"@,
    }
}

/// Short label shown in the info bar.
pub open spec fn spec_level_summary(m: LevelFilterMode) -> Seq<char> {
    match m {
        LevelFilterMode::ConfigDefault => "config"@,
        LevelFilterMode::All => "all"@,
        LevelFilterMode::ErrorsOnly => "errors"@,
        LevelFilterMode::WarningsPlus => "warn+"@,
        LevelFilterMode::InfoPlus => "info+"@,
        LevelFilterMode::DebugPlus => "debug+"@,
        LevelFilterMode::Verbose => "verbose"@,
        LevelFilterMode::FatalOnly => "fatal"@,
    }
}

/// Levels a mode accepts, as a comma-separated list (`None`: use the configuration).
pub open spec fn spec_level_levels(m: LevelFilterMode) -> Option<Seq<char>> {
    match m {
        LevelFilterMode::ConfigDefault => None,
        LevelFilterMode::All => Some(""@),
        LevelFilterMode::ErrorsOnly => Some("E,F"@),
        LevelFilterMode::WarningsPlus => Some("W,E,F"@),
        LevelFilterMode::InfoPlus => Some("I,W,E,F"@),
        LevelFilterMode::DebugPlus => Some("D,I,W,E,F"@),
        LevelFilterMode::Verbose => Some("V,D,I,W,E,F"@),
        LevelFilterMode::FatalOnly => Some("F"@),
    }
}

impl LevelFilterMode {
    /// Title shown in the level picker.
    pub fn title(self) -> (r: &'static str)
        ensures
            r@ == spec_level_title(self),
    {
        match self {
            LevelFilterMode::ConfigDefault => "Config default",
            LevelFilterMode::All => "All levels",
            LevelFilterMode::ErrorsOnly => "Errors only",
            LevelFilterMode::WarningsPlus => "Warnings + Errors",
            LevelFilterMode::InfoPlus => "Info + Warnings + Errors",
            LevelFilterMode::DebugPlus => "Debug +",
            LevelFilterMode::Verbose => "Verbose",
            LevelFilterMode::FatalOnly => "Fatal only",
        }
    }

    /// Short label shown in the info bar.
    pub fn summary(self) -> (r: &'static str)
        ensures
            r@ == spec_level_summary(self),
    {
        match self {
            LevelFilterMode::ConfigDefault => "config",
            LevelFilterMode::All => "all",
            LevelFilterMode::ErrorsOnly => "errors",
            LevelFilterMode::WarningsPlus => "warn+",
            LevelFilterMode::InfoPlus => "info+",
            LevelFilterMode::DebugPlus => "debug+",
            LevelFilterMode::Verbose => "verbose",
            LevelFilterMode::FatalOnly => "fatal",
        }
    }

    /// Levels this mode accepts.
    pub fn levels(self) -> (r: Option<&'static str>)
        ensures
            match r {
                Some(s) => spec_level_levels(self) == Some(s@),
                None => spec_level_levels(self) is None,
            },
    {
        match self {
            LevelFilterMode::ConfigDefault => None,
            LevelFilterMode::All => Some(""),
            LevelFilterMode::ErrorsOnly => Some("E,F"),
            LevelFilterMode::WarningsPlus => Some("W,E,F"),
            LevelFilterMode::InfoPlus => Some("I,W,E,F"),
            LevelFilterMode::DebugPlus => Some("D,I,W,E,F"),
            LevelFilterMode::Verbose => Some("V,D,I,W,E,F"),
            LevelFilterMode::FatalOnly => Some("F"),
        }
    }
}

/// Number of level filter modes offered.
pub const LEVEL_FILTER_OPTION_COUNT: usize = 8;

/// The level filter modes in picker order.
pub open spec fn spec_level_option(i: int) -> LevelFilterMode {
    if i == 0 {
        LevelFilterMode::ConfigDefault
    } else if i == 1 {
        LevelFilterMode::All
    } else if i == 2 {
        LevelFilterMode::ErrorsOnly
    } else if i == 3 {
        LevelFilterMode::WarningsPlus
    } else if i == 4 {
        LevelFilterMode::InfoPlus
    } else if i == 5 {
        LevelFilterMode::DebugPlus
    } else if i == 6 {
        LevelFilterMode::Verbose
    } else {
        LevelFilterMode::FatalOnly
    }
}

/// The level filter mode at position `i` of the picker.
pub fn level_filter_option(i: usize) -> (r: LevelFilterMode)
    requires
        i < LEVEL_FILTER_OPTION_COUNT,
    ensures
        r == spec_level_option(i as int),
{
    if i == 0 {
        LevelFilterMode::ConfigDefault
    } else if i == 1 {
        LevelFilterMode::All
    } else if i == 2 {
        LevelFilterMode::ErrorsOnly
    } else if i == 3 {
        LevelFilterMode::WarningsPlus
    } else if i == 4 {
        LevelFilterMode::InfoPlus
    } else if i == 5 {
        LevelFilterMode::DebugPlus
    } else if i == 6 {
        LevelFilterMode::Verbose
    } else {
        LevelFilterMode::FatalOnly
    }
}

/// Position of a mode in the picker.
pub open spec fn spec_level_position(m: LevelFilterMode) -> int {
    match m {
        LevelFilterMode::ConfigDefault => 0,
        LevelFilterMode::All => 1,
        LevelFilterMode::ErrorsOnly => 2,
        LevelFilterMode::WarningsPlus => 3,
        LevelFilterMode::InfoPlus => 4,
        LevelFilterMode::DebugPlus => 5,
        LevelFilterMode::Verbose => 6,
        LevelFilterMode::FatalOnly => 7,
    }
}

/// Position of a mode among the picker options.
pub fn level_filter_position(m: LevelFilterMode) -> (r: usize)
    ensures
        r == spec_level_position(m),
        r < LEVEL_FILTER_OPTION_COUNT,
        spec_level_option(r as int) == m,
{
    match m {
        LevelFilterMode::ConfigDefault => 0,
        LevelFilterMode::All => 1,
        LevelFilterMode::ErrorsOnly => 2,
        LevelFilterMode::WarningsPlus => 3,
        LevelFilterMode::InfoPlus => 4,
        LevelFilterMode::DebugPlus => 5,
        LevelFilterMode::Verbose => 6,
        LevelFilterMode::FatalOnly => 7,
    }
}

// ─── build variants ──────────────────────────────────────────────────────────

/// A variant offered in the picker: label, assemble task, install task.
pub open spec fn triple_views(v: Seq<(String, String, String)>) -> Seq<
    (Seq<char>, Seq<char>, Seq<char>),
> {
    v.map_values(|t: (String, String, String)| (t.0@, t.1@, t.2@))
}

/// One `<Flavor>Debug` variant per flavor, in order.
pub open spec fn flavor_variants(names: Seq<Seq<char>>) -> Seq<(Seq<char>, Seq<char>, Seq<char>)>
    decreases names.len(),
{
    if names.len() == 0 {
        seq![]
    } else {
        let seg = crate::project::spec_capitalize(names.last());
        flavor_variants(names.drop_last()).push(
            (seg + "Debug"@, "assemble"@ + seg + "Debug"@, "install"@ + seg + "Debug"@),
        )
    }
}

/// The flavor variants whose assemble task differs from `default_assemble`.
pub open spec fn other_variants(
    v: Seq<(Seq<char>, Seq<char>, Seq<char>)>,
    default_assemble: Seq<char>,
) -> Seq<(Seq<char>, Seq<char>, Seq<char>)>
    decreases v.len(),
{
    if v.len() == 0 {
        seq![]
    } else {
        let rest = other_variants(v.drop_last(), default_assemble);
        if v.last().1 != default_assemble {
            rest.push(v.last())
        } else {
            rest
        }
    }
}

/// The selectable `(label, assemble task, install task)` variants.
pub open spec fn spec_variant_list(
    inf: crate::project::InferenceModel,
    default_assemble: Seq<char>,
    default_install: Seq<char>,
) -> Seq<(Seq<char>, Seq<char>, Seq<char>)> {
    if inf.flavor_names.len() == 0 {
        seq![("Debug"@, default_assemble, default_install)]
    } else if inf.flavor_dimensions.len() == 0 {
        flavor_variants(inf.flavor_names).push(("Debug"@, "assembleDebug"@, "installDebug"@))
    } else {
        seq![(inf.variant_summary, default_assemble, default_install)] + other_variants(
            flavor_variants(inf.flavor_names),
            default_assemble,
        )
    }
}

fn debug_variant(seg: &Vec<char>) -> (r: (String, String, String))
    ensures
        (r.0@, r.1@, r.2@) == (seg@ + "Debug"@, "assemble"@ + seg@ + "Debug"@, "install"@ + seg@
            + "Debug"@),
{
    let debug = text::to_chars("Debug");
    let label = text::concat(seg, &debug);
    let a = text::concat(&text::concat(&text::to_chars("assemble"), seg), &debug);
    let i = text::concat(&text::concat(&text::to_chars("install"), seg), &debug);
    (text::to_string(&label), text::to_string(&a), text::to_string(&i))
}

/// Build a list of selectable `(label, assemble_task, install_task)` variants.
pub fn build_variant_list(
    inference: &ProjectInference,
    default_assemble: &str,
    default_install: &str,
) -> (r: Vec<(String, String, String)>)
    ensures
        triple_views(r@) == spec_variant_list(inference@, default_assemble@, default_install@),
{
    let mut out: Vec<(String, String, String)> = Vec::new();
    if inference.flavor_names.len() == 0 {
        out.push(("Debug".to_owned(), default_assemble.to_owned(), default_install.to_owned()));
        assert(triple_views(out@) =~= seq![("Debug"@, default_assemble@, default_install@)]);
        return out;
    }
    let with_dims = inference.flavor_dimensions.len() > 0;
    if with_dims {
        out.push(
            (
                inference.variant_summary.clone(),
                default_assemble.to_owned(),
                default_install.to_owned(),
            ),
        );
    }
    let ghost head = triple_views(out@);
    let ghost names = text::strs(inference.flavor_names@);
    let da = text::to_chars(default_assemble);
    let mut i: usize = 0;
    assert(names.subrange(0, 0) =~= Seq::<Seq<char>>::empty());
    assert(triple_views(out@) =~= head + Seq::<(Seq<char>, Seq<char>, Seq<char>)>::empty());
    while i < inference.flavor_names.len()
        invariant
            i <= inference.flavor_names.len(),
            names == text::strs(inference.flavor_names@),
            da@ == default_assemble@,
            with_dims == (inference.flavor_dimensions@.len() > 0),
            with_dims ==> triple_views(out@) == head + other_variants(
                flavor_variants(names.subrange(0, i as int)),
                default_assemble@,
            ),
            !with_dims ==> triple_views(out@) == head + flavor_variants(names.subrange(0, i as int)),
        decreases inference.flavor_names.len() - i,
    {
        let ghost sub = names.subrange(0, i + 1);
        assert(sub.drop_last() =~= names.subrange(0, i as int));
        assert(sub.last() == inference.flavor_names@[i as int]@);
        let seg = text::to_chars(crate::project::capitalize(inference.flavor_names[i].as_str()).as_str());
        let v = debug_variant(&seg);
        let ghost before = triple_views(out@);
        let ghost vv = (v.0@, v.1@, v.2@);
        let ghost fv = flavor_variants(sub);
        assert(fv == flavor_variants(names.subrange(0, i as int)).push(vv));
        assert(fv.drop_last() =~= flavor_variants(names.subrange(0, i as int)));
        assert(fv.last() == vv);
        if !with_dims || !text::chars_eq(&text::string_chars(&v.1), &da) {
            out.push(v);
            assert(triple_views(out@) =~= before.push(vv));
        }
        i = i + 1;
    }
    assert(names.subrange(0, inference.flavor_names.len() as int) =~= names);
    if !with_dims {
        let ghost before = triple_views(out@);
        out.push(("Debug".to_owned(), "assembleDebug".to_owned(), "installDebug".to_owned()));
        assert(triple_views(out@) =~= before.push(("Debug"@, "assembleDebug"@, "installDebug"@)));
        assert(head =~= Seq::<(Seq<char>, Seq<char>, Seq<char>)>::empty());
    }
    out
}

// ─── packages ────────────────────────────────────────────────────────────────

/// The packages to watch: configured `packages`, else the configured `package`, else the
/// inferred application IDs.
pub open spec fn spec_effective_packages(
    config: MergedConfig,
    inferred: Seq<Seq<char>>,
) -> Seq<Seq<char>> {
    match config.project.packages {
        Some(p) if p@.len() > 0 => text::strs(p@),
        _ => match config.project.package {
            Some(p) if p@.len() > 0 => seq![p@],
            _ => inferred,
        },
    }
}

fn clone_strings(v: &Vec<String>) -> (r: Vec<String>)
    ensures
        text::strs(r@) == text::strs(v@),
{
    let mut out: Vec<String> = Vec::new();
    let mut i: usize = 0;
    while i < v.len()
        invariant
            i <= v.len(),
            text::strs(out@) == text::strs(v@).subrange(0, i as int),
        decreases v.len() - i,
    {
        let ghost before = text::strs(out@);
        out.push(v[i].clone());
        assert(text::strs(out@) =~= before.push(v@[i as int]@));
        assert(text::strs(v@).subrange(0, i + 1) =~= text::strs(v@).subrange(0, i as int).push(
            v@[i as int]@,
        ));
        i = i + 1;
    }
    assert(text::strs(v@).subrange(0, v.len() as int) =~= text::strs(v@));
    out
}

/// The packages to watch: config overrides Gradle inference.
pub fn effective_package_list(config: &MergedConfig, inference: &ProjectInference) -> (r: Vec<
    String,
>)
    ensures
        text::strs(r@) == spec_effective_packages(*config, inference@.application_ids),
{
    if let Some(pkgs) = &config.project.packages {
        if pkgs.len() > 0 {
            return clone_strings(pkgs);
        }
    }
    if let Some(p) = &config.project.package {
        if !p.as_str().is_empty() {
            let mut v: Vec<String> = Vec::new();
            v.push(p.clone());
            assert(text::strs(v@) =~= seq![p@]);
            return v;
        }
    }
    clone_strings(&inference.application_ids)
}

} // verus!

verus! {

/// Two entries show the same line: raw text, timestamp, pid, tag, level and message agree.
pub open spec fn spec_same_log_entry(a: crate::logcat::LogEntryModel, b: crate::logcat::LogEntryModel) -> bool {
    a.raw == b.raw && a.timestamp == b.timestamp && a.pid == b.pid && a.tag == b.tag && a.level
        == b.level && a.message == b.message
}

/// Whether two entries show the same line.
pub fn same_log_entry(a: &LogEntry, b: &LogEntry) -> (r: bool)
    ensures
        r == spec_same_log_entry(a@, b@),
{
    a.raw == b.raw && a.timestamp == b.timestamp && a.pid == b.pid && a.tag == b.tag && a.level
        == b.level && a.message == b.message
}

/// Index of the first device with serial `s`, if any.
pub open spec fn spec_position(devices: Seq<crate::adb::DeviceModel>, s: Seq<char>) -> Option<int>
    decreases devices.len(),
{
    if devices.len() == 0 {
        None
    } else if devices[0].serial == s {
        Some(0)
    } else {
        match spec_position(devices.drop_first(), s) {
            Some(k) => Some(k + 1),
            None => None,
        }
    }
}

/// The device to select after a refresh: the previously selected serial if still present,
/// else the preferred serial if present, else the previous index clamped to the list.
pub open spec fn spec_preferred_device_index(
    devices: Seq<crate::adb::DeviceModel>,
    previous_serial: Option<Seq<char>>,
    preferred_serial: Option<Seq<char>>,
    previous_selected: int,
) -> int {
    let by_prev = match previous_serial {
        Some(s) => spec_position(devices, s),
        None => None,
    };
    let by_pref = match preferred_serial {
        Some(s) => spec_position(devices, s),
        None => None,
    };
    match by_prev {
        Some(k) => k,
        None => match by_pref {
            Some(k) => k,
            None => {
                let last = if devices.len() == 0 { 0 } else { devices.len() - 1 };
                if previous_selected < last { previous_selected } else { last }
            },
        },
    }
}

proof fn lemma_position(devices: Seq<crate::adb::DeviceModel>, s: Seq<char>)
    ensures
        spec_position(devices, s) matches Some(k) ==> 0 <= k < devices.len() && devices[k].serial
            == s && forall|j: int| 0 <= j < k ==> devices[j].serial != s,
        spec_position(devices, s) is None ==> forall|j: int|
            0 <= j < devices.len() ==> devices[j].serial != s,
    decreases devices.len(),
{
    if devices.len() > 0 && devices[0].serial != s {
        lemma_position(devices.drop_first(), s);
        assert forall|j: int| 0 < j < devices.len() implies devices[j] == devices.drop_first()[j
            - 1] by {}
    }
}

pub(crate) fn position(devices: &[Device], s: &str) -> (r: Option<usize>)
    ensures
        r matches Some(k) ==> spec_position(crate::adb::device_views(devices@), s@) == Some(k as int),
        r is None ==> spec_position(crate::adb::device_views(devices@), s@) is None,
{
    let ghost dv = crate::adb::device_views(devices@);
    proof {
        lemma_position(dv, s@);
    }
    let target = s.to_owned();
    let mut i: usize = 0;
    while i < devices.len()
        invariant
            i <= devices.len(),
            dv == crate::adb::device_views(devices@),
            target@ == s@,
            forall|j: int| 0 <= j < i ==> dv[j].serial != s@,
        decreases devices.len() - i,
    {
        assert(dv[i as int] == devices@[i as int]@);
        if devices[i].serial == target {
            proof {
                lemma_position(dv, s@);
            }
            return Some(i);
        }
        i = i + 1;
    }
    proof {
        lemma_position(dv, s@);
    }
    None
}

/// The device to select after a device-list refresh.
pub fn preferred_device_index(
    devices: &[Device],
    previous_serial: Option<&str>,
    preferred_serial: Option<&str>,
    previous_selected: usize,
) -> (r: usize)
    ensures
        r == spec_preferred_device_index(
            crate::adb::device_views(devices@),
            match previous_serial {
                Some(s) => Some(s@),
                None => None,
            },
            match preferred_serial {
                Some(s) => Some(s@),
                None => None,
            },
            previous_selected as int,
        ),
        devices@.len() > 0 ==> r < devices@.len(),
{
    proof {
        if let Some(s) = previous_serial {
            lemma_position(crate::adb::device_views(devices@), s@);
        }
        if let Some(s) = preferred_serial {
            lemma_position(crate::adb::device_views(devices@), s@);
        }
    }
    if let Some(serial) = previous_serial {
        if let Some(idx) = position(devices, serial) {
            return idx;
        }
    }
    if let Some(serial) = preferred_serial {
        if let Some(idx) = position(devices, serial) {
            return idx;
        }
    }
    let last = if devices.len() == 0 {
        0
    } else {
        devices.len() - 1
    };
    if previous_selected < last {
        previous_selected
    } else {
        last
    }
}

/// Offset from the bottom, counted in visible entries after it, of the last visible entry
/// that shows the same line as `target`, scanning `lines[..i]` from its end.
pub open spec fn scroll_from(
    lines: Seq<crate::logcat::LogEntryModel>,
    target: crate::logcat::LogEntryModel,
    vis: Seq<bool>,
    i: int,
    count: int,
) -> Option<int>
    decreases i,
{
    if i <= 0 {
        None
    } else if !vis[i - 1] {
        scroll_from(lines, target, vis, i - 1, count)
    } else if spec_same_log_entry(lines[i - 1], target) {
        Some(count)
    } else {
        scroll_from(lines, target, vis, i - 1, count + 1)
    }
}

/// Views of a sequence of log entries.
pub open spec fn entry_views(v: Seq<LogEntry>) -> Seq<crate::logcat::LogEntryModel> {
    v.map_values(|e: LogEntry| e@)
}

/// `vis` has an answer of `f` for each entry, those from `lo` on given by calls of `f`.
pub open spec fn visibility_observed<F: Fn(&LogEntry) -> bool>(
    f: F,
    lines: Seq<LogEntry>,
    vis: Seq<bool>,
    lo: int,
) -> bool {
    &&& 0 <= lo <= lines.len()
    &&& vis.len() == lines.len()
    &&& forall|k: int| lo <= k < lines.len() ==> f.ensures((&lines[k],), #[trigger] vis[k])
}

/// Scroll offset (from the tail) that brings `target` into view: the number of visible
/// entries after the last visible entry showing the same line. Visibility is asked of
/// `is_visible` for the entries scanned, from the tail up to the match: the answers are
/// those of the entries from `lo` on, where `lo` is the matching entry, or the first entry
/// when none matches.
pub fn scroll_offset_to_entry<F>(log_lines: &[LogEntry], target: &LogEntry, is_visible: F) -> (r:
    Option<usize>) where F: Fn(&LogEntry) -> bool
    requires
        forall|e: &LogEntry| #[trigger] is_visible.requires((e,)),
    ensures
        exists|vis: Seq<bool>, lo: int|
            {
                &&& #[trigger] visibility_observed(is_visible, log_lines@, vis, lo)
                &&& r is None ==> lo == 0
                &&& r is Some ==> lo < log_lines@.len() && vis[lo] && spec_same_log_entry(
                    log_lines@[lo]@,
                    target@,
                )
                &&& forall|k: int|
                    lo < k < log_lines@.len() ==> !(vis[k] && spec_same_log_entry(
                        #[trigger] log_lines@[k]@,
                        target@,
                    ))
                &&& forall|vis2: Seq<bool>|
                    vis2.len() == vis.len() && (forall|k: int| lo <= k < vis.len() ==> vis2[k] == vis[k])
                        ==> #[trigger] scroll_from(
                        entry_views(log_lines@),
                        target@,
                        vis2,
                        log_lines@.len() as int,
                        0,
                    ) == scroll_from(entry_views(log_lines@), target@, vis, log_lines@.len() as int, 0)
                &&& match r {
                    Some(n) => scroll_from(
                        entry_views(log_lines@),
                        target@,
                        vis,
                        log_lines@.len() as int,
                        0,
                    ) == Some(n as int),
                    None => scroll_from(
                        entry_views(log_lines@),
                        target@,
                        vis,
                        log_lines@.len() as int,
                        0,
                    ) is None,
                }
            },
{
    let ghost lv = entry_views(log_lines@);
    let ghost n = log_lines@.len() as int;
    let ghost mut vis: Seq<bool> = Seq::new(log_lines@.len(), |k: int| false);
    let mut visible_after: usize = 0;
    let mut i: usize = log_lines.len();
    while i > 0
        invariant
            i <= n,
            n == log_lines@.len(),
            vis.len() == n,
            lv == entry_views(log_lines@),
            visible_after <= n - i,
            forall|e: &LogEntry| #[trigger] is_visible.requires((e,)),
            forall|k: int| i <= k < n ==> is_visible.ensures((&log_lines@[k],), #[trigger] vis[k]),
            forall|k: int|
                i <= k < n ==> !(vis[k] && spec_same_log_entry(#[trigger] log_lines@[k]@, target@)),
            forall|vis2: Seq<bool>|
                vis2.len() == n && (forall|k: int| i <= k < n ==> vis2[k] == vis[k]) ==> #[trigger] scroll_from(
                    lv,
                    target@,
                    vis2,
                    n,
                    0,
                ) == scroll_from(lv, target@, vis2, i as int, visible_after as int),
        decreases i,
    {
        let entry = &log_lines[i - 1];
        let v = is_visible(entry);
        let ghost old_vis = vis;
        let ghost old_i = i as int;
        let ghost old_after = visible_after as int;
        proof {
            vis = vis.update(i - 1, v);
            assert(lv[i - 1] == log_lines@[i - 1]@);
        }
        let same = same_log_entry(entry, target);
        if v && same {
            proof {
                assert(scroll_from(lv, target@, vis, n, 0) == scroll_from(lv, target@, vis, old_i, old_after));
            }
            assert(visibility_observed(is_visible, log_lines@, vis, old_i - 1));
            assert forall|vis2: Seq<bool>|
                vis2.len() == vis.len() && (forall|k: int| old_i - 1 <= k < vis.len() ==> vis2[k] == vis[k])
                    implies #[trigger] scroll_from(lv, target@, vis2, n, 0) == scroll_from(lv, target@, vis, n, 0) by {
                assert(forall|k: int| old_i <= k < n ==> vis2[k] == old_vis[k]);
                assert(vis2[old_i - 1] == v);
                assert(scroll_from(lv, target@, vis2, n, 0) == scroll_from(lv, target@, vis2, old_i, old_after));
            }
            return Some(visible_after);
        }
        if v {
            visible_after = visible_after + 1;
        }
        i = i - 1;
        proof {
            assert forall|vis2: Seq<bool>|
                vis2.len() == n && (forall|k: int| i <= k < n ==> vis2[k] == vis[k]) implies #[trigger] scroll_from(
                    lv,
                    target@,
                    vis2,
                    n,
                    0,
                ) == scroll_from(lv, target@, vis2, i as int, visible_after as int) by {
                assert(forall|k: int| old_i <= k < n ==> vis2[k] == old_vis[k]);
                assert(vis2[i as int] == v);
            }
        }
    }
    assert(visibility_observed(is_visible, log_lines@, vis, 0));
    assert forall|vis2: Seq<bool>|
        vis2.len() == vis.len() && (forall|k: int| 0 <= k < vis.len() ==> vis2[k] == vis[k])
            implies #[trigger] scroll_from(lv, target@, vis2, n, 0) == scroll_from(lv, target@, vis, n, 0) by {
        assert(vis2 =~= vis);
    }
    None
}

} // verus!

verus! {

/// Bytes left as they are in a URL query: ASCII letters, digits and `-_.~`.
pub open spec fn is_unreserved(b: u8) -> bool {
    (65u8 <= b && b <= 90u8) || (97u8 <= b && b <= 122u8) || (48u8 <= b && b <= 57u8) || b == 45u8
        || b == 95u8 || b == 46u8 || b == 126u8
}

/// Uppercase hexadecimal digit for `n < 16`.
pub open spec fn hex_digit(n: u8) -> char {
    if n < 10 {
        ((48u8 + n) as u8) as char
    } else {
        ((65u8 + (n - 10)) as u8) as char
    }
}

/// Percent-encoding of one byte.
pub open spec fn encode_byte(b: u8) -> Seq<char> {
    if is_unreserved(b) {
        seq![b as char]
    } else {
        seq!['%', hex_digit(b / 16), hex_digit(b % 16)]
    }
}

/// Percent-encoding of a byte string.
pub open spec fn spec_url_encode(bytes: Seq<u8>) -> Seq<char>
    decreases bytes.len(),
{
    if bytes.len() == 0 {
        seq![]
    } else {
        spec_url_encode(bytes.drop_last()) + encode_byte(bytes.last())
    }
}

fn hex_digit_exec(n: u8) -> (r: char)
    requires
        n < 16,
    ensures
        r == hex_digit(n),
{
    if n < 10 {
        (48u8 + n) as char
    } else {
        (65u8 + (n - 10)) as char
    }
}

/// Percent-encode the UTF-8 bytes of `s` for a URL query.
pub fn url_encode_query(s: &str) -> (r: String)
    ensures
        r@ == spec_url_encode(vstd::utf8::encode_utf8(s@)),
{
    let bytes = s.as_bytes();
    let mut out: Vec<char> = Vec::new();
    let mut i: usize = 0;
    assert(bytes@.subrange(0, 0) =~= Seq::<u8>::empty());
    while i < bytes.len()
        invariant
            i <= bytes@.len(),
            bytes@ == vstd::utf8::encode_utf8(s@),
            out@ == spec_url_encode(bytes@.subrange(0, i as int)),
        decreases bytes.len() - i,
    {
        let b = bytes[i];
        let ghost sub = bytes@.subrange(0, i + 1);
        assert(sub.drop_last() =~= bytes@.subrange(0, i as int));
        let ghost before = out@;
        if (65u8 <= b && b <= 90u8) || (97u8 <= b && b <= 122u8) || (48u8 <= b && b <= 57u8) || b
            == 45u8 || b == 95u8 || b == 46u8 || b == 126u8 {
            out.push(b as char);
            assert(out@ =~= before + encode_byte(b));
        } else {
            out.push('%');
            out.push(hex_digit_exec(b / 16));
            out.push(hex_digit_exec(b % 16));
            assert(out@ =~= before + encode_byte(b));
        }
        i = i + 1;
    }
    assert(bytes@.subrange(0, bytes@.len() as int) =~= bytes@);
    text::to_string(&out)
}

/// The `"applicationId"` string value of Gradle's `output-metadata.json`, when non-empty.
pub open spec fn spec_application_id_from_metadata(json: Seq<char>) -> Option<Seq<char>> {
    let key = "\"applicationId\""@;
    match text::spec_find(json, key) {
        None => None,
        Some(start) => {
            let after_key = json.subrange(start + key.len(), json.len() as int);
            match text::spec_find(after_key, ":"@) {
                None => None,
                Some(colon) => {
                    let after_colon = text::spec_trim_start(
                        after_key.subrange(colon + 1, after_key.len() as int),
                    );
                    if after_colon.len() > 0 && after_colon[0] == '"' {
                        let inner = after_colon.subrange(1, after_colon.len() as int);
                        match text::spec_find(inner, "\""@) {
                            None => None,
                            Some(end) => {
                                let pkg = text::spec_trim(inner.subrange(0, end));
                                if pkg.len() > 0 {
                                    Some(pkg)
                                } else {
                                    None
                                }
                            },
                        }
                    } else {
                        None
                    }
                },
            }
        },
    }
}

/// Extract `"applicationId": "com.example.app"` from Gradle's output metadata with a
/// linear scan.
pub fn extract_application_id_from_metadata(json: &str) -> (r: Option<String>)
    ensures
        r matches Some(p) ==> spec_application_id_from_metadata(json@) == Some(p@),
        r is None ==> spec_application_id_from_metadata(json@) is None,
{
    let j = text::to_chars(json);
    let key = text::to_chars("\"applicationId\"");
    let colon_pat = text::to_chars(":");
    let quote = text::to_chars("\"");
    proof {
        reveal_strlit(":");
        reveal_strlit("\"");
        text::lemma_find_contains(j@, key@);
    }
    let start = match text::find(&j, &key) {
        Some(s) => s,
        None => return None,
    };
    assert(text::occurs_at(j@, key@, start as int));
    let klen = key.len();
    assert(start + klen <= j.len());
    let from: usize = start + klen;
    let after_key = text::slice(&j, from, j.len());
    proof {
        text::lemma_find_contains(after_key@, colon_pat@);
    }
    let colon = match text::find(&after_key, &colon_pat) {
        Some(c) => c,
        None => return None,
    };
    let after_colon = text::trim_start(&text::slice(&after_key, colon + 1, after_key.len()));
    if after_colon.len() > 0 && after_colon[0] == '"' {
        let inner = text::slice(&after_colon, 1, after_colon.len());
        proof {
            text::lemma_find_contains(inner@, quote@);
        }
        let end = match text::find(&inner, &quote) {
            Some(e) => e,
            None => return None,
        };
        let pkg = text::trim(&text::slice(&inner, 0, end));
        if pkg.len() > 0 {
            return Some(text::to_string(&pkg));
        }
    }
    None
}

} // verus!

verus! {

/// Ranking of a package against a search query; smaller ranks first.
#[derive(Debug, Clone, Copy, PartialEq, Eq, PartialOrd, Ord)]
pub struct PackageMatchScore {
    pub tier: u8,
    pub metric: usize,
    pub len: usize,
}

/// Index of the first `c` in `s` at or after `start`.
pub open spec fn first_index_from(s: Seq<char>, c: char, start: int) -> Option<int>
    decreases s.len() - start,
{
    if start < 0 || start >= s.len() {
        None
    } else if s[start] == c {
        Some(start)
    } else {
        first_index_from(s, c, start + 1)
    }
}

/// Byte offset of character `i` of `s`.
pub open spec fn byte_at(s: Seq<char>, i: int) -> int {
    text::byte_len(s.subrange(0, i)) as int
}

/// Total byte gap of a greedy subsequence match of `q` in `s` from character `start`,
/// where `last` is the byte just past the previous matched character.
pub open spec fn fuzzy_cost(s: Seq<char>, q: Seq<char>, start: int, last: int) -> Option<int>
    decreases q.len(),
{
    if q.len() == 0 {
        Some(0)
    } else {
        match first_index_from(s, q[0], start) {
            None => None,
            Some(idx) => {
                let b = byte_at(s, idx);
                let gap = if b >= last { b - last } else { 0 };
                match fuzzy_cost(s, q.drop_first(), idx + 1, b + text::utf8_len(s[idx])) {
                    None => None,
                    Some(c) => Some(gap + c),
                }
            },
        }
    }
}

/// How `pkg` matches the (lowercase) query: `(tier, metric, len)`, where tier 0 is a prefix
/// match, tier 1 a substring match at byte `metric`, tier 2 a fuzzy subsequence match with
/// `metric` bytes of gaps; lengths in bytes. `None` when the query does not match.
pub open spec fn spec_package_match_score(pkg: Seq<char>, query: Seq<char>) -> Option<
    (int, int, int),
> {
    if query.len() == 0 {
        Some((0, 0, text::byte_len(pkg) as int))
    } else {
        let lower = text::spec_to_lowercase(pkg);
        let total = text::byte_len(lower) as int;
        if text::spec_starts_with(lower, query) {
            let ql = text::byte_len(query) as int;
            Some((0, if total >= ql { total - ql } else { 0 }, total))
        } else {
            match text::spec_find(lower, query) {
                Some(pos) => Some((1, byte_at(lower, pos), total)),
                None => match fuzzy_cost(lower, query, 0, 0) {
                    Some(c) => Some((2, c, total)),
                    None => None,
                },
            }
        }
    }
}

proof fn lemma_byte_at_step(s: Seq<char>, i: int)
    requires
        0 <= i < s.len(),
    ensures
        byte_at(s, i + 1) == byte_at(s, i) + text::utf8_len(s[i]),
{
    assert(s.subrange(0, i + 1) =~= s.subrange(0, i).push(s[i]));
    text::lemma_byte_len_push(s.subrange(0, i), s[i]);
}

proof fn lemma_byte_at_mono(s: Seq<char>, i: int, j: int)
    requires
        0 <= i <= j <= s.len(),
    ensures
        byte_at(s, i) <= byte_at(s, j),
        byte_at(s, j) <= text::byte_len(s),
{
    text::lemma_byte_len_concat(s.subrange(0, i), s.subrange(i, j));
    assert(s.subrange(0, i) + s.subrange(i, j) =~= s.subrange(0, j));
    text::lemma_byte_len_concat(s.subrange(0, j), s.subrange(j, s.len() as int));
    assert(s.subrange(0, j) + s.subrange(j, s.len() as int) =~= s);
}

proof fn lemma_first_index(s: Seq<char>, c: char, start: int)
    requires
        0 <= start,
    ensures
        first_index_from(s, c, start) matches Some(k) ==> start <= k < s.len() && s[k] == c && forall|
            j: int,
        | start <= j < k ==> s[j] != c,
    decreases s.len() - start,
{
    if start < s.len() && s[start] != c {
        lemma_first_index(s, c, start + 1);
    }
}

proof fn lemma_fuzzy_bound(s: Seq<char>, q: Seq<char>, start: int, last: int)
    requires
        0 <= start <= s.len(),
        0 <= last <= byte_at(s, start),
    ensures
        fuzzy_cost(s, q, start, last) matches Some(c) ==> c + last <= text::byte_len(s),
    decreases q.len(),
{
    lemma_byte_at_mono(s, start, s.len() as int);
    assert(s.subrange(0, s.len() as int) =~= s);
    if q.len() > 0 {
        lemma_first_index(s, q[0], start);
        if let Some(idx) = first_index_from(s, q[0], start) {
            lemma_byte_at_mono(s, start, idx);
            lemma_byte_at_step(s, idx);
            lemma_fuzzy_bound(s, q.drop_first(), idx + 1, byte_at(s, idx) + text::utf8_len(s[idx]));
        }
    }
}

fn fuzzy_match_cost(lower: &Vec<char>, total: usize, query: &Vec<char>) -> (r: Option<usize>)
    requires
        total as int == text::byte_len(lower@),
    ensures
        r matches Some(c) ==> fuzzy_cost(lower@, query@, 0, 0) == Some(c as int),
        r is None ==> fuzzy_cost(lower@, query@, 0, 0) is None,
{
    let mut ci: usize = 0;
    let mut cb: usize = 0;
    let mut last: usize = 0;
    let mut gap: usize = 0;
    let mut qi: usize = 0;
    assert(lower@.subrange(0, 0) =~= Seq::<char>::empty());
    assert(query@.subrange(0, query@.len() as int) =~= query@);
    while qi < query.len()
        invariant
            qi <= query.len(),
            ci <= lower.len(),
            total as int == text::byte_len(lower@),
            cb as int == byte_at(lower@, ci as int),
            gap <= last <= cb,
            fuzzy_cost(lower@, query@, 0, 0) == match fuzzy_cost(
                lower@,
                query@.subrange(qi as int, query.len() as int),
                ci as int,
                last as int,
            ) {
                Some(c) => Some(gap + c),
                None => None,
            },
        decreases query.len() - qi,
    {
        let qc = query[qi];
        let ghost ci0 = ci as int;
        let ghost sub = query@.subrange(qi as int, query.len() as int);
        assert(sub[0] == qc);
        assert(sub.drop_first() =~= query@.subrange(qi + 1, query.len() as int));
        while ci < lower.len() && lower[ci] != qc
            invariant
                ci0 <= ci <= lower.len(),
                total as int == text::byte_len(lower@),
                cb as int == byte_at(lower@, ci as int),
                first_index_from(lower@, qc, ci0) == first_index_from(lower@, qc, ci as int),
                gap <= last <= cb,
                qi < query.len(),
                qc == query@[qi as int],
                sub == query@.subrange(qi as int, query.len() as int),
                fuzzy_cost(lower@, query@, 0, 0) == match fuzzy_cost(lower@, sub, ci0, last as int) {
                    Some(c) => Some(gap + c),
                    None => None,
                },
            decreases lower.len() - ci,
        {
            let w = text::char_len_utf8(lower[ci]);
            proof {
                lemma_byte_at_step(lower@, ci as int);
                lemma_byte_at_mono(lower@, ci + 1, lower.len() as int);
                assert(lower@.subrange(0, lower.len() as int) =~= lower@);
            }
            cb = cb + w;
            ci = ci + 1;
        }
        proof {
            lemma_first_index(lower@, qc, ci0);
        }
        if ci == lower.len() {
            return None;
        }
        let w = text::char_len_utf8(lower[ci]);
        proof {
            lemma_byte_at_step(lower@, ci as int);
            lemma_byte_at_mono(lower@, ci + 1, lower.len() as int);
            assert(lower@.subrange(0, lower.len() as int) =~= lower@);
        }
        gap = gap + (cb - last);
        last = cb + w;
        cb = last;
        ci = ci + 1;
        qi = qi + 1;
    }
    assert(query@.subrange(qi as int, query.len() as int) =~= Seq::<char>::empty());
    Some(gap)
}

/// Rank `pkg` against a lowercase search query; `None` when it does not match at all.
pub fn package_match_score(pkg: &str, query: &str) -> (r: Option<PackageMatchScore>)
    ensures
        match r {
            Some(s) => spec_package_match_score(pkg@, query@) == Some(
                (s.tier as int, s.metric as int, s.len as int),
            ),
            None => spec_package_match_score(pkg@, query@) is None,
        },
{
    if query.is_empty() {
        return Some(PackageMatchScore { tier: 0, metric: 0, len: text::str_byte_len(pkg) });
    }
    let lower_s = text::to_lowercase(pkg);
    let lower = text::string_chars(&lower_s);
    let total = text::str_byte_len(lower_s.as_str());
    let q = text::to_chars(query);
    if text::starts_with(&lower, &q) {
        let ql = text::str_byte_len(query);
        let metric = if total >= ql {
            total - ql
        } else {
            0
        };
        return Some(PackageMatchScore { tier: 0, metric, len: total });
    }
    proof {
        text::lemma_find_contains(lower@, q@);
    }
    if let Some(pos) = text::find(&lower, &q) {
        let off = text::byte_offset(&lower, pos, total);
        return Some(PackageMatchScore { tier: 1, metric: off, len: total });
    }
    match fuzzy_match_cost(&lower, total, &q) {
        Some(c) => Some(PackageMatchScore { tier: 2, metric: c, len: total }),
        None => None,
    }
}

} // verus!

verus! {

/// Each element at its first occurrence only, in order.
pub open spec fn first_occurrences(s: Seq<Seq<char>>) -> Seq<Seq<char>>
    decreases s.len(),
{
    if s.len() == 0 {
        seq![]
    } else {
        let rest = first_occurrences(s.drop_last());
        if rest.contains(s.last()) {
            rest
        } else {
            rest.push(s.last())
        }
    }
}

/// Configured, inferred and installed packages together: each once, in that priority order.
pub fn merge_known_packages(
    effective_packages: &[String],
    inferred_packages: &[String],
    installed_packages: &[String],
) -> (r: Vec<String>)
    ensures
        text::strs(r@) == first_occurrences(
            text::strs(effective_packages@) + text::strs(inferred_packages@) + text::strs(
                installed_packages@,
            ),
        ),
{
    let ghost all = text::strs(effective_packages@) + text::strs(inferred_packages@) + text::strs(
        installed_packages@,
    );
    let mut all_v: Vec<Vec<char>> = text::strings_chars(effective_packages);
    let inf = text::strings_chars(inferred_packages);
    let ins = text::strings_chars(installed_packages);
    let mut k: usize = 0;
    while k < inf.len()
        invariant
            k <= inf.len(),
            text::views(all_v@) == text::strs(effective_packages@) + text::views(inf@).subrange(
                0,
                k as int,
            ),
        decreases inf.len() - k,
    {
        let ghost b = text::views(all_v@);
        all_v.push(inf[k].clone());
        assert(text::views(all_v@) =~= b.push(inf@[k as int]@));
        assert(text::views(inf@).subrange(0, k + 1) =~= text::views(inf@).subrange(0, k as int).push(
            inf@[k as int]@,
        ));
        k = k + 1;
    }
    assert(text::views(inf@).subrange(0, inf.len() as int) =~= text::views(inf@));
    let mut k: usize = 0;
    let ghost mid = text::views(all_v@);
    while k < ins.len()
        invariant
            k <= ins.len(),
            text::views(all_v@) == mid + text::views(ins@).subrange(0, k as int),
        decreases ins.len() - k,
    {
        let ghost b = text::views(all_v@);
        all_v.push(ins[k].clone());
        assert(text::views(all_v@) =~= b.push(ins@[k as int]@));
        assert(text::views(ins@).subrange(0, k + 1) =~= text::views(ins@).subrange(0, k as int).push(
            ins@[k as int]@,
        ));
        k = k + 1;
    }
    assert(text::views(ins@).subrange(0, ins.len() as int) =~= text::views(ins@));
    assert(text::views(all_v@) =~= all);
    let mut merged: Vec<Vec<char>> = Vec::new();
    let mut i: usize = 0;
    assert(all.subrange(0, 0) =~= Seq::<Seq<char>>::empty());
    assert(text::views(merged@) =~= Seq::<Seq<char>>::empty());
    while i < all_v.len()
        invariant
            i <= all_v.len(),
            text::views(all_v@) == all,
            text::views(merged@) == first_occurrences(all.subrange(0, i as int)),
        decreases all_v.len() - i,
    {
        let ghost sub = all.subrange(0, i + 1);
        assert(sub.drop_last() =~= all.subrange(0, i as int));
        assert(sub.last() == all_v@[i as int]@);
        let mut seen = false;
        let mut j: usize = 0;
        while j < merged.len()
            invariant
                j <= merged.len(),
                !seen ==> forall|q: int| 0 <= q < j ==> merged@[q]@ != all_v@[i as int]@,
                seen ==> text::views(merged@).contains(all_v@[i as int]@),
                i < all_v.len(),
            decreases merged.len() - j,
        {
            if text::chars_eq(&merged[j], &all_v[i]) {
                seen = true;
                assert(text::views(merged@)[j as int] == all_v@[i as int]@);
            }
            j = j + 1;
        }
        if !seen {
            let ghost b = text::views(merged@);
            assert(!b.contains(all_v@[i as int]@)) by {
                if b.contains(all_v@[i as int]@) {
                    let q = choose|q: int| 0 <= q < b.len() && b[q] == all_v@[i as int]@;
                    assert(merged@[q]@ == b[q]);
                }
            }
            merged.push(all_v[i].clone());
            assert(text::views(merged@) =~= b.push(all_v@[i as int]@));
        }
        i = i + 1;
    }
    assert(all.subrange(0, all_v.len() as int) =~= all);
    text::to_strings(&merged)
}

/// No element occurs twice, and the elements are those of the input.
pub proof fn lemma_first_occurrences(s: Seq<Seq<char>>)
    ensures
        forall|i: int, j: int|
            0 <= i < j < first_occurrences(s).len() ==> first_occurrences(s)[i]
                != first_occurrences(s)[j],
        forall|x: Seq<char>| s.contains(x) <==> first_occurrences(s).contains(x),
    decreases s.len(),
{
    if s.len() > 0 {
        let t = s.drop_last();
        lemma_first_occurrences(t);
        let rest = first_occurrences(t);
        let fs = first_occurrences(s);
        let last = s.last();
        assert(forall|i: int| 0 <= i < rest.len() ==> fs[i] == rest[i]);
        assert forall|x: Seq<char>| s.contains(x) <==> fs.contains(x) by {
            if s.contains(x) {
                let k = choose|k: int| 0 <= k < s.len() && s[k] == x;
                if k < s.len() - 1 {
                    assert(t[k] == x);
                    assert(t.contains(x));
                    assert(rest.contains(x));
                    let m = choose|m: int| 0 <= m < rest.len() && rest[m] == x;
                    assert(fs[m] == x);
                } else if rest.contains(last) {
                    let m = choose|m: int| 0 <= m < rest.len() && rest[m] == last;
                    assert(fs[m] == x);
                } else {
                    assert(fs[rest.len() as int] == x);
                }
            }
            if fs.contains(x) {
                let k = choose|k: int| 0 <= k < fs.len() && fs[k] == x;
                if k < rest.len() {
                    assert(rest[k] == x);
                    assert(rest.contains(x));
                    assert(t.contains(x));
                    let m = choose|m: int| 0 <= m < t.len() && t[m] == x;
                    assert(s[m] == x);
                } else {
                    assert(s[s.len() - 1] == x);
                }
            }
        }
    }
}

/// The known packages, merged, hold each package once and exactly the packages given.
pub proof fn law_merge_known_packages_unique(
    effective: Seq<Seq<char>>,
    inferred: Seq<Seq<char>>,
    installed: Seq<Seq<char>>,
)
    ensures
        ({
            let m = first_occurrences(effective + inferred + installed);
            &&& forall|i: int, j: int| 0 <= i < j < m.len() ==> m[i] != m[j]
            &&& forall|x: Seq<char>|
                m.contains(x) <==> (effective.contains(x) || inferred.contains(x)
                    || installed.contains(x))
            &&& effective.len() > 0 ==> m.len() > 0 && m[0] == effective[0]
        }),
{
    let all = effective + inferred + installed;
    lemma_first_occurrences(all);
    assert forall|x: Seq<char>|
        all.contains(x) <==> (effective.contains(x) || inferred.contains(x) || installed.contains(
            x,
        )) by {
        if all.contains(x) {
            let k = choose|k: int| 0 <= k < all.len() && all[k] == x;
            if k < effective.len() {
                assert(effective[k] == x);
            } else if k < effective.len() + inferred.len() {
                assert(inferred[k - effective.len()] == x);
            } else {
                assert(installed[k - effective.len() - inferred.len()] == x);
            }
        }
        if effective.contains(x) {
            let k = choose|k: int| 0 <= k < effective.len() && effective[k] == x;
            assert(all[k] == x);
        }
        if inferred.contains(x) {
            let k = choose|k: int| 0 <= k < inferred.len() && inferred[k] == x;
            assert(all[k + effective.len()] == x);
        }
        if installed.contains(x) {
            let k = choose|k: int| 0 <= k < installed.len() && installed[k] == x;
            assert(all[k + effective.len() + inferred.len()] == x);
        }
    }
    if effective.len() > 0 {
        lemma_first_occurrences_head(all);
        assert(all[0] == effective[0]);
    }
}

proof fn lemma_first_occurrences_head(s: Seq<Seq<char>>)
    requires
        s.len() > 0,
    ensures
        first_occurrences(s).len() > 0,
        first_occurrences(s)[0] == s[0],
    decreases s.len(),
{
    if s.len() == 1 {
        assert(s.drop_last() =~= Seq::<Seq<char>>::empty());
    } else {
        lemma_first_occurrences_head(s.drop_last());
    }
}

} // verus!

verus! {

/// A scored package: `((tier, metric, len), name)`.
pub type ScoredModel = ((int, int, int), Seq<char>);

/// Order of ranked packages: by tier, metric, length, then name.
pub open spec fn scored_lt(a: ScoredModel, b: ScoredModel) -> bool {
    let (x, y) = (a.0, b.0);
    if x.0 != y.0 {
        x.0 < y.0
    } else if x.1 != y.1 {
        x.1 < y.1
    } else if x.2 != y.2 {
        x.2 < y.2
    } else {
        text::seq_lt(a.1, b.1)
    }
}

/// `x` inserted before the first element ranked strictly after it.
pub open spec fn scored_insert(s: Seq<ScoredModel>, x: ScoredModel) -> Seq<ScoredModel>
    decreases s.len(),
{
    if s.len() == 0 {
        seq![x]
    } else if scored_lt(x, s[0]) {
        seq![x] + s
    } else {
        seq![s[0]] + scored_insert(s.drop_first(), x)
    }
}

/// Stable insertion sort by `scored_lt`.
pub open spec fn scored_sort(s: Seq<ScoredModel>) -> Seq<ScoredModel>
    decreases s.len(),
{
    if s.len() == 0 {
        seq![]
    } else {
        scored_insert(scored_sort(s.drop_last()), s.last())
    }
}

/// The packages that match `q`, with their scores, in order.
pub open spec fn scored_packages(pkgs: Seq<Seq<char>>, q: Seq<char>) -> Seq<ScoredModel>
    decreases pkgs.len(),
{
    if pkgs.len() == 0 {
        seq![]
    } else {
        let rest = scored_packages(pkgs.drop_last(), q);
        match spec_package_match_score(pkgs.last(), q) {
            Some(sc) => rest.push((sc, pkgs.last())),
            None => rest,
        }
    }
}

/// The package picker's list: all packages for an empty query, else the matching ones,
/// best match first, ties by name.
pub open spec fn spec_rank_packages(pkgs: Seq<Seq<char>>, input: Seq<char>) -> Seq<Seq<char>> {
    if input.len() == 0 {
        pkgs
    } else {
        scored_sort(scored_packages(pkgs, text::spec_to_lowercase(input))).map_values(
            |e: ScoredModel| e.1,
        )
    }
}

/// Scored packages as models.
pub open spec fn scored_views(v: Seq<(PackageMatchScore, Vec<char>)>) -> Seq<ScoredModel> {
    v.map_values(
        |e: (PackageMatchScore, Vec<char>)|
            ((e.0.tier as int, e.0.metric as int, e.0.len as int), e.1@),
    )
}

fn scored_lt_exec(a: &(PackageMatchScore, Vec<char>), b: &(PackageMatchScore, Vec<char>)) -> (r:
    bool)
    ensures
        r == scored_lt(
            ((a.0.tier as int, a.0.metric as int, a.0.len as int), a.1@),
            ((b.0.tier as int, b.0.metric as int, b.0.len as int), b.1@),
        ),
{
    if a.0.tier != b.0.tier {
        a.0.tier < b.0.tier
    } else if a.0.metric != b.0.metric {
        a.0.metric < b.0.metric
    } else if a.0.len != b.0.len {
        a.0.len < b.0.len
    } else {
        text::chars_lt(&a.1, &b.1)
    }
}

proof fn lemma_scored_insert_at(s: Seq<ScoredModel>, x: ScoredModel, k: int)
    requires
        0 <= k <= s.len(),
        forall|j: int| 0 <= j < k ==> !scored_lt(x, #[trigger] s[j]),
        k < s.len() ==> scored_lt(x, s[k]),
    ensures
        scored_insert(s, x) == s.subrange(0, k) + seq![x] + s.subrange(k, s.len() as int),
    decreases s.len(),
{
    if s.len() == 0 {
        assert(s.subrange(0, k) + seq![x] + s.subrange(k, s.len() as int) =~= seq![x]);
    } else if k == 0 {
        assert(s.subrange(0, k) + seq![x] + s.subrange(k, s.len() as int) =~= seq![x] + s);
    } else {
        let t = s.drop_first();
        assert forall|j: int| 0 <= j < k - 1 implies !scored_lt(x, #[trigger] t[j]) by {
            assert(t[j] == s[j + 1]);
        }
        lemma_scored_insert_at(t, x, k - 1);
        assert(s.subrange(0, k) + seq![x] + s.subrange(k, s.len() as int) =~= seq![s[0]] + (
        t.subrange(0, k - 1) + seq![x] + t.subrange(k - 1, t.len() as int)));
    }
}

fn scored_insert_exec(r: &mut Vec<(PackageMatchScore, Vec<char>)>, x: (PackageMatchScore, Vec<char>))
    ensures
        scored_views(final(r)@) == scored_insert(
            scored_views(old(r)@),
            ((x.0.tier as int, x.0.metric as int, x.0.len as int), x.1@),
        ),
{
    let ghost s = scored_views(r@);
    let ghost xv: ScoredModel = ((x.0.tier as int, x.0.metric as int, x.0.len as int), x.1@);
    let mut k: usize = 0;
    while k < r.len() && !scored_lt_exec(&x, &r[k])
        invariant
            k <= r.len(),
            s == scored_views(r@),
            xv == ((x.0.tier as int, x.0.metric as int, x.0.len as int), x.1@),
            forall|j: int| 0 <= j < k ==> !scored_lt(xv, #[trigger] s[j]),
        decreases r.len() - k,
    {
        k = k + 1;
    }
    proof {
        lemma_scored_insert_at(s, xv, k as int);
    }
    r.insert(k, x);
    assert(scored_views(r@) =~= s.subrange(0, k as int) + seq![xv] + s.subrange(
        k as int,
        s.len() as int,
    ));
}

/// Packages of `all` ranked against the picker's search input.
pub fn rank_packages(all: &Vec<String>, input: &str) -> (r: Vec<String>)
    ensures
        text::strs(r@) == spec_rank_packages(text::strs(all@), input@),
{
    if input.is_empty() {
        return clone_strings(all);
    }
    let q = text::to_lowercase(input);
    let ghost pk = text::strs(all@);
    let mut scored: Vec<(PackageMatchScore, Vec<char>)> = Vec::new();
    let mut i: usize = 0;
    assert(pk.subrange(0, 0) =~= Seq::<Seq<char>>::empty());
    assert(scored_views(scored@) =~= Seq::<ScoredModel>::empty());
    while i < all.len()
        invariant
            i <= all.len(),
            pk == text::strs(all@),
            scored_views(scored@) == scored_sort(scored_packages(pk.subrange(0, i as int), q@)),
        decreases all.len() - i,
    {
        let ghost sub = pk.subrange(0, i + 1);
        assert(sub.drop_last() =~= pk.subrange(0, i as int));
        assert(sub.last() == all@[i as int]@);
        match package_match_score(all[i].as_str(), q.as_str()) {
            Some(sc) => {
                let entry = (sc, text::string_chars(&all[i]));
                let ghost ev: ScoredModel = (
                    (sc.tier as int, sc.metric as int, sc.len as int),
                    all@[i as int]@,
                );
                let ghost rest = scored_packages(pk.subrange(0, i as int), q@);
                assert(scored_packages(sub, q@) == rest.push(ev));
                assert(rest.push(ev).drop_last() =~= rest);
                assert(scored_sort(rest.push(ev)) == scored_insert(scored_sort(rest), ev));
                scored_insert_exec(&mut scored, entry);
            },
            None => {},
        }
        i = i + 1;
    }
    assert(pk.subrange(0, all.len() as int) =~= pk);
    let mut out: Vec<String> = Vec::new();
    let mut j: usize = 0;
    let ghost sv = scored_views(scored@);
    while j < scored.len()
        invariant
            j <= scored.len(),
            sv == scored_views(scored@),
            text::strs(out@) == sv.map_values(|e: ScoredModel| e.1).subrange(0, j as int),
        decreases scored.len() - j,
    {
        let ghost b = text::strs(out@);
        out.push(text::to_string(&scored[j].1));
        assert(text::strs(out@) =~= b.push(scored@[j as int].1@));
        assert(sv.map_values(|e: ScoredModel| e.1).subrange(0, j + 1) =~= sv.map_values(
            |e: ScoredModel| e.1,
        ).subrange(0, j as int).push(scored@[j as int].1@));
        j = j + 1;
    }
    assert(sv.map_values(|e: ScoredModel| e.1).subrange(0, scored.len() as int) =~= sv.map_values(
        |e: ScoredModel| e.1,
    ));
    out
}

} // verus!

verus! {

/// `scored_lt` is asymmetric.
proof fn lemma_scored_lt_asymmetric(a: ScoredModel, b: ScoredModel)
    ensures
        scored_lt(a, b) ==> !scored_lt(b, a),
{
    text::lemma_seq_lt_asymmetric(a.1, b.1);
}

/// Each consecutive pair is in order: the later one does not rank strictly before.
pub open spec fn scored_in_order(s: Seq<ScoredModel>) -> bool {
    forall|i: int, j: int|
        0 <= i && j == i + 1 && j < s.len() ==> !scored_lt(#[trigger] s[j], #[trigger] s[i])
}

/// Inserting keeps consecutive pairs in order and adds exactly the inserted element.
proof fn lemma_scored_insert(s: Seq<ScoredModel>, x: ScoredModel)
    requires
        scored_in_order(s),
    ensures
        scored_in_order(scored_insert(s, x)),
        scored_insert(s, x)[0] == x || (s.len() > 0 && scored_insert(s, x)[0] == s[0]),
        scored_insert(s, x).len() == s.len() + 1,
        forall|y: ScoredModel| #[trigger] scored_insert(s, x).contains(y) ==> s.contains(y) || y == x,
    decreases s.len(),
{
    let r = scored_insert(s, x);
    if s.len() == 0 {
        assert forall|y: ScoredModel| #[trigger] r.contains(y) implies s.contains(y) || y == x by {
            let k = choose|k: int| 0 <= k < r.len() && r[k] == y;
        }
    } else if scored_lt(x, s[0]) {
        assert(r == seq![x] + s);
        assert forall|i: int, j: int| 0 <= i && j == i + 1 && j < r.len() implies !scored_lt(
            #[trigger] r[j],
            #[trigger] r[i],
        ) by {
            if i == 0 {
                lemma_scored_lt_asymmetric(x, s[0]);
            } else {
                assert(r[i] == s[i - 1] && r[j] == s[j - 1]);
            }
        }
        assert forall|y: ScoredModel| #[trigger] r.contains(y) implies s.contains(y) || y == x by {
            let k = choose|k: int| 0 <= k < r.len() && r[k] == y;
            if k > 0 {
                assert(s[k - 1] == y);
            }
        }
    } else {
        let t = s.drop_first();
        assert(scored_in_order(t)) by {
            assert forall|i: int, j: int| 0 <= i && j == i + 1 && j < t.len() implies !scored_lt(
                #[trigger] t[j],
                #[trigger] t[i],
            ) by {
                assert(t[i] == s[i + 1] && t[j] == s[j + 1]);
            }
        }
        lemma_scored_insert(t, x);
        let u = scored_insert(t, x);
        assert(r == seq![s[0]] + u);
        assert forall|i: int, j: int| 0 <= i && j == i + 1 && j < r.len() implies !scored_lt(
            #[trigger] r[j],
            #[trigger] r[i],
        ) by {
            if i == 0 {
                assert(r[1] == u[0]);
                if u[0] != x {
                    assert(u[0] == t[0] && t[0] == s[1]);
                }
            } else {
                assert(r[i] == u[i - 1] && r[j] == u[j - 1]);
            }
        }
        assert forall|y: ScoredModel| #[trigger] r.contains(y) implies s.contains(y) || y == x by {
            let k = choose|k: int| 0 <= k < r.len() && r[k] == y;
            if k > 0 {
                assert(u[k - 1] == y);
                assert(u.contains(y));
                if t.contains(y) {
                    let k2 = choose|k2: int| 0 <= k2 < t.len() && t[k2] == y;
                    assert(s[k2 + 1] == y);
                }
            } else {
                assert(s[0] == y);
            }
        }
    }
}

/// `scored_sort` puts consecutive pairs in order and keeps only elements of its input.
proof fn lemma_scored_sort(s: Seq<ScoredModel>)
    ensures
        scored_in_order(scored_sort(s)),
        forall|y: ScoredModel| #[trigger] scored_sort(s).contains(y) ==> s.contains(y),
    decreases s.len(),
{
    if s.len() > 0 {
        let p = s.drop_last();
        lemma_scored_sort(p);
        lemma_scored_insert(scored_sort(p), s.last());
        assert forall|y: ScoredModel| #[trigger] scored_sort(s).contains(y) implies s.contains(y) by {
            if scored_sort(p).contains(y) {
                assert(p.contains(y));
                let k = choose|k: int| 0 <= k < p.len() && p[k] == y;
                assert(s[k] == y);
            } else {
                assert(s[s.len() - 1] == y);
            }
        }
    }
}

/// Every scored package is one of the packages, with the score that `package_match_score`
/// gives it.
proof fn lemma_scored_packages(pkgs: Seq<Seq<char>>, q: Seq<char>)
    ensures
        forall|y: ScoredModel| #[trigger] scored_packages(pkgs, q).contains(y) ==> pkgs.contains(y.1)
            && spec_package_match_score(y.1, q) == Some(y.0),
    decreases pkgs.len(),
{
    if pkgs.len() > 0 {
        let p = pkgs.drop_last();
        lemma_scored_packages(p, q);
        let rest = scored_packages(p, q);
        assert forall|y: ScoredModel| #[trigger] scored_packages(pkgs, q).contains(y) implies pkgs.contains(y.1)
            && spec_package_match_score(y.1, q) == Some(y.0) by {
            let s = scored_packages(pkgs, q);
            let k = choose|k: int| 0 <= k < s.len() && s[k] == y;
            if k < rest.len() {
                assert(s[k] == rest[k]);
                assert(rest.contains(y));
                let j = choose|j: int| 0 <= j < p.len() && p[j] == y.1;
                assert(pkgs[j] == y.1);
            } else {
                assert(pkgs[pkgs.len() - 1] == y.1);
            }
        }
    }
}

/// With a search, the package picker lists only packages that match it, each as scored by
/// `package_match_score`, from best to worst: by tier first (a prefix match before a
/// substring match before a fuzzy match), then by metric, then by length, then by name.
pub proof fn law_ranked_packages_best_first(pkgs: Seq<Seq<char>>, input: Seq<char>)
    requires
        input.len() > 0,
    ensures
        ({
            let r = spec_rank_packages(pkgs, input);
            let q = text::spec_to_lowercase(input);
            &&& forall|k: int|
                0 <= k < r.len() ==> pkgs.contains(#[trigger] r[k]) && spec_package_match_score(
                    r[k],
                    q,
                ) is Some
            &&& forall|k: int|
                0 <= k < r.len() - 1 ==> {
                    let a = spec_package_match_score(#[trigger] r[k], q)->0;
                    let b = spec_package_match_score(r[k + 1], q)->0;
                    ||| a.0 < b.0
                    ||| a.0 == b.0 && a.1 < b.1
                    ||| a.0 == b.0 && a.1 == b.1 && a.2 < b.2
                    ||| a.0 == b.0 && a.1 == b.1 && a.2 == b.2 && !text::seq_lt(r[k + 1], r[k])
                }
        }),
{
    let q = text::spec_to_lowercase(input);
    let sp = scored_packages(pkgs, q);
    let s = scored_sort(sp);
    lemma_scored_sort(sp);
    lemma_scored_packages(pkgs, q);
    let r = spec_rank_packages(pkgs, input);
    assert(r == s.map_values(|e: ScoredModel| e.1));
    assert forall|k: int| 0 <= k < s.len() implies pkgs.contains(#[trigger] s[k].1)
        && spec_package_match_score(s[k].1, q) == Some(s[k].0) by {
        assert(s.contains(s[k]));
        assert(sp.contains(s[k]));
    }
    assert forall|k: int| 0 <= k < r.len() implies pkgs.contains(#[trigger] r[k])
        && spec_package_match_score(r[k], q) is Some by {
        assert(r[k] == s[k].1);
    }
    assert forall|k: int| 0 <= k < r.len() - 1 implies {
        let a = spec_package_match_score(#[trigger] r[k], q)->0;
        let b = spec_package_match_score(r[k + 1], q)->0;
        ||| a.0 < b.0
        ||| a.0 == b.0 && a.1 < b.1
        ||| a.0 == b.0 && a.1 == b.1 && a.2 < b.2
        ||| a.0 == b.0 && a.1 == b.1 && a.2 == b.2 && !text::seq_lt(r[k + 1], r[k])
    } by {
        assert(r[k] == s[k].1 && r[k + 1] == s[k + 1].1);
        assert(pkgs.contains(s[k].1) && pkgs.contains(s[k + 1].1));
        assert(!scored_lt(s[k + 1], s[k]));
    }
}

} // verus!
