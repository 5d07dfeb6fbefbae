//! The application state and its transitions: what each action and each event of the
//! outside world does to the state, and which outside work it asks for.
use vstd::prelude::*;

use crate::action::Action;
use crate::adb::Device;
use crate::app::{BuildRecord, LevelFilterMode, Pane};
use crate::config::MergedConfig;
use crate::event::Modal;
use crate::logcat::{CrashEvent, LogEntry, LogcatFilter, TagColorCache};
use crate::project::ProjectInference;
use crate::text;

verus! {

/// Longest crash block kept, in lines.
pub const MAX_CRASH_LINES: usize = 50;

/// Most crash blocks kept.
pub const MAX_CRASH_EVENTS: usize = 100;

/// Most build output lines kept.
pub const MAX_BUILD_LINES: usize = 50000;

/// Default size of the log buffer.
pub const DEFAULT_MAX_LOG_LINES: usize = 10000;

/// What a clipboard copy is for.
#[derive(Debug, Clone, Copy, PartialEq, Eq, Structural)]
pub enum ClipboardPurpose {
    /// The crash report of a crash with this many lines.
    CrashDetails { lines: usize },
    AgentPrompt,
}

/// An `adb` command about the target package.
#[derive(Debug, Clone, Copy, PartialEq, Eq, Structural)]
pub enum DeviceCommand {
    Uninstall,
    ClearData,
    ClearCache,
    Launch,
}

/// Which action asked for a Gradle run.
#[derive(Debug, Clone, Copy, PartialEq, Eq, Structural)]
pub enum BuildKind {
    Build,
    CleanBuild,
    Install,
    Run,
}

/// How an `adb` command ended: it succeeded, exited with a failure (its stderr), or
/// could not be run at all (the error).
#[derive(Debug)]
pub enum CommandOutcome {
    Succeeded,
    Failed(String),
    Error(String),
}

/// Outside work that a transition asks for; the caller performs it and reports back.
#[derive(Debug)]
pub enum Effect {
    /// Leave the run loop.
    Quit,
    /// Kill the running logcat reader, if any.
    StopLogcat,
    /// List the connected devices and report with `devices_refreshed`.
    RefreshDevices,
    /// Refresh the PIDs of `packages` (when non-empty) and start a logcat reader on `serial`;
    /// report with `logcat_started` or `logcat_failed`.
    StartLogcat { serial: String, packages: Vec<String>, report_failure: bool },
    /// Clear the device's logcat buffer.
    ClearDeviceLog { serial: String },
    /// Write `exported_lines` to a file and report with `logs_exported` or `export_failed`.
    ExportLogs,
    /// Put text on the clipboard and report with `clipboard_done`.
    CopyToClipboard { text: String, purpose: ClipboardPurpose },
    /// Write a crash report to a file and report with `crash_exported` or `export_failed`.
    WriteCrashFile { text: String },
    /// Open a URL in the browser and report with `url_opened`.
    OpenUrl { url: String },
    /// Run Gradle tasks with `ANDROID_SERIAL` set; report with `build_started`,
    /// `gradlew_missing` or `build_spawn_failed`.
    RunGradle { tasks: Vec<String>, display: String, serial: String, kind: BuildKind },
    /// Kill the running Gradle process, if any.
    StopBuild,
    /// Run an `adb` command about the target package (see `resolve_target_package`);
    /// report with `no_target_package` or `device_command_finished`.
    RunDeviceCommand { command: DeviceCommand, serial: String },
    /// Launch scrcpy and report with `scrcpy_done`.
    LaunchScrcpy { serial: String, args: Vec<String> },
    /// Read device properties and battery level; report with `device_info`.
    RefreshDeviceInfo { serial: String },
    /// List installed packages; report with `device_packages`.
    RefreshDevicePackages { serial: String },
    /// Store the preferred device serial in the global configuration.
    SavePreferredDevice { serial: String },
}

/// The model of an `Effect`: its strings as character sequences.
pub enum EffectView {
    Quit,
    StopLogcat,
    RefreshDevices,
    StartLogcat { serial: Seq<char>, packages: Seq<Seq<char>>, report_failure: bool },
    ClearDeviceLog { serial: Seq<char> },
    ExportLogs,
    CopyToClipboard { text: Seq<char>, purpose: ClipboardPurpose },
    WriteCrashFile { text: Seq<char> },
    OpenUrl { url: Seq<char> },
    RunGradle { tasks: Seq<Seq<char>>, display: Seq<char>, serial: Seq<char>, kind: BuildKind },
    StopBuild,
    RunDeviceCommand { command: DeviceCommand, serial: Seq<char> },
    LaunchScrcpy { serial: Seq<char>, args: Seq<Seq<char>> },
    RefreshDeviceInfo { serial: Seq<char> },
    RefreshDevicePackages { serial: Seq<char> },
    SavePreferredDevice { serial: Seq<char> },
}

impl View for Effect {
    type V = EffectView;

    open spec fn view(&self) -> EffectView {
        match self {
            Effect::Quit => EffectView::Quit,
            Effect::StopLogcat => EffectView::StopLogcat,
            Effect::RefreshDevices => EffectView::RefreshDevices,
            Effect::StartLogcat { serial, packages, report_failure } => EffectView::StartLogcat {
                serial: serial@,
                packages: text::strs(packages@),
                report_failure: *report_failure,
            },
            Effect::ClearDeviceLog { serial } => EffectView::ClearDeviceLog { serial: serial@ },
            Effect::ExportLogs => EffectView::ExportLogs,
            Effect::CopyToClipboard { text, purpose } => EffectView::CopyToClipboard {
                text: text@,
                purpose: *purpose,
            },
            Effect::WriteCrashFile { text } => EffectView::WriteCrashFile { text: text@ },
            Effect::OpenUrl { url } => EffectView::OpenUrl { url: url@ },
            Effect::RunGradle { tasks, display, serial, kind } => EffectView::RunGradle {
                tasks: text::strs(tasks@),
                display: display@,
                serial: serial@,
                kind: *kind,
            },
            Effect::StopBuild => EffectView::StopBuild,
            Effect::RunDeviceCommand { command, serial } => EffectView::RunDeviceCommand {
                command: *command,
                serial: serial@,
            },
            Effect::LaunchScrcpy { serial, args } => EffectView::LaunchScrcpy {
                serial: serial@,
                args: text::strs(args@),
            },
            Effect::RefreshDeviceInfo { serial } => EffectView::RefreshDeviceInfo { serial: serial@ },
            Effect::RefreshDevicePackages { serial } => EffectView::RefreshDevicePackages {
                serial: serial@,
            },
            Effect::SavePreferredDevice { serial } => EffectView::SavePreferredDevice {
                serial: serial@,
            },
        }
    }
}

/// The models of a list of effects.
pub open spec fn effect_views(v: Seq<Effect>) -> Seq<EffectView> {
    v.map_values(|e: Effect| e@)
}

/// All the state of the application that decisions read.
pub struct App {
    pub project_root: String,
    pub config: MergedConfig,
    pub current_branch: Option<String>,
    pub devices: Vec<Device>,
    pub selected_device: usize,
    pub active_pane: Pane,
    pub device_picker_open: bool,
    pub device_picker_cursor: usize,
    pub build_popup_open: bool,
    pub build_popup_scroll: usize,
    pub crash_detail_open: bool,
    pub crash_detail_scroll: usize,
    /// When set, the build popup closes once the clock reaches this time (ms).
    pub build_popup_auto_close: Option<u64>,
    pub package_picker_open: bool,
    pub package_picker_input: String,
    pub package_picker_cursor: usize,
    /// `None` = show all; `Some(pkg)` = filter to this package only.
    pub active_package_filter: Option<String>,
    pub level_picker_open: bool,
    pub level_picker_cursor: usize,
    pub level_filter_mode: LevelFilterMode,
    pub logcat_running: bool,
    pub logcat_paused: bool,
    pub log_lines: Vec<LogEntry>,
    pub max_log_lines: usize,
    pub filter_input: String,
    pub filter_focused: bool,
    pub exclude_input: String,
    pub exclude_focused: bool,
    pub tag_color_cache: TagColorCache,
    pub package_pids: Vec<String>,
    pub crash_events: Vec<CrashEvent>,
    pub current_crash: Option<CrashEvent>,
    pub device_props: Vec<(String, String)>,
    pub device_battery: Option<u8>,
    pub installed_device_packages: Vec<String>,
    pub build_history_open: bool,
    pub build_history_scroll: usize,
    pub help_open: bool,
    /// A Gradle process is running.
    pub build_running: bool,
    pub build_task: Option<String>,
    /// Clock time (ms) at which the running build started.
    pub build_start_ms: Option<u64>,
    pub build_lines: Vec<String>,
    pub build_history: Vec<BuildRecord>,
    pub build_expanded: bool,
    /// Message and the clock time (ms) it was shown at.
    pub toast: Option<(String, u64)>,
    /// Parsed from the Gradle build file when possible.
    pub inference: ProjectInference,
    /// Resolved application IDs for logcat (config overrides Gradle inference).
    pub effective_packages: Vec<String>,
    pub effective_assemble: String,
    pub effective_install: String,
    /// How many lines from the bottom the logcat viewport is scrolled (0 = follow tail).
    pub log_scroll: usize,
    /// When true, show all logcat lines (no package filter).
    pub show_all_logs: bool,
    /// When true, launch the app after the current build finishes successfully.
    pub launch_after_build: bool,
    pub picker_open: bool,
    pub picker_cursor: usize,
    /// Build variants: (label, assemble task, install task).
    pub picker_variants: Vec<(String, String, String)>,
    /// The clock (ms) as last reported by the caller.
    pub now_ms: u64,
}

impl App {
    /// The invariant every transition keeps.
    pub open spec fn wf(&self) -> bool {
        &&& self.tag_color_cache.wf()
        &&& 1 <= self.max_log_lines
        &&& self.log_lines@.len() <= self.max_log_lines
        &&& self.crash_events@.len() <= MAX_CRASH_EVENTS
        &&& self.build_lines@.len() <= MAX_BUILD_LINES
        &&& (self.current_crash matches Some(c) ==> 0 < c.lines@.len() <= MAX_CRASH_LINES)
        &&& self.level_picker_cursor < crate::app::LEVEL_FILTER_OPTION_COUNT
        &&& !(self.filter_focused && self.exclude_focused)
    }

    /// The serial of the selected device, if any.
    pub open spec fn spec_selected_serial(&self) -> Option<Seq<char>> {
        if self.selected_device < self.devices@.len() {
            Some(self.devices@[self.selected_device as int].serial@)
        } else {
            None
        }
    }

    /// Which modal is active (for key routing).
    pub open spec fn spec_active_modal(&self) -> Modal {
        if self.filter_focused {
            Modal::Filter
        } else if self.exclude_focused {
            Modal::ExcludeFilter
        } else if self.level_picker_open {
            Modal::LevelPicker
        } else if self.picker_open {
            Modal::VariantPicker
        } else if self.device_picker_open {
            Modal::DevicePicker
        } else if self.crash_detail_open {
            Modal::CrashDetail
        } else if self.build_popup_open {
            Modal::BuildPopup
        } else if self.package_picker_open {
            Modal::PackagePicker
        } else if self.build_history_open {
            Modal::BuildHistory
        } else if self.help_open {
            Modal::HelpPopup
        } else {
            Modal::Main
        }
    }

    /// Which modal is currently active (for event routing).
    pub fn active_modal(&self) -> (r: Modal)
        ensures
            r == self.spec_active_modal(),
    {
        if self.filter_focused {
            return Modal::Filter;
        }
        if self.exclude_focused {
            return Modal::ExcludeFilter;
        }
        if self.level_picker_open {
            return Modal::LevelPicker;
        }
        if self.picker_open {
            return Modal::VariantPicker;
        }
        if self.device_picker_open {
            return Modal::DevicePicker;
        }
        if self.crash_detail_open {
            return Modal::CrashDetail;
        }
        if self.build_popup_open {
            return Modal::BuildPopup;
        }
        if self.package_picker_open {
            return Modal::PackagePicker;
        }
        if self.build_history_open {
            return Modal::BuildHistory;
        }
        if self.help_open {
            return Modal::HelpPopup;
        }
        Modal::Main
    }

    /// The serial of the selected device, if any.
    pub fn selected_serial(&self) -> (r: Option<&str>)
        ensures
            match r {
                Some(s) => self.spec_selected_serial() == Some(s@),
                None => self.spec_selected_serial() is None,
            },
    {
        if self.selected_device < self.devices.len() {
            Some(self.devices[self.selected_device].serial.as_str())
        } else {
            None
        }
    }

    /// Config and runtime exclude substrings together.
    pub open spec fn spec_merged_excludes(&self) -> Seq<Seq<char>> {
        if self.exclude_input@.len() > 0 {
            text::strs(self.config.project.exclude_filters@).push(self.exclude_input@)
        } else {
            text::strs(self.config.project.exclude_filters@)
        }
    }

    /// Config and runtime exclude substrings (for pane display consistency).
    pub fn merged_exclude_substrings(&self) -> (r: Vec<String>)
        ensures
            text::strs(r@) == self.spec_merged_excludes(),
    {
        let mut v = clone_vec(&self.config.project.exclude_filters);
        if !self.exclude_input.as_str().is_empty() {
            let ghost b = text::strs(v@);
            v.push(self.exclude_input.clone());
            assert(text::strs(v@) =~= b.push(self.exclude_input@));
        }
        v
    }

    /// The level list in force: the picker's mode, or for the config default the project's
    /// level, else the global default; an empty list means no level filtering.
    pub open spec fn spec_effective_log_levels(&self) -> Option<Seq<char>> {
        match self.level_filter_mode {
            LevelFilterMode::ConfigDefault => match self.config.project.log_level {
                Some(l) => Some(l@),
                None => text::opt_view(self.config.global.default_log_level),
            },
            m => match crate::app::spec_level_levels(m) {
                Some(l) if l.len() > 0 => Some(l),
                _ => None,
            },
        }
    }

    /// The level list in force.
    pub fn effective_log_levels(&self) -> (r: Option<String>)
        ensures
            text::opt_view(r) == self.spec_effective_log_levels(),
    {
        match self.level_filter_mode {
            LevelFilterMode::ConfigDefault => match &self.config.project.log_level {
                Some(l) => Some(l.clone()),
                None => match &self.config.global.default_log_level {
                    Some(l) => Some(l.clone()),
                    None => None,
                },
            },
            m => {
                let levels = match m.levels() {
                    Some(l) => l,
                    None => "",
                };
                if levels.is_empty() {
                    None
                } else {
                    Some(levels.to_owned())
                }
            },
        }
    }
}

/// A copy of a vector of strings.
pub fn clone_vec(v: &Vec<String>) -> (r: Vec<String>)
    ensures
        r@ == v@,
{
    let mut out: Vec<String> = Vec::new();
    let mut i: usize = 0;
    while i < v.len()
        invariant
            i <= v.len(),
            out@ == v@.subrange(0, i as int),
        decreases v.len() - i,
    {
        out.push(v[i].clone());
        assert(out@ =~= v@.subrange(0, i + 1));
        i = i + 1;
    }
    assert(v@.subrange(0, v.len() as int) =~= v@);
    out
}

} // verus!

verus! {

/// `s` as a character vector.
fn chars(s: &str) -> (r: Vec<char>)
    ensures
        r@ == s@,
{
    text::to_chars(s)
}

/// The lowercased text the content filter searches in the log pane: tag, level, message.
pub open spec fn spec_pane_haystack(e: crate::logcat::LogEntryModel) -> Seq<char> {
    text::spec_to_lowercase(e.tag + " "@ + e.level + " "@ + e.message)
}

/// The report text of a crash: a header line, then each raw line.
pub open spec fn spec_crash_text(summary: Seq<char>, timestamp: Seq<char>, lines: Seq<LogEntry>) -> Seq<
    char,
>
    decreases lines.len(),
{
    if lines.len() == 0 {
        "--- "@ + summary + " @ "@ + timestamp + " ---\n"@
    } else {
        spec_crash_text(summary, timestamp, lines.drop_last()) + lines.last().raw@ + "\n"@
    }
}

/// The report text of a crash block.
pub fn format_crash_text(crash: &CrashEvent) -> (r: String)
    ensures
        r@ == spec_crash_text(crash.summary@, crash.timestamp@, crash.lines@),
{
    let mut t = text::concat(&chars("--- "), &text::string_chars(&crash.summary));
    t = text::concat(&t, &chars(" @ "));
    t = text::concat(&t, &text::string_chars(&crash.timestamp));
    t = text::concat(&t, &chars(" ---\n"));
    let mut i: usize = 0;
    assert(crash.lines@.subrange(0, 0) =~= Seq::<LogEntry>::empty());
    while i < crash.lines.len()
        invariant
            i <= crash.lines.len(),
            t@ == spec_crash_text(crash.summary@, crash.timestamp@, crash.lines@.subrange(0, i as int)),
        decreases crash.lines.len() - i,
    {
        let ghost sub = crash.lines@.subrange(0, i + 1);
        assert(sub.drop_last() =~= crash.lines@.subrange(0, i as int));
        t = text::concat(&t, &text::string_chars(&crash.lines[i].raw));
        t = text::concat(&t, &chars("\n"));
        i = i + 1;
    }
    assert(crash.lines@.subrange(0, crash.lines.len() as int) =~= crash.lines@);
    text::to_string(&t)
}

impl App {
    /// Whether the log pane shows an entry: level, content filter and excludes.
    pub open spec fn spec_pane_shows(&self, e: crate::logcat::LogEntryModel) -> bool {
        &&& crate::logcat::spec_matches_level_filter(self.spec_effective_log_levels(), e.level)
        &&& (self.filter_input@.len() == 0 || text::spec_contains(
            spec_pane_haystack(e),
            text::spec_to_lowercase(self.filter_input@),
        ))
        &&& !crate::logcat::spec_any_pattern_in_seqs(self.spec_merged_excludes(), crate::logcat::spec_filter_haystack(e))
    }

    /// Whether the log pane should show this line (content + exclude), independent of the
    /// ingest filter.
    pub fn pane_shows_entry(&self, entry: &LogEntry) -> (r: bool)
        ensures
            r == self.spec_pane_shows(entry@),
    {
        let levels = self.effective_log_levels();
        let lv: Option<&str> = match &levels {
            Some(l) => Some(l.as_str()),
            None => None,
        };
        if !crate::logcat::matches_level_filter(lv, entry.level.as_str()) {
            return false;
        }
        if !self.filter_input.as_str().is_empty() {
            let sp = chars(" ");
            let a = text::concat(&text::string_chars(&entry.tag), &sp);
            let b = text::concat(&a, &text::string_chars(&entry.level));
            let c = text::concat(&b, &sp);
            let d = text::concat(&c, &text::string_chars(&entry.message));
            let hay = text::lower(&d);
            if !text::contains(&hay, &text::lower(&text::string_chars(&self.filter_input))) {
                return false;
            }
        }
        let ex = self.merged_exclude_substrings();
        proof {
            crate::logcat::lemma_any_pattern_in_seqs(ex@, crate::logcat::spec_filter_haystack(entry@));
        }
        !crate::logcat::matches_any_exclude(ex.as_slice(), entry)
    }

    /// The raw lines of the first `n` buffered entries that the log pane shows, in order.
    pub open spec fn spec_shown_raws(&self, n: int) -> Seq<Seq<char>>
        decreases n,
    {
        if n <= 0 {
            Seq::<Seq<char>>::empty()
        } else {
            let prev = self.spec_shown_raws(n - 1);
            let e = self.log_lines@[n - 1];
            if self.spec_pane_shows(e@) {
                prev.push(e.raw@)
            } else {
                prev
            }
        }
    }

    /// The raw lines of the entries the log pane shows, in order: what an export writes.
    pub fn exported_lines(&self) -> (r: Vec<String>)
        ensures
            text::strs(r@) == self.spec_shown_raws(self.log_lines@.len() as int),
    {
        let mut out: Vec<String> = Vec::new();
        let mut i: usize = 0;
        assert(text::strs(out@) =~= Seq::<Seq<char>>::empty());
        while i < self.log_lines.len()
            invariant
                i <= self.log_lines.len(),
                text::strs(out@) == self.spec_shown_raws(i as int),
            decreases self.log_lines.len() - i,
        {
            let e = &self.log_lines[i];
            if self.pane_shows_entry(e) {
                let ghost before = text::strs(out@);
                out.push(e.raw.clone());
                assert(text::strs(out@) =~= before.push(e.raw@));
            }
            i = i + 1;
        }
        out
    }

    /// Packages for PID filtering: the picked package, else the effective packages.
    pub open spec fn spec_filter_packages(&self) -> Seq<Seq<char>> {
        match self.active_package_filter {
            Some(p) => seq![p@],
            None => text::strs(self.effective_packages@),
        }
    }

    /// The package(s) currently used for PID filtering.
    pub fn filter_packages(&self) -> (r: Vec<String>)
        ensures
            text::strs(r@) == self.spec_filter_packages(),
    {
        match &self.active_package_filter {
            Some(p) => {
                let mut v: Vec<String> = Vec::new();
                v.push(p.clone());
                assert(text::strs(v@) =~= seq![p@]);
                v
            },
            None => {
                let v = clone_vec(&self.effective_packages);
                v
            },
        }
    }

    /// All packages known: effective, inferred and installed, each once.
    pub open spec fn spec_all_known_packages(&self) -> Seq<Seq<char>> {
        crate::app::first_occurrences(
            text::strs(self.effective_packages@) + text::strs(self.inference.application_ids@)
                + text::strs(self.installed_device_packages@),
        )
    }

    /// All packages known to the package picker.
    pub fn all_known_packages(&self) -> (r: Vec<String>)
        ensures
            text::strs(r@) == self.spec_all_known_packages(),
    {
        crate::app::merge_known_packages(
            self.effective_packages.as_slice(),
            self.inference.application_ids.as_slice(),
            self.installed_device_packages.as_slice(),
        )
    }

    /// The package picker's list for its current search input.
    pub open spec fn spec_filtered_packages(&self) -> Seq<Seq<char>> {
        crate::app::spec_rank_packages(self.spec_all_known_packages(), self.package_picker_input@)
    }

    /// Filtered package list used for the package picker display.
    pub fn filtered_package_list(&self) -> (r: Vec<String>)
        ensures
            text::strs(r@) == self.spec_filtered_packages(),
    {
        let all = self.all_known_packages();
        crate::app::rank_packages(&all, self.package_picker_input.as_str())
    }

    /// Info bar label of the level filter.
    pub open spec fn spec_level_filter_summary(&self) -> Seq<char> {
        match self.level_filter_mode {
            LevelFilterMode::ConfigDefault => match self.spec_effective_log_levels() {
                Some(l) => "cfg "@ + l,
                None => "all"@,
            },
            m => crate::app::spec_level_summary(m),
        }
    }

    /// Info bar label of the level filter.
    pub fn current_level_filter_summary(&self) -> (r: String)
        ensures
            r@ == self.spec_level_filter_summary(),
    {
        match self.level_filter_mode {
            LevelFilterMode::ConfigDefault => match self.effective_log_levels() {
                Some(l) => text::to_string(&text::concat(&chars("cfg "), &text::string_chars(&l))),
                None => "all".to_owned(),
            },
            m => m.summary().to_owned(),
        }
    }

    /// Toast label of the level filter.
    pub open spec fn spec_level_filter_label(&self) -> Seq<char> {
        match self.level_filter_mode {
            LevelFilterMode::ConfigDefault => match self.spec_effective_log_levels() {
                Some(l) => "Config default ("@ + l + ")"@,
                None => "Config default (all levels)"@,
            },
            m => match crate::app::spec_level_levels(m) {
                Some(l) if l.len() > 0 => crate::app::spec_level_title(m) + " ("@ + l + ")"@,
                _ => crate::app::spec_level_title(m),
            },
        }
    }

    /// Toast label of the level filter.
    pub fn current_level_filter_label(&self) -> (r: String)
        ensures
            r@ == self.spec_level_filter_label(),
    {
        match self.level_filter_mode {
            LevelFilterMode::ConfigDefault => match self.effective_log_levels() {
                Some(l) => {
                    let a = text::concat(&chars("Config default ("), &text::string_chars(&l));
                    text::to_string(&text::concat(&a, &chars(")")))
                },
                None => "Config default (all levels)".to_owned(),
            },
            m => match m.levels() {
                Some(l) if !l.is_empty() => {
                    let a = text::concat(&chars(m.title()), &chars(" ("));
                    let b = text::concat(&a, &chars(l));
                    text::to_string(&text::concat(&b, &chars(")")))
                },
                _ => m.title().to_owned(),
            },
        }
    }

    /// The ingest filter for incoming lines.
    pub open spec fn spec_log_filter_ok(&self, f: LogcatFilter) -> bool {
        &&& f.filter_by_application_ids == (!self.show_all_logs && (self.active_package_filter is Some
            || self.effective_packages@.len() > 0))
        &&& text::strs(f.tag_substrings@) == text::strs(self.config.project.log_filters@)
        &&& text::opt_view(f.levels) == self.spec_effective_log_levels()
        &&& text::opt_view(f.content) == if self.filter_input@.len() > 0 {
            Some(self.filter_input@)
        } else {
            None
        }
        &&& text::strs(f.exclude_substrings@) == self.spec_merged_excludes()
    }

    /// The filter applied to incoming logcat lines.
    pub fn current_log_filter(&self) -> (r: LogcatFilter)
        ensures
            self.spec_log_filter_ok(r),
    {
        let levels = self.effective_log_levels();
        let content = if !self.filter_input.as_str().is_empty() {
            Some(self.filter_input.clone())
        } else {
            None
        };
        let filter_by_pkg = !self.show_all_logs && (self.active_package_filter.is_some()
            || self.effective_packages.len() > 0);
        LogcatFilter {
            filter_by_application_ids: filter_by_pkg,
            tag_substrings: clone_vec(&self.config.project.log_filters),
            levels,
            content,
            exclude_substrings: self.merged_exclude_substrings(),
        }
    }

    /// Show a message in the status line.
    pub fn show_toast(&mut self, msg: String)
        ensures
            final(self).toast matches Some((m, t)) && m@ == msg@ && t == old(self).now_ms,
            *final(self) == (App { toast: final(self).toast, ..*old(self) }),
    {
        self.toast = Some((msg, self.now_ms));
    }
}

} // verus!

verus! {

/// `a + b` capped at `usize::MAX`.
pub open spec fn sat_add(a: usize, b: usize) -> usize {
    if a + b > usize::MAX {
        usize::MAX
    } else {
        (a + b) as usize
    }
}

/// `a - b` floored at zero.
pub open spec fn sat_sub(a: usize, b: usize) -> usize {
    if a >= b {
        (a - b) as usize
    } else {
        0
    }
}

/// `new` shows the toast `msg`, stamped with the clock.
pub open spec fn toast_is(old: App, new: App, msg: Seq<char>) -> bool {
    new.toast matches Some((m, t)) && m@ == msg && t == old.now_ms
}

/// All popups closed and the package search cleared; `focus_too` also drops filter focus.
#[verifier::opaque]
pub open spec fn all_closed(old: App, new: App, focus_too: bool) -> bool {
    &&& new == (App {
        filter_focused: if focus_too { false } else { old.filter_focused },
        exclude_focused: if focus_too { false } else { old.exclude_focused },
        level_picker_open: false,
        picker_open: false,
        device_picker_open: false,
        crash_detail_open: false,
        build_popup_open: false,
        package_picker_open: false,
        build_history_open: false,
        help_open: false,
        package_picker_input: new.package_picker_input,
        ..old
    })
    &&& new.package_picker_input@.len() == 0
}

/// Length of the package picker list: "All", the matches, and a "Use: <input>" row when
/// nothing matches a non-empty input (counted with saturating arithmetic).
pub open spec fn package_rows(app: App) -> int {
    let n = app.spec_filtered_packages().len();
    let custom = if n == 0 && app.package_picker_input@.len() > 0 { 1int } else { 0int };
    if n + 1 + custom > usize::MAX { usize::MAX as int } else { n + 1 + custom }
}

/// Only the build history scroll changes, to `v`.
#[verifier::opaque]
pub open spec fn history_scroll_set(old: App, new: App, v: usize) -> bool {
    new == (App { build_history_scroll: v, ..old })
}

/// Only the crash detail scroll changes, to `v`.
#[verifier::opaque]
pub open spec fn crash_scroll_set(old: App, new: App, v: usize) -> bool {
    new == (App { crash_detail_scroll: v, ..old })
}

/// The build popup scrolls to `v` and stops its auto-close.
#[verifier::opaque]
pub open spec fn popup_scroll_set(old: App, new: App, v: usize) -> bool {
    new == (App { build_popup_scroll: v, build_popup_auto_close: None, ..old })
}

/// Only the log pane scroll changes, to `v`.
#[verifier::opaque]
pub open spec fn log_scroll_set(old: App, new: App, v: usize) -> bool {
    new == (App { log_scroll: v, ..old })
}

/// Only the level picker cursor changes, to `v`.
#[verifier::opaque]
pub open spec fn level_cursor_set(old: App, new: App, v: usize) -> bool {
    new == (App { level_picker_cursor: v, ..old })
}

/// Only the device picker cursor changes, to `v`.
#[verifier::opaque]
pub open spec fn device_cursor_set(old: App, new: App, v: usize) -> bool {
    new == (App { device_picker_cursor: v, ..old })
}

/// Only the package picker cursor changes, to `v`.
#[verifier::opaque]
pub open spec fn package_cursor_set(old: App, new: App, v: usize) -> bool {
    new == (App { package_picker_cursor: v, ..old })
}

/// Only the variant picker cursor changes, to `v`.
#[verifier::opaque]
pub open spec fn variant_cursor_set(old: App, new: App, v: usize) -> bool {
    new == (App { picker_cursor: v, ..old })
}

/// `min(scroll + step, max)`.
pub open spec fn step_up_to(scroll: usize, step: usize, max: usize) -> usize {
    if scroll + step < max {
        (scroll + step) as usize
    } else {
        max
    }
}

/// The last row of the build history.
pub open spec fn history_last_row(app: App) -> usize {
    sat_sub(app.build_history@.len() as usize, 1)
}

/// The row after `c` in a cyclic list of `n` rows.
pub open spec fn cyclic_next(c: usize, n: int) -> usize {
    ((c + 1) % n) as usize
}

/// The row before `c` in a cyclic list of `n` rows.
pub open spec fn cyclic_prev(c: usize, n: int) -> usize {
    if c == 0 {
        (n - 1) as usize
    } else {
        (c - 1) as usize
    }
}

/// A pane scrolls one line up (the build popup also stops its auto-close).
pub open spec fn scrolled_up(old: App, new: App) -> bool {
    if old.build_history_open {
        history_scroll_set(old, new, sat_sub(old.build_history_scroll, 1))
    } else if old.crash_detail_open {
        crash_scroll_set(old, new, sat_add(old.crash_detail_scroll, 1))
    } else if old.build_popup_open {
        popup_scroll_set(old, new, sat_add(old.build_popup_scroll, 1))
    } else {
        log_scroll_set(old, new, sat_add(old.log_scroll, 1))
    }
}

/// A pane scrolls one line down (the build popup also stops its auto-close).
pub open spec fn scrolled_down(old: App, new: App) -> bool {
    if old.build_history_open {
        history_scroll_set(old, new, step_up_to(old.build_history_scroll, 1, history_last_row(old)))
    } else if old.crash_detail_open {
        crash_scroll_set(old, new, sat_sub(old.crash_detail_scroll, 1))
    } else if old.build_popup_open {
        popup_scroll_set(old, new, sat_sub(old.build_popup_scroll, 1))
    } else {
        log_scroll_set(old, new, sat_sub(old.log_scroll, 1))
    }
}

/// A pane scrolls a page up.
pub open spec fn paged_up(old: App, new: App) -> bool {
    if old.build_history_open {
        history_scroll_set(old, new, sat_sub(old.build_history_scroll, 10))
    } else if old.crash_detail_open {
        crash_scroll_set(old, new, sat_add(old.crash_detail_scroll, 10))
    } else {
        log_scroll_set(old, new, sat_add(old.log_scroll, 20))
    }
}

/// A pane scrolls a page down.
pub open spec fn paged_down(old: App, new: App) -> bool {
    if old.build_history_open {
        history_scroll_set(old, new, step_up_to(old.build_history_scroll, 10, history_last_row(old)))
    } else if old.crash_detail_open {
        crash_scroll_set(old, new, sat_sub(old.crash_detail_scroll, 10))
    } else {
        log_scroll_set(old, new, sat_sub(old.log_scroll, 20))
    }
}

/// The log pane follows the tail again.
pub open spec fn scrolled_to_tail(old: App, new: App) -> bool {
    log_scroll_set(old, new, 0)
}

/// The open picker moves to its next row (cyclically), or the build history down.
pub open spec fn picker_moved_next(old: App, new: App) -> bool {
    if old.build_history_open {
        history_scroll_set(old, new, step_up_to(old.build_history_scroll, 1, history_last_row(old)))
    } else if old.level_picker_open {
        level_cursor_set(old, new, cyclic_next(old.level_picker_cursor, 8))
    } else if old.device_picker_open {
        if old.devices@.len() > 0 {
            device_cursor_set(old, new, cyclic_next(old.device_picker_cursor, old.devices@.len() as int))
        } else {
            new == old
        }
    } else if old.package_picker_open {
        package_cursor_set(old, new, cyclic_next(old.package_picker_cursor, package_rows(old)))
    } else if old.picker_open && old.picker_variants@.len() > 0 {
        variant_cursor_set(old, new, cyclic_next(old.picker_cursor, old.picker_variants@.len() as int))
    } else {
        new == old
    }
}

/// The open picker moves to its previous row (cyclically), or the build history up.
pub open spec fn picker_moved_prev(old: App, new: App) -> bool {
    if old.build_history_open {
        history_scroll_set(old, new, sat_sub(old.build_history_scroll, 1))
    } else if old.level_picker_open {
        level_cursor_set(old, new, cyclic_prev(old.level_picker_cursor, 8))
    } else if old.device_picker_open {
        if old.devices@.len() > 0 {
            device_cursor_set(old, new, cyclic_prev(old.device_picker_cursor, old.devices@.len() as int))
        } else {
            new == old
        }
    } else if old.package_picker_open {
        package_cursor_set(old, new, cyclic_prev(old.package_picker_cursor, package_rows(old)))
    } else if old.picker_open && old.picker_variants@.len() > 0 {
        variant_cursor_set(old, new, cyclic_prev(old.picker_cursor, old.picker_variants@.len() as int))
    } else {
        new == old
    }
}

/// The scroll and picker-navigation actions.
pub open spec fn spec_navigate(old: App, action: Action, new: App) -> bool {
    match action {
        Action::ScrollUp => scrolled_up(old, new),
        Action::ScrollDown => scrolled_down(old, new),
        Action::ScrollPageUp => paged_up(old, new),
        Action::ScrollPageDown => paged_down(old, new),
        Action::ScrollTail => scrolled_to_tail(old, new),
        Action::PickerNext => picker_moved_next(old, new),
        Action::PickerPrev => picker_moved_prev(old, new),
        _ => true,
    }
}

impl App {
    /// Number of rows of the package picker.
    pub(crate) fn package_row_count(&self) -> (r: usize)
        ensures
            r as int == package_rows(*self),
            r >= 1,
    {
        let filtered = self.filtered_package_list();
        let custom: usize = if filtered.len() == 0 && !self.package_picker_input.as_str().is_empty() {
            1
        } else {
            0
        };
        assert(text::strs(filtered@).len() == filtered@.len());
        filtered.len().saturating_add(1).saturating_add(custom)
    }
}

} // verus!
