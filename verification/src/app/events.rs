//! What the reports of outside work do to the application state: a reader or build that
//! started or failed, command outcomes, clipboard and file results.
use vstd::prelude::*;

use crate::app::actions::only_toast;
use crate::app::state::{
    effect_views, toast_is, App, BuildKind, ClipboardPurpose, CommandOutcome, DeviceCommand,
    Effect, EffectView, MAX_BUILD_LINES,
};
use crate::app::BuildRecord;
use crate::text;

verus! {

/// The logcat reader runs, unpaused.
#[verifier::opaque]
pub open spec fn logcat_now_running(old: App, new: App) -> bool {
    new == (App { logcat_running: true, logcat_paused: false, ..old })
}

/// The PIDs of the filter packages are now `pids`.
#[verifier::opaque]
pub open spec fn pids_set(old: App, new: App, pids: Seq<String>) -> bool {
    &&& new == (App { package_pids: new.package_pids, ..old })
    &&& new.package_pids@ == pids
}

/// A clipboard copy succeeded: the crash detail closes and `msg` is shown.
#[verifier::opaque]
pub open spec fn copy_reported(old: App, new: App, msg: Seq<char>) -> bool {
    &&& new == (App { crash_detail_open: false, toast: new.toast, ..old })
    &&& toast_is(old, new, msg)
}

/// A Gradle run shown as `display` started: its output is emptied and shown in the build
/// popup from the bottom, and its start time is the clock.
#[verifier::opaque]
pub open spec fn build_now_running(old: App, new: App, display: Seq<char>) -> bool {
    &&& new == (App {
        build_lines: new.build_lines,
        build_running: true,
        build_task: new.build_task,
        build_start_ms: Some(old.now_ms),
        build_popup_open: true,
        build_popup_scroll: 0,
        build_popup_auto_close: None,
        ..old
    })
    &&& new.build_lines@.len() == 0
    &&& text::opt_view(new.build_task) == Some(display)
}

/// How a build action is named in its error toast.
pub open spec fn build_kind_label(kind: BuildKind) -> Seq<char> {
    match kind {
        BuildKind::Build => "build"@,
        BuildKind::CleanBuild => "clean build"@,
        BuildKind::Install => "install"@,
        BuildKind::Run => "run"@,
    }
}

/// A Gradle run could not be started: the output is emptied, the error shown, and a run
/// no longer launches the app afterwards.
#[verifier::opaque]
pub open spec fn build_not_started(old: App, new: App, kind: BuildKind, err: Seq<char>) -> bool {
    &&& new == (App {
        build_lines: new.build_lines,
        launch_after_build: if kind is Run {
            false
        } else {
            old.launch_after_build
        },
        toast: new.toast,
        ..old
    })
    &&& new.build_lines@.len() == 0
    &&& toast_is(old, new, build_kind_label(kind) + ": "@ + err)
}

/// The build output after `line`: the last `MAX_BUILD_LINES` lines.
pub open spec fn spec_build_lines_after(lines: Seq<String>, line: String) -> Seq<String> {
    let all = lines.push(line);
    if all.len() > MAX_BUILD_LINES {
        all.subrange(all.len() - MAX_BUILD_LINES, all.len() as int)
    } else {
        all
    }
}

/// A line of build output is kept.
#[verifier::opaque]
pub open spec fn build_line_added(old: App, new: App, line: String) -> bool {
    &&& new == (App { build_lines: new.build_lines, ..old })
    &&& new.build_lines@ == spec_build_lines_after(old.build_lines@, line)
}

/// What `adb` is asked to do, as named in a toast when no package is known.
pub open spec fn command_verb(command: DeviceCommand) -> Seq<char> {
    match command {
        DeviceCommand::Uninstall => "uninstall"@,
        DeviceCommand::ClearData => "clear data"@,
        DeviceCommand::ClearCache => "clear cache"@,
        DeviceCommand::Launch => "launch"@,
    }
}

/// The toast for the outcome of an `adb` command about `package`.
pub open spec fn command_outcome_text(
    command: DeviceCommand,
    package: Seq<char>,
    outcome: CommandOutcome,
) -> Seq<char> {
    match outcome {
        CommandOutcome::Succeeded => match command {
            DeviceCommand::Uninstall => "Uninstalled "@ + package,
            DeviceCommand::ClearData => "Cleared all data for "@ + package,
            DeviceCommand::ClearCache => "Cleared cache for "@ + package,
            DeviceCommand::Launch => "Launched "@ + package,
        },
        CommandOutcome::Failed(stderr) => match command {
            DeviceCommand::Uninstall => "Uninstall failed: "@ + stderr@,
            DeviceCommand::ClearData => "Clear data failed: "@ + stderr@,
            DeviceCommand::ClearCache => "Clear cache failed: "@ + stderr@,
            DeviceCommand::Launch => "Launch failed: "@ + stderr@,
        },
        CommandOutcome::Error(e) => match command {
            DeviceCommand::Uninstall => "Uninstall error: "@ + e@,
            DeviceCommand::ClearData => "Clear data error: "@ + e@,
            DeviceCommand::ClearCache => "Clear cache error: "@ + e@,
            DeviceCommand::Launch => "Launch error: "@ + e@,
        },
    }
}

/// The `adb` arguments of a command about `package` on the device `serial`.
pub open spec fn spec_device_command_args(
    command: DeviceCommand,
    serial: Seq<char>,
    package: Seq<char>,
) -> Seq<Seq<char>> {
    match command {
        DeviceCommand::Uninstall => seq!["-s"@, serial, "uninstall"@, package],
        DeviceCommand::ClearData => seq!["-s"@, serial, "shell"@, "pm"@, "clear"@, package],
        DeviceCommand::ClearCache => seq![
            "-s"@,
            serial,
            "shell"@,
            "pm"@,
            "clear"@,
            "--cache-only"@,
            package,
        ],
        DeviceCommand::Launch => seq![
            "-s"@,
            serial,
            "shell"@,
            "monkey"@,
            "-p"@,
            package,
            "-c"@,
            "android.intent.category.LAUNCHER"@,
            "1"@,
        ],
    }
}

/// Push `line` and keep the last `MAX_BUILD_LINES` lines.
fn push_capped(v: &mut Vec<String>, line: String)
    requires
        old(v)@.len() <= MAX_BUILD_LINES,
    ensures
        final(v)@ == spec_build_lines_after(old(v)@, line),
        final(v)@.len() <= MAX_BUILD_LINES,
{
    let ghost all = v@.push(line);
    v.push(line);
    if v.len() > MAX_BUILD_LINES {
        v.remove(0);
        assert(v@ =~= all.subrange(all.len() - MAX_BUILD_LINES, all.len() as int));
    }
}

/// `v` with `s` pushed, as strings.
fn push_str(v: &mut Vec<String>, s: &str)
    ensures
        text::strs(final(v)@) == text::strs(old(v)@).push(s@),
{
    let ghost before = text::strs(v@);
    v.push(s.to_owned());
    assert(text::strs(v@) =~= before.push(s@));
}

/// The `adb` arguments of a command about `package` on the device `serial`.
pub fn device_command_args(command: DeviceCommand, serial: &str, package: &str) -> (r: Vec<String>)
    ensures
        text::strs(r@) == spec_device_command_args(command, serial@, package@),
{
    let mut v: Vec<String> = Vec::new();
    assert(text::strs(v@) =~= Seq::<Seq<char>>::empty());
    push_str(&mut v, "-s");
    push_str(&mut v, serial);
    match command {
        DeviceCommand::Uninstall => {
            push_str(&mut v, "uninstall");
            push_str(&mut v, package);
        },
        DeviceCommand::ClearData => {
            push_str(&mut v, "shell");
            push_str(&mut v, "pm");
            push_str(&mut v, "clear");
            push_str(&mut v, package);
        },
        DeviceCommand::ClearCache => {
            push_str(&mut v, "shell");
            push_str(&mut v, "pm");
            push_str(&mut v, "clear");
            push_str(&mut v, "--cache-only");
            push_str(&mut v, package);
        },
        DeviceCommand::Launch => {
            push_str(&mut v, "shell");
            push_str(&mut v, "monkey");
            push_str(&mut v, "-p");
            push_str(&mut v, package);
            push_str(&mut v, "-c");
            push_str(&mut v, "android.intent.category.LAUNCHER");
            push_str(&mut v, "1");
        },
    }
    assert(text::strs(v@) =~= spec_device_command_args(command, serial@, package@));
    v
}

/// The package an `adb` command is about: the package picked in the package picker, else
/// the one the last build produced (`built`), else the first effective package.
pub open spec fn spec_target_package(app: App, built: Option<Seq<char>>) -> Option<Seq<char>> {
    match app.active_package_filter {
        Some(p) => Some(p@),
        None => match built {
            Some(b) => Some(b),
            None => if app.effective_packages@.len() > 0 {
                Some(app.effective_packages@[0]@)
            } else {
                None
            },
        },
    }
}

impl App {
    /// Show `msg` and change nothing else.
    fn toast_only(&mut self, msg: String)
        requires
            old(self).wf(),
        ensures
            final(self).wf(),
            only_toast(*old(self), *final(self), msg@),
    {
        let ghost o = *self;
        self.show_toast(msg);
        assert(only_toast(o, *self, msg@)) by {
            reveal(only_toast);
        }
    }

    /// The logcat reader started.
    pub fn logcat_started(&mut self)
        requires
            old(self).wf(),
        ensures
            final(self).wf(),
            logcat_now_running(*old(self), *final(self)),
    {
        let ghost o = *self;
        self.logcat_running = true;
        self.logcat_paused = false;
        assert(logcat_now_running(o, *self)) by {
            reveal(logcat_now_running);
        }
    }

    /// The logcat reader could not be started; the error is shown when `report` is set.
    pub fn logcat_failed(&mut self, err: &str, report: bool)
        requires
            old(self).wf(),
        ensures
            final(self).wf(),
            report ==> only_toast(*old(self), *final(self), "logcat: "@ + err@),
            !report ==> *final(self) == *old(self),
    {
        if report {
            self.toast_only(text::cat("logcat: ", err));
        }
    }

    /// The PIDs of the filter packages were read.
    pub fn set_package_pids(&mut self, pids: Vec<String>)
        requires
            old(self).wf(),
        ensures
            final(self).wf(),
            pids_set(*old(self), *final(self), pids@),
    {
        let ghost o = *self;
        let ghost p = pids@;
        self.package_pids = pids;
        assert(pids_set(o, *self, p)) by {
            reveal(pids_set);
        }
    }

    /// `count` lines were exported to the file `path`.
    pub fn logs_exported(&mut self, count: usize, path: &str)
        requires
            old(self).wf(),
        ensures
            final(self).wf(),
            only_toast(
                *old(self),
                *final(self),
                "Exported "@ + text::spec_decimal(count as nat) + " lines to "@ + path@,
            ),
    {
        let n = text::fmt_usize(count);
        let a = text::cat("Exported ", n.as_str());
        self.toast_only(text::cat3(a.as_str(), " lines to ", path));
    }

    /// Writing an export file failed with `err`.
    pub fn export_failed(&mut self, err: &str)
        requires
            old(self).wf(),
        ensures
            final(self).wf(),
            only_toast(*old(self), *final(self), "export: "@ + err@),
    {
        self.toast_only(text::cat("export: ", err));
    }

    /// The crash report was written to `path`.
    pub fn crash_exported(&mut self, path: &str)
        requires
            old(self).wf(),
        ensures
            final(self).wf(),
            only_toast(*old(self), *final(self), "Saved crash to "@ + path@),
    {
        self.toast_only(text::cat("Saved crash to ", path));
    }

    /// The browser was asked to open the search, or could not be (`Err`).
    pub fn url_opened(&mut self, result: Result<(), String>)
        requires
            old(self).wf(),
        ensures
            final(self).wf(),
            result is Ok ==> only_toast(*old(self), *final(self), "Opened search in browser"@),
            result matches Err(e) ==> only_toast(*old(self), *final(self), "search: "@ + e@),
    {
        match result {
            Ok(()) => self.toast_only("Opened search in browser".to_owned()),
            Err(e) => self.toast_only(text::cat("search: ", e.as_str())),
        }
    }

    /// scrcpy was launched, or could not be (`Err`).
    pub fn scrcpy_done(&mut self, result: Result<(), String>)
        requires
            old(self).wf(),
        ensures
            final(self).wf(),
            result is Ok ==> only_toast(*old(self), *final(self), "Launched scrcpy"@),
            result matches Err(e) ==> only_toast(*old(self), *final(self), "scrcpy: "@ + e@),
    {
        match result {
            Ok(()) => self.toast_only("Launched scrcpy".to_owned()),
            Err(e) => self.toast_only(text::cat("scrcpy: ", e.as_str())),
        }
    }

    /// A successful copy closes the crash detail and says so.
    fn report_copy(&mut self, msg: String)
        requires
            old(self).wf(),
        ensures
            final(self).wf(),
            copy_reported(*old(self), *final(self), msg@),
    {
        let ghost o = *self;
        self.crash_detail_open = false;
        self.show_toast(msg);
        assert(copy_reported(o, *self, msg@)) by {
            reveal(copy_reported);
        }
    }

    /// The clipboard copy asked for `purpose` ended with `result`.
    pub fn clipboard_done(&mut self, purpose: ClipboardPurpose, result: Result<(), String>)
        requires
            old(self).wf(),
        ensures
            final(self).wf(),
            result is Ok ==> match purpose {
                ClipboardPurpose::CrashDetails { lines } => copy_reported(
                    *old(self),
                    *final(self),
                    "Copied crash details ("@ + text::spec_decimal(lines as nat) + " lines)"@,
                ),
                ClipboardPurpose::AgentPrompt => copy_reported(
                    *old(self),
                    *final(self),
                    "Agent prompt copied — paste into your AI assistant"@,
                ),
            },
            result matches Err(e) ==> only_toast(
                *old(self),
                *final(self),
                match purpose {
                    ClipboardPurpose::CrashDetails { .. } => "yank: "@,
                    ClipboardPurpose::AgentPrompt => "copy: "@,
                } + e@,
            ),
    {
        match result {
            Ok(()) => match purpose {
                ClipboardPurpose::CrashDetails { lines } => {
                    let n = text::fmt_usize(lines);
                    self.report_copy(text::cat3("Copied crash details (", n.as_str(), " lines)"));
                },
                ClipboardPurpose::AgentPrompt => {
                    self.report_copy(
                        "Agent prompt copied — paste into your AI assistant".to_owned(),
                    );
                },
            },
            Err(e) => match purpose {
                ClipboardPurpose::CrashDetails { .. } => self.toast_only(
                    text::cat("yank: ", e.as_str()),
                ),
                ClipboardPurpose::AgentPrompt => self.toast_only(text::cat("copy: ", e.as_str())),
            },
        }
    }

    /// A Gradle run shown as `display` started.
    pub fn build_started(&mut self, display: String)
        requires
            old(self).wf(),
        ensures
            final(self).wf(),
            build_now_running(*old(self), *final(self), display@),
    {
        let ghost o = *self;
        let ghost d = display@;
        self.build_lines = Vec::new();
        self.build_running = true;
        self.build_task = Some(display);
        self.build_start_ms = Some(self.now_ms);
        self.build_popup_open = true;
        self.build_popup_scroll = 0;
        self.build_popup_auto_close = None;
        assert(build_now_running(o, *self, d)) by {
            reveal(build_now_running);
        }
    }

    /// No Gradle wrapper was found in the project root.
    pub fn gradlew_missing(&mut self)
        requires
            old(self).wf(),
        ensures
            final(self).wf(),
            only_toast(*old(self), *final(self), "gradlew not found in project root"@),
    {
        self.toast_only("gradlew not found in project root".to_owned());
    }

    /// The Gradle run asked for by an action of `kind` could not be started.
    pub fn build_spawn_failed(&mut self, kind: BuildKind, err: &str)
        requires
            old(self).wf(),
        ensures
            final(self).wf(),
            build_not_started(*old(self), *final(self), kind, err@),
    {
        let ghost o = *self;
        let label = match kind {
            BuildKind::Build => "build",
            BuildKind::CleanBuild => "clean build",
            BuildKind::Install => "install",
            BuildKind::Run => "run",
        };
        let msg = text::cat3(label, ": ", err);
        self.build_lines = Vec::new();
        self.launch_after_build = self.launch_after_build && !(kind == BuildKind::Run);
        self.show_toast(msg);
        assert(build_not_started(o, *self, kind, err@)) by {
            reveal(build_not_started);
        }
    }

    /// A line of build output arrived.
    pub fn build_line(&mut self, line: String)
        requires
            old(self).wf(),
        ensures
            final(self).wf(),
            build_line_added(*old(self), *final(self), line),
    {
        let ghost o = *self;
        let ghost l = line;
        push_capped(&mut self.build_lines, line);
        assert(build_line_added(o, *self, l)) by {
            reveal(build_line_added);
        }
    }

    /// The package an `adb` command is about, given the package id the last build produced.
    pub fn resolve_target_package(&self, built: Option<String>) -> (r: Option<String>)
        ensures
            text::opt_view(r) == spec_target_package(*self, text::opt_view(built)),
    {
        match &self.active_package_filter {
            Some(p) => Some(p.clone()),
            None => match built {
                Some(b) => Some(b),
                None => if self.effective_packages.len() > 0 {
                    Some(self.effective_packages[0].clone())
                } else {
                    None
                },
            },
        }
    }

    /// No package is known for an `adb` command.
    pub fn no_target_package(&mut self, command: DeviceCommand)
        requires
            old(self).wf(),
        ensures
            final(self).wf(),
            only_toast(
                *old(self),
                *final(self),
                "No package known — can't "@ + command_verb(command),
            ),
    {
        let verb = match command {
            DeviceCommand::Uninstall => "uninstall",
            DeviceCommand::ClearData => "clear data",
            DeviceCommand::ClearCache => "clear cache",
            DeviceCommand::Launch => "launch",
        };
        self.toast_only(text::cat("No package known — can't ", verb));
    }

    /// An `adb` command about `package` ended with `outcome`.
    pub fn device_command_finished(
        &mut self,
        command: DeviceCommand,
        package: &str,
        outcome: CommandOutcome,
    )
        requires
            old(self).wf(),
        ensures
            final(self).wf(),
            only_toast(*old(self), *final(self), command_outcome_text(command, package@, outcome)),
    {
        let ghost oc = outcome;
        let msg = match outcome {
            CommandOutcome::Succeeded => {
                let head = match command {
                    DeviceCommand::Uninstall => "Uninstalled ",
                    DeviceCommand::ClearData => "Cleared all data for ",
                    DeviceCommand::ClearCache => "Cleared cache for ",
                    DeviceCommand::Launch => "Launched ",
                };
                text::cat(head, package)
            },
            CommandOutcome::Failed(stderr) => {
                let head = match command {
                    DeviceCommand::Uninstall => "Uninstall failed: ",
                    DeviceCommand::ClearData => "Clear data failed: ",
                    DeviceCommand::ClearCache => "Clear cache failed: ",
                    DeviceCommand::Launch => "Launch failed: ",
                };
                text::cat(head, stderr.as_str())
            },
            CommandOutcome::Error(e) => {
                let head = match command {
                    DeviceCommand::Uninstall => "Uninstall error: ",
                    DeviceCommand::ClearData => "Clear data error: ",
                    DeviceCommand::ClearCache => "Clear cache error: ",
                    DeviceCommand::Launch => "Launch error: ",
                };
                text::cat(head, e.as_str())
            },
        };
        assert(msg@ == command_outcome_text(command, package@, oc));
        self.toast_only(msg);
    }
}

} // verus!
