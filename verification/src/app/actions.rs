//! What each user action does to the application state, and the outside work it asks for.
use vstd::prelude::*;

use crate::action::Action;
use crate::app::state::{
    all_closed, crash_scroll_set, device_cursor_set, effect_views, format_crash_text,
    history_scroll_set, level_cursor_set, log_scroll_set, package_cursor_set, paged_down,
    paged_up, picker_moved_next, picker_moved_prev, popup_scroll_set, scrolled_down,
    scrolled_to_tail, scrolled_up, spec_crash_text, spec_navigate, toast_is, variant_cursor_set,
    App, BuildKind, ClipboardPurpose, DeviceCommand, Effect, EffectView,
};
use crate::app::{entry_views, scroll_from, spec_level_position, Pane};
use crate::logcat::LogEntry;
use crate::text;

verus! {

/// `new` is `old` with only the toast changed, to `msg`.
#[verifier::opaque]
pub open spec fn only_toast(old: App, new: App, msg: Seq<char>) -> bool {
    &&& new == (App { toast: new.toast, ..old })
    &&& toast_is(old, new, msg)
}

/// No outside work.
pub open spec fn no_effects(fx: Seq<EffectView>) -> bool {
    fx == Seq::<EffectView>::empty()
}

/// Stopping logcat: the reader is killed and logcat is no longer running.
pub open spec fn spec_stop_logcat(old: App, new: App, fx: Seq<EffectView>) -> bool {
    &&& logcat_stopped(old, new)
    &&& fx == seq![EffectView::StopLogcat]
}

/// Starting logcat on the selected device: any running reader is stopped, the PIDs of the
/// filter packages are refreshed and a new reader is started; `report` says whether a
/// failure to start is shown. Without a selected device only a toast says so.
pub open spec fn spec_start_logcat(old: App, new: App, fx: Seq<EffectView>, report: bool) -> bool {
    &&& start_logcat_without_device(old, new, fx)
    &&& start_logcat_with_device(old, new, fx, report)
}

/// `spec_start_logcat` when no device is selected.
pub open spec fn start_logcat_without_device(old: App, new: App, fx: Seq<EffectView>) -> bool {
    old.spec_selected_serial() is None ==> only_toast(old, new, "No device selected"@) && no_effects(fx)
}

/// `spec_start_logcat` when a device is selected.
pub open spec fn start_logcat_with_device(old: App, new: App, fx: Seq<EffectView>, report: bool) -> bool {
    old.spec_selected_serial() matches Some(s) ==> {
        &&& logcat_stopped(old, new)
        &&& fx == seq![
            EffectView::StopLogcat,
            EffectView::StartLogcat {
                serial: s,
                packages: old.spec_filter_packages(),
                report_failure: report,
            },
        ]
    }
}

/// `new` is `old` with logcat no longer running.
#[verifier::opaque]
pub open spec fn logcat_stopped(old: App, new: App) -> bool {
    new == (App { logcat_running: false, ..old })
}

/// A copy of the effect list `a` followed by `b`.
fn append_effects(a: Vec<Effect>, b: Vec<Effect>) -> (r: Vec<Effect>)
    ensures
        effect_views(r@) == effect_views(a@) + effect_views(b@),
{
    let mut a = a;
    let mut b = b;
    let ghost ea = effect_views(a@);
    let ghost eb = effect_views(b@);
    a.append(&mut b);
    assert(effect_views(a@) =~= ea + eb);
    a
}

/// An effect list holding `e` alone.
fn one_effect(e: Effect) -> (r: Vec<Effect>)
    ensures
        effect_views(r@) == seq![e@],
{
    let mut v: Vec<Effect> = Vec::new();
    v.push(e);
    assert(effect_views(v@) =~= seq![e@]);
    v
}

/// An empty effect list.
fn no_effect() -> (r: Vec<Effect>)
    ensures
        effect_views(r@) == Seq::<EffectView>::empty(),
{
    let v: Vec<Effect> = Vec::new();
    assert(effect_views(v@) =~= Seq::<EffectView>::empty());
    v
}

impl App {
    /// The selected device's serial, copied.
    pub fn selected_serial_owned(&self) -> (r: Option<String>)
        ensures
            text::opt_view(r) == self.spec_selected_serial(),
    {
        match self.selected_serial() {
            Some(s) => Some(s.to_owned()),
            None => None,
        }
    }

    /// Stop the logcat reader.
    pub fn stop_logcat(&mut self) -> (fx: Vec<Effect>)
        requires
            old(self).wf(),
        ensures
            final(self).wf(),
            spec_stop_logcat(*old(self), *final(self), effect_views(fx@)),
    {
        let ghost o = *self;
        self.logcat_running = false;
        assert(logcat_stopped(o, *self)) by {
            reveal(logcat_stopped);
        }
        one_effect(Effect::StopLogcat)
    }

    fn start_logcat_on(&mut self, serial: String, report: bool) -> (fx: Vec<Effect>)
        requires
            old(self).wf(),
        ensures
            final(self).wf(),
            logcat_stopped(*old(self), *final(self)),
            effect_views(fx@) == seq![
                EffectView::StopLogcat,
                EffectView::StartLogcat {
                    serial: serial@,
                    packages: old(self).spec_filter_packages(),
                    report_failure: report,
                },
            ],
    {
        let packages = self.filter_packages();
        self.logcat_running = false;
        let mut fx: Vec<Effect> = Vec::new();
        fx.push(Effect::StopLogcat);
        fx.push(Effect::StartLogcat { serial, packages, report_failure: report });
        assert(effect_views(fx@) =~= seq![fx@[0]@, fx@[1]@]);
        assert(logcat_stopped(*old(self), *self)) by {
            reveal(logcat_stopped);
        }
        fx
    }

    /// Start (or restart) the logcat reader on the selected device.
    pub fn start_logcat(&mut self, report: bool) -> (fx: Vec<Effect>)
        requires
            old(self).wf(),
        ensures
            final(self).wf(),
            spec_start_logcat(*old(self), *final(self), effect_views(fx@), report),
    {
        let ghost o = *self;
        match self.selected_serial_owned() {
            None => {
                self.show_toast("No device selected".to_owned());
                assert(only_toast(o, *self, "No device selected"@)) by {
                    reveal(only_toast);
                }
                no_effect()
            },
            Some(serial) => {
                self.start_logcat_on(serial, report)
            },
        }
    }
}

} // verus!

verus! {

// ─── frames: how an action changes the state, one opaque relation each ──────────

/// The filter field gains focus if it had none (taking it from the exclude field), or
/// loses it.
#[verifier::opaque]
pub open spec fn filter_focus_toggled(old: App, new: App) -> bool {
    new == (App {
        filter_focused: !old.filter_focused,
        exclude_focused: if !old.filter_focused { false } else { old.exclude_focused },
        ..old
    })
}

/// The exclude field gains focus if it had none (taking it from the filter field), or
/// loses it.
#[verifier::opaque]
pub open spec fn exclude_focus_toggled(old: App, new: App) -> bool {
    new == (App {
        exclude_focused: !old.exclude_focused,
        filter_focused: if !old.exclude_focused { false } else { old.filter_focused },
        ..old
    })
}

/// The filter text is emptied and loses focus.
#[verifier::opaque]
pub open spec fn filter_cleared(old: App, new: App) -> bool {
    &&& new == (App { filter_input: new.filter_input, filter_focused: false, ..old })
    &&& new.filter_input@.len() == 0
}

/// The exclude text is emptied and loses focus.
#[verifier::opaque]
pub open spec fn exclude_cleared(old: App, new: App) -> bool {
    &&& new == (App { exclude_input: new.exclude_input, exclude_focused: false, ..old })
    &&& new.exclude_input@.len() == 0
}

/// The help popup is toggled.
#[verifier::opaque]
pub open spec fn help_toggled(old: App, new: App) -> bool {
    new == (App { help_open: !old.help_open, ..old })
}

/// Incoming lines are paused or resumed.
#[verifier::opaque]
pub open spec fn pause_toggled(old: App, new: App) -> bool {
    new == (App { logcat_paused: !old.logcat_paused, ..old })
}

/// The log buffer is emptied.
#[verifier::opaque]
pub open spec fn logs_cleared(old: App, new: App) -> bool {
    &&& new == (App { log_lines: new.log_lines, ..old })
    &&& new.log_lines@.len() == 0
}

/// The package filter is switched on or off, with a toast saying which.
#[verifier::opaque]
pub open spec fn package_filter_toggled(old: App, new: App) -> bool {
    &&& new == (App { show_all_logs: !old.show_all_logs, toast: new.toast, ..old })
    &&& toast_is(
        old,
        new,
        if !old.show_all_logs {
            "Logcat: all logs"@
        } else {
            "Logcat: package filter"@
        },
    )
}

/// The level picker opens on the mode in force.
#[verifier::opaque]
pub open spec fn level_picker_opened(old: App, new: App) -> bool {
    new == (App {
        level_picker_open: true,
        level_picker_cursor: spec_level_position(old.level_filter_mode) as usize,
        ..old
    })
}

/// The variant picker opens on its first row, when there are variants.
#[verifier::opaque]
pub open spec fn variant_picker_opened(old: App, new: App) -> bool {
    if old.picker_variants@.len() > 0 {
        new == (App { picker_open: true, picker_cursor: 0, ..old })
    } else {
        new == old
    }
}

/// The device picker opens on the selected device.
#[verifier::opaque]
pub open spec fn device_picker_opened(old: App, new: App) -> bool {
    new == (App { device_picker_open: true, device_picker_cursor: old.selected_device, ..old })
}

/// The build popup is toggled, scrolled to the bottom, without auto-close.
#[verifier::opaque]
pub open spec fn build_popup_toggled(old: App, new: App) -> bool {
    new == (App {
        build_popup_open: !old.build_popup_open,
        build_popup_scroll: 0,
        build_popup_auto_close: None,
        ..old
    })
}

/// The build history is toggled and scrolled to the top.
#[verifier::opaque]
pub open spec fn build_history_toggled(old: App, new: App) -> bool {
    new == (App { build_history_open: !old.build_history_open, build_history_scroll: 0, ..old })
}

/// The package picker opens with an empty search on its first row; without a selected
/// device the installed package list is emptied.
#[verifier::opaque]
pub open spec fn package_picker_opened(old: App, new: App, fx: Seq<EffectView>) -> bool {
    exists|mid: App|
        {
            &&& #[trigger] packages_refreshed(old, mid, fx)
            &&& new == (App {
                package_picker_open: true,
                package_picker_input: new.package_picker_input,
                package_picker_cursor: 0,
                ..mid
            })
            &&& new.package_picker_input@.len() == 0
        }
}

/// The installed packages of the selected device are asked for; without one, they are
/// forgotten.
#[verifier::opaque]
pub open spec fn packages_refreshed(old: App, new: App, fx: Seq<EffectView>) -> bool {
    match old.spec_selected_serial() {
        Some(s) => new == old && fx == seq![EffectView::RefreshDevicePackages { serial: s }],
        None => {
            &&& new == (App { installed_device_packages: new.installed_device_packages, ..old })
            &&& new.installed_device_packages@.len() == 0
            &&& no_effects(fx)
        },
    }
}

/// The visibility in the log pane of each buffered line.
pub open spec fn pane_visibility(app: App) -> Seq<bool> {
    Seq::new(app.log_lines@.len(), |k: int| app.spec_pane_shows(app.log_lines@[k]@))
}

/// The scroll offset that brings the first line of the last crash into view, if it is
/// shown in the pane.
#[verifier::opaque]
pub open spec fn spec_crash_scroll(app: App) -> Option<int> {
    let crash = app.crash_events@.last();
    if crash.lines@.len() == 0 {
        None
    } else {
        scroll_from(
            entry_views(app.log_lines@),
            crash.lines@[0]@,
            pane_visibility(app),
            app.log_lines@.len() as int,
            0,
        )
    }
}

/// The crash detail opens on the last crash, scrolled to its end, and the log pane
/// scrolls to where it started.
#[verifier::opaque]
pub open spec fn crash_detail_opened(old: App, new: App) -> bool {
    new == (App {
        log_scroll: match spec_crash_scroll(old) {
            Some(s) => s as usize,
            None => old.log_scroll,
        },
        crash_detail_open: true,
        crash_detail_scroll: old.crash_events@.last().lines@.len() as usize,
        ..old
    })
}

/// The report text of the last crash.
pub open spec fn last_crash_text(app: App) -> Seq<char> {
    let c = app.crash_events@.last();
    spec_crash_text(c.summary@, c.timestamp@, c.lines@)
}

/// The search URL for the last crash: its summary and timestamp as the query.
pub open spec fn last_crash_search_url(app: App) -> Seq<char> {
    let c = app.crash_events@.last();
    "https://www.google.com/search?q="@ + crate::app::spec_url_encode(
        vstd::utf8::encode_utf8(c.summary@ + " "@ + c.timestamp@),
    )
}

/// The text handed to an AI assistant for the last crash.
pub open spec fn agent_prompt(app: App) -> Seq<char> {
    "Solve this issue. Here are the crash logs:\n\n"@ + last_crash_text(app)
}

/// An action about the last crash: without one only `msg` is shown; else `effect` is
/// asked for and the state is unchanged.
pub open spec fn spec_crash_action(
    old: App,
    new: App,
    fx: Seq<EffectView>,
    msg: Seq<char>,
    effect: EffectView,
) -> bool {
    &&& old.crash_events@.len() == 0 ==> only_toast(old, new, msg) && no_effects(fx)
    &&& old.crash_events@.len() > 0 ==> new == old && fx == seq![effect]
}

impl App {
    /// Toggle focus of the filter field.
    fn focus_filter(&mut self)
        requires
            old(self).wf(),
        ensures
            final(self).wf(),
            filter_focus_toggled(*old(self), *final(self)),
    {
        let ghost o = *self;
        self.filter_focused = !self.filter_focused;
        if self.filter_focused {
            self.exclude_focused = false;
        }
        assert(filter_focus_toggled(o, *self)) by {
            reveal(filter_focus_toggled);
        }
    }

    /// Toggle focus of the exclude field.
    fn focus_exclude(&mut self)
        requires
            old(self).wf(),
        ensures
            final(self).wf(),
            exclude_focus_toggled(*old(self), *final(self)),
    {
        let ghost o = *self;
        self.exclude_focused = !self.exclude_focused;
        if self.exclude_focused {
            self.filter_focused = false;
        }
        assert(exclude_focus_toggled(o, *self)) by {
            reveal(exclude_focus_toggled);
        }
    }

    /// Empty the filter field and leave it.
    fn clear_filter(&mut self)
        requires
            old(self).wf(),
        ensures
            final(self).wf(),
            filter_cleared(*old(self), *final(self)),
    {
        let ghost o = *self;
        self.filter_input = String::new();
        self.filter_focused = false;
        assert(filter_cleared(o, *self)) by {
            reveal(filter_cleared);
        }
    }

    /// Empty the exclude field and leave it.
    fn clear_exclude(&mut self)
        requires
            old(self).wf(),
        ensures
            final(self).wf(),
            exclude_cleared(*old(self), *final(self)),
    {
        let ghost o = *self;
        self.exclude_input = String::new();
        self.exclude_focused = false;
        assert(exclude_cleared(o, *self)) by {
            reveal(exclude_cleared);
        }
    }

    /// Toggle the help popup.
    fn toggle_help(&mut self)
        requires
            old(self).wf(),
        ensures
            final(self).wf(),
            help_toggled(*old(self), *final(self)),
    {
        let ghost o = *self;
        self.help_open = !self.help_open;
        assert(help_toggled(o, *self)) by {
            reveal(help_toggled);
        }
    }

    /// Pause or resume incoming lines.
    fn toggle_pause(&mut self)
        requires
            old(self).wf(),
        ensures
            final(self).wf(),
            pause_toggled(*old(self), *final(self)),
    {
        let ghost o = *self;
        self.logcat_paused = !self.logcat_paused;
        assert(pause_toggled(o, *self)) by {
            reveal(pause_toggled);
        }
    }

    /// Empty the log buffer and the device's logcat buffer.
    pub fn clear_logs(&mut self) -> (fx: Vec<Effect>)
        requires
            old(self).wf(),
        ensures
            final(self).wf(),
            logs_cleared(*old(self), *final(self)),
            old(self).spec_selected_serial() matches Some(s) ==> effect_views(fx@) == seq![
                EffectView::ClearDeviceLog { serial: s },
            ],
            old(self).spec_selected_serial() is None ==> no_effects(effect_views(fx@)),
    {
        let ghost o = *self;
        self.log_lines = Vec::new();
        assert(logs_cleared(o, *self)) by {
            reveal(logs_cleared);
        }
        match self.selected_serial_owned() {
            Some(serial) => one_effect(Effect::ClearDeviceLog { serial }),
            None => no_effect(),
        }
    }

    /// Switch between all logs and the package filter.
    fn toggle_package_filter(&mut self)
        requires
            old(self).wf(),
        ensures
            final(self).wf(),
            package_filter_toggled(*old(self), *final(self)),
    {
        let ghost o = *self;
        self.show_all_logs = !self.show_all_logs;
        let msg = if self.show_all_logs {
            "Logcat: all logs"
        } else {
            "Logcat: package filter"
        };
        self.show_toast(msg.to_owned());
        assert(package_filter_toggled(o, *self)) by {
            reveal(package_filter_toggled);
        }
    }

    /// Open the level picker.
    fn open_level_picker(&mut self)
        requires
            old(self).wf(),
        ensures
            final(self).wf(),
            level_picker_opened(*old(self), *final(self)),
    {
        let ghost o = *self;
        self.level_picker_open = true;
        self.level_picker_cursor = crate::app::level_filter_position(self.level_filter_mode);
        assert(level_picker_opened(o, *self)) by {
            reveal(level_picker_opened);
        }
    }

    /// Open the variant picker.
    fn open_variant_picker(&mut self)
        requires
            old(self).wf(),
        ensures
            final(self).wf(),
            variant_picker_opened(*old(self), *final(self)),
    {
        let ghost o = *self;
        if self.picker_variants.len() > 0 {
            self.picker_open = true;
            self.picker_cursor = 0;
        }
        assert(variant_picker_opened(o, *self)) by {
            reveal(variant_picker_opened);
        }
    }

    /// Open the device picker.
    fn open_device_picker(&mut self)
        requires
            old(self).wf(),
        ensures
            final(self).wf(),
            device_picker_opened(*old(self), *final(self)),
    {
        let ghost o = *self;
        self.device_picker_open = true;
        self.device_picker_cursor = self.selected_device;
        assert(device_picker_opened(o, *self)) by {
            reveal(device_picker_opened);
        }
    }

    /// Toggle the build popup.
    fn toggle_build_popup(&mut self)
        requires
            old(self).wf(),
        ensures
            final(self).wf(),
            build_popup_toggled(*old(self), *final(self)),
    {
        let ghost o = *self;
        self.build_popup_open = !self.build_popup_open;
        self.build_popup_scroll = 0;
        self.build_popup_auto_close = None;
        assert(build_popup_toggled(o, *self)) by {
            reveal(build_popup_toggled);
        }
    }

    /// Toggle the build history popup.
    fn toggle_build_history(&mut self)
        requires
            old(self).wf(),
        ensures
            final(self).wf(),
            build_history_toggled(*old(self), *final(self)),
    {
        let ghost o = *self;
        self.build_history_open = !self.build_history_open;
        self.build_history_scroll = 0;
        assert(build_history_toggled(o, *self)) by {
            reveal(build_history_toggled);
        }
    }

    /// Ask for the installed packages of the selected device; without one, forget them.
    pub fn refresh_device_packages(&mut self) -> (fx: Vec<Effect>)
        requires
            old(self).wf(),
        ensures
            final(self).wf(),
            packages_refreshed(*old(self), *final(self), effect_views(fx@)),
    {
        let ghost o = *self;
        match self.selected_serial_owned() {
            Some(serial) => {
                let fx = one_effect(Effect::RefreshDevicePackages { serial });
                assert(packages_refreshed(o, *self, effect_views(fx@))) by {
                    reveal(packages_refreshed);
                }
                fx
            },
            None => {
                self.installed_device_packages = Vec::new();
                let fx = no_effect();
                assert(packages_refreshed(o, *self, effect_views(fx@))) by {
                    reveal(packages_refreshed);
                }
                fx
            },
        }
    }

    /// Open the package picker, asking for a fresh list of installed packages.
    fn open_package_picker(&mut self) -> (fx: Vec<Effect>)
        requires
            old(self).wf(),
        ensures
            final(self).wf(),
            package_picker_opened(*old(self), *final(self), effect_views(fx@)),
    {
        let ghost o = *self;
        let fx = self.refresh_device_packages();
        let ghost mid = *self;
        self.package_picker_open = true;
        self.package_picker_input = String::new();
        self.package_picker_cursor = 0;
        assert(package_picker_opened(o, *self, effect_views(fx@))) by {
            reveal(package_picker_opened);
        }
        fx
    }

    /// The scroll offset that brings the first line of the last crash into view.
    fn crash_scroll(&self) -> (r: Option<usize>)
        requires
            self.crash_events@.len() > 0,
        ensures
            match r {
                Some(s) => spec_crash_scroll(*self) == Some(s as int),
                None => spec_crash_scroll(*self) is None,
            },
    {
        let last = self.crash_events.len() - 1;
        if self.crash_events[last].lines.len() == 0 {
            assert(spec_crash_scroll(*self) is None) by {
                reveal(spec_crash_scroll);
            }
            return None;
        }
        let target = &self.crash_events[last].lines[0];
        let f = |e: &LogEntry| -> (r: bool)
            ensures
                r == self.spec_pane_shows(e@),
            { self.pane_shows_entry(e) };
        let r = crate::app::scroll_offset_to_entry(self.log_lines.as_slice(), target, f);
        proof {
            let lines = self.log_lines@;
            let n = lines.len() as int;
            let t = target@;
            let pv = pane_visibility(*self);
            let (vis, lo) = choose|vis: Seq<bool>, lo: int|
                {
                    &&& #[trigger] crate::app::visibility_observed(f, lines, vis, lo)
                    &&& r is None ==> lo == 0
                    &&& forall|vis2: Seq<bool>|
                        vis2.len() == vis.len() && (forall|k: int|
                            lo <= k < vis.len() ==> vis2[k] == vis[k]) ==> #[trigger] scroll_from(
                            entry_views(lines),
                            t,
                            vis2,
                            n,
                            0,
                        ) == scroll_from(entry_views(lines), t, vis, n, 0)
                    &&& match r {
                        Some(m) => scroll_from(entry_views(lines), t, vis, n, 0) == Some(m as int),
                        None => scroll_from(entry_views(lines), t, vis, n, 0) is None,
                    }
                };
            assert forall|k: int| lo <= k < vis.len() implies pv[k] == vis[k] by {
                assert(f.ensures((&lines[k],), vis[k]));
            }
            assert(scroll_from(entry_views(lines), t, pv, n, 0) == scroll_from(
                entry_views(lines),
                t,
                vis,
                n,
                0,
            ));
            reveal(spec_crash_scroll);
        }
        r
    }

    /// Open the crash detail on the last crash and scroll the log pane to its start.
    fn open_last_crash_detail(&mut self)
        requires
            old(self).wf(),
            old(self).crash_events@.len() > 0,
        ensures
            final(self).wf(),
            crash_detail_opened(*old(self), *final(self)),
    {
        let ghost o = *self;
        let last = self.crash_events.len() - 1;
        let nlines = self.crash_events[last].lines.len();
        let scroll = match self.crash_scroll() {
            Some(s) => s,
            None => self.log_scroll,
        };
        self.log_scroll = scroll;
        self.crash_detail_open = true;
        self.crash_detail_scroll = nlines;
        assert(crash_detail_opened(o, *self)) by {
            reveal(crash_detail_opened);
        }
    }
}

} // verus!

verus! {

/// Build requests are refused with `msg`; the launch-after-build flag becomes `launch`.
#[verifier::opaque]
pub open spec fn build_refused(old: App, new: App, launch: bool, msg: Seq<char>) -> bool {
    &&& new == (App { launch_after_build: launch, toast: new.toast, ..old })
    &&& toast_is(old, new, msg)
}

/// Only the launch-after-build flag changes, to `launch`.
#[verifier::opaque]
pub open spec fn launch_set(old: App, new: App, launch: bool) -> bool {
    new == (App { launch_after_build: launch, ..old })
}

/// A Gradle run of `tasks`, shown as `display`, asked for by an action of `kind` that sets
/// the launch-after-build flag to `launch`: refused while a build runs or without a
/// selected device.
pub open spec fn spec_run_gradle(
    old: App,
    new: App,
    fx: Seq<EffectView>,
    launch: bool,
    tasks: Seq<Seq<char>>,
    display: Seq<char>,
    kind: BuildKind,
) -> bool {
    &&& old.build_running ==> build_refused(old, new, launch, "Already running (s to stop)"@)
        && no_effects(fx)
    &&& !old.build_running && old.spec_selected_serial() is None ==> build_refused(
        old,
        new,
        launch,
        "No device selected"@,
    ) && no_effects(fx)
    &&& !old.build_running ==> (old.spec_selected_serial() matches Some(s) ==> launch_set(
        old,
        new,
        launch,
    ) && fx == seq![EffectView::RunGradle { tasks, display, serial: s, kind }])
}

/// Build and process stop: the Gradle run and the logcat reader are killed.
#[verifier::opaque]
pub open spec fn processes_stopped(old: App, new: App) -> bool {
    new == (App {
        build_running: false,
        build_task: None,
        build_start_ms: None,
        logcat_running: false,
        ..old
    })
}

/// The pane after `p` in the cycle of panes (`forward`), or before it. The layout has a
/// single pane, the log, so the cycle stays on it.
pub open spec fn spec_cycle_pane(p: Pane, forward: bool) -> Pane {
    match p {
        Pane::Logs => Pane::Logs,
    }
}

/// Only the focused pane changes, to `p`.
#[verifier::opaque]
pub open spec fn pane_focused(old: App, new: App, p: Pane) -> bool {
    new == (App { active_pane: p, ..old })
}

/// The pane after or before `p` in the cycle of panes.
fn cycle_pane(p: Pane, forward: bool) -> (r: Pane)
    ensures
        r == spec_cycle_pane(p, forward),
{
    match p {
        Pane::Logs => Pane::Logs,
    }
}

/// The Gradle run is stopped: it no longer runs and has no task or start time.
#[verifier::opaque]
pub open spec fn build_stopped(old: App, new: App) -> bool {
    new == (App { build_running: false, build_task: None, build_start_ms: None, ..old })
}

/// An action that needs the selected device: without one only `msg` is shown; else
/// `effect(serial)` is asked for and the state is unchanged.
pub open spec fn spec_device_action(
    old: App,
    new: App,
    fx: Seq<EffectView>,
    msg: Seq<char>,
    effect: spec_fn(Seq<char>) -> EffectView,
) -> bool {
    &&& old.spec_selected_serial() is None ==> only_toast(old, new, msg) && no_effects(fx)
    &&& old.spec_selected_serial() matches Some(s) ==> new == old && fx == seq![effect(s)]
}

/// The `adb` command effect for `command` on a device.
pub open spec fn device_command_effect(command: DeviceCommand) -> spec_fn(Seq<char>) -> EffectView {
    |s: Seq<char>| EffectView::RunDeviceCommand { command, serial: s }
}

/// The scrcpy effect with the configured extra arguments.
pub open spec fn scrcpy_effect(app: App) -> spec_fn(Seq<char>) -> EffectView {
    |s: Seq<char>| EffectView::LaunchScrcpy {
        serial: s,
        args: text::strs(app.config.project.scrcpy_args@),
    }
}

impl App {
    /// Ask for the report of the last crash on the clipboard.
    fn copy_last_crash(&mut self) -> (fx: Vec<Effect>)
        requires
            old(self).wf(),
        ensures
            final(self).wf(),
            spec_crash_action(
                *old(self),
                *final(self),
                effect_views(fx@),
                "yank: no crash captured yet"@,
                EffectView::CopyToClipboard {
                    text: last_crash_text(*old(self)),
                    purpose: ClipboardPurpose::CrashDetails {
                        lines: old(self).crash_events@.last().lines@.len() as usize,
                    },
                },
            ),
    {
        let ghost o = *self;
        if self.crash_events.len() == 0 {
            self.show_toast("yank: no crash captured yet".to_owned());
            assert(only_toast(o, *self, "yank: no crash captured yet"@)) by {
                reveal(only_toast);
            }
            return no_effect();
        }
        let last = self.crash_events.len() - 1;
        let text = format_crash_text(&self.crash_events[last]);
        let lines = self.crash_events[last].lines.len();
        one_effect(Effect::CopyToClipboard { text, purpose: ClipboardPurpose::CrashDetails { lines } })
    }

    /// Ask for a prompt with the last crash's report on the clipboard.
    fn copy_agent_prompt(&mut self) -> (fx: Vec<Effect>)
        requires
            old(self).wf(),
        ensures
            final(self).wf(),
            spec_crash_action(
                *old(self),
                *final(self),
                effect_views(fx@),
                "no crash captured yet"@,
                EffectView::CopyToClipboard {
                    text: agent_prompt(*old(self)),
                    purpose: ClipboardPurpose::AgentPrompt,
                },
            ),
    {
        let ghost o = *self;
        if self.crash_events.len() == 0 {
            self.show_toast("no crash captured yet".to_owned());
            assert(only_toast(o, *self, "no crash captured yet"@)) by {
                reveal(only_toast);
            }
            return no_effect();
        }
        let last = self.crash_events.len() - 1;
        let body = format_crash_text(&self.crash_events[last]);
        let text = text::cat("Solve this issue. Here are the crash logs:\n\n", body.as_str());
        one_effect(Effect::CopyToClipboard { text, purpose: ClipboardPurpose::AgentPrompt })
    }

    /// Ask for the last crash's report to be written to a file.
    fn export_last_crash(&mut self) -> (fx: Vec<Effect>)
        requires
            old(self).wf(),
        ensures
            final(self).wf(),
            spec_crash_action(
                *old(self),
                *final(self),
                effect_views(fx@),
                "export: no crash captured yet"@,
                EffectView::WriteCrashFile { text: last_crash_text(*old(self)) },
            ),
    {
        let ghost o = *self;
        if self.crash_events.len() == 0 {
            self.show_toast("export: no crash captured yet".to_owned());
            assert(only_toast(o, *self, "export: no crash captured yet"@)) by {
                reveal(only_toast);
            }
            return no_effect();
        }
        let last = self.crash_events.len() - 1;
        let text = format_crash_text(&self.crash_events[last]);
        one_effect(Effect::WriteCrashFile { text })
    }

    /// Ask for a web search of the last crash.
    fn search_last_crash(&mut self) -> (fx: Vec<Effect>)
        requires
            old(self).wf(),
        ensures
            final(self).wf(),
            spec_crash_action(
                *old(self),
                *final(self),
                effect_views(fx@),
                "search: no crash captured yet"@,
                EffectView::OpenUrl { url: last_crash_search_url(*old(self)) },
            ),
    {
        let ghost o = *self;
        if self.crash_events.len() == 0 {
            self.show_toast("search: no crash captured yet".to_owned());
            assert(only_toast(o, *self, "search: no crash captured yet"@)) by {
                reveal(only_toast);
            }
            return no_effect();
        }
        let last = self.crash_events.len() - 1;
        let crash = &self.crash_events[last];
        let q = text::cat3(crash.summary.as_str(), " ", crash.timestamp.as_str());
        let encoded = crate::app::url_encode_query(q.as_str());
        let url = text::cat("https://www.google.com/search?q=", encoded.as_str());
        one_effect(Effect::OpenUrl { url })
    }

    /// Ask for a Gradle run, unless one is running or no device is selected.
    fn run_gradle(&mut self, launch: bool, tasks: Vec<String>, display: String, kind: BuildKind) -> (fx:
        Vec<Effect>)
        requires
            old(self).wf(),
        ensures
            final(self).wf(),
            spec_run_gradle(
                *old(self),
                *final(self),
                effect_views(fx@),
                launch,
                text::strs(tasks@),
                display@,
                kind,
            ),
    {
        let ghost o = *self;
        if self.build_running {
            self.launch_after_build = launch;
            self.show_toast("Already running (s to stop)".to_owned());
            assert(build_refused(o, *self, launch, "Already running (s to stop)"@)) by {
                reveal(build_refused);
            }
            no_effect()
        } else {
            self.request_gradle(launch, tasks, display, kind)
        }
    }

    /// `run_gradle` when no build is running.
    fn request_gradle(&mut self, launch: bool, tasks: Vec<String>, display: String, kind: BuildKind) -> (fx:
        Vec<Effect>)
        requires
            old(self).wf(),
            !old(self).build_running,
        ensures
            final(self).wf(),
            old(self).spec_selected_serial() is None ==> build_refused(
                *old(self),
                *final(self),
                launch,
                "No device selected"@,
            ) && no_effects(effect_views(fx@)),
            old(self).spec_selected_serial() matches Some(s) ==> launch_set(
                *old(self),
                *final(self),
                launch,
            ) && effect_views(fx@) == seq![
                EffectView::RunGradle { tasks: text::strs(tasks@), display: display@, serial: s, kind },
            ],
    {
        let ghost o = *self;
        self.launch_after_build = launch;
        match self.selected_serial_owned() {
            None => {
                self.show_toast("No device selected".to_owned());
                assert(build_refused(o, *self, launch, "No device selected"@)) by {
                    reveal(build_refused);
                }
                no_effect()
            },
            Some(serial) => {
                assert(launch_set(o, *self, launch)) by {
                    reveal(launch_set);
                }
                one_effect(Effect::RunGradle { tasks, display, serial, kind })
            },
        }
    }

    /// Move the focus to the next pane (`forward`) or the previous one.
    fn cycle_focus(&mut self, forward: bool)
        requires
            old(self).wf(),
        ensures
            final(self).wf(),
            pane_focused(*old(self), *final(self), spec_cycle_pane(old(self).active_pane, forward)),
    {
        let ghost o = *self;
        self.active_pane = cycle_pane(self.active_pane, forward);
        assert(pane_focused(o, *self, spec_cycle_pane(o.active_pane, forward))) by {
            reveal(pane_focused);
        }
    }

    /// Stop the Gradle run.
    pub fn stop_build(&mut self) -> (fx: Vec<Effect>)
        requires
            old(self).wf(),
        ensures
            final(self).wf(),
            build_stopped(*old(self), *final(self)),
            effect_views(fx@) == seq![EffectView::StopBuild],
    {
        let ghost o = *self;
        self.build_running = false;
        self.build_task = None;
        self.build_start_ms = None;
        assert(build_stopped(o, *self)) by {
            reveal(build_stopped);
        }
        one_effect(Effect::StopBuild)
    }

    /// Ask for a Gradle run of `task`, named by `kind` in error messages, keeping whether
    /// the app is launched afterwards; refused while a run is going or without a device.
    pub fn run_build_task(&mut self, task: &str, kind: BuildKind) -> (fx: Vec<Effect>)
        requires
            old(self).wf(),
        ensures
            final(self).wf(),
            spec_run_gradle(
                *old(self),
                *final(self),
                effect_views(fx@),
                old(self).launch_after_build,
                seq![task@],
                task@,
                kind,
            ),
    {
        let launch = self.launch_after_build;
        let mut tasks: Vec<String> = Vec::new();
        tasks.push(task.to_owned());
        assert(text::strs(tasks@) =~= seq![task@]);
        self.run_gradle(launch, tasks, task.to_owned(), kind)
    }

    /// Stop the build and the logcat reader.
    fn stop_processes(&mut self) -> (fx: Vec<Effect>)
        requires
            old(self).wf(),
        ensures
            final(self).wf(),
            processes_stopped(*old(self), *final(self)),
            effect_views(fx@) == seq![EffectView::StopBuild, EffectView::StopLogcat],
    {
        let ghost o = *self;
        self.build_running = false;
        self.build_task = None;
        self.build_start_ms = None;
        self.logcat_running = false;
        assert(processes_stopped(o, *self)) by {
            reveal(processes_stopped);
        }
        let a = one_effect(Effect::StopBuild);
        let b = one_effect(Effect::StopLogcat);
        let fx = append_effects(a, b);
        assert(effect_views(fx@) =~= seq![EffectView::StopBuild, EffectView::StopLogcat]);
        fx
    }

    /// Ask for an `adb` command about the target package on the selected device.
    fn device_command(&mut self, command: DeviceCommand) -> (fx: Vec<Effect>)
        requires
            old(self).wf(),
        ensures
            final(self).wf(),
            spec_device_action(
                *old(self),
                *final(self),
                effect_views(fx@),
                "No device selected"@,
                device_command_effect(command),
            ),
    {
        let ghost o = *self;
        match self.selected_serial_owned() {
            None => {
                self.show_toast("No device selected".to_owned());
                assert(only_toast(o, *self, "No device selected"@)) by {
                    reveal(only_toast);
                }
                no_effect()
            },
            Some(serial) => one_effect(Effect::RunDeviceCommand { command, serial }),
        }
    }

    /// Ask for scrcpy on the selected device.
    fn launch_scrcpy(&mut self) -> (fx: Vec<Effect>)
        requires
            old(self).wf(),
        ensures
            final(self).wf(),
            spec_device_action(
                *old(self),
                *final(self),
                effect_views(fx@),
                "No device"@,
                scrcpy_effect(*old(self)),
            ),
    {
        let ghost o = *self;
        match self.selected_serial_owned() {
            None => {
                self.show_toast("No device".to_owned());
                assert(only_toast(o, *self, "No device"@)) by {
                    reveal(only_toast);
                }
                no_effect()
            },
            Some(serial) => {
                let args = crate::app::state::clone_vec(&self.config.project.scrcpy_args);
                one_effect(Effect::LaunchScrcpy { serial, args })
            },
        }
    }
}

} // verus!

verus! {

/// The actions that only scroll or move a picker cursor.
pub open spec fn is_navigation(a: Action) -> bool {
    a is ScrollUp || a is ScrollDown || a is ScrollPageUp || a is ScrollPageDown || a is ScrollTail
        || a is PickerNext || a is PickerPrev
}

/// The row after `c` in a cyclic list of `len` rows.
fn wrap_next(c: usize, len: usize) -> (r: usize)
    requires
        len > 0,
    ensures
        r == crate::app::state::cyclic_next(c, len as int),
{
    let r = c % len;
    proof {
        vstd::arithmetic::div_mod::lemma_add_mod_noop_right(1, c as int, len as int);
    }
    if r + 1 >= len {
        proof {
            assert(r + 1 == len);
            vstd::arithmetic::div_mod::lemma_mod_self_0(len as int);
        }
        0
    } else {
        proof {
            vstd::arithmetic::div_mod::lemma_small_mod((r + 1) as nat, len as nat);
        }
        r + 1
    }
}

/// The row before `c` in a cyclic list of `len` rows.
fn wrap_prev(c: usize, len: usize) -> (r: usize)
    requires
        len > 0,
    ensures
        r == crate::app::state::cyclic_prev(c, len as int),
{
    if c == 0 {
        len - 1
    } else {
        c - 1
    }
}

/// `min(scroll + step, max)` without overflow.
fn step_up_to(scroll: usize, step: usize, max: usize) -> (r: usize)
    ensures
        r == crate::app::state::step_up_to(scroll, step, max),
{
    if scroll < max && max - scroll > step {
        scroll + step
    } else {
        max
    }
}

impl App {
    /// Scroll the open pane one line up.
    /// Scroll the open pane one line up.
    fn scroll_up(&mut self)
        requires
            old(self).wf(),
        ensures
            final(self).wf(),
            scrolled_up(*old(self), *final(self)),
    {
        let ghost o = *self;
        if self.build_history_open {
            self.build_history_scroll = self.build_history_scroll.saturating_sub(1);
            assert(history_scroll_set(o, *self, self.build_history_scroll)) by {
                reveal(history_scroll_set);
            }
        } else if self.crash_detail_open {
            self.crash_detail_scroll = self.crash_detail_scroll.saturating_add(1);
            assert(crash_scroll_set(o, *self, self.crash_detail_scroll)) by {
                reveal(crash_scroll_set);
            }
        } else if self.build_popup_open {
            self.build_popup_scroll = self.build_popup_scroll.saturating_add(1);
            self.build_popup_auto_close = None;
            assert(popup_scroll_set(o, *self, self.build_popup_scroll)) by {
                reveal(popup_scroll_set);
            }
        } else {
            self.log_scroll = self.log_scroll.saturating_add(1);
            assert(log_scroll_set(o, *self, self.log_scroll)) by {
                reveal(log_scroll_set);
            }
        }
    }

    /// Scroll the open pane one line down.
    fn scroll_down(&mut self)
        requires
            old(self).wf(),
        ensures
            final(self).wf(),
            scrolled_down(*old(self), *final(self)),
    {
        let ghost o = *self;
        if self.build_history_open {
            let max = self.build_history.len().saturating_sub(1);
            self.build_history_scroll = step_up_to(self.build_history_scroll, 1, max);
            assert(history_scroll_set(o, *self, self.build_history_scroll)) by {
                reveal(history_scroll_set);
            }
        } else if self.crash_detail_open {
            self.crash_detail_scroll = self.crash_detail_scroll.saturating_sub(1);
            assert(crash_scroll_set(o, *self, self.crash_detail_scroll)) by {
                reveal(crash_scroll_set);
            }
        } else if self.build_popup_open {
            self.build_popup_scroll = self.build_popup_scroll.saturating_sub(1);
            self.build_popup_auto_close = None;
            assert(popup_scroll_set(o, *self, self.build_popup_scroll)) by {
                reveal(popup_scroll_set);
            }
        } else {
            self.log_scroll = self.log_scroll.saturating_sub(1);
            assert(log_scroll_set(o, *self, self.log_scroll)) by {
                reveal(log_scroll_set);
            }
        }
    }

    /// Scroll the open pane a page up.
    fn page_up(&mut self)
        requires
            old(self).wf(),
        ensures
            final(self).wf(),
            paged_up(*old(self), *final(self)),
    {
        let ghost o = *self;
        if self.build_history_open {
            self.build_history_scroll = self.build_history_scroll.saturating_sub(10);
            assert(history_scroll_set(o, *self, self.build_history_scroll)) by {
                reveal(history_scroll_set);
            }
        } else if self.crash_detail_open {
            self.crash_detail_scroll = self.crash_detail_scroll.saturating_add(10);
            assert(crash_scroll_set(o, *self, self.crash_detail_scroll)) by {
                reveal(crash_scroll_set);
            }
        } else {
            self.log_scroll = self.log_scroll.saturating_add(20);
            assert(log_scroll_set(o, *self, self.log_scroll)) by {
                reveal(log_scroll_set);
            }
        }
    }

    /// Scroll the open pane a page down.
    fn page_down(&mut self)
        requires
            old(self).wf(),
        ensures
            final(self).wf(),
            paged_down(*old(self), *final(self)),
    {
        let ghost o = *self;
        if self.build_history_open {
            let max = self.build_history.len().saturating_sub(1);
            self.build_history_scroll = step_up_to(self.build_history_scroll, 10, max);
            assert(history_scroll_set(o, *self, self.build_history_scroll)) by {
                reveal(history_scroll_set);
            }
        } else if self.crash_detail_open {
            self.crash_detail_scroll = self.crash_detail_scroll.saturating_sub(10);
            assert(crash_scroll_set(o, *self, self.crash_detail_scroll)) by {
                reveal(crash_scroll_set);
            }
        } else {
            self.log_scroll = self.log_scroll.saturating_sub(20);
            assert(log_scroll_set(o, *self, self.log_scroll)) by {
                reveal(log_scroll_set);
            }
        }
    }

    /// Follow the tail of the log again.
    fn scroll_to_tail(&mut self)
        requires
            old(self).wf(),
        ensures
            final(self).wf(),
            scrolled_to_tail(*old(self), *final(self)),
    {
        let ghost o = *self;
        self.log_scroll = 0;
        assert(log_scroll_set(o, *self, 0)) by {
            reveal(log_scroll_set);
        }
    }

    /// Move the open picker to its next row.
    #[verifier::rlimit(80)]
    fn picker_next(&mut self)
        requires
            old(self).wf(),
        ensures
            final(self).wf(),
            picker_moved_next(*old(self), *final(self)),
    {
        let ghost o = *self;
        if self.build_history_open {
            let max = self.build_history.len().saturating_sub(1);
            self.build_history_scroll = step_up_to(self.build_history_scroll, 1, max);
            assert(history_scroll_set(o, *self, self.build_history_scroll)) by {
                reveal(history_scroll_set);
            }
        } else if self.level_picker_open {
            self.level_picker_cursor = wrap_next(self.level_picker_cursor, crate::app::LEVEL_FILTER_OPTION_COUNT);
            assert(level_cursor_set(o, *self, self.level_picker_cursor)) by {
                reveal(level_cursor_set);
            }
        } else if self.device_picker_open && self.devices.len() > 0 {
            self.device_picker_cursor = wrap_next(self.device_picker_cursor, self.devices.len());
            assert(device_cursor_set(o, *self, self.device_picker_cursor)) by {
                reveal(device_cursor_set);
            }
        } else if self.device_picker_open {
        } else if self.package_picker_open {
            let n = self.package_row_count();
            self.package_picker_cursor = wrap_next(self.package_picker_cursor, n);
            assert(package_cursor_set(o, *self, self.package_picker_cursor)) by {
                reveal(package_cursor_set);
            }
        } else if self.picker_open && self.picker_variants.len() > 0 {
            self.picker_cursor = wrap_next(self.picker_cursor, self.picker_variants.len());
            assert(variant_cursor_set(o, *self, self.picker_cursor)) by {
                reveal(variant_cursor_set);
            }
        } else {
        }
    }

    /// Move the open picker to its previous row.
    #[verifier::rlimit(80)]
    fn picker_prev(&mut self)
        requires
            old(self).wf(),
        ensures
            final(self).wf(),
            picker_moved_prev(*old(self), *final(self)),
    {
        let ghost o = *self;
        if self.build_history_open {
            self.build_history_scroll = self.build_history_scroll.saturating_sub(1);
            assert(history_scroll_set(o, *self, self.build_history_scroll)) by {
                reveal(history_scroll_set);
            }
        } else if self.level_picker_open {
            self.level_picker_cursor = wrap_prev(self.level_picker_cursor, crate::app::LEVEL_FILTER_OPTION_COUNT);
            assert(level_cursor_set(o, *self, self.level_picker_cursor)) by {
                reveal(level_cursor_set);
            }
        } else if self.device_picker_open && self.devices.len() > 0 {
            self.device_picker_cursor = wrap_prev(self.device_picker_cursor, self.devices.len());
            assert(device_cursor_set(o, *self, self.device_picker_cursor)) by {
                reveal(device_cursor_set);
            }
        } else if self.device_picker_open {
        } else if self.package_picker_open {
            let n = self.package_row_count();
            self.package_picker_cursor = wrap_prev(self.package_picker_cursor, n);
            assert(package_cursor_set(o, *self, self.package_picker_cursor)) by {
                reveal(package_cursor_set);
            }
        } else if self.picker_open && self.picker_variants.len() > 0 {
            self.picker_cursor = wrap_prev(self.picker_cursor, self.picker_variants.len());
            assert(variant_cursor_set(o, *self, self.picker_cursor)) by {
                reveal(variant_cursor_set);
            }
        } else {
        }
    }

    /// Scroll a pane or move the cursor of the open picker.
    fn navigate(&mut self, action: Action)
        requires
            old(self).wf(),
            is_navigation(action),
        ensures
            final(self).wf(),
            spec_navigate(*old(self), action, *final(self)),
    {
        match action {
            Action::ScrollUp => self.scroll_up(),
            Action::ScrollDown => self.scroll_down(),
            Action::ScrollPageUp => self.page_up(),
            Action::ScrollPageDown => self.page_down(),
            Action::ScrollTail => self.scroll_to_tail(),
            Action::PickerNext => self.picker_next(),
            _ => self.picker_prev(),
        }
    }
}

} // verus!

verus! {

/// Logcat restarts (with the current filter, failures unreported) when it was running, as a
/// device change or a new package filter needs; otherwise nothing happens.
pub open spec fn spec_restart_logcat(old: App, new: App, fx: Seq<EffectView>) -> bool {
    if old.logcat_running {
        exists|mid: App, f1: Seq<EffectView>, f2: Seq<EffectView>|
            #![trigger spec_stop_logcat(old, mid, f1), spec_start_logcat(mid, new, f2, false)]
            {
                &&& spec_stop_logcat(old, mid, f1)
                &&& spec_start_logcat(mid, new, f2, false)
                &&& fx == f1 + f2
            }
    } else {
        new == old && no_effects(fx)
    }
}

/// The serial of the device at position `i`, if there is one.
pub open spec fn serial_at(app: App, i: int) -> Option<Seq<char>> {
    if 0 <= i < app.devices@.len() {
        Some(app.devices@[i].serial@)
    } else {
        None
    }
}

/// The device under the picker's cursor is selected and stored as the preferred device, and
/// its properties and packages are asked for; when the cursor is past the list, nothing is
/// selected and the device details are forgotten.
#[verifier::opaque]
pub open spec fn device_selected(old: App, new: App, fx: Seq<EffectView>) -> bool {
    &&& new == (App {
        selected_device: old.device_picker_cursor,
        config: new.config,
        device_props: new.device_props,
        device_battery: new.device_battery,
        installed_device_packages: new.installed_device_packages,
        ..old
    })
    &&& match serial_at(old, old.device_picker_cursor as int) {
        Some(s) => {
            &&& text::opt_view(new.config.global.preferred_device_serial) == Some(s)
            &&& new.config == (crate::config::MergedConfig {
                global: crate::config::GlobalConfig {
                    preferred_device_serial: new.config.global.preferred_device_serial,
                    ..old.config.global
                },
                ..old.config
            })
            &&& new.device_props == old.device_props
            &&& new.device_battery == old.device_battery
            &&& new.installed_device_packages == old.installed_device_packages
            &&& fx == seq![
                EffectView::SavePreferredDevice { serial: s },
                EffectView::RefreshDeviceInfo { serial: s },
                EffectView::RefreshDevicePackages { serial: s },
            ]
        },
        None => {
            &&& new.config == old.config
            &&& new.device_props@.len() == 0
            &&& new.device_battery is None
            &&& new.installed_device_packages@.len() == 0
            &&& no_effects(fx)
        },
    }
}

/// Only the device picker closes.
#[verifier::opaque]
pub open spec fn device_picker_closed(old: App, new: App) -> bool {
    new == (App { device_picker_open: false, ..old })
}

/// Confirming the device picker: select the device under the cursor, restart logcat on it
/// if it was running, close the picker.
pub open spec fn spec_confirm_device(old: App, new: App, fx: Seq<EffectView>) -> bool {
    exists|m1: App, m2: App, f1: Seq<EffectView>, f2: Seq<EffectView>|
        #![trigger device_selected(old, m1, f1), spec_restart_logcat(m1, m2, f2)]
        {
            &&& device_selected(old, m1, f1)
            &&& spec_restart_logcat(m1, m2, f2)
            &&& device_picker_closed(m2, new)
            &&& fx == f1 + f2
        }
}

/// Confirming the level picker: the mode under the cursor is put in force and named in a
/// toast.
#[verifier::opaque]
pub open spec fn level_confirmed(old: App, new: App) -> bool {
    &&& new == (App {
        level_filter_mode: crate::app::spec_level_option(old.level_picker_cursor as int),
        level_picker_open: false,
        toast: new.toast,
        ..old
    })
    &&& toast_is(old, new, "Levels: "@ + new.spec_level_filter_label())
}

/// Confirming the variant picker: the variant under the cursor gives the assemble and
/// install tasks, named in a toast; the picker closes.
#[verifier::opaque]
pub open spec fn variant_confirmed(old: App, new: App) -> bool {
    if old.picker_cursor < old.picker_variants@.len() {
        let (label, assemble, install) = old.picker_variants@[old.picker_cursor as int];
        &&& new == (App {
            effective_assemble: new.effective_assemble,
            effective_install: new.effective_install,
            toast: new.toast,
            picker_open: false,
            ..old
        })
        &&& new.effective_assemble@ == assemble@
        &&& new.effective_install@ == install@
        &&& toast_is(old, new, "Variant: "@ + label@)
    } else {
        new == (App { picker_open: false, ..old })
    }
}

/// What the package picker's confirmed row chooses: `Some(None)` for the "All" row,
/// `Some(Some(p))` for a package row or the row of the typed-in name, `None` for a row past
/// the list.
pub open spec fn package_choice(app: App) -> Option<Option<Seq<char>>> {
    let f = app.spec_filtered_packages();
    let c = app.package_picker_cursor as int;
    if c == 0 {
        Some(None)
    } else if c - 1 < f.len() {
        Some(Some(f[c - 1]))
    } else if f.len() == 0 && app.package_picker_input@.len() > 0 && c == f.len() + 1 {
        Some(Some(app.package_picker_input@))
    } else {
        None
    }
}

/// The package picker applies its choice and closes with an empty search: "All" shows all
/// logs; a package filters to it, with a toast.
#[verifier::opaque]
pub open spec fn package_chosen(old: App, new: App) -> bool {
    &&& new == (App {
        active_package_filter: new.active_package_filter,
        show_all_logs: new.show_all_logs,
        toast: new.toast,
        package_picker_open: false,
        package_picker_input: new.package_picker_input,
        ..old
    })
    &&& new.package_picker_input@.len() == 0
    &&& match package_choice(old) {
        Some(None) => new.active_package_filter is None && new.show_all_logs && new.toast
            == old.toast,
        Some(Some(p)) => {
            &&& text::opt_view(new.active_package_filter) == Some(p)
            &&& !new.show_all_logs
            &&& toast_is(old, new, "Filtering: "@ + p)
        },
        None => new.active_package_filter == old.active_package_filter && new.show_all_logs
            == old.show_all_logs && new.toast == old.toast,
    }
}

/// Confirming the package picker: apply the choice, then restart logcat if it was running.
pub open spec fn spec_confirm_package(old: App, new: App, fx: Seq<EffectView>) -> bool {
    exists|mid: App| #[trigger] package_chosen(old, mid) && spec_restart_logcat(mid, new, fx)
}

/// Confirming the open picker (device, level, package or variant, in that order of
/// precedence); with none open nothing happens.
pub open spec fn spec_picker_confirm(old: App, new: App, fx: Seq<EffectView>) -> bool {
    if old.device_picker_open {
        spec_confirm_device(old, new, fx)
    } else if old.level_picker_open {
        level_confirmed(old, new) && no_effects(fx)
    } else if old.package_picker_open {
        spec_confirm_package(old, new, fx)
    } else if old.picker_open {
        variant_confirmed(old, new) && no_effects(fx)
    } else {
        new == old && no_effects(fx)
    }
}

impl App {
    /// Restart logcat if it is running.
    fn restart_logcat(&mut self) -> (fx: Vec<Effect>)
        requires
            old(self).wf(),
        ensures
            final(self).wf(),
            spec_restart_logcat(*old(self), *final(self), effect_views(fx@)),
    {
        if self.logcat_running {
            let ghost o = *self;
            let a = self.stop_logcat();
            let ghost mid = *self;
            let b = self.start_logcat(false);
            let ghost f1 = effect_views(a@);
            let ghost f2 = effect_views(b@);
            let fx = append_effects(a, b);
            assert(spec_stop_logcat(o, mid, f1) && spec_start_logcat(mid, *self, f2, false));
            fx
        } else {
            no_effect()
        }
    }

    /// `select_picked_device` when the cursor is on a device, whose serial is `serial`.
    fn persist_picked_device(&mut self, serial: String) -> (fx: Vec<Effect>)
        requires
            old(self).wf(),
            serial_at(*old(self), old(self).device_picker_cursor as int) == Some(serial@),
        ensures
            final(self).wf(),
            device_selected(*old(self), *final(self), effect_views(fx@)),
    {
        let ghost o = *self;
        self.selected_device = self.device_picker_cursor;
        self.config.global.preferred_device_serial = Some(serial.clone());
        let a = one_effect(Effect::SavePreferredDevice { serial: serial.clone() });
        let b = one_effect(Effect::RefreshDeviceInfo { serial: serial.clone() });
        let c = one_effect(Effect::RefreshDevicePackages { serial });
        let ab = append_effects(a, b);
        let fx = append_effects(ab, c);
        let ghost s = serial_at(o, o.device_picker_cursor as int)->0;
        assert(effect_views(fx@) =~= seq![
            EffectView::SavePreferredDevice { serial: s },
            EffectView::RefreshDeviceInfo { serial: s },
            EffectView::RefreshDevicePackages { serial: s },
        ]);
        assert(device_selected(o, *self, effect_views(fx@))) by {
            reveal(device_selected);
        }
        fx
    }

    /// `select_picked_device` when the cursor is past the device list.
    fn forget_picked_device(&mut self) -> (fx: Vec<Effect>)
        requires
            old(self).wf(),
            serial_at(*old(self), old(self).device_picker_cursor as int) is None,
        ensures
            final(self).wf(),
            device_selected(*old(self), *final(self), effect_views(fx@)),
    {
        let ghost o = *self;
        self.selected_device = self.device_picker_cursor;
        self.device_props = Vec::new();
        self.device_battery = None;
        self.installed_device_packages = Vec::new();
        let fx = no_effect();
        assert(device_selected(o, *self, effect_views(fx@))) by {
            reveal(device_selected);
        }
        fx
    }

    /// Select the device under the picker's cursor and store it as the preferred one.
    fn select_picked_device(&mut self) -> (fx: Vec<Effect>)
        requires
            old(self).wf(),
        ensures
            final(self).wf(),
            device_selected(*old(self), *final(self), effect_views(fx@)),
    {
        let c = self.device_picker_cursor;
        if c < self.devices.len() {
            let serial = self.devices[c].serial.clone();
            self.persist_picked_device(serial)
        } else {
            self.forget_picked_device()
        }
    }

    /// Confirm the device picker.
    fn confirm_device(&mut self) -> (fx: Vec<Effect>)
        requires
            old(self).wf(),
        ensures
            final(self).wf(),
            spec_confirm_device(*old(self), *final(self), effect_views(fx@)),
    {
        let ghost o = *self;
        let a = self.select_picked_device();
        let ghost m1 = *self;
        let b = self.restart_logcat();
        let ghost m2 = *self;
        self.device_picker_open = false;
        assert(device_picker_closed(m2, *self)) by {
            reveal(device_picker_closed);
        }
        let ghost f1 = effect_views(a@);
        let ghost f2 = effect_views(b@);
        let fx = append_effects(a, b);
        assert(device_selected(o, m1, f1) && spec_restart_logcat(m1, m2, f2));
        fx
    }

    /// Confirm the level picker.
    fn confirm_level(&mut self)
        requires
            old(self).wf(),
        ensures
            final(self).wf(),
            level_confirmed(*old(self), *final(self)),
    {
        let ghost o = *self;
        self.level_filter_mode = crate::app::level_filter_option(self.level_picker_cursor);
        self.level_picker_open = false;
        let label = self.current_level_filter_label();
        self.show_toast(text::cat("Levels: ", label.as_str()));
        assert(level_confirmed(o, *self)) by {
            reveal(level_confirmed);
        }
    }

    /// Confirm the variant picker on an existing row.
    fn confirm_variant_row(&mut self)
        requires
            old(self).wf(),
            old(self).picker_cursor < old(self).picker_variants@.len(),
        ensures
            final(self).wf(),
            variant_confirmed(*old(self), *final(self)),
    {
        let ghost o = *self;
        let c = self.picker_cursor;
        let assemble = self.picker_variants[c].1.clone();
        let install = self.picker_variants[c].2.clone();
        let msg = text::cat("Variant: ", self.picker_variants[c].0.as_str());
        self.effective_assemble = assemble;
        self.effective_install = install;
        self.show_toast(msg);
        self.picker_open = false;
        assert(variant_confirmed(o, *self)) by {
            reveal(variant_confirmed);
        }
    }

    /// Confirm the variant picker.
    fn confirm_variant(&mut self)
        requires
            old(self).wf(),
        ensures
            final(self).wf(),
            variant_confirmed(*old(self), *final(self)),
    {
        if self.picker_cursor < self.picker_variants.len() {
            self.confirm_variant_row();
        } else {
            let ghost o = *self;
            self.picker_open = false;
            assert(variant_confirmed(o, *self)) by {
                reveal(variant_confirmed);
            }
        }
    }

    /// Close the package picker and empty its search.
    fn close_package_picker(&mut self)
        ensures
            *final(self) == (App {
                package_picker_open: false,
                package_picker_input: final(self).package_picker_input,
                ..*old(self)
            }),
            final(self).package_picker_input@.len() == 0,
    {
        self.package_picker_open = false;
        self.package_picker_input = String::new();
    }

    /// Apply the "All packages" row.
    fn choose_all_packages(&mut self)
        requires
            old(self).wf(),
            package_choice(*old(self)) == Some(None::<Seq<char>>),
        ensures
            final(self).wf(),
            package_chosen(*old(self), *final(self)),
    {
        let ghost o = *self;
        self.active_package_filter = None;
        self.show_all_logs = true;
        self.close_package_picker();
        assert(package_chosen(o, *self)) by {
            reveal(package_chosen);
        }
    }

    /// Filter to `pkg`, the package the picker chose.
    fn choose_one_package(&mut self, pkg: String)
        requires
            old(self).wf(),
            package_choice(*old(self)) == Some(Some(pkg@)),
        ensures
            final(self).wf(),
            package_chosen(*old(self), *final(self)),
    {
        let ghost o = *self;
        let msg = text::cat("Filtering: ", pkg.as_str());
        self.active_package_filter = Some(pkg);
        self.show_all_logs = false;
        self.show_toast(msg);
        self.close_package_picker();
        assert(package_chosen(o, *self)) by {
            reveal(package_chosen);
        }
    }

    /// Apply the package picker's choice and close it.
    fn choose_package(&mut self)
        requires
            old(self).wf(),
        ensures
            final(self).wf(),
            package_chosen(*old(self), *final(self)),
    {
        let filtered = self.filtered_package_list();
        let c = self.package_picker_cursor;
        proof {
            assert(text::strs(filtered@).len() == filtered@.len());
        }
        if c == 0 {
            self.choose_all_packages();
        } else if c - 1 < filtered.len() {
            let pkg = filtered[c - 1].clone();
            proof {
                assert(text::strs(filtered@)[c - 1] == filtered@[c - 1]@);
            }
            self.choose_one_package(pkg);
        } else if filtered.len() == 0 && !self.package_picker_input.as_str().is_empty() && c
            == filtered.len() + 1 {
            let chosen = self.package_picker_input.clone();
            self.choose_one_package(chosen);
        } else {
            let ghost o = *self;
            self.close_package_picker();
            assert(package_chosen(o, *self)) by {
                reveal(package_chosen);
            }
        }
    }

    /// Confirm the package picker.
    fn confirm_package(&mut self) -> (fx: Vec<Effect>)
        requires
            old(self).wf(),
        ensures
            final(self).wf(),
            spec_confirm_package(*old(self), *final(self), effect_views(fx@)),
    {
        let ghost o = *self;
        self.choose_package();
        let ghost mid = *self;
        let fx = self.restart_logcat();
        assert(package_chosen(o, mid));
        fx
    }

    /// Confirm whichever picker is open.
    fn picker_confirm(&mut self) -> (fx: Vec<Effect>)
        requires
            old(self).wf(),
        ensures
            final(self).wf(),
            spec_picker_confirm(*old(self), *final(self), effect_views(fx@)),
    {
        if self.device_picker_open {
            self.confirm_device()
        } else if self.level_picker_open {
            self.confirm_level();
            no_effect()
        } else if self.package_picker_open {
            self.confirm_package()
        } else if self.picker_open {
            self.confirm_variant();
            no_effect()
        } else {
            no_effect()
        }
    }
}

} // verus!

verus! {

/// What an action does to the state, and the outside work it asks for.
pub open spec fn spec_action(old: App, action: Action, new: App, fx: Seq<EffectView>) -> bool {
    match action {
        Action::Quit => new == old && fx == seq![EffectView::Quit],
        Action::RefreshDevices => new == old && fx == seq![EffectView::RefreshDevices],
        Action::NextPane => pane_focused(old, new, spec_cycle_pane(old.active_pane, true))
            && no_effects(fx),
        Action::PrevPane => pane_focused(old, new, spec_cycle_pane(old.active_pane, false))
            && no_effects(fx),
        Action::ToggleLogcat => if old.logcat_running {
            spec_stop_logcat(old, new, fx)
        } else {
            spec_start_logcat(old, new, fx, true)
        },
        Action::FocusFilter => filter_focus_toggled(old, new) && no_effects(fx),
        Action::ClearFilter => filter_cleared(old, new) && no_effects(fx),
        Action::FocusExclude => exclude_focus_toggled(old, new) && no_effects(fx),
        Action::ClearExclude => exclude_cleared(old, new) && no_effects(fx),
        Action::ClearLogs => {
            &&& logs_cleared(old, new)
            &&& old.spec_selected_serial() matches Some(s) ==> fx == seq![
                EffectView::ClearDeviceLog { serial: s },
            ]
            &&& old.spec_selected_serial() is None ==> no_effects(fx)
        },
        Action::ToggleLogcatPause => pause_toggled(old, new) && no_effects(fx),
        Action::TogglePackageFilter => package_filter_toggled(old, new) && no_effects(fx),
        Action::OpenLevelPicker => level_picker_opened(old, new) && no_effects(fx),
        Action::ScrollUp | Action::ScrollDown | Action::ScrollPageUp | Action::ScrollPageDown
        | Action::ScrollTail | Action::PickerNext | Action::PickerPrev => spec_navigate(
            old,
            action,
            new,
        ) && no_effects(fx),
        Action::ExportLogs => new == old && fx == seq![EffectView::ExportLogs],
        Action::YankLastCrash | Action::CrashCopy => spec_crash_action(
            old,
            new,
            fx,
            "yank: no crash captured yet"@,
            EffectView::CopyToClipboard {
                text: last_crash_text(old),
                purpose: ClipboardPurpose::CrashDetails {
                    lines: old.crash_events@.last().lines@.len() as usize,
                },
            },
        ),
        Action::OpenCrashDetail => if old.crash_events@.len() == 0 {
            only_toast(old, new, "no crash captured yet"@) && no_effects(fx)
        } else {
            crash_detail_opened(old, new) && no_effects(fx)
        },
        Action::CrashAgent => spec_crash_action(
            old,
            new,
            fx,
            "no crash captured yet"@,
            EffectView::CopyToClipboard {
                text: agent_prompt(old),
                purpose: ClipboardPurpose::AgentPrompt,
            },
        ),
        Action::CrashExport => spec_crash_action(
            old,
            new,
            fx,
            "export: no crash captured yet"@,
            EffectView::WriteCrashFile { text: last_crash_text(old) },
        ),
        Action::CrashSearch => spec_crash_action(
            old,
            new,
            fx,
            "search: no crash captured yet"@,
            EffectView::OpenUrl { url: last_crash_search_url(old) },
        ),
        Action::BuildDebug => spec_run_gradle(
            old,
            new,
            fx,
            false,
            seq![old.effective_assemble@],
            old.effective_assemble@,
            BuildKind::Build,
        ),
        Action::CleanBuild => spec_run_gradle(
            old,
            new,
            fx,
            false,
            seq!["clean"@, old.effective_assemble@],
            "clean "@ + old.effective_assemble@,
            BuildKind::CleanBuild,
        ),
        Action::InstallDebug => spec_run_gradle(
            old,
            new,
            fx,
            false,
            seq![old.effective_install@],
            old.effective_install@,
            BuildKind::Install,
        ),
        Action::RunApp => spec_run_gradle(
            old,
            new,
            fx,
            true,
            seq![old.effective_install@],
            old.effective_install@,
            BuildKind::Run,
        ),
        Action::UninstallApp => spec_device_action(
            old,
            new,
            fx,
            "No device selected"@,
            device_command_effect(DeviceCommand::Uninstall),
        ),
        Action::ClearAppData => spec_device_action(
            old,
            new,
            fx,
            "No device selected"@,
            device_command_effect(DeviceCommand::ClearData),
        ),
        Action::ClearAppCache => spec_device_action(
            old,
            new,
            fx,
            "No device selected"@,
            device_command_effect(DeviceCommand::ClearCache),
        ),
        Action::OpenVariantPicker => variant_picker_opened(old, new) && no_effects(fx),
        Action::OpenDevicePicker => device_picker_opened(old, new) && no_effects(fx),
        Action::OpenBuildPopup => build_popup_toggled(old, new) && no_effects(fx),
        Action::OpenPackagePicker => package_picker_opened(old, new, fx),
        Action::OpenBuildHistory => build_history_toggled(old, new) && no_effects(fx),
        Action::OpenHelp => help_toggled(old, new) && no_effects(fx),
        Action::PickerConfirm => spec_picker_confirm(old, new, fx),
        Action::PickerCancel => all_closed(old, new, false) && no_effects(fx),
        Action::LaunchScrcpy => spec_device_action(
            old,
            new,
            fx,
            "No device"@,
            scrcpy_effect(old),
        ),
        Action::StopProcess => processes_stopped(old, new) && fx == seq![
            EffectView::StopBuild,
            EffectView::StopLogcat,
        ],
        Action::ConfirmNo => all_closed(old, new, true) && no_effects(fx),
    }
}

impl App {
    /// Close every popup and empty the package search; `focus_too` also leaves the filter
    /// fields.
    #[verifier::rlimit(50)]
    fn close_all(&mut self, focus_too: bool)
        requires
            old(self).wf(),
        ensures
            final(self).wf(),
            all_closed(*old(self), *final(self), focus_too),
    {
        let ghost o = *self;
        self.filter_focused = self.filter_focused && !focus_too;
        self.exclude_focused = self.exclude_focused && !focus_too;
        self.level_picker_open = false;
        self.picker_open = false;
        self.device_picker_open = false;
        self.crash_detail_open = false;
        self.build_popup_open = false;
        self.package_picker_open = false;
        self.build_history_open = false;
        self.help_open = false;
        self.package_picker_input = String::new();
        assert(all_closed(o, *self, focus_too)) by {
            reveal(all_closed);
        }
    }

    /// Open the crash detail, or say that no crash was captured.
    fn open_crash_detail(&mut self)
        requires
            old(self).wf(),
        ensures
            final(self).wf(),
            old(self).crash_events@.len() == 0 ==> only_toast(
                *old(self),
                *final(self),
                "no crash captured yet"@,
            ),
            old(self).crash_events@.len() > 0 ==> crash_detail_opened(*old(self), *final(self)),
    {
        if self.crash_events.len() == 0 {
            let ghost o = *self;
            self.show_toast("no crash captured yet".to_owned());
            assert(only_toast(o, *self, "no crash captured yet"@)) by {
                reveal(only_toast);
            }
        } else {
            self.open_last_crash_detail();
        }
    }

    /// Build the assemble task.
    fn build_debug(&mut self) -> (fx: Vec<Effect>)
        requires
            old(self).wf(),
        ensures
            final(self).wf(),
            spec_action(*old(self), Action::BuildDebug, *final(self), effect_views(fx@)),
    {
        let task = self.effective_assemble.clone();
        let mut tasks: Vec<String> = Vec::new();
        tasks.push(task.clone());
        assert(text::strs(tasks@) =~= seq![task@]);
        self.run_gradle(false, tasks, task, BuildKind::Build)
    }

    /// Clean, then build the assemble task.
    pub fn run_clean_build(&mut self) -> (fx: Vec<Effect>)
        requires
            old(self).wf(),
        ensures
            final(self).wf(),
            spec_action(*old(self), Action::CleanBuild, *final(self), effect_views(fx@)),
    {
        let assemble = self.effective_assemble.clone();
        let display = text::cat("clean ", assemble.as_str());
        let mut tasks: Vec<String> = Vec::new();
        tasks.push("clean".to_owned());
        tasks.push(assemble);
        assert(text::strs(tasks@) =~= seq!["clean"@, self.effective_assemble@]);
        self.run_gradle(false, tasks, display, BuildKind::CleanBuild)
    }

    /// Run the install task; `launch` says whether to launch the app once it succeeds.
    fn install(&mut self, launch: bool, kind: BuildKind) -> (fx: Vec<Effect>)
        requires
            old(self).wf(),
        ensures
            final(self).wf(),
            spec_run_gradle(
                *old(self),
                *final(self),
                effect_views(fx@),
                launch,
                seq![old(self).effective_install@],
                old(self).effective_install@,
                kind,
            ),
    {
        let task = self.effective_install.clone();
        let mut tasks: Vec<String> = Vec::new();
        tasks.push(task.clone());
        assert(text::strs(tasks@) =~= seq![task@]);
        self.run_gradle(launch, tasks, task, kind)
    }

    /// The logcat and log pane actions.
    fn handle_log_action(&mut self, action: Action) -> (fx: Vec<Effect>)
        requires
            old(self).wf(),
            action is ToggleLogcat || action is FocusFilter || action is ClearFilter
                || action is FocusExclude || action is ClearExclude || action is ClearLogs
                || action is ToggleLogcatPause || action is TogglePackageFilter
                || action is OpenLevelPicker || action is ExportLogs || is_navigation(action),
        ensures
            final(self).wf(),
            spec_action(*old(self), action, *final(self), effect_views(fx@)),
    {
        match action {
            Action::ToggleLogcat => {
                if self.logcat_running {
                    self.stop_logcat()
                } else {
                    self.start_logcat(true)
                }
            },
            Action::FocusFilter => {
                self.focus_filter();
                no_effect()
            },
            Action::ClearFilter => {
                self.clear_filter();
                no_effect()
            },
            Action::FocusExclude => {
                self.focus_exclude();
                no_effect()
            },
            Action::ClearExclude => {
                self.clear_exclude();
                no_effect()
            },
            Action::ClearLogs => self.clear_logs(),
            Action::ToggleLogcatPause => {
                self.toggle_pause();
                no_effect()
            },
            Action::TogglePackageFilter => {
                self.toggle_package_filter();
                no_effect()
            },
            Action::OpenLevelPicker => {
                self.open_level_picker();
                no_effect()
            },
            Action::ExportLogs => one_effect(Effect::ExportLogs),
            _ => {
                self.navigate(action);
                no_effect()
            },
        }
    }

    /// The crash, build and device actions.
    fn handle_work_action(&mut self, action: Action) -> (fx: Vec<Effect>)
        requires
            old(self).wf(),
            action is YankLastCrash || action is CrashCopy || action is OpenCrashDetail
                || action is CrashAgent || action is CrashExport || action is CrashSearch
                || action is BuildDebug || action is CleanBuild || action is InstallDebug
                || action is RunApp || action is UninstallApp || action is ClearAppData
                || action is ClearAppCache || action is LaunchScrcpy || action is StopProcess,
        ensures
            final(self).wf(),
            spec_action(*old(self), action, *final(self), effect_views(fx@)),
    {
        match action {
            Action::OpenCrashDetail => {
                self.open_crash_detail();
                no_effect()
            },
            Action::CrashAgent => self.copy_agent_prompt(),
            Action::CrashExport => self.export_last_crash(),
            Action::CrashSearch => self.search_last_crash(),
            Action::BuildDebug => self.build_debug(),
            Action::CleanBuild => self.run_clean_build(),
            Action::InstallDebug => self.install(false, BuildKind::Install),
            Action::RunApp => self.install(true, BuildKind::Run),
            Action::UninstallApp => self.device_command(DeviceCommand::Uninstall),
            Action::ClearAppData => self.device_command(DeviceCommand::ClearData),
            Action::ClearAppCache => self.device_command(DeviceCommand::ClearCache),
            Action::LaunchScrcpy => self.launch_scrcpy(),
            Action::StopProcess => self.stop_processes(),
            _ => self.copy_last_crash(),
        }
    }

    /// The popup actions.
    fn handle_popup_action(&mut self, action: Action) -> (fx: Vec<Effect>)
        requires
            old(self).wf(),
            action is OpenVariantPicker || action is OpenDevicePicker || action is OpenBuildPopup
                || action is OpenPackagePicker || action is OpenBuildHistory || action is OpenHelp
                || action is PickerConfirm || action is PickerCancel || action is ConfirmNo,
        ensures
            final(self).wf(),
            spec_action(*old(self), action, *final(self), effect_views(fx@)),
    {
        match action {
            Action::OpenVariantPicker => {
                self.open_variant_picker();
                no_effect()
            },
            Action::OpenDevicePicker => {
                self.open_device_picker();
                no_effect()
            },
            Action::OpenBuildPopup => {
                self.toggle_build_popup();
                no_effect()
            },
            Action::OpenPackagePicker => self.open_package_picker(),
            Action::OpenBuildHistory => {
                self.toggle_build_history();
                no_effect()
            },
            Action::OpenHelp => {
                self.toggle_help();
                no_effect()
            },
            Action::PickerConfirm => self.picker_confirm(),
            Action::PickerCancel => {
                self.close_all(false);
                no_effect()
            },
            _ => {
                self.close_all(true);
                no_effect()
            },
        }
    }

    /// Apply a user action; the effects returned are the outside work it asks for, in order.
    pub fn handle_action(&mut self, action: Action) -> (fx: Vec<Effect>)
        requires
            old(self).wf(),
        ensures
            final(self).wf(),
            spec_action(*old(self), action, *final(self), effect_views(fx@)),
    {
        match action {
            Action::Quit => one_effect(Effect::Quit),
            Action::RefreshDevices => one_effect(Effect::RefreshDevices),
            Action::NextPane => {
                self.cycle_focus(true);
                no_effect()
            },
            Action::PrevPane => {
                self.cycle_focus(false);
                no_effect()
            },
            Action::ToggleLogcat | Action::FocusFilter | Action::ClearFilter | Action::FocusExclude
            | Action::ClearExclude | Action::ClearLogs | Action::ToggleLogcatPause
            | Action::TogglePackageFilter | Action::OpenLevelPicker | Action::ExportLogs
            | Action::ScrollUp | Action::ScrollDown | Action::ScrollPageUp | Action::ScrollPageDown
            | Action::ScrollTail | Action::PickerNext | Action::PickerPrev => self.handle_log_action(
                action,
            ),
            Action::OpenVariantPicker | Action::OpenDevicePicker | Action::OpenBuildPopup
            | Action::OpenPackagePicker | Action::OpenBuildHistory | Action::OpenHelp
            | Action::PickerConfirm | Action::PickerCancel | Action::ConfirmNo => self.handle_popup_action(
                action,
            ),
            _ => self.handle_work_action(action),
        }
    }
}

} // verus!
