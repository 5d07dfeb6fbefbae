//! The application's life: construction, the clock, typed text, device list refreshes and
//! the end of a build.
use vstd::prelude::*;

use crate::adb::{device_views, Device};
use crate::app::actions::{
    no_effects, only_toast, packages_refreshed, spec_start_logcat, spec_stop_logcat,
};
use crate::app::state::{
    effect_views, toast_is, App, DeviceCommand, Effect, EffectView, DEFAULT_MAX_LOG_LINES,
};
use crate::app::{
    spec_effective_packages, spec_position, spec_preferred_device_index, spec_variant_list,
    triple_views, BuildRecord, LevelFilterMode, Pane,
};
use crate::config::MergedConfig;
use crate::logcat::TagColorCache;
use crate::project::ProjectInference;
use crate::text;

verus! {

/// `a + b` capped at `u64::MAX`.
pub open spec fn sat_add_u64(a: u64, b: u64) -> u64 {
    if a + b > u64::MAX {
        u64::MAX
    } else {
        (a + b) as u64
    }
}

/// `a - b` floored at zero.
pub open spec fn sat_sub_u64(a: u64, b: u64) -> u64 {
    if a >= b {
        (a - b) as u64
    } else {
        0
    }
}

/// How long a toast stays, in ms.
pub const TOAST_MS: u64 = 4000;

/// How long the build popup stays after a build, in ms.
pub const BUILD_POPUP_LINGER_MS: u64 = 3000;

/// How often the device list is read, in milliseconds.
pub const DEVICE_REFRESH_MS: u64 = 1000;

/// How often the git branch is read, in milliseconds.
pub const GIT_REFRESH_MS: u64 = 2000;

/// How often the PIDs of the filter packages are read, in milliseconds.
pub const PID_REFRESH_MS: u64 = 2000;

/// How often the selected device's properties and battery are read, in milliseconds.
pub const DEVICE_INFO_REFRESH_MS: u64 = 30000;

/// Whether a periodic refresh last done at clock time `last` (ms; `None` when never) is due
/// at `now`: at least `interval` has passed since.
pub open spec fn spec_refresh_due(last: Option<u64>, now: u64, interval: u64) -> bool {
    match last {
        None => true,
        Some(t) => (if now >= t { now - t } else { 0 }) >= interval,
    }
}

/// Whether a periodic refresh is due.
pub fn refresh_due(last: Option<u64>, now: u64, interval: u64) -> (r: bool)
    ensures
        r == spec_refresh_due(last, now, interval),
{
    match last {
        None => true,
        Some(t) => now.saturating_sub(t) >= interval,
    }
}

/// The clock moves to `now`: a toast older than `TOAST_MS` goes, and the build popup closes
/// once its auto-close time is reached.
#[verifier::opaque]
pub open spec fn ticked(old: App, new: App, now: u64) -> bool {
    let toast_expired = old.toast matches Some((_m, t)) && sat_sub_u64(now, t) > TOAST_MS;
    let closes = old.build_popup_auto_close matches Some(d) && now >= d;
    new == (App {
        now_ms: now,
        toast: if toast_expired {
            None
        } else {
            old.toast
        },
        build_popup_open: if closes {
            false
        } else {
            old.build_popup_open
        },
        build_popup_auto_close: if closes {
            None
        } else {
            old.build_popup_auto_close
        },
        ..old
    })
}

/// A typed character goes to the package search (which returns to its first row), else to
/// the exclude field when it has focus, else to the filter field.
#[verifier::opaque]
pub open spec fn text_typed(old: App, new: App, c: char) -> bool {
    if old.package_picker_open {
        &&& new == (App {
            package_picker_input: new.package_picker_input,
            package_picker_cursor: 0,
            ..old
        })
        &&& new.package_picker_input@ == old.package_picker_input@.push(c)
    } else if old.exclude_focused {
        &&& new == (App { exclude_input: new.exclude_input, ..old })
        &&& new.exclude_input@ == old.exclude_input@.push(c)
    } else {
        &&& new == (App { filter_input: new.filter_input, ..old })
        &&& new.filter_input@ == old.filter_input@.push(c)
    }
}

/// `s` without its last character, if it has one.
pub open spec fn drop_last_char(s: Seq<char>) -> Seq<char> {
    if s.len() > 0 {
        s.drop_last()
    } else {
        s
    }
}

/// Backspace removes the last character of the field that `text_typed` would type into.
#[verifier::opaque]
pub open spec fn text_erased(old: App, new: App) -> bool {
    if old.package_picker_open {
        &&& new == (App {
            package_picker_input: new.package_picker_input,
            package_picker_cursor: 0,
            ..old
        })
        &&& new.package_picker_input@ == drop_last_char(old.package_picker_input@)
    } else if old.exclude_focused {
        &&& new == (App { exclude_input: new.exclude_input, ..old })
        &&& new.exclude_input@ == drop_last_char(old.exclude_input@)
    } else {
        &&& new == (App { filter_input: new.filter_input, ..old })
        &&& new.filter_input@ == drop_last_char(old.filter_input@)
    }
}

/// The current git branch was read as `branch`: a change is kept and named in a toast.
#[verifier::opaque]
pub open spec fn branch_seen(old: App, new: App, branch: Option<Seq<char>>) -> bool {
    if branch == text::opt_view(old.current_branch) {
        new == old
    } else {
        &&& new == (App { current_branch: new.current_branch, toast: new.toast, ..old })
        &&& text::opt_view(new.current_branch) == branch
        &&& match branch {
            Some(b) => toast_is(old, new, "Branch: "@ + b),
            None => new.toast == old.toast,
        }
    }
}

/// Device properties and battery level were read.
#[verifier::opaque]
pub open spec fn device_info_set(old: App, new: App) -> bool {
    new == (App { device_props: new.device_props, device_battery: new.device_battery, ..old })
}

/// The properties and battery of the selected device are asked for; without one they are
/// forgotten.
#[verifier::opaque]
pub open spec fn device_info_refreshed(old: App, new: App, fx: Seq<EffectView>) -> bool {
    match old.spec_selected_serial() {
        Some(s) => new == old && fx == seq![EffectView::RefreshDeviceInfo { serial: s }],
        None => {
            &&& new == (App {
                device_props: new.device_props,
                device_battery: None,
                ..old
            })
            &&& new.device_props@.len() == 0
            &&& no_effects(fx)
        },
    }
}

/// `{code:?}` of an exit code.
pub open spec fn debug_exit_code(code: Option<i32>) -> Seq<char> {
    match code {
        Some(c) => "Some("@ + text::spec_signed_decimal(c as int) + ")"@,
        None => "None"@,
    }
}

/// The build that finished with `code` is recorded in the history with its duration and
/// named in a toast, and the build popup is set to close shortly; with no build task known
/// only the running and launch flags are cleared.
#[verifier::opaque]
pub open spec fn build_recorded(old: App, new: App, code: Option<i32>) -> bool {
    match old.build_task {
        Some(task) => {
            let start = match old.build_start_ms {
                Some(s) => s,
                None => old.now_ms,
            };
            let h = new.build_history@;
            &&& new == (App {
                build_running: false,
                launch_after_build: false,
                build_task: None,
                build_start_ms: None,
                build_history: new.build_history,
                toast: new.toast,
                build_popup_auto_close: if old.build_popup_open {
                    Some(sat_add_u64(old.now_ms, BUILD_POPUP_LINGER_MS))
                } else {
                    old.build_popup_auto_close
                },
                ..old
            })
            &&& h.len() == old.build_history@.len() + 1
            &&& h.subrange(0, old.build_history@.len() as int) == old.build_history@
            &&& h.last().task@ == task@
            &&& h.last().exit_code == code
            &&& h.last().duration_ms == sat_sub_u64(old.now_ms, start)
            &&& toast_is(
                old,
                new,
                if code == Some(0i32) {
                    task@ + " OK"@
                } else {
                    task@ + " failed: exit "@ + debug_exit_code(code)
                },
            )
        },
        None => new == (App { build_running: false, launch_after_build: false, ..old }),
    }
}

/// The effects of a finished build: the app is launched when asked for and the build
/// succeeded, on the selected device.
pub open spec fn build_finish_effects(old: App, code: Option<i32>, fx: Seq<EffectView>) -> bool {
    if old.launch_after_build && code == Some(0i32) && old.spec_selected_serial() is Some {
        fx == seq![
            EffectView::RunDeviceCommand {
                command: DeviceCommand::Launch,
                serial: old.spec_selected_serial()->0,
            },
        ]
    } else {
        no_effects(fx)
    }
}

fn no_effect() -> (r: Vec<Effect>)
    ensures
        effect_views(r@) == Seq::<EffectView>::empty(),
{
    let v: Vec<Effect> = Vec::new();
    assert(effect_views(v@) =~= Seq::<EffectView>::empty());
    v
}

fn one_effect(e: Effect) -> (r: Vec<Effect>)
    ensures
        effect_views(r@) == seq![e@],
{
    let mut v: Vec<Effect> = Vec::new();
    v.push(e);
    assert(effect_views(v@) =~= seq![e@]);
    v
}

/// `{code:?}` of an exit code.
fn fmt_exit_code(code: Option<i32>) -> (r: String)
    ensures
        r@ == debug_exit_code(code),
{
    match code {
        Some(c) => {
            let n = text::fmt_i32(c);
            text::cat3("Some(", n.as_str(), ")")
        },
        None => "None".to_owned(),
    }
}

/// Whether two optional strings hold the same text.
fn same_opt_string(a: &Option<String>, b: &Option<String>) -> (r: bool)
    ensures
        r == (text::opt_view(*a) == text::opt_view(*b)),
{
    match (a, b) {
        (Some(x), Some(y)) => *x == *y,
        (None, None) => true,
        _ => false,
    }
}

impl App {
    /// The clock reached `now` (ms).
    pub fn tick(&mut self, now: u64)
        requires
            old(self).wf(),
        ensures
            final(self).wf(),
            ticked(*old(self), *final(self), now),
    {
        let ghost o = *self;
        let expired = match &self.toast {
            Some((_m, t)) => now.saturating_sub(*t) > TOAST_MS,
            None => false,
        };
        let closes = match self.build_popup_auto_close {
            Some(d) => now >= d,
            None => false,
        };
        self.tick_parts(now, expired, closes);
        assert(ticked(o, *self, now)) by {
            reveal(ticked);
        }
    }

    /// `tick` with the toast that stays and whether the build popup closes.
    fn tick_parts(&mut self, now: u64, expired: bool, closes: bool)
        requires
            old(self).wf(),
        ensures
            final(self).wf(),
            *final(self) == (App {
                now_ms: now,
                toast: if expired {
                    None
                } else {
                    old(self).toast
                },
                build_popup_open: old(self).build_popup_open && !closes,
                build_popup_auto_close: if closes {
                    None
                } else {
                    old(self).build_popup_auto_close
                },
                ..*old(self)
            }),
    {
        let bpac = if closes {
            None
        } else {
            self.build_popup_auto_close
        };
        let mut t: Option<(String, u64)> = None;
        std::mem::swap(&mut t, &mut self.toast);
        let kept = if expired {
            None
        } else {
            t
        };
        self.now_ms = now;
        self.toast = kept;
        self.build_popup_open = self.build_popup_open && !closes;
        self.build_popup_auto_close = bpac;
    }

    /// A character was typed.
    pub fn handle_text(&mut self, c: char)
        requires
            old(self).wf(),
        ensures
            final(self).wf(),
            text_typed(*old(self), *final(self), c),
    {
        let ghost o = *self;
        if self.package_picker_open {
            text::push_char(&mut self.package_picker_input, c);
            self.package_picker_cursor = 0;
            assert(text_typed(o, *self, c)) by {
                reveal(text_typed);
            }
        } else if self.exclude_focused {
            text::push_char(&mut self.exclude_input, c);
            assert(text_typed(o, *self, c)) by {
                reveal(text_typed);
            }
        } else {
            text::push_char(&mut self.filter_input, c);
            assert(text_typed(o, *self, c)) by {
                reveal(text_typed);
            }
        }
    }

    /// Backspace was pressed.
    pub fn handle_backspace(&mut self)
        requires
            old(self).wf(),
        ensures
            final(self).wf(),
            text_erased(*old(self), *final(self)),
    {
        let ghost o = *self;
        if self.package_picker_open {
            self.package_picker_input = without_last_char(&self.package_picker_input);
            self.package_picker_cursor = 0;
            assert(text_erased(o, *self)) by {
                reveal(text_erased);
            }
        } else if self.exclude_focused {
            self.exclude_input = without_last_char(&self.exclude_input);
            assert(text_erased(o, *self)) by {
                reveal(text_erased);
            }
        } else {
            self.filter_input = without_last_char(&self.filter_input);
            assert(text_erased(o, *self)) by {
                reveal(text_erased);
            }
        }
    }

    /// The current git branch was read.
    pub fn branch_discovered(&mut self, branch: Option<String>)
        requires
            old(self).wf(),
        ensures
            final(self).wf(),
            branch_seen(*old(self), *final(self), text::opt_view(branch)),
    {
        let ghost o = *self;
        let ghost b = text::opt_view(branch);
        if same_opt_string(&branch, &self.current_branch) {
            assert(branch_seen(o, *self, b)) by {
                reveal(branch_seen);
            }
        } else {
            match branch {
                Some(name) => self.branch_named(name),
                None => self.branch_lost(),
            }
        }
    }

    /// `branch_discovered` when the branch changed to `name`.
    fn branch_named(&mut self, name: String)
        requires
            old(self).wf(),
            Some(name@) != text::opt_view(old(self).current_branch),
        ensures
            final(self).wf(),
            branch_seen(*old(self), *final(self), Some(name@)),
    {
        let ghost o = *self;
        let ghost b = name@;
        let msg = text::cat("Branch: ", name.as_str());
        self.current_branch = Some(name);
        self.show_toast(msg);
        assert(branch_seen(o, *self, Some(b))) by {
            reveal(branch_seen);
        }
    }

    /// `branch_discovered` when no branch could be read any more.
    fn branch_lost(&mut self)
        requires
            old(self).wf(),
            old(self).current_branch is Some,
        ensures
            final(self).wf(),
            branch_seen(*old(self), *final(self), None),
    {
        let ghost o = *self;
        self.current_branch = None;
        assert(branch_seen(o, *self, None)) by {
            reveal(branch_seen);
        }
    }

    /// Properties and battery level of the selected device were read.
    pub fn device_info(&mut self, props: Vec<(String, String)>, battery: Option<u8>)
        requires
            old(self).wf(),
        ensures
            final(self).wf(),
            device_info_set(*old(self), *final(self)),
            final(self).device_props@ == props@,
            final(self).device_battery == battery,
    {
        let ghost o = *self;
        self.device_props = props;
        self.device_battery = battery;
        assert(device_info_set(o, *self)) by {
            reveal(device_info_set);
        }
    }

    /// The installed packages of the selected device were listed.
    pub fn device_packages(&mut self, packages: Vec<String>)
        requires
            old(self).wf(),
        ensures
            final(self).wf(),
            *final(self) == (App { installed_device_packages: packages, ..*old(self) }),
    {
        self.installed_device_packages = packages;
    }

    /// Ask for the properties of the selected device; without one, forget them.
    pub fn refresh_device_info(&mut self) -> (fx: Vec<Effect>)
        requires
            old(self).wf(),
        ensures
            final(self).wf(),
            device_info_refreshed(*old(self), *final(self), effect_views(fx@)),
    {
        let ghost o = *self;
        match self.selected_serial_owned() {
            Some(serial) => {
                let fx = one_effect(Effect::RefreshDeviceInfo { serial });
                assert(device_info_refreshed(o, *self, effect_views(fx@))) by {
                    reveal(device_info_refreshed);
                }
                fx
            },
            None => {
                self.device_props = Vec::new();
                self.device_battery = None;
                let fx = no_effect();
                assert(device_info_refreshed(o, *self, effect_views(fx@))) by {
                    reveal(device_info_refreshed);
                }
                fx
            },
        }
    }

    /// The device and packages whose PIDs a periodic refresh reads, when there are any.
    pub fn pid_refresh_target(&self) -> (r: Option<(String, Vec<String>)>)
        ensures
            match r {
                Some((s, p)) => self.spec_selected_serial() == Some(s@) && text::strs(p@)
                    == self.spec_filter_packages() && p@.len() > 0,
                None => self.spec_selected_serial() is None || self.spec_filter_packages().len()
                    == 0,
            },
    {
        match self.selected_serial_owned() {
            Some(serial) => {
                let packages = self.filter_packages();
                if packages.len() > 0 {
                    Some((serial, packages))
                } else {
                    None
                }
            },
            None => None,
        }
    }

    /// `build_finished` when a build task is known.
    fn record_build(&mut self, code: Option<i32>)
        requires
            old(self).wf(),
            old(self).build_task is Some,
        ensures
            final(self).wf(),
            build_recorded(*old(self), *final(self), code),
    {
        let ghost o = *self;
        let task = take_string(&mut self.build_task);
        let duration_ms = self.now_ms.saturating_sub(start_or(self.build_start_ms, self.now_ms));
        let msg = build_toast(&task, code);
        let close_at = close_time(self.build_popup_open, self.now_ms, self.build_popup_auto_close);
        let ghost before = self.build_history@;
        self.build_history.push(BuildRecord { task, exit_code: code, duration_ms });
        assert(self.build_history@.subrange(0, before.len() as int) =~= before);
        self.build_running = false;
        self.launch_after_build = false;
        self.build_start_ms = None;
        self.build_popup_auto_close = close_at;
        self.show_toast(msg);
        assert(build_recorded(o, *self, code)) by {
            reveal(build_recorded);
        }
    }

    /// `build_finished` on the state.
    fn finish_build_state(&mut self, code: Option<i32>)
        requires
            old(self).wf(),
        ensures
            final(self).wf(),
            build_recorded(*old(self), *final(self), code),
    {
        if self.build_task.is_some() {
            self.record_build(code);
        } else {
            let ghost o = *self;
            self.build_running = false;
            self.launch_after_build = false;
            assert(build_recorded(o, *self, code)) by {
                reveal(build_recorded);
            }
        }
    }

    /// The effects of a finished build.
    fn build_finish_effects_of(&self, code: Option<i32>) -> (fx: Vec<Effect>)
        ensures
            build_finish_effects(*self, code, effect_views(fx@)),
    {
        let launch = self.launch_after_build && code == Some(0i32);
        match self.selected_serial_owned() {
            Some(s) => if launch {
                one_effect(Effect::RunDeviceCommand { command: DeviceCommand::Launch, serial: s })
            } else {
                no_effect()
            },
            None => no_effect(),
        }
    }

    /// The Gradle run ended with exit code `code` (`None` when killed by a signal).
    pub fn build_finished(&mut self, code: Option<i32>) -> (fx: Vec<Effect>)
        requires
            old(self).wf(),
        ensures
            final(self).wf(),
            build_recorded(*old(self), *final(self), code),
            build_finish_effects(*old(self), code, effect_views(fx@)),
    {
        let fx = self.build_finish_effects_of(code);
        self.finish_build_state(code);
        fx
    }
}

/// The string held by `o`, which is then emptied.
fn take_string(o: &mut Option<String>) -> (r: String)
    requires
        old(o).is_some(),
    ensures
        final(o).is_none(),
        Some(r) == *old(o),
{
    match o.take() {
        Some(s) => s,
        None => String::new(),
    }
}

/// The start time, or `now` when none was recorded.
fn start_or(start: Option<u64>, now: u64) -> (r: u64)
    ensures
        r == match start {
            Some(s) => s,
            None => now,
        },
{
    match start {
        Some(s) => s,
        None => now,
    }
}

/// The toast for a finished build of `task`.
fn build_toast(task: &String, code: Option<i32>) -> (r: String)
    ensures
        r@ == if code == Some(0i32) {
            task@ + " OK"@
        } else {
            task@ + " failed: exit "@ + debug_exit_code(code)
        },
{
    if code == Some(0i32) {
        text::cat(task.as_str(), " OK")
    } else {
        let c = fmt_exit_code(code);
        text::cat3(task.as_str(), " failed: exit ", c.as_str())
    }
}

/// When the build popup closes after a build: shortly if it is open, else as before.
fn close_time(open: bool, now: u64, current: Option<u64>) -> (r: Option<u64>)
    ensures
        r == if open {
            Some(sat_add_u64(now, BUILD_POPUP_LINGER_MS))
        } else {
            current
        },
{
    if open {
        Some(now.saturating_add(BUILD_POPUP_LINGER_MS))
    } else {
        current
    }
}

/// `s` without its last character, if it has one.
fn without_last_char(s: &String) -> (r: String)
    ensures
        r@ == drop_last_char(s@),
{
    let c = text::string_chars(s);
    if c.len() > 0 {
        let d = text::slice(&c, 0, c.len() - 1);
        assert(d@ =~= s@.drop_last());
        text::to_string(&d)
    } else {
        s.clone()
    }
}

} // verus!

verus! {

/// The device list is replaced by `devices`. When the selected device is gone, a toast
/// says so, logcat stops and the selection goes back to the first row; with devices left,
/// the selection follows the previously selected serial, else the preferred serial, else
/// the previous row clamped to the list.
#[verifier::opaque]
pub open spec fn devices_replaced(old: App, new: App, devices: Seq<Device>, fx: Seq<EffectView>) -> bool {
    let (sel, gone) = selection_after_refresh(old, devices);
    &&& new == (App {
        devices: new.devices,
        selected_device: sel,
        logcat_running: if gone {
            false
        } else {
            old.logcat_running
        },
        toast: new.toast,
        ..old
    })
    &&& new.devices@ == devices
    &&& if gone {
        toast_is(old, new, "Device disconnected — stopped logcat"@) && fx == seq![
            EffectView::StopLogcat,
        ]
    } else {
        new.toast == old.toast && no_effects(fx)
    }
}

/// The selection after the device list becomes `devices`, and whether the selected device
/// is gone: with devices, the previously selected serial, else the preferred serial, else
/// the previous row clamped to the list; without, the first row if the selected device is
/// gone, else the previous row.
#[verifier::opaque]
pub open spec fn selection_after_refresh(old: App, devices: Seq<Device>) -> (usize, bool) {
    let prev = old.spec_selected_serial();
    let gone = prev matches Some(p) && spec_position(device_views(devices), p) is None;
    let sel = if devices.len() > 0 {
        spec_preferred_device_index(
            device_views(devices),
            prev,
            text::opt_view(old.config.global.preferred_device_serial),
            old.selected_device as int,
        ) as usize
    } else if gone {
        0
    } else {
        old.selected_device
    };
    (sel, gone)
}

/// With devices present and logcat not running, logcat starts (failures unreported); when
/// there were devices before (`prior` of them), a toast says it resumed.
pub open spec fn logcat_resumed(old: App, new: App, fx: Seq<EffectView>, prior: nat) -> bool {
    if old.devices@.len() > 0 && !old.logcat_running {
        exists|mid: App|
            {
                &&& if prior > 0 {
                    only_toast(old, mid, "Device connected — resumed logcat"@)
                } else {
                    mid == old
                }
                &&& #[trigger] spec_start_logcat(mid, new, fx, false)
            }
    } else {
        new == old && no_effects(fx)
    }
}

/// A device list refresh: replace the list, refresh the selected device's details, and
/// resume logcat when a device is available.
pub open spec fn spec_devices_refreshed(old: App, devices: Seq<Device>, new: App, fx: Seq<EffectView>) -> bool {
    exists|
        m1: App,
        m2: App,
        m3: App,
        f1: Seq<EffectView>,
        f2: Seq<EffectView>,
        f3: Seq<EffectView>,
        f4: Seq<EffectView>,
    |
        #![trigger devices_replaced(old, m1, devices, f1), device_info_refreshed(m1, m2, f2), packages_refreshed(m2, m3, f3), logcat_resumed(m3, new, f4, old.devices@.len())]
        {
            &&& devices_replaced(old, m1, devices, f1)
            &&& device_info_refreshed(m1, m2, f2)
            &&& packages_refreshed(m2, m3, f3)
            &&& logcat_resumed(m3, new, f4, old.devices@.len())
            &&& fx == f1 + f2 + f3 + f4
        }
}

fn append_effects(a: Vec<Effect>, b: Vec<Effect>) -> (r: Vec<Effect>)
    ensures
        effect_views(r@) == effect_views(a@) + effect_views(b@),
{
    let mut a = a;
    let mut b = b;
    let ghost ea = effect_views(a@);
    let ghost eb = effect_views(b@);
    a.append(&mut b);
    assert(effect_views(a@) =~= ea + eb);
    a
}

impl App {
    /// The serial of the selected device as a borrowed string.
    fn preferred_serial(&self) -> (r: Option<&str>)
        ensures
            match r {
                Some(s) => text::opt_view(self.config.global.preferred_device_serial) == Some(s@),
                None => self.config.global.preferred_device_serial is None,
            },
    {
        match &self.config.global.preferred_device_serial {
            Some(s) => Some(s.as_str()),
            None => None,
        }
    }

    /// The selection after the device list becomes `devices`, and whether the selected
    /// device is gone.
    fn selection_after(&self, devices: &Vec<Device>) -> (r: (usize, bool))
        ensures
            r == selection_after_refresh(*self, devices@),
    {
        proof {
            reveal(selection_after_refresh);
        }
        let prev = self.selected_serial_owned();
        let gone = match &prev {
            Some(p) => crate::app::position(devices.as_slice(), p.as_str()).is_none(),
            None => false,
        };
        let prev_ref: Option<&str> = match &prev {
            Some(p) => Some(p.as_str()),
            None => None,
        };
        let sel = if devices.len() > 0 {
            crate::app::preferred_device_index(
                devices.as_slice(),
                prev_ref,
                self.preferred_serial(),
                self.selected_device,
            )
        } else if gone {
            0
        } else {
            self.selected_device
        };
        (sel, gone)
    }

    /// Replace the device list.
    fn replace_devices(&mut self, devices: Vec<Device>) -> (fx: Vec<Effect>)
        requires
            old(self).wf(),
        ensures
            final(self).wf(),
            devices_replaced(*old(self), *final(self), devices@, effect_views(fx@)),
    {
        let (sel, gone) = self.selection_after(&devices);
        if gone {
            self.replace_devices_gone(devices, sel)
        } else {
            self.replace_devices_kept(devices, sel)
        }
    }

    /// `replace_devices` when the selected device is gone.
    fn replace_devices_gone(&mut self, devices: Vec<Device>, sel: usize) -> (fx: Vec<Effect>)
        requires
            old(self).wf(),
            selection_after_refresh(*old(self), devices@) == (sel, true),
        ensures
            final(self).wf(),
            devices_replaced(*old(self), *final(self), devices@, effect_views(fx@)),
    {
        let ghost o = *self;
        let ghost d = devices@;
        self.devices = devices;
        self.selected_device = sel;
        self.logcat_running = false;
        self.show_toast("Device disconnected — stopped logcat".to_owned());
        let fx = one_effect(Effect::StopLogcat);
        assert(devices_replaced(o, *self, d, effect_views(fx@))) by {
            reveal(devices_replaced);
        }
        fx
    }

    /// `replace_devices` when the selected device is still there (or none was selected).
    fn replace_devices_kept(&mut self, devices: Vec<Device>, sel: usize) -> (fx: Vec<Effect>)
        requires
            old(self).wf(),
            selection_after_refresh(*old(self), devices@) == (sel, false),
        ensures
            final(self).wf(),
            devices_replaced(*old(self), *final(self), devices@, effect_views(fx@)),
    {
        let ghost o = *self;
        let ghost d = devices@;
        self.devices = devices;
        self.selected_device = sel;
        let fx = no_effect();
        assert(devices_replaced(o, *self, d, effect_views(fx@))) by {
            reveal(devices_replaced);
        }
        fx
    }

    /// Start logcat when a device is available and it is not running.
    fn resume_logcat(&mut self, prior: usize) -> (fx: Vec<Effect>)
        requires
            old(self).wf(),
        ensures
            final(self).wf(),
            logcat_resumed(*old(self), *final(self), effect_views(fx@), prior as nat),
    {
        if self.devices.len() > 0 && !self.logcat_running {
            if prior > 0 {
                let ghost o = *self;
                self.toast_resumed();
                let ghost mid = *self;
                let fx = self.start_logcat(false);
                assert(spec_start_logcat(mid, *self, effect_views(fx@), false));
                fx
            } else {
                let ghost o = *self;
                let fx = self.start_logcat(false);
                assert(spec_start_logcat(o, *self, effect_views(fx@), false));
                fx
            }
        } else {
            no_effect()
        }
    }

    /// Say that logcat resumes on a connected device.
    fn toast_resumed(&mut self)
        requires
            old(self).wf(),
        ensures
            final(self).wf(),
            only_toast(*old(self), *final(self), "Device connected — resumed logcat"@),
            final(self).devices == old(self).devices,
            final(self).logcat_running == old(self).logcat_running,
    {
        let ghost o = *self;
        self.show_toast("Device connected — resumed logcat".to_owned());
        assert(only_toast(o, *self, "Device connected — resumed logcat"@)) by {
            reveal(crate::app::actions::only_toast);
        }
    }

    /// The connected devices were listed.
    pub fn devices_refreshed(&mut self, devices: Vec<Device>) -> (fx: Vec<Effect>)
        requires
            old(self).wf(),
        ensures
            final(self).wf(),
            spec_devices_refreshed(*old(self), devices@, *final(self), effect_views(fx@)),
    {
        let ghost o = *self;
        let ghost d = devices@;
        let prior = self.devices.len();
        let a = self.replace_devices(devices);
        let ghost m1 = *self;
        let b = self.refresh_device_info();
        let ghost m2 = *self;
        let c = self.refresh_device_packages();
        let ghost m3 = *self;
        let e = self.resume_logcat(prior);
        let ghost f1 = effect_views(a@);
        let ghost f2 = effect_views(b@);
        let ghost f3 = effect_views(c@);
        let ghost f4 = effect_views(e@);
        let ab = append_effects(a, b);
        let abc = append_effects(ab, c);
        let fx = append_effects(abc, e);
        assert(devices_replaced(o, m1, d, f1) && device_info_refreshed(m1, m2, f2)
            && packages_refreshed(m2, m3, f3) && logcat_resumed(m3, *self, f4, prior as nat));
        fx
    }
}

} // verus!

verus! {

/// A task named in the configuration, else inferred from Gradle, else `default`.
pub open spec fn spec_task_choice(
    configured: Option<String>,
    inferred: Option<String>,
    default: Seq<char>,
) -> Seq<char> {
    match configured {
        Some(t) => t@,
        None => match inferred {
            Some(t) => t@,
            None => default,
        },
    }
}

/// The state a new application starts from, before any device is listed: no devices, no
/// popups, empty inputs and buffers, logcat and builds not running, the configured level
/// filter.
pub open spec fn fresh(app: App) -> bool {
    &&& app.devices@.len() == 0
    &&& app.selected_device == 0
    &&& app.active_pane == Pane::Logs
    &&& !app.device_picker_open && app.device_picker_cursor == 0
    &&& !app.build_popup_open && app.build_popup_scroll == 0
    &&& !app.crash_detail_open && app.crash_detail_scroll == 0
    &&& app.build_popup_auto_close is None
    &&& !app.package_picker_open && app.package_picker_input@.len() == 0
        && app.package_picker_cursor == 0
    &&& app.active_package_filter is None
    &&& !app.level_picker_open && app.level_picker_cursor == 0
    &&& app.level_filter_mode == LevelFilterMode::ConfigDefault
    &&& !app.logcat_running && !app.logcat_paused
    &&& app.log_lines@.len() == 0 && app.max_log_lines == DEFAULT_MAX_LOG_LINES
    &&& app.filter_input@.len() == 0 && !app.filter_focused
    &&& app.exclude_input@.len() == 0 && !app.exclude_focused
    &&& app.tag_color_cache@.len() == 0
    &&& app.package_pids@.len() == 0
    &&& app.crash_events@.len() == 0 && app.current_crash is None
    &&& app.device_props@.len() == 0 && app.device_battery is None
    &&& app.installed_device_packages@.len() == 0
    &&& !app.build_history_open && app.build_history_scroll == 0 && !app.help_open
    &&& !app.build_running && app.build_task is None && app.build_start_ms is None
    &&& app.build_lines@.len() == 0 && app.build_history@.len() == 0 && !app.build_expanded
    &&& app.toast is None
    &&& app.log_scroll == 0
    &&& !app.launch_after_build
    &&& !app.picker_open && app.picker_cursor == 0
}

/// The preferred device is selected when it is connected.
#[verifier::opaque]
pub open spec fn preferred_selected(old: App, new: App) -> bool {
    match text::opt_view(old.config.global.preferred_device_serial) {
        Some(p) => match spec_position(device_views(old.devices@), p) {
            Some(k) => new == (App { selected_device: k as usize, ..old }),
            None => new == old,
        },
        None => new == old,
    }
}

/// The first device refresh of a new application: a refresh as any other, then the
/// preferred device is selected when connected, its details asked for, and logcat started
/// on it when a device is there.
pub open spec fn spec_startup(old: App, devices: Seq<Device>, new: App, fx: Seq<EffectView>) -> bool {
    exists|
        m1: App,
        m2: App,
        m3: App,
        m4: App,
        m5: App,
        f1: Seq<EffectView>,
        f2: Seq<EffectView>,
        f3: Seq<EffectView>,
        f4: Seq<EffectView>,
        f5: Seq<EffectView>,
    |
        #![trigger spec_devices_refreshed(old, devices, m1, f1), device_info_refreshed(m1, m2, f2), preferred_selected(m2, m3), device_info_refreshed(m3, m4, f3), packages_refreshed(m4, m5, f4), first_start(m5, new, f5)]
        {
            &&& spec_devices_refreshed(old, devices, m1, f1)
            &&& device_info_refreshed(m1, m2, f2)
            &&& preferred_selected(m2, m3)
            &&& device_info_refreshed(m3, m4, f3)
            &&& packages_refreshed(m4, m5, f4)
            &&& first_start(m5, new, f5)
            &&& fx == f1 + f2 + f3 + f4 + f5
        }
}

/// Logcat starts (failures unreported) when a device is connected.
pub open spec fn first_start(old: App, new: App, fx: Seq<EffectView>) -> bool {
    if old.devices@.len() > 0 {
        spec_start_logcat(old, new, fx, false)
    } else {
        new == old && no_effects(fx)
    }
}

impl App {
    /// A new application for the project at `project_root` with its configuration, the
    /// Gradle inference and the current git branch; the clock reads `now_ms`.
    pub fn new(
        project_root: String,
        config: MergedConfig,
        inference: ProjectInference,
        current_branch: Option<String>,
        now_ms: u64,
    ) -> (r: App)
        ensures
            r.wf(),
            fresh(r),
            r.project_root == project_root,
            r.config == config,
            r.inference == inference,
            r.current_branch == current_branch,
            r.now_ms == now_ms,
            text::strs(r.effective_packages@) == spec_effective_packages(
                config,
                inference@.application_ids,
            ),
            r.effective_assemble@ == spec_task_choice(
                config.project.assemble_task,
                inference.assemble_task,
                "assembleDebug"@,
            ),
            r.effective_install@ == spec_task_choice(
                config.project.install_task,
                inference.install_task,
                "installDebug"@,
            ),
            r.show_all_logs == (r.effective_packages@.len() == 0),
            triple_views(r.picker_variants@) == spec_variant_list(
                inference@,
                r.effective_assemble@,
                r.effective_install@,
            ),
    {
        let effective_packages = crate::app::effective_package_list(&config, &inference);
        let effective_assemble = task_choice(
            &config.project.assemble_task,
            &inference.assemble_task,
            "assembleDebug",
        );
        let effective_install = task_choice(
            &config.project.install_task,
            &inference.install_task,
            "installDebug",
        );
        let show_all_logs = effective_packages.len() == 0;
        proof {
            assert(text::strs(effective_packages@).len() == effective_packages@.len());
        }
        let picker_variants = crate::app::build_variant_list(
            &inference,
            effective_assemble.as_str(),
            effective_install.as_str(),
        );
        App {
            project_root,
            config,
            current_branch,
            devices: Vec::new(),
            selected_device: 0,
            active_pane: Pane::Logs,
            device_picker_open: false,
            device_picker_cursor: 0,
            build_popup_open: false,
            build_popup_scroll: 0,
            crash_detail_open: false,
            crash_detail_scroll: 0,
            build_popup_auto_close: None,
            package_picker_open: false,
            package_picker_input: String::new(),
            package_picker_cursor: 0,
            active_package_filter: None,
            level_picker_open: false,
            level_picker_cursor: 0,
            level_filter_mode: LevelFilterMode::ConfigDefault,
            logcat_running: false,
            logcat_paused: false,
            log_lines: Vec::new(),
            max_log_lines: DEFAULT_MAX_LOG_LINES,
            filter_input: String::new(),
            filter_focused: false,
            exclude_input: String::new(),
            exclude_focused: false,
            tag_color_cache: TagColorCache::new(),
            package_pids: Vec::new(),
            crash_events: Vec::new(),
            current_crash: None,
            device_props: Vec::new(),
            device_battery: None,
            installed_device_packages: Vec::new(),
            build_history_open: false,
            build_history_scroll: 0,
            help_open: false,
            build_running: false,
            build_task: None,
            build_start_ms: None,
            build_lines: Vec::new(),
            build_history: Vec::new(),
            build_expanded: false,
            toast: None,
            inference,
            effective_packages,
            effective_assemble,
            effective_install,
            log_scroll: 0,
            show_all_logs,
            launch_after_build: false,
            picker_open: false,
            picker_cursor: 0,
            picker_variants,
            now_ms,
        }
    }

    /// Select the preferred device when it is connected.
    fn select_preferred_device(&mut self)
        requires
            old(self).wf(),
        ensures
            final(self).wf(),
            preferred_selected(*old(self), *final(self)),
    {
        let ghost o = *self;
        let idx = match self.preferred_serial() {
            Some(p) => crate::app::position(self.devices.as_slice(), p),
            None => None,
        };
        match idx {
            Some(k) => {
                self.selected_device = k;
                assert(preferred_selected(o, *self)) by {
                    reveal(preferred_selected);
                }
            },
            None => {
                assert(preferred_selected(o, *self)) by {
                    reveal(preferred_selected);
                }
            },
        }
    }

    /// Start logcat when a device is connected.
    fn start_if_connected(&mut self) -> (fx: Vec<Effect>)
        requires
            old(self).wf(),
        ensures
            final(self).wf(),
            first_start(*old(self), *final(self), effect_views(fx@)),
    {
        if self.devices.len() > 0 {
            self.start_logcat(false)
        } else {
            no_effect()
        }
    }

    /// The first device list of a new application was read.
    pub fn startup(&mut self, devices: Vec<Device>) -> (fx: Vec<Effect>)
        requires
            old(self).wf(),
        ensures
            final(self).wf(),
            spec_startup(*old(self), devices@, *final(self), effect_views(fx@)),
    {
        let ghost o = *self;
        let ghost d = devices@;
        let a = self.devices_refreshed(devices);
        let ghost m1 = *self;
        let b = self.refresh_device_info();
        let ghost m2 = *self;
        self.select_preferred_device();
        let ghost m3 = *self;
        let c = self.refresh_device_info();
        let ghost m4 = *self;
        let e = self.refresh_device_packages();
        let ghost m5 = *self;
        let g = self.start_if_connected();
        let ghost f1 = effect_views(a@);
        let ghost f2 = effect_views(b@);
        let ghost f3 = effect_views(c@);
        let ghost f4 = effect_views(e@);
        let ghost f5 = effect_views(g@);
        let ab = append_effects(a, b);
        let abc = append_effects(ab, c);
        let abce = append_effects(abc, e);
        let fx = append_effects(abce, g);
        assert(spec_devices_refreshed(o, d, m1, f1) && device_info_refreshed(m1, m2, f2)
            && preferred_selected(m2, m3) && device_info_refreshed(m3, m4, f3) && packages_refreshed(
            m4,
            m5,
            f4,
        ) && first_start(m5, *self, f5));
        fx
    }
}

/// A task named in the configuration, else inferred, else `default`.
fn task_choice(configured: &Option<String>, inferred: &Option<String>, default: &str) -> (r: String)
    ensures
        r@ == spec_task_choice(*configured, *inferred, default@),
{
    match configured {
        Some(t) => t.clone(),
        None => match inferred {
            Some(t) => t.clone(),
            None => default.to_owned(),
        },
    }
}

} // verus!
