//! Properties of the application's transitions that span several calls or hold of every
//! state.
use vstd::prelude::*;

use crate::action::Action;
use crate::app::actions::{
    build_refused, help_toggled, logcat_stopped, only_toast,
    pause_toggled, spec_action,
};
use crate::app::ingest::{adb_line_appended, entry_ingested, spec_ingest};
use crate::adb::Device;
use crate::app::actions::{level_confirmed, packages_refreshed, variant_confirmed};
use crate::logcat::{spec_matches_level_filter, spec_parse_log_line};
use crate::app::state::BuildKind;
use crate::app::lifecycle::{
    device_info_refreshed, devices_replaced, first_start, logcat_resumed, selection_after_refresh,
    spec_devices_refreshed, spec_startup, ticked, TOAST_MS,
};
use crate::app::state::{all_closed, App, EffectView};
use crate::app::entry_views;
use crate::event::Modal;

verus! {

/// Escape (`ConfirmNo`) closes every popup and leaves the filter fields: afterwards keys go
/// to the main view, and nothing outside is asked for.
pub proof fn law_confirm_no_returns_to_main(old: App, new: App, fx: Seq<EffectView>)
    requires
        old.wf(),
        spec_action(old, Action::ConfirmNo, new, fx),
    ensures
        new.spec_active_modal() == Modal::Main,
        fx.len() == 0,
{
    reveal(all_closed);
}

/// Cancelling a picker closes every popup; only a focused filter field can still take keys.
pub proof fn law_picker_cancel_closes_popups(old: App, new: App, fx: Seq<EffectView>)
    requires
        old.wf(),
        spec_action(old, Action::PickerCancel, new, fx),
    ensures
        new.spec_active_modal() == Modal::Main || new.spec_active_modal() == Modal::Filter
            || new.spec_active_modal() == Modal::ExcludeFilter,
{
    reveal(all_closed);
}

/// Pausing and resuming the stream (space twice) gives back the same state.
pub proof fn law_pause_twice_is_identity(
    s0: App,
    s1: App,
    s2: App,
    f1: Seq<EffectView>,
    f2: Seq<EffectView>,
)
    requires
        spec_action(s0, Action::ToggleLogcatPause, s1, f1),
        spec_action(s1, Action::ToggleLogcatPause, s2, f2),
    ensures
        s2 == s0,
        f1.len() == 0 && f2.len() == 0,
{
    reveal(pause_toggled);
}

/// Toggling the help popup twice gives back the same state.
pub proof fn law_help_twice_is_identity(
    s0: App,
    s1: App,
    s2: App,
    f1: Seq<EffectView>,
    f2: Seq<EffectView>,
)
    requires
        spec_action(s0, Action::OpenHelp, s1, f1),
        spec_action(s1, Action::OpenHelp, s2, f2),
    ensures
        s2 == s0,
{
    reveal(help_toggled);
}

/// End (`ScrollTail`) makes the log pane follow the tail again.
pub proof fn law_scroll_tail_follows(old: App, new: App, fx: Seq<EffectView>)
    requires
        spec_action(old, Action::ScrollTail, new, fx),
    ensures
        new.log_scroll == 0,
        fx.len() == 0,
{
    reveal(crate::app::state::log_scroll_set);
}

/// With no popup open, PageUp scrolls the log 20 lines back and PageDown 20 lines forward
/// (stopping at the tail).
pub proof fn law_page_scrolls_twenty_lines(old: App, up: App, down: App, f1: Seq<EffectView>, f2: Seq<
    EffectView,
>)
    requires
        !old.build_history_open,
        !old.crash_detail_open,
        old.log_scroll + 20 <= usize::MAX,
        spec_action(old, Action::ScrollPageUp, up, f1),
        spec_action(old, Action::ScrollPageDown, down, f2),
    ensures
        up.log_scroll == old.log_scroll + 20,
        down.log_scroll == if old.log_scroll >= 20 {
            old.log_scroll - 20
        } else {
            0
        },
{
    reveal(crate::app::state::log_scroll_set);
}

/// With no popup open, scrolling the log one line up and then one line down gives back the
/// same state, and neither asks for outside work.
pub proof fn law_scroll_up_then_down_returns(
    s0: App,
    s1: App,
    s2: App,
    f1: Seq<EffectView>,
    f2: Seq<EffectView>,
)
    requires
        !s0.build_history_open,
        !s0.crash_detail_open,
        !s0.build_popup_open,
        s0.log_scroll < usize::MAX,
        spec_action(s0, Action::ScrollUp, s1, f1),
        spec_action(s1, Action::ScrollDown, s2, f2),
    ensures
        s2 == s0,
        f1.len() == 0,
        f2.len() == 0,
{
    reveal(crate::app::state::log_scroll_set);
}

/// In the level picker, moving down and then up returns to the same row.
pub proof fn law_level_picker_next_then_prev(
    s0: App,
    s1: App,
    s2: App,
    f1: Seq<EffectView>,
    f2: Seq<EffectView>,
)
    requires
        s0.wf(),
        s0.level_picker_open,
        !s0.build_history_open,
        spec_action(s0, Action::PickerNext, s1, f1),
        spec_action(s1, Action::PickerPrev, s2, f2),
    ensures
        s2 == s0,
{
    reveal(crate::app::state::level_cursor_set);
}

/// While a build runs, no build action starts another Gradle run: it is refused with a
/// toast.
pub proof fn law_no_second_build(old: App, action: Action, new: App, fx: Seq<EffectView>)
    requires
        old.build_running,
        action is BuildDebug || action is CleanBuild || action is InstallDebug || action is RunApp,
        spec_action(old, action, new, fx),
    ensures
        fx.len() == 0,
        new.toast matches Some((m, _t)) && m@ == "Already running (s to stop)"@,
{
    reveal(build_refused);
}

/// Toggling logcat when it runs stops it.
pub proof fn law_toggle_stops_running_logcat(old: App, new: App, fx: Seq<EffectView>)
    requires
        old.logcat_running,
        spec_action(old, Action::ToggleLogcat, new, fx),
    ensures
        !new.logcat_running,
        fx == seq![EffectView::StopLogcat],
{
    reveal(logcat_stopped);
}

/// While paused, incoming lines are dropped and nothing changes.
pub proof fn law_paused_drops_lines(old: App, line: Seq<char>, new: App, got: bool)
    requires
        old.logcat_paused,
        spec_ingest(old, line, new, got),
    ensures
        new == old,
        !got,
{
    reveal(spec_ingest);
}

/// An appended line becomes the last entry of the buffer (a parsed entry possibly marked as
/// a crash start), and the buffer never holds more than its limit.
pub proof fn law_ingested_line_is_last(old: App, line: Seq<char>, new: App)
    requires
        old.wf(),
        new.wf(),
        spec_ingest(old, line, new, true),
    ensures
        new.log_lines@.len() > 0,
        new.log_lines@.len() <= new.max_log_lines,
        entry_views(new.log_lines@).last().raw == line,
{
    reveal(spec_ingest);
    reveal(entry_ingested);
    reveal(adb_line_appended);
    match crate::logcat::spec_parse_log_line(line) {
        Some(e) => {
            assert(entry_views(new.log_lines@).len() == new.log_lines@.len());
        },
        None => {
            assert(entry_views(new.log_lines@).len() == new.log_lines@.len());
        },
    }
}

/// A toast older than four seconds is gone after the next tick.
pub proof fn law_toast_expires(old: App, now: u64, new: App)
    requires
        old.toast matches Some((_m, t)) && now >= t && now - t > TOAST_MS,
        ticked(old, new, now),
    ensures
        new.toast is None,
{
    reveal(ticked);
}

/// When start-up ends with a device selected, logcat was started on it: the last effect of
/// the start-up asks for a logcat reader on that device.
#[verifier::rlimit(40)]
pub proof fn law_startup_starts_logcat(
    old: App,
    devices: Seq<crate::adb::Device>,
    new: App,
    fx: Seq<EffectView>,
)
    requires
        old.wf(),
        spec_startup(old, devices, new, fx),
        new.spec_selected_serial() is Some,
    ensures
        fx.len() > 0,
        fx.last() matches EffectView::StartLogcat { serial, .. } && Some(serial)
            == new.spec_selected_serial(),
{
    let (m1, m2, m3, m4, m5, f1, f2, f3, f4, f5) = choose|
        m1: App,
        m2: App,
        m3: App,
        m4: App,
        m5: App,
        f1: Seq<EffectView>,
        f2: Seq<EffectView>,
        f3: Seq<EffectView>,
        f4: Seq<EffectView>,
        f5: Seq<EffectView>,
    |
        {
            &&& crate::app::lifecycle::spec_devices_refreshed(old, devices, m1, f1)
            &&& crate::app::lifecycle::device_info_refreshed(m1, m2, f2)
            &&& crate::app::lifecycle::preferred_selected(m2, m3)
            &&& crate::app::lifecycle::device_info_refreshed(m3, m4, f3)
            &&& crate::app::actions::packages_refreshed(m4, m5, f4)
            &&& first_start(m5, new, f5)
            &&& fx == f1 + f2 + f3 + f4 + f5
        };
    reveal(logcat_stopped);
    reveal(only_toast);
    assert(new.devices == m5.devices && new.selected_device == m5.selected_device);
    assert(fx.last() == f5.last());
}

/// When the selected device is unplugged and no device is left, the refresh says so, asks
/// only to stop the logcat reader and does not start it again; the device's details are
/// cleared.
pub proof fn law_unplugged_device_stops_logcat(
    old: App,
    devices: Seq<Device>,
    new: App,
    fx: Seq<EffectView>,
)
    requires
        old.spec_selected_serial() is Some,
        devices.len() == 0,
        spec_devices_refreshed(old, devices, new, fx),
    ensures
        !new.logcat_running,
        new.devices@.len() == 0,
        new.toast matches Some((m, _)) && m@ == "Device disconnected — stopped logcat"@,
        fx == seq![EffectView::StopLogcat],
        new.device_props@.len() == 0,
        new.device_battery is None,
        new.installed_device_packages@.len() == 0,
{
    let (m1, m2, m3, f1, f2, f3, f4) = choose|
        m1: App,
        m2: App,
        m3: App,
        f1: Seq<EffectView>,
        f2: Seq<EffectView>,
        f3: Seq<EffectView>,
        f4: Seq<EffectView>,
    |
        {
            &&& devices_replaced(old, m1, devices, f1)
            &&& device_info_refreshed(m1, m2, f2)
            &&& packages_refreshed(m2, m3, f3)
            &&& logcat_resumed(m3, new, f4, old.devices@.len())
            &&& fx == f1 + f2 + f3 + f4
        };
    assert(devices_replaced(old, m1, devices, f1));
    assert(device_info_refreshed(m1, m2, f2));
    assert(packages_refreshed(m2, m3, f3));
    assert(logcat_resumed(m3, new, f4, old.devices@.len()));
    assert(fx == f1 + f2 + f3 + f4);
    assert({
        &&& m1.devices@ == devices
        &&& !m1.logcat_running
        &&& m1.toast matches Some((m, _)) && m@ == "Device disconnected — stopped logcat"@
        &&& f1 == seq![EffectView::StopLogcat]
    }) by {
        reveal(devices_replaced);
        reveal(selection_after_refresh);
    }
    assert(m1.spec_selected_serial() is None);
    assert({
        &&& m2.devices == m1.devices && m2.selected_device == m1.selected_device
        &&& m2.logcat_running == m1.logcat_running && m2.toast == m1.toast
        &&& m2.device_props@.len() == 0 && m2.device_battery is None
        &&& f2.len() == 0
    }) by {
        reveal(device_info_refreshed);
    }
    assert(m2.spec_selected_serial() is None);
    assert({
        &&& m3.devices == m2.devices && m3.device_props == m2.device_props
        &&& m3.logcat_running == m2.logcat_running && m3.toast == m2.toast
        &&& m3.device_battery == m2.device_battery
        &&& m3.installed_device_packages@.len() == 0
        &&& f3.len() == 0
    }) by {
        reveal(packages_refreshed);
    }
    assert(new == m3 && f4.len() == 0);
    assert(fx =~= seq![EffectView::StopLogcat]);
}

/// The variant chosen in the variant picker is the one built next: Build runs its assemble
/// task and Run its install task, on the selected device.
pub proof fn law_chosen_variant_is_built(
    s0: App,
    s1: App,
    s2: App,
    s3: App,
    f1: Seq<EffectView>,
    f2: Seq<EffectView>,
    f3: Seq<EffectView>,
)
    requires
        s0.picker_open,
        !s0.device_picker_open,
        !s0.level_picker_open,
        !s0.package_picker_open,
        s0.picker_cursor < s0.picker_variants@.len(),
        !s0.build_running,
        s0.spec_selected_serial() is Some,
        spec_action(s0, Action::PickerConfirm, s1, f1),
        spec_action(s1, Action::BuildDebug, s2, f2),
        spec_action(s1, Action::RunApp, s3, f3),
    ensures
        f1.len() == 0,
        ({
            let v = s0.picker_variants@[s0.picker_cursor as int];
            let serial = s0.spec_selected_serial()->0;
            &&& f2 == seq![
                EffectView::RunGradle {
                    tasks: seq![v.1@],
                    display: v.1@,
                    serial,
                    kind: BuildKind::Build,
                },
            ]
            &&& f3 == seq![
                EffectView::RunGradle { tasks: seq![v.2@], display: v.2@, serial, kind: BuildKind::Run },
            ]
        }),
{
    let v = s0.picker_variants@[s0.picker_cursor as int];
    assert({
        &&& s1.effective_assemble@ == v.1@
        &&& s1.effective_install@ == v.2@
        &&& s1.build_running == s0.build_running
        &&& s1.devices == s0.devices
        &&& s1.selected_device == s0.selected_device
    }) by {
        reveal(variant_confirmed);
    }
    assert(s1.spec_selected_serial() == s0.spec_selected_serial());
}

/// The level chosen in the level picker is put in force, and from then on a log line is
/// only kept when its level passes the levels in force.
pub proof fn law_chosen_level_governs_ingest(
    s0: App,
    s1: App,
    f1: Seq<EffectView>,
    line: Seq<char>,
    s2: App,
    got: bool,
)
    requires
        s0.level_picker_open,
        !s0.device_picker_open,
        spec_action(s0, Action::PickerConfirm, s1, f1),
        spec_ingest(s1, line, s2, got),
    ensures
        s1.level_filter_mode == crate::app::spec_level_option(s0.level_picker_cursor as int),
        f1.len() == 0,
        got && spec_parse_log_line(line) is Some ==> spec_matches_level_filter(
            s1.spec_effective_log_levels(),
            spec_parse_log_line(line)->0.level,
        ),
{
    assert(s1.level_filter_mode == crate::app::spec_level_option(s0.level_picker_cursor as int))
        by {
        reveal(level_confirmed);
    }
    reveal(spec_ingest);
}

} // verus!
