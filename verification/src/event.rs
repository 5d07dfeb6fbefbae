//! Key events mapped to actions, depending on which modal has the focus.
use vstd::prelude::*;

use crate::action::Action;

verus! {

/// What a key press means to the application.
#[derive(Debug, Clone, Copy, PartialEq, Eq, Structural)]
pub enum AppEvent {
    Action(Action),
    Text(char),
    Backspace,
}

/// Which modal is active — determines key routing.
#[derive(Debug, Clone, Copy, PartialEq, Eq, Structural)]
pub enum Modal {
    Main,
    Filter,
    ExcludeFilter,
    LevelPicker,
    VariantPicker,
    DevicePicker,
    BuildPopup,
    PackagePicker,
    BuildHistory,
    CrashDetail,
    HelpPopup,
}

/// A key, as far as the key bindings tell keys apart.
#[derive(Debug, Clone, Copy, PartialEq, Eq, Structural)]
pub enum Key {
    Char(char),
    Up,
    Down,
    Enter,
    Esc,
    Backspace,
    PageUp,
    PageDown,
    End,
    Tab,
    BackTab,
    Other,
}

/// Keys of the help popup.
pub open spec fn spec_map_help_popup(k: Key) -> Option<AppEvent> {
    match k {
        Key::Esc | Key::Char('q') | Key::Char('?') => Some(AppEvent::Action(Action::PickerCancel)),
        _ => None,
    }
}

/// Keys of the list pickers (level, variant, device).
pub open spec fn spec_map_picker(k: Key) -> Option<AppEvent> {
    match k {
        Key::Up | Key::Char('k') | Key::Char('K') => Some(AppEvent::Action(Action::PickerPrev)),
        Key::Down | Key::Char('j') | Key::Char('J') => Some(AppEvent::Action(Action::PickerNext)),
        Key::Enter => Some(AppEvent::Action(Action::PickerConfirm)),
        Key::Esc | Key::Char('q') => Some(AppEvent::Action(Action::PickerCancel)),
        _ => None,
    }
}

/// Keys of the build output popup.
pub open spec fn spec_map_build_popup(k: Key) -> Option<AppEvent> {
    match k {
        Key::Esc | Key::Char('e') | Key::Char('q') => Some(AppEvent::Action(Action::PickerCancel)),
        Key::Up | Key::Char('k') => Some(AppEvent::Action(Action::ScrollUp)),
        Key::Down | Key::Char('j') => Some(AppEvent::Action(Action::ScrollDown)),
        Key::PageUp => Some(AppEvent::Action(Action::ScrollPageUp)),
        Key::PageDown => Some(AppEvent::Action(Action::ScrollPageDown)),
        _ => None,
    }
}

/// Keys of the crash detail popup.
pub open spec fn spec_map_crash_detail(k: Key) -> Option<AppEvent> {
    match k {
        Key::Esc | Key::Char('q') | Key::Char('Q') => Some(AppEvent::Action(Action::PickerCancel)),
        Key::Char('c') | Key::Char('C') => Some(AppEvent::Action(Action::CrashCopy)),
        Key::Char('a') | Key::Char('A') => Some(AppEvent::Action(Action::CrashAgent)),
        Key::Char('w') | Key::Char('W') => Some(AppEvent::Action(Action::CrashExport)),
        Key::Char('s') | Key::Char('S') => Some(AppEvent::Action(Action::CrashSearch)),
        Key::Up | Key::Char('k') | Key::Char('K') => Some(AppEvent::Action(Action::ScrollUp)),
        Key::Down | Key::Char('j') | Key::Char('J') => Some(AppEvent::Action(Action::ScrollDown)),
        Key::PageUp => Some(AppEvent::Action(Action::ScrollPageUp)),
        Key::PageDown => Some(AppEvent::Action(Action::ScrollPageDown)),
        _ => None,
    }
}

/// Keys of the build history popup.
pub open spec fn spec_map_build_history(k: Key) -> Option<AppEvent> {
    match k {
        Key::Esc | Key::Char('q') => Some(AppEvent::Action(Action::PickerCancel)),
        Key::Up | Key::Char('k') => Some(AppEvent::Action(Action::PickerPrev)),
        Key::Down | Key::Char('j') => Some(AppEvent::Action(Action::PickerNext)),
        Key::PageUp => Some(AppEvent::Action(Action::ScrollPageUp)),
        Key::PageDown => Some(AppEvent::Action(Action::ScrollPageDown)),
        _ => None,
    }
}

/// Keys of the package picker: typing goes to the search input.
pub open spec fn spec_map_package_picker(k: Key, ctrl: bool) -> Option<AppEvent> {
    match k {
        Key::Esc => Some(AppEvent::Action(Action::PickerCancel)),
        Key::Enter => Some(AppEvent::Action(Action::PickerConfirm)),
        Key::Up => Some(AppEvent::Action(Action::PickerPrev)),
        Key::Down => Some(AppEvent::Action(Action::PickerNext)),
        Key::Backspace => Some(AppEvent::Backspace),
        Key::Char(c) if !ctrl => Some(AppEvent::Text(c)),
        _ => None,
    }
}

/// Keys while the content filter has the focus.
pub open spec fn spec_map_filter(k: Key, ctrl: bool) -> Option<AppEvent> {
    match k {
        Key::Esc => Some(AppEvent::Action(Action::ClearFilter)),
        Key::Enter => Some(AppEvent::Action(Action::FocusFilter)),
        Key::Backspace => Some(AppEvent::Backspace),
        Key::Char(c) if !ctrl => Some(AppEvent::Text(c)),
        _ => None,
    }
}

/// Keys while the exclude filter has the focus.
pub open spec fn spec_map_exclude_filter(k: Key, ctrl: bool) -> Option<AppEvent> {
    match k {
        Key::Esc => Some(AppEvent::Action(Action::ClearExclude)),
        Key::Enter => Some(AppEvent::Action(Action::FocusExclude)),
        Key::Backspace => Some(AppEvent::Backspace),
        Key::Char(c) if !ctrl => Some(AppEvent::Text(c)),
        _ => None,
    }
}

/// Keys with no modal open. `r` refreshes the device list while `R`, like `n`, runs the
/// app; Tab and Shift+Tab cycle the panes.
pub open spec fn spec_map_normal(k: Key, ctrl: bool) -> Option<AppEvent> {
    let a = match k {
        Key::Char('q') | Key::Char('Q') => Some(Action::Quit),
        Key::Esc => Some(Action::ConfirmNo),
        Key::Up if !ctrl => Some(Action::ScrollUp),
        Key::Char('k') if !ctrl => Some(Action::ScrollUp),
        Key::Char('K') if !ctrl => Some(Action::ScrollUp),
        Key::Down if !ctrl => Some(Action::ScrollDown),
        Key::Char('j') if !ctrl => Some(Action::ScrollDown),
        Key::Char('J') if !ctrl => Some(Action::ScrollDown),
        Key::PageUp => Some(Action::ScrollPageUp),
        Key::PageDown => Some(Action::ScrollPageDown),
        Key::End => Some(Action::ScrollTail),
        Key::Char('G') => Some(Action::ScrollTail),
        Key::Char('b') if !ctrl => Some(Action::BuildDebug),
        Key::Char('i') if !ctrl => Some(Action::InstallDebug),
        Key::Char('n') | Key::Char('N') | Key::Char('R') => Some(Action::RunApp),
        Key::Char('r') => Some(Action::RefreshDevices),
        Key::Tab => Some(Action::NextPane),
        Key::BackTab => Some(Action::PrevPane),
        Key::Char('l') => Some(Action::ToggleLogcat),
        Key::Char('L') => Some(Action::OpenLevelPicker),
        Key::Char('f') | Key::Char('F') => Some(Action::FocusFilter),
        Key::Char('x') | Key::Char('X') => Some(Action::FocusExclude),
        Key::Char('c') if !ctrl => Some(Action::ClearLogs),
        Key::Char(' ') => Some(Action::ToggleLogcatPause),
        Key::Char('a') | Key::Char('A') => Some(Action::TogglePackageFilter),
        Key::Char('d') | Key::Char('D') => Some(Action::OpenDevicePicker),
        Key::Char('v') | Key::Char('V') => Some(Action::OpenVariantPicker),
        Key::Char('e') | Key::Char('E') => Some(Action::OpenBuildPopup),
        Key::Char('p') | Key::Char('P') => Some(Action::OpenPackagePicker),
        Key::Char('H') | Key::Char('h') => Some(Action::OpenBuildHistory),
        Key::Char('m') | Key::Char('M') => Some(Action::LaunchScrcpy),
        Key::Char('s') if !ctrl => Some(Action::StopProcess),
        Key::Char('w') | Key::Char('W') => Some(Action::ExportLogs),
        Key::Char('y') | Key::Char('Y') => Some(Action::OpenCrashDetail),
        Key::Char('?') => Some(Action::OpenHelp),
        _ => None,
    };
    match a {
        Some(x) => Some(AppEvent::Action(x)),
        None => None,
    }
}

/// The event for a key press given the active modal.
pub open spec fn spec_map_key(modal: Modal, k: Key, ctrl: bool) -> Option<AppEvent> {
    match modal {
        Modal::Filter => spec_map_filter(k, ctrl),
        Modal::ExcludeFilter => spec_map_exclude_filter(k, ctrl),
        Modal::LevelPicker | Modal::VariantPicker | Modal::DevicePicker => spec_map_picker(k),
        Modal::BuildPopup => spec_map_build_popup(k),
        Modal::PackagePicker => spec_map_package_picker(k, ctrl),
        Modal::BuildHistory => spec_map_build_history(k),
        Modal::CrashDetail => spec_map_crash_detail(k),
        Modal::HelpPopup => spec_map_help_popup(k),
        Modal::Main => spec_map_normal(k, ctrl),
    }
}

fn map_help_popup(k: Key) -> (r: Option<AppEvent>)
    ensures
        r == spec_map_help_popup(k),
{
    match k {
        Key::Esc | Key::Char('q') | Key::Char('?') => Some(AppEvent::Action(Action::PickerCancel)),
        _ => None,
    }
}

fn map_picker(k: Key) -> (r: Option<AppEvent>)
    ensures
        r == spec_map_picker(k),
{
    match k {
        Key::Up | Key::Char('k') | Key::Char('K') => Some(AppEvent::Action(Action::PickerPrev)),
        Key::Down | Key::Char('j') | Key::Char('J') => Some(AppEvent::Action(Action::PickerNext)),
        Key::Enter => Some(AppEvent::Action(Action::PickerConfirm)),
        Key::Esc | Key::Char('q') => Some(AppEvent::Action(Action::PickerCancel)),
        _ => None,
    }
}

fn map_build_popup(k: Key) -> (r: Option<AppEvent>)
    ensures
        r == spec_map_build_popup(k),
{
    match k {
        Key::Esc | Key::Char('e') | Key::Char('q') => Some(AppEvent::Action(Action::PickerCancel)),
        Key::Up | Key::Char('k') => Some(AppEvent::Action(Action::ScrollUp)),
        Key::Down | Key::Char('j') => Some(AppEvent::Action(Action::ScrollDown)),
        Key::PageUp => Some(AppEvent::Action(Action::ScrollPageUp)),
        Key::PageDown => Some(AppEvent::Action(Action::ScrollPageDown)),
        _ => None,
    }
}

fn map_crash_detail(k: Key) -> (r: Option<AppEvent>)
    ensures
        r == spec_map_crash_detail(k),
{
    match k {
        Key::Esc | Key::Char('q') | Key::Char('Q') => Some(AppEvent::Action(Action::PickerCancel)),
        Key::Char('c') | Key::Char('C') => Some(AppEvent::Action(Action::CrashCopy)),
        Key::Char('a') | Key::Char('A') => Some(AppEvent::Action(Action::CrashAgent)),
        Key::Char('w') | Key::Char('W') => Some(AppEvent::Action(Action::CrashExport)),
        Key::Char('s') | Key::Char('S') => Some(AppEvent::Action(Action::CrashSearch)),
        Key::Up | Key::Char('k') | Key::Char('K') => Some(AppEvent::Action(Action::ScrollUp)),
        Key::Down | Key::Char('j') | Key::Char('J') => Some(AppEvent::Action(Action::ScrollDown)),
        Key::PageUp => Some(AppEvent::Action(Action::ScrollPageUp)),
        Key::PageDown => Some(AppEvent::Action(Action::ScrollPageDown)),
        _ => None,
    }
}

fn map_build_history(k: Key) -> (r: Option<AppEvent>)
    ensures
        r == spec_map_build_history(k),
{
    match k {
        Key::Esc | Key::Char('q') => Some(AppEvent::Action(Action::PickerCancel)),
        Key::Up | Key::Char('k') => Some(AppEvent::Action(Action::PickerPrev)),
        Key::Down | Key::Char('j') => Some(AppEvent::Action(Action::PickerNext)),
        Key::PageUp => Some(AppEvent::Action(Action::ScrollPageUp)),
        Key::PageDown => Some(AppEvent::Action(Action::ScrollPageDown)),
        _ => None,
    }
}

fn map_package_picker(k: Key, ctrl: bool) -> (r: Option<AppEvent>)
    ensures
        r == spec_map_package_picker(k, ctrl),
{
    match k {
        Key::Esc => Some(AppEvent::Action(Action::PickerCancel)),
        Key::Enter => Some(AppEvent::Action(Action::PickerConfirm)),
        Key::Up => Some(AppEvent::Action(Action::PickerPrev)),
        Key::Down => Some(AppEvent::Action(Action::PickerNext)),
        Key::Backspace => Some(AppEvent::Backspace),
        Key::Char(c) if !ctrl => Some(AppEvent::Text(c)),
        _ => None,
    }
}

fn map_filter(k: Key, ctrl: bool) -> (r: Option<AppEvent>)
    ensures
        r == spec_map_filter(k, ctrl),
{
    match k {
        Key::Esc => Some(AppEvent::Action(Action::ClearFilter)),
        Key::Enter => Some(AppEvent::Action(Action::FocusFilter)),
        Key::Backspace => Some(AppEvent::Backspace),
        Key::Char(c) if !ctrl => Some(AppEvent::Text(c)),
        _ => None,
    }
}

fn map_exclude_filter(k: Key, ctrl: bool) -> (r: Option<AppEvent>)
    ensures
        r == spec_map_exclude_filter(k, ctrl),
{
    match k {
        Key::Esc => Some(AppEvent::Action(Action::ClearExclude)),
        Key::Enter => Some(AppEvent::Action(Action::FocusExclude)),
        Key::Backspace => Some(AppEvent::Backspace),
        Key::Char(c) if !ctrl => Some(AppEvent::Text(c)),
        _ => None,
    }
}

fn map_normal(k: Key, ctrl: bool) -> (r: Option<AppEvent>)
    ensures
        r == spec_map_normal(k, ctrl),
{
    let a = match k {
        Key::Char('q') | Key::Char('Q') => Some(Action::Quit),
        Key::Esc => Some(Action::ConfirmNo),
        Key::Up if !ctrl => Some(Action::ScrollUp),
        Key::Char('k') if !ctrl => Some(Action::ScrollUp),
        Key::Char('K') if !ctrl => Some(Action::ScrollUp),
        Key::Down if !ctrl => Some(Action::ScrollDown),
        Key::Char('j') if !ctrl => Some(Action::ScrollDown),
        Key::Char('J') if !ctrl => Some(Action::ScrollDown),
        Key::PageUp => Some(Action::ScrollPageUp),
        Key::PageDown => Some(Action::ScrollPageDown),
        Key::End => Some(Action::ScrollTail),
        Key::Char('G') => Some(Action::ScrollTail),
        Key::Char('b') if !ctrl => Some(Action::BuildDebug),
        Key::Char('i') if !ctrl => Some(Action::InstallDebug),
        Key::Char('n') | Key::Char('N') | Key::Char('R') => Some(Action::RunApp),
        Key::Char('r') => Some(Action::RefreshDevices),
        Key::Tab => Some(Action::NextPane),
        Key::BackTab => Some(Action::PrevPane),
        Key::Char('l') => Some(Action::ToggleLogcat),
        Key::Char('L') => Some(Action::OpenLevelPicker),
        Key::Char('f') | Key::Char('F') => Some(Action::FocusFilter),
        Key::Char('x') | Key::Char('X') => Some(Action::FocusExclude),
        Key::Char('c') if !ctrl => Some(Action::ClearLogs),
        Key::Char(' ') => Some(Action::ToggleLogcatPause),
        Key::Char('a') | Key::Char('A') => Some(Action::TogglePackageFilter),
        Key::Char('d') | Key::Char('D') => Some(Action::OpenDevicePicker),
        Key::Char('v') | Key::Char('V') => Some(Action::OpenVariantPicker),
        Key::Char('e') | Key::Char('E') => Some(Action::OpenBuildPopup),
        Key::Char('p') | Key::Char('P') => Some(Action::OpenPackagePicker),
        Key::Char('H') | Key::Char('h') => Some(Action::OpenBuildHistory),
        Key::Char('m') | Key::Char('M') => Some(Action::LaunchScrcpy),
        Key::Char('s') if !ctrl => Some(Action::StopProcess),
        Key::Char('w') | Key::Char('W') => Some(Action::ExportLogs),
        Key::Char('y') | Key::Char('Y') => Some(Action::OpenCrashDetail),
        Key::Char('?') => Some(Action::OpenHelp),
        _ => None,
    };
    match a {
        Some(x) => Some(AppEvent::Action(x)),
        None => None,
    }
}

/// The event for a key press (a release is ignored by the caller), routed by the active modal.
pub fn map_key(modal: Modal, k: Key, ctrl: bool) -> (r: Option<AppEvent>)
    ensures
        r == spec_map_key(modal, k, ctrl),
{
    match modal {
        Modal::Filter => map_filter(k, ctrl),
        Modal::ExcludeFilter => map_exclude_filter(k, ctrl),
        Modal::LevelPicker | Modal::VariantPicker | Modal::DevicePicker => map_picker(k),
        Modal::BuildPopup => map_build_popup(k),
        Modal::PackagePicker => map_package_picker(k, ctrl),
        Modal::BuildHistory => map_build_history(k),
        Modal::CrashDetail => map_crash_detail(k),
        Modal::HelpPopup => map_help_popup(k),
        Modal::Main => map_normal(k, ctrl),
    }
}

/// In a text-input modal, every printable key without Ctrl is text.
pub proof fn law_text_modals_take_typing(modal: Modal, c: char)
    requires
        modal == Modal::Filter || modal == Modal::ExcludeFilter || modal == Modal::PackagePicker,
    ensures
        spec_map_key(modal, Key::Char(c), false) == Some(AppEvent::Text(c)),
{
}

/// Escape always does something: it closes or cancels whatever has the focus.
pub proof fn law_escape_is_bound(modal: Modal, ctrl: bool)
    ensures
        spec_map_key(modal, Key::Esc, ctrl) is Some,
{
}

/// In the main view the README's keys do what it says, and no other key does it: `b` (and
/// only `b`) builds, `i` installs, `n`, `N` and `R` run the app, `r` refreshes the device
/// list, `l` toggles logcat, `v` opens the variant picker, `s` stops, `c` clears the log,
/// `m` launches scrcpy, `q` or `Q` quits, End or `G` follows the tail; with Ctrl, `b` and
/// `i` do nothing.
pub proof fn law_main_view_keys(k: Key)
    ensures
        spec_map_key(Modal::Main, k, false) == Some(AppEvent::Action(Action::BuildDebug)) <==> k
            == Key::Char('b'),
        spec_map_key(Modal::Main, k, false) == Some(AppEvent::Action(Action::InstallDebug)) <==> k
            == Key::Char('i'),
        spec_map_key(Modal::Main, k, false) == Some(AppEvent::Action(Action::RunApp)) <==> (k
            == Key::Char('n') || k == Key::Char('N') || k == Key::Char('R')),
        spec_map_key(Modal::Main, k, false) == Some(AppEvent::Action(Action::RefreshDevices)) <==> k
            == Key::Char('r'),
        spec_map_key(Modal::Main, k, false) == Some(AppEvent::Action(Action::ToggleLogcat)) <==> k
            == Key::Char('l'),
        spec_map_key(Modal::Main, k, false) == Some(AppEvent::Action(Action::OpenVariantPicker))
            <==> (k == Key::Char('v') || k == Key::Char('V')),
        spec_map_key(Modal::Main, k, false) == Some(AppEvent::Action(Action::StopProcess)) <==> k
            == Key::Char('s'),
        spec_map_key(Modal::Main, k, false) == Some(AppEvent::Action(Action::ClearLogs)) <==> k
            == Key::Char('c'),
        spec_map_key(Modal::Main, k, false) == Some(AppEvent::Action(Action::LaunchScrcpy)) <==> (k
            == Key::Char('m') || k == Key::Char('M')),
        spec_map_key(Modal::Main, k, false) == Some(AppEvent::Action(Action::Quit)) <==> (k
            == Key::Char('q') || k == Key::Char('Q')),
        spec_map_key(Modal::Main, k, false) == Some(AppEvent::Action(Action::ScrollTail)) <==> (k
            == Key::End || k == Key::Char('G')),
        spec_map_key(Modal::Main, Key::Char('b'), true) is None,
        spec_map_key(Modal::Main, Key::Char('i'), true) is None,
{
}

} // verus!
