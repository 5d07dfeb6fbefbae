//! User actions dispatched from key events.
use vstd::prelude::*;

verus! {

/// A user action.
#[derive(Debug, Clone, Copy, PartialEq, Eq, Structural)]
pub enum Action {
    Quit,
    // Global
    RefreshDevices,
    /// Move the focus to the next pane (Tab).
    NextPane,
    /// Move the focus to the previous pane (Shift+Tab).
    PrevPane,
    // Logcat
    ToggleLogcat,
    FocusFilter,
    ClearFilter,
    FocusExclude,
    ClearExclude,
    ClearLogs,
    ToggleLogcatPause,
    TogglePackageFilter,
    OpenLevelPicker,
    ScrollUp,
    ScrollDown,
    ScrollPageUp,
    ScrollPageDown,
    ScrollTail,
    ExportLogs,
    YankLastCrash,
    // Crash detail
    OpenCrashDetail,
    CrashCopy,
    CrashAgent,
    CrashExport,
    CrashSearch,
    // Build
    BuildDebug,
    CleanBuild,
    InstallDebug,
    RunApp,
    // App on device
    UninstallApp,
    ClearAppData,
    ClearAppCache,
    // Popups
    OpenVariantPicker,
    OpenDevicePicker,
    OpenBuildPopup,
    OpenPackagePicker,
    OpenBuildHistory,
    OpenHelp,
    // Shared popup navigation
    PickerNext,
    PickerPrev,
    PickerConfirm,
    PickerCancel,
    // Misc
    LaunchScrcpy,
    StopProcess,
    ConfirmNo,
}

} // verus!
