//! The project and tool checks of the `doctor` command: what each probe of the system means,
//! and the summary of all checks.
use vstd::prelude::*;

use crate::adb::{device_views, Device, DeviceModel};
use crate::project::ProjectInference;
use crate::text;

verus! {

/// How a check came out.
#[derive(Debug, Clone, Copy, PartialEq, Eq, Structural)]
pub enum CheckStatus {
    Pass,
    Warn,
    Fail,
}

/// One line of the doctor's report.
#[derive(Debug)]
pub struct CheckResult {
    pub status: CheckStatus,
    pub label: String,
    pub detail: String,
}

/// The model of a check line.
pub struct CheckModel {
    pub status: CheckStatus,
    pub label: Seq<char>,
    pub detail: Seq<char>,
}

/// The model of a check line.
pub open spec fn check_model(c: CheckResult) -> CheckModel {
    CheckModel { status: c.status, label: c.label@, detail: c.detail@ }
}

/// The models of check lines.
pub open spec fn check_models(v: Seq<CheckResult>) -> Seq<CheckModel> {
    v.map_values(|c: CheckResult| check_model(c))
}

/// What looking for `adb` gave: its path and the output of `adb version` when that ran,
/// or the reason it is missing.
pub enum AdbProbe {
    Found { path: String, version_output: Option<String> },
    Missing { error: String },
}

/// What the system told about the tools and the project.
pub struct DoctorFacts {
    pub project_root: String,
    pub adb: AdbProbe,
    /// Path of `java`, if on `PATH`.
    pub java_path: Option<String>,
    /// Standard output and error of `java -version`, when it ran.
    pub java_version: Option<(String, String)>,
    /// The Gradle wrapper and whether it is executable.
    pub gradlew: Option<(String, bool)>,
    /// The build file of the application module.
    pub app_gradle: Option<String>,
    /// Reading the build file: the inference, or the error.
    pub inference: Result<ProjectInference, String>,
    /// The values of `ANDROID_SDK_ROOT` and `ANDROID_HOME`.
    pub sdk_root: Option<String>,
    pub android_home: Option<String>,
    /// Path of `scrcpy`, if on `PATH`.
    pub scrcpy: Option<String>,
    /// The connected devices, or why listing them failed (asked only when `adb` was found).
    pub devices: Result<Vec<Device>, String>,
}

/// The first line of `text` with something in it, trimmed.
pub open spec fn first_nonblank_line(text: Seq<char>) -> Option<Seq<char>> {
    first_nonblank_from(text::spec_lines(text), 0)
}

/// The first of `lines[i..]` with something in it, trimmed.
pub open spec fn first_nonblank_from(lines: Seq<Seq<char>>, i: int) -> Option<Seq<char>>
    decreases lines.len() - i,
{
    if i >= lines.len() || i < 0 {
        None
    } else if text::spec_trim(lines[i]).len() > 0 {
        Some(text::spec_trim(lines[i]))
    } else {
        first_nonblank_from(lines, i + 1)
    }
}

fn first_nonblank(s: &str) -> (r: Option<Vec<char>>)
    ensures
        match r {
            Some(l) => first_nonblank_line(s@) == Some(l@),
            None => first_nonblank_line(s@) is None,
        },
{
    let lines = text::lines(&text::to_chars(s));
    let mut i: usize = 0;
    while i < lines.len()
        invariant
            i <= lines.len(),
            text::views(lines@) == text::spec_lines(s@),
            first_nonblank_from(text::views(lines@), 0) == first_nonblank_from(
                text::views(lines@),
                i as int,
            ),
        decreases lines.len() - i,
    {
        let t = text::trim(&lines[i]);
        assert(text::views(lines@)[i as int] == lines@[i as int]@);
        if t.len() > 0 {
            return Some(t);
        }
        i = i + 1;
    }
    None
}

/// The version shown next to `java`: the first line of what `java -version` printed on its
/// error output, or on its standard output when the error output was empty.
pub open spec fn spec_java_version_suffix(stdout: Seq<char>, stderr: Seq<char>) -> Option<Seq<char>> {
    let text = if stderr.len() == 0 {
        stdout
    } else {
        stderr
    };
    match first_nonblank_line(text) {
        Some(l) => Some(" ("@ + l + ")"@),
        None => None,
    }
}

/// The version shown next to `java`.
pub fn java_version_suffix(stdout: &str, stderr: &str) -> (r: Option<String>)
    ensures
        text::opt_view(r) == spec_java_version_suffix(stdout@, stderr@),
{
    let t = if stderr.is_empty() {
        stdout
    } else {
        stderr
    };
    match first_nonblank(t) {
        Some(l) => Some(text::cat3(" (", text::to_string(&l).as_str(), ")")),
        None => None,
    }
}

/// The SDK location named by the environment: `ANDROID_SDK_ROOT`, else `ANDROID_HOME`,
/// each only when not blank.
pub open spec fn spec_sdk_env_detail(sdk_root: Option<Seq<char>>, home: Option<Seq<char>>) -> Option<
    Seq<char>,
> {
    match sdk_root {
        Some(v) if text::spec_trim(v).len() > 0 => Some("ANDROID_SDK_ROOT="@ + v),
        _ => match home {
            Some(v) if text::spec_trim(v).len() > 0 => Some("ANDROID_HOME="@ + v),
            _ => None,
        },
    }
}

fn nonblank(v: &Option<String>) -> (r: bool)
    ensures
        r == (v matches Some(s) && text::spec_trim(s@).len() > 0),
{
    match v {
        Some(s) => text::trim(&text::string_chars(s)).len() > 0,
        None => false,
    }
}

/// The SDK location named by the environment.
pub fn sdk_env_detail(sdk_root: &Option<String>, home: &Option<String>) -> (r: Option<String>)
    ensures
        text::opt_view(r) == spec_sdk_env_detail(text::opt_view(*sdk_root), text::opt_view(*home)),
{
    if nonblank(sdk_root) {
        match sdk_root {
            Some(v) => Some(text::cat("ANDROID_SDK_ROOT=", v.as_str())),
            None => None,
        }
    } else if nonblank(home) {
        match home {
            Some(v) => Some(text::cat("ANDROID_HOME=", v.as_str())),
            None => None,
        }
    } else {
        None
    }
}

/// Whether a file mode has an execute bit.
pub open spec fn spec_is_executable(mode: u32) -> bool {
    mode & 73u32 != 0
}

/// Whether a file mode (Unix permission bits) has an execute bit for anyone.
pub fn is_executable(mode: u32) -> (r: bool)
    ensures
        r == spec_is_executable(mode),
{
    mode & 73u32 != 0
}

/// `"{model} ({serial})"` for each device, joined with commas.
pub open spec fn device_names(devices: Seq<DeviceModel>) -> Seq<char> {
    text::spec_join(
        Seq::new(devices.len(), |i: int| devices[i].model + " ("@ + devices[i].serial + ")"@),
        ", "@,
    )
}

/// The parts of the inference line: variant, tasks and packages.
pub open spec fn inference_parts(inf: crate::project::InferenceModel) -> Seq<Seq<char>> {
    let a = seq!["variant "@ + inf.variant_summary];
    let b = match inf.assemble_task {
        Some(t) => a.push("assemble "@ + t),
        None => a,
    };
    let c = match inf.install_task {
        Some(t) => b.push("install "@ + t),
        None => b,
    };
    if inf.application_ids.len() > 0 {
        c.push("packages "@ + text::spec_join(inf.application_ids, ", "@))
    } else {
        c
    }
}

/// A check line.
pub open spec fn line(status: CheckStatus, label: Seq<char>, detail: Seq<char>) -> CheckModel {
    CheckModel { status, label, detail }
}

/// The check of `adb`.
pub open spec fn adb_check(adb: AdbProbe) -> CheckModel {
    match adb {
        AdbProbe::Found { path, version_output } => {
            let version = match version_output {
                Some(out) => match first_nonblank_line(out@) {
                    Some(l) => l,
                    None => path@,
                },
                None => path@,
            };
            line(CheckStatus::Pass, "adb"@, path@ + " ("@ + version + ")"@)
        },
        AdbProbe::Missing { error } => line(CheckStatus::Fail, "adb"@, error@),
    }
}

/// The check of `java`.
pub open spec fn java_check(path: Option<String>, version: Option<(String, String)>) -> CheckModel {
    match path {
        Some(p) => {
            let suffix = match version {
                Some((out, err)) => match spec_java_version_suffix(out@, err@) {
                    Some(s) => s,
                    None => Seq::<char>::empty(),
                },
                None => Seq::<char>::empty(),
            };
            line(CheckStatus::Pass, "java"@, p@ + suffix)
        },
        None => line(CheckStatus::Warn, "java"@, "not found in PATH; Gradle builds may fail"@),
    }
}

/// The check of the Gradle wrapper.
pub open spec fn gradlew_check(gradlew: Option<(String, bool)>) -> CheckModel {
    match gradlew {
        Some((p, exec)) => if exec {
            line(CheckStatus::Pass, "gradlew"@, p@)
        } else {
            line(CheckStatus::Warn, "gradlew"@, p@ + " (not executable)"@)
        },
        None => line(CheckStatus::Fail, "gradlew"@, "not found in project root"@),
    }
}

/// The check of the application module.
pub open spec fn module_check(app_gradle: Option<String>) -> CheckModel {
    match app_gradle {
        Some(p) => line(CheckStatus::Pass, "android app module"@, p@),
        None => line(
            CheckStatus::Fail,
            "android app module"@,
            "no application build.gradle(.kts) found"@,
        ),
    }
}

/// The check of the Gradle inference.
pub open spec fn inference_check(inference: Result<ProjectInference, String>) -> CheckModel {
    match inference {
        Ok(inf) => if inf.gradle_file is Some {
            line(CheckStatus::Pass, "project inference"@, text::spec_join(inference_parts(inf@), " | "@))
        } else {
            line(CheckStatus::Warn, "project inference"@, "no Android app module inferred"@)
        },
        Err(e) => line(CheckStatus::Fail, "project inference"@, e@),
    }
}

/// The check of the SDK environment.
pub open spec fn sdk_check(sdk_root: Option<String>, home: Option<String>) -> CheckModel {
    match spec_sdk_env_detail(text::opt_view(sdk_root), text::opt_view(home)) {
        Some(d) => line(CheckStatus::Pass, "android sdk env"@, d),
        None => line(
            CheckStatus::Warn,
            "android sdk env"@,
            "ANDROID_HOME and ANDROID_SDK_ROOT are both unset"@,
        ),
    }
}

/// The check of `scrcpy`.
pub open spec fn scrcpy_check(scrcpy: Option<String>) -> CheckModel {
    match scrcpy {
        Some(p) => line(CheckStatus::Pass, "scrcpy"@, p@),
        None => line(
            CheckStatus::Warn,
            "scrcpy"@,
            "not found in PATH; screen mirror hotkey `m` will be unavailable"@,
        ),
    }
}

/// The check of the connected devices (skipped without `adb`).
pub open spec fn devices_check(adb: AdbProbe, devices: Result<Vec<Device>, String>) -> CheckModel {
    match adb {
        AdbProbe::Found { .. } => match devices {
            Ok(d) => if d@.len() == 0 {
                line(CheckStatus::Warn, "connected devices"@, "no ADB devices connected"@)
            } else {
                line(CheckStatus::Pass, "connected devices"@, device_names(device_views(d@)))
            },
            Err(e) => line(
                CheckStatus::Warn,
                "connected devices"@,
                "adb listed devices unsuccessfully: "@ + e@,
            ),
        },
        AdbProbe::Missing { .. } => line(
            CheckStatus::Warn,
            "connected devices"@,
            "skipped because adb is unavailable"@,
        ),
    }
}

/// All checks, in the order the report shows them.
pub open spec fn spec_checks(f: DoctorFacts) -> Seq<CheckModel> {
    seq![
        line(CheckStatus::Pass, "project root"@, f.project_root@),
        adb_check(f.adb),
        java_check(f.java_path, f.java_version),
        gradlew_check(f.gradlew),
        module_check(f.app_gradle),
        inference_check(f.inference),
        sdk_check(f.sdk_root, f.android_home),
        scrcpy_check(f.scrcpy),
        devices_check(f.adb, f.devices),
    ]
}

fn check(status: CheckStatus, label: &str, detail: String) -> (r: CheckResult)
    ensures
        check_model(r) == line(status, label@, detail@),
{
    CheckResult { status, label: label.to_owned(), detail }
}

fn adb_line(adb: &AdbProbe) -> (r: CheckResult)
    ensures
        check_model(r) == adb_check(*adb),
{
    match adb {
        AdbProbe::Found { path, version_output } => {
            let version: String = match version_output {
                Some(out) => match first_nonblank(out.as_str()) {
                    Some(l) => text::to_string(&l),
                    None => path.clone(),
                },
                None => path.clone(),
            };
            let a = text::cat3(path.as_str(), " (", version.as_str());
            check(CheckStatus::Pass, "adb", text::cat(a.as_str(), ")"))
        },
        AdbProbe::Missing { error } => check(CheckStatus::Fail, "adb", error.clone()),
    }
}

fn java_line(path: &Option<String>, version: &Option<(String, String)>) -> (r: CheckResult)
    ensures
        check_model(r) == java_check(*path, *version),
{
    match path {
        Some(p) => {
            let suffix: String = match version {
                Some((out, err)) => match java_version_suffix(out.as_str(), err.as_str()) {
                    Some(s) => s,
                    None => String::new(),
                },
                None => String::new(),
            };
            check(CheckStatus::Pass, "java", text::cat(p.as_str(), suffix.as_str()))
        },
        None => check(
            CheckStatus::Warn,
            "java",
            "not found in PATH; Gradle builds may fail".to_owned(),
        ),
    }
}

fn gradlew_line(gradlew: &Option<(String, bool)>) -> (r: CheckResult)
    ensures
        check_model(r) == gradlew_check(*gradlew),
{
    match gradlew {
        Some((p, exec)) => if *exec {
            check(CheckStatus::Pass, "gradlew", p.clone())
        } else {
            check(CheckStatus::Warn, "gradlew", text::cat(p.as_str(), " (not executable)"))
        },
        None => check(CheckStatus::Fail, "gradlew", "not found in project root".to_owned()),
    }
}

fn module_line(app_gradle: &Option<String>) -> (r: CheckResult)
    ensures
        check_model(r) == module_check(*app_gradle),
{
    match app_gradle {
        Some(p) => check(CheckStatus::Pass, "android app module", p.clone()),
        None => check(
            CheckStatus::Fail,
            "android app module",
            "no application build.gradle(.kts) found".to_owned(),
        ),
    }
}

fn push_part(v: &mut Vec<Vec<char>>, head: &str, s: &str)
    ensures
        text::views(final(v)@) == text::views(old(v)@).push(head@ + s@),
{
    let ghost before = text::views(v@);
    v.push(text::to_chars(text::cat(head, s).as_str()));
    assert(text::views(v@) =~= before.push(head@ + s@));
}

fn inference_line(inference: &Result<ProjectInference, String>) -> (r: CheckResult)
    ensures
        check_model(r) == inference_check(*inference),
{
    match inference {
        Ok(inf) => if inf.gradle_file.is_some() {
            let mut parts: Vec<Vec<char>> = Vec::new();
            push_part(&mut parts, "variant ", inf.variant_summary.as_str());
            assert(text::views(parts@) =~= seq!["variant "@ + inf.variant_summary@]);
            if let Some(t) = &inf.assemble_task {
                push_part(&mut parts, "assemble ", t.as_str());
            }
            if let Some(t) = &inf.install_task {
                push_part(&mut parts, "install ", t.as_str());
            }
            if inf.application_ids.len() > 0 {
                let ids = text::strings_chars(inf.application_ids.as_slice());
                let joined = text::join_from(&ids, 0, &text::to_chars(", "));
                proof {
                    assert(text::views(ids@).subrange(0, ids@.len() as int) =~= text::views(ids@));
                }
                push_part(&mut parts, "packages ", text::to_string(&joined).as_str());
            }
            let detail = text::join_from(&parts, 0, &text::to_chars(" | "));
            proof {
                assert(text::views(parts@).subrange(0, parts@.len() as int) =~= text::views(parts@));
            }
            check(CheckStatus::Pass, "project inference", text::to_string(&detail))
        } else {
            check(
                CheckStatus::Warn,
                "project inference",
                "no Android app module inferred".to_owned(),
            )
        },
        Err(e) => check(CheckStatus::Fail, "project inference", e.clone()),
    }
}

fn sdk_line(sdk_root: &Option<String>, home: &Option<String>) -> (r: CheckResult)
    ensures
        check_model(r) == sdk_check(*sdk_root, *home),
{
    match sdk_env_detail(sdk_root, home) {
        Some(d) => check(CheckStatus::Pass, "android sdk env", d),
        None => check(
            CheckStatus::Warn,
            "android sdk env",
            "ANDROID_HOME and ANDROID_SDK_ROOT are both unset".to_owned(),
        ),
    }
}

fn scrcpy_line(scrcpy: &Option<String>) -> (r: CheckResult)
    ensures
        check_model(r) == scrcpy_check(*scrcpy),
{
    match scrcpy {
        Some(p) => check(CheckStatus::Pass, "scrcpy", p.clone()),
        None => check(
            CheckStatus::Warn,
            "scrcpy",
            "not found in PATH; screen mirror hotkey `m` will be unavailable".to_owned(),
        ),
    }
}

/// `"{model} ({serial})"` for each device, joined with commas.
fn names_of(devices: &Vec<Device>) -> (r: String)
    ensures
        r@ == device_names(device_views(devices@)),
{
    let ghost dv = device_views(devices@);
    let ghost want = Seq::new(dv.len(), |i: int| dv[i].model + " ("@ + dv[i].serial + ")"@);
    let mut parts: Vec<Vec<char>> = Vec::new();
    let mut i: usize = 0;
    while i < devices.len()
        invariant
            i <= devices.len(),
            dv == device_views(devices@),
            want == Seq::new(dv.len(), |i: int| dv[i].model + " ("@ + dv[i].serial + ")"@),
            text::views(parts@) == want.subrange(0, i as int),
        decreases devices.len() - i,
    {
        let d = &devices[i];
        let s = text::cat3(d.model.as_str(), " (", d.serial.as_str());
        let ghost before = text::views(parts@);
        parts.push(text::to_chars(text::cat(s.as_str(), ")").as_str()));
        assert(dv[i as int] == devices@[i as int]@);
        assert(want[i as int] == dv[i as int].model + " ("@ + dv[i as int].serial + ")"@);
        assert(text::views(parts@) =~= before.push(want[i as int]));
        assert(want.subrange(0, i + 1) =~= want.subrange(0, i as int).push(want[i as int]));
        i = i + 1;
    }
    let joined = text::join_from(&parts, 0, &text::to_chars(", "));
    assert(text::views(parts@).subrange(0, parts@.len() as int) =~= want);
    text::to_string(&joined)
}

fn devices_line(adb: &AdbProbe, devices: &Result<Vec<Device>, String>) -> (r: CheckResult)
    ensures
        check_model(r) == devices_check(*adb, *devices),
{
    match adb {
        AdbProbe::Found { .. } => match devices {
            Ok(d) => if d.len() == 0 {
                check(CheckStatus::Warn, "connected devices", "no ADB devices connected".to_owned())
            } else {
                check(CheckStatus::Pass, "connected devices", names_of(d))
            },
            Err(e) => check(
                CheckStatus::Warn,
                "connected devices",
                text::cat("adb listed devices unsuccessfully: ", e.as_str()),
            ),
        },
        AdbProbe::Missing { .. } => check(
            CheckStatus::Warn,
            "connected devices",
            "skipped because adb is unavailable".to_owned(),
        ),
    }
}

fn push_check(v: &mut Vec<CheckResult>, c: CheckResult)
    ensures
        check_models(final(v)@) == check_models(old(v)@).push(check_model(c)),
{
    let ghost before = check_models(v@);
    v.push(c);
    assert(check_models(v@) =~= before.push(check_model(c)));
}

/// The doctor's checks of the tools and the project, from what the system told.
pub fn collect_checks(facts: &DoctorFacts) -> (r: Vec<CheckResult>)
    ensures
        check_models(r@) == spec_checks(*facts),
{
    let mut checks: Vec<CheckResult> = Vec::new();
    assert(check_models(checks@) =~= Seq::<CheckModel>::empty());
    push_check(&mut checks, check(CheckStatus::Pass, "project root", facts.project_root.clone()));
    push_check(&mut checks, adb_line(&facts.adb));
    push_check(&mut checks, java_line(&facts.java_path, &facts.java_version));
    push_check(&mut checks, gradlew_line(&facts.gradlew));
    push_check(&mut checks, module_line(&facts.app_gradle));
    push_check(&mut checks, inference_line(&facts.inference));
    push_check(&mut checks, sdk_line(&facts.sdk_root, &facts.android_home));
    push_check(&mut checks, scrcpy_line(&facts.scrcpy));
    push_check(&mut checks, devices_line(&facts.adb, &facts.devices));
    assert(check_models(checks@) =~= spec_checks(*facts));
    checks
}

/// Number of checks with status `s`.
pub open spec fn count_status(v: Seq<CheckModel>, s: CheckStatus) -> nat
    decreases v.len(),
{
    if v.len() == 0 {
        0
    } else {
        count_status(v.drop_last(), s) + if v.last().status == s {
            1nat
        } else {
            0nat
        }
    }
}

/// The failures and warnings among the checks.
pub fn doctor_counts(checks: &Vec<CheckResult>) -> (r: (usize, usize))
    ensures
        r.0 == count_status(check_models(checks@), CheckStatus::Fail),
        r.1 == count_status(check_models(checks@), CheckStatus::Warn),
{
    let ghost m = check_models(checks@);
    let mut failures: usize = 0;
    let mut warnings: usize = 0;
    let mut i: usize = 0;
    assert(m.subrange(0, 0) =~= Seq::<CheckModel>::empty());
    while i < checks.len()
        invariant
            i <= checks.len(),
            m == check_models(checks@),
            failures == count_status(m.subrange(0, i as int), CheckStatus::Fail),
            warnings == count_status(m.subrange(0, i as int), CheckStatus::Warn),
            failures <= i && warnings <= i,
        decreases checks.len() - i,
    {
        assert(m.subrange(0, i + 1).drop_last() =~= m.subrange(0, i as int));
        match checks[i].status {
            CheckStatus::Fail => failures = failures + 1,
            CheckStatus::Warn => warnings = warnings + 1,
            CheckStatus::Pass => {},
        }
        i = i + 1;
    }
    assert(m.subrange(0, checks.len() as int) =~= m);
    (failures, warnings)
}

/// The text of a status badge without colors.
pub open spec fn spec_status_badge(s: CheckStatus) -> Seq<char> {
    match s {
        CheckStatus::Pass => "[ok]"@,
        CheckStatus::Warn => "[warn]"@,
        CheckStatus::Fail => "[fail]"@,
    }
}

/// The text of a status badge without colors.
pub fn status_badge(s: CheckStatus) -> (r: &'static str)
    ensures
        r@ == spec_status_badge(s),
{
    match s {
        CheckStatus::Pass => "[ok]",
        CheckStatus::Warn => "[warn]",
        CheckStatus::Fail => "[fail]",
    }
}

/// The label of a check line: its name and a colon.
pub fn check_label(text: &str) -> (r: String)
    ensures
        r@ == text@ + ":"@,
{
    text::cat(text, ":")
}

/// The closing line when nothing failed.
pub open spec fn spec_success_summary(warnings: nat) -> Seq<char> {
    if warnings == 0 {
        "Doctor passed with no warnings"@
    } else {
        "Doctor passed with "@ + text::spec_decimal(warnings) + " warning(s)"@
    }
}

/// The closing line when nothing failed.
pub fn success_summary(warnings: usize) -> (r: String)
    ensures
        r@ == spec_success_summary(warnings as nat),
{
    if warnings == 0 {
        "Doctor passed with no warnings".to_owned()
    } else {
        let n = text::fmt_usize(warnings);
        text::cat3("Doctor passed with ", n.as_str(), " warning(s)")
    }
}

/// The closing line when checks failed.
pub open spec fn spec_failure_summary(failures: nat, warnings: nat) -> Seq<char> {
    if warnings == 0 {
        "Doctor found "@ + text::spec_decimal(failures) + " blocking issue(s)"@
    } else {
        "Doctor found "@ + text::spec_decimal(failures) + " blocking issue(s) and "@
            + text::spec_decimal(warnings) + " warning(s)"@
    }
}

/// The closing line when checks failed.
pub fn failure_summary(failures: usize, warnings: usize) -> (r: String)
    ensures
        r@ == spec_failure_summary(failures as nat, warnings as nat),
{
    let f = text::fmt_usize(failures);
    if warnings == 0 {
        text::cat3("Doctor found ", f.as_str(), " blocking issue(s)")
    } else {
        let w = text::fmt_usize(warnings);
        let head = text::cat3("Doctor found ", f.as_str(), " blocking issue(s) and ");
        text::cat3(head.as_str(), w.as_str(), " warning(s)")
    }
}

/// The error the doctor ends with when checks failed.
pub fn failure_error(failures: usize) -> (r: String)
    ensures
        r@ == "doctor found "@ + text::spec_decimal(failures as nat) + " blocking issue(s)"@,
{
    let f = text::fmt_usize(failures);
    text::cat3("doctor found ", f.as_str(), " blocking issue(s)")
}

} // verus!
