//! Decisions around the outside tools: which wrapper or build file to use, the arguments of
//! `scrcpy`, the lines read from child processes, the git branch, and export file names.
use vstd::prelude::*;

use crate::text;

verus! {

/// The arguments of `scrcpy` for a device: the serial, then the configured extras.
pub open spec fn spec_scrcpy_args(serial: Seq<char>, extra: Seq<Seq<char>>) -> Seq<Seq<char>> {
    seq!["-s"@, serial] + extra
}

/// The arguments of `scrcpy` for a device: the serial, then the configured extras.
pub fn scrcpy_args(serial: &str, extra: &Vec<String>) -> (r: Vec<String>)
    ensures
        text::strs(r@) == spec_scrcpy_args(serial@, text::strs(extra@)),
{
    let mut v: Vec<String> = Vec::new();
    v.push("-s".to_owned());
    v.push(serial.to_owned());
    let mut i: usize = 0;
    assert(text::strs(v@) =~= seq!["-s"@, serial@]);
    while i < extra.len()
        invariant
            i <= extra.len(),
            text::strs(v@) == seq!["-s"@, serial@] + text::strs(extra@).subrange(0, i as int),
        decreases extra.len() - i,
    {
        let ghost before = text::strs(v@);
        v.push(extra[i].clone());
        assert(text::strs(v@) =~= before.push(extra@[i as int]@));
        assert(text::strs(extra@).subrange(0, i + 1) =~= text::strs(extra@).subrange(0, i as int).push(
            extra@[i as int]@,
        ));
        i = i + 1;
    }
    assert(text::strs(extra@).subrange(0, extra.len() as int) =~= text::strs(extra@));
    v
}

/// The Gradle wrapper to run: `gradlew`, else `gradlew.bat`, in the project root, given
/// which of them are files.
pub open spec fn spec_gradlew_path(root: Seq<char>, unix_is_file: bool, win_is_file: bool) -> Option<
    Seq<char>,
> {
    if unix_is_file {
        Some(crate::config::spec_join_path(root, "gradlew"@))
    } else if win_is_file {
        Some(crate::config::spec_join_path(root, "gradlew.bat"@))
    } else {
        None
    }
}

/// The Gradle wrapper to run, given which candidates are files.
pub fn gradlew_path(root: &str, unix_is_file: bool, win_is_file: bool) -> (r: Option<String>)
    ensures
        text::opt_view(r) == spec_gradlew_path(root@, unix_is_file, win_is_file),
{
    if unix_is_file {
        Some(crate::config::join_path(root, "gradlew"))
    } else if win_is_file {
        Some(crate::config::join_path(root, "gradlew.bat"))
    } else {
        None
    }
}

/// Whether a build file belongs to an Android application module.
pub fn is_application_module(build_file: &str) -> (r: bool)
    ensures
        r == text::spec_contains(build_file@, "com.android.application"@),
{
    text::contains(&text::to_chars(build_file), &text::to_chars("com.android.application"))
}

/// A line read from a child process, without its line ending and trailing blanks.
pub open spec fn spec_clean_line(raw: Seq<char>) -> Seq<char> {
    text::spec_trim_end(raw)
}

/// A line of Gradle output as the build pane shows it: tagged with its stream.
pub fn gradle_output_line(from_stderr: bool, raw: &str) -> (r: String)
    ensures
        r@ == (if from_stderr {
            "[stderr] "@
        } else {
            "[stdout] "@
        }) + spec_clean_line(raw@),
{
    let t = text::to_string(&text::trim_end(&text::to_chars(raw)));
    let tag = if from_stderr {
        "[stderr] "
    } else {
        "[stdout] "
    };
    text::cat(tag, t.as_str())
}

/// A line of the logcat reader: its standard output as it is, its error output tagged.
pub fn logcat_output_line(from_stderr: bool, raw: &str) -> (r: String)
    ensures
        r@ == (if from_stderr {
            "[adb logcat stderr] "@
        } else {
            Seq::<char>::empty()
        }) + spec_clean_line(raw@),
{
    let t = text::to_string(&text::trim_end(&text::to_chars(raw)));
    if from_stderr {
        text::cat("[adb logcat stderr] ", t.as_str())
    } else {
        assert(Seq::<char>::empty() + t@ =~= t@);
        t
    }
}

/// The branch that `git rev-parse --abbrev-ref HEAD` printed: none when blank, a detached
/// head when `HEAD`, else the branch name.
pub enum RevParse {
    NoBranch,
    Detached,
    Branch(String),
}

/// The branch that `git rev-parse --abbrev-ref HEAD` printed.
pub open spec fn spec_rev_parse(stdout: Seq<char>) -> Option<Option<Seq<char>>> {
    let b = text::spec_trim(stdout);
    if b.len() == 0 {
        None
    } else if b == "HEAD"@ {
        Some(None)
    } else {
        Some(Some(b))
    }
}

/// The branch that `git rev-parse --abbrev-ref HEAD` printed.
pub fn rev_parse(stdout: &str) -> (r: RevParse)
    ensures
        match r {
            RevParse::NoBranch => spec_rev_parse(stdout@) is None,
            RevParse::Detached => spec_rev_parse(stdout@) == Some(None::<Seq<char>>),
            RevParse::Branch(b) => spec_rev_parse(stdout@) == Some(Some(b@)),
        },
{
    let b = text::trim(&text::to_chars(stdout));
    if b.len() == 0 {
        RevParse::NoBranch
    } else if text::chars_eq(&b, &text::to_chars("HEAD")) {
        RevParse::Detached
    } else {
        RevParse::Branch(text::to_string(&b))
    }
}

/// The label of a detached head: with the short commit when `git rev-parse --short HEAD`
/// succeeded and printed one.
pub open spec fn spec_detached_label(ok: bool, stdout: Seq<char>) -> Seq<char> {
    let sha = text::spec_trim(stdout);
    if !ok || sha.len() == 0 {
        "detached"@
    } else {
        "detached@"@ + sha
    }
}

/// The label of a detached head.
pub fn detached_label(ok: bool, stdout: &str) -> (r: String)
    ensures
        r@ == spec_detached_label(ok, stdout@),
{
    let sha = text::trim(&text::to_chars(stdout));
    if !ok || sha.len() == 0 {
        "detached".to_owned()
    } else {
        text::cat("detached@", text::to_string(&sha).as_str())
    }
}

/// The file name of a log export made at `secs` (seconds since the epoch).
pub fn log_export_name(secs: u64) -> (r: String)
    ensures
        r@ == "byedroid-"@ + text::spec_decimal(secs as nat) + ".log"@,
{
    let n = text::fmt_u64(secs);
    text::cat3("byedroid-", n.as_str(), ".log")
}

/// The file name of a crash report made at `secs` (seconds since the epoch).
pub fn crash_export_name(secs: u64) -> (r: String)
    ensures
        r@ == "crash-"@ + text::spec_decimal(secs as nat) + ".log"@,
{
    let n = text::fmt_u64(secs);
    text::cat3("crash-", n.as_str(), ".log")
}


/// `(secs, nanos)` is later than `(bs, bn)`.
pub open spec fn later(secs: u64, nanos: u32, bs: u64, bn: u32) -> bool {
    secs > bs || (secs == bs && nanos > bn)
}

/// Among build metadata files, given as modification time (seconds and nanoseconds) and
/// content, in the order they were found: the time and application id of the last
/// modified file that names one (the first found among equally recent ones).
pub open spec fn spec_newest_metadata(files: Seq<(u64, u32, Seq<char>)>) -> Option<(u64, u32, Seq<char>)>
    decreases files.len(),
{
    if files.len() == 0 {
        None
    } else {
        let prev = spec_newest_metadata(files.drop_last());
        let (secs, nanos, content) = files.last();
        match crate::app::spec_application_id_from_metadata(content) {
            None => prev,
            Some(pkg) => match prev {
                None => Some((secs, nanos, pkg)),
                Some((bs, bn, bp)) => if later(secs, nanos, bs, bn) {
                    Some((secs, nanos, pkg))
                } else {
                    prev
                },
            },
        }
    }
}

/// The models of metadata files.
pub open spec fn file_views(v: Seq<(u64, u32, String)>) -> Seq<(u64, u32, Seq<char>)> {
    v.map_values(|f: (u64, u32, String)| (f.0, f.1, f.2@))
}

/// The application id of the last modified build metadata file that names one.
pub fn newest_application_id(files: &Vec<(u64, u32, String)>) -> (r: Option<String>)
    ensures
        text::opt_view(r) == match spec_newest_metadata(file_views(files@)) {
            Some((_, _, pkg)) => Some(pkg),
            None => None,
        },
{
    let ghost fv = file_views(files@);
    let mut best: Option<(u64, u32, String)> = None;
    let mut i: usize = 0;
    assert(fv.subrange(0, 0) =~= Seq::<(u64, u32, Seq<char>)>::empty());
    while i < files.len()
        invariant
            i <= files.len(),
            fv == file_views(files@),
            match spec_newest_metadata(fv.subrange(0, i as int)) {
                Some((s, n, p)) => best matches Some((bs, bn, bp)) && bs == s && bn == n && bp@ == p,
                None => best is None,
            },
        decreases files.len() - i,
    {
        let ghost sub = fv.subrange(0, i + 1);
        assert(sub.drop_last() =~= fv.subrange(0, i as int));
        assert(sub.last() == (files@[i as int].0, files@[i as int].1, files@[i as int].2@));
        let (secs, nanos, content) = (files[i].0, files[i].1, &files[i].2);
        match crate::app::extract_application_id_from_metadata(content.as_str()) {
            None => {},
            Some(pkg) => {
                let newer = match &best {
                    None => true,
                    Some((bs, bn, _)) => secs > *bs || (secs == *bs && nanos > *bn),
                };
                if newer {
                    best = Some((secs, nanos, pkg));
                }
            },
        }
        i = i + 1;
    }
    assert(fv.subrange(0, files.len() as int) =~= fv);
    match best {
        Some((_, _, p)) => Some(p),
        None => None,
    }
}

} // verus!
