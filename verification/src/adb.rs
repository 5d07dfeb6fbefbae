//! Parsing of `adb` command output, and the arguments of the `adb` commands run.
use vstd::prelude::*;

use crate::text;
use crate::text::{
    chars_eq, concat, contains, find, lines, slice, split_whitespace, starts_with, to_chars,
    to_string, trim, trim_end_matches, trim_start_char,
};

verus! {

/// A device listed by `adb devices -l`.
#[derive(Debug, Clone)]
pub struct Device {
    pub serial: String,
    pub state: String,
    pub model: String,
}

/// The abstract content of a [`Device`].
pub struct DeviceModel {
    pub serial: Seq<char>,
    pub state: Seq<char>,
    pub model: Seq<char>,
}

impl View for Device {
    type V = DeviceModel;

    open spec fn view(&self) -> DeviceModel {
        DeviceModel { serial: self.serial@, state: self.state@, model: self.model@ }
    }
}

/// Handle on the `adb` executable.
pub struct AdbClient {
    pub adb_path: String,
}

/// The value after the first `model:` column, if any.
pub open spec fn model_column(cols: Seq<Seq<char>>) -> Option<Seq<char>>
    decreases cols.len(),
{
    if cols.len() == 0 {
        None
    } else if text::spec_starts_with(cols[0], "model:"@) {
        Some(cols[0].subrange(6, cols[0].len() as int))
    } else {
        model_column(cols.drop_first())
    }
}

/// The device described by one line of `adb devices -l`, if the line describes one.
pub open spec fn spec_device_of_line(line: Seq<char>) -> Option<DeviceModel> {
    let parts = text::spec_split_whitespace(line);
    if line.len() == 0 || text::spec_contains(line, "List of devices attached"@)
        || text::spec_contains(line, "daemon not running"@) || text::spec_contains(
        line,
        "daemon started"@,
    ) || parts.len() < 2 || (parts[0] == "no"@ && parts[1] == "permissions"@) {
        None
    } else {
        let model = match model_column(parts.subrange(2, parts.len() as int)) {
            Some(m) => m,
            None => seq![],
        };
        Some(
            DeviceModel {
                serial: parts[0],
                state: parts[1],
                model: if model.len() == 0 {
                    parts[0]
                } else {
                    model
                },
            },
        )
    }
}

/// The devices described by `lines`, in order.
pub open spec fn spec_devices(lines: Seq<Seq<char>>) -> Seq<DeviceModel>
    decreases lines.len(),
{
    if lines.len() == 0 {
        seq![]
    } else {
        let rest = spec_devices(lines.drop_last());
        match spec_device_of_line(lines.last()) {
            Some(d) => rest.push(d),
            None => rest,
        }
    }
}

/// Views of a sequence of devices.
pub open spec fn device_views(v: Seq<Device>) -> Seq<DeviceModel> {
    v.map_values(|d: Device| d@)
}

fn model_column_exec(parts: &Vec<Vec<char>>, from: usize) -> (r: Option<Vec<char>>)
    requires
        from <= parts.len(),
    ensures
        r matches Some(m) ==> model_column(text::views(parts@).subrange(from as int, parts.len() as int))
            == Some(m@),
        r is None ==> model_column(text::views(parts@).subrange(from as int, parts.len() as int)) is None,
{
    let ghost vp = text::views(parts@);
    let prefix = to_chars("model:");
    proof {
        reveal_strlit("model:");
    }
    let mut i: usize = from;
    while i < parts.len()
        invariant
            from <= i <= parts.len(),
            vp == text::views(parts@),
            prefix@ == "model:"@,
            model_column(vp.subrange(from as int, vp.len() as int)) == model_column(
                vp.subrange(i as int, vp.len() as int),
            ),
        decreases parts.len() - i,
    {
        let ghost sub = vp.subrange(i as int, vp.len() as int);
        assert(sub[0] == parts@[i as int]@);
        assert(sub.drop_first() =~= vp.subrange(i + 1, vp.len() as int));
        proof {
            reveal_strlit("model:");
        }
        if starts_with(&parts[i], &prefix) {
            return Some(slice(&parts[i], 6, parts[i].len()));
        }
        i = i + 1;
    }
    None
}

fn device_of_line(line: &Vec<char>) -> (r: Option<Device>)
    ensures
        r matches Some(d) ==> spec_device_of_line(line@) == Some(d@),
        r is None ==> spec_device_of_line(line@) is None,
{
    if line.len() == 0 || contains(line, &to_chars("List of devices attached")) || contains(
        line,
        &to_chars("daemon not running"),
    ) || contains(line, &to_chars("daemon started")) {
        return None;
    }
    let parts = split_whitespace(line);
    if parts.len() < 2 {
        return None;
    }
    let ghost vp = text::views(parts@);
    assert(vp[0] == parts@[0]@ && vp[1] == parts@[1]@);
    if chars_eq(&parts[0], &to_chars("no")) && chars_eq(&parts[1], &to_chars("permissions")) {
        return None;
    }
    let model = match model_column_exec(&parts, 2) {
        Some(m) => m,
        None => Vec::new(),
    };
    let model = if model.len() == 0 {
        parts[0].clone()
    } else {
        model
    };
    Some(
        Device {
            serial: to_string(&parts[0]),
            state: to_string(&parts[1]),
            model: to_string(&model),
        },
    )
}

/// Devices listed in the output of `adb devices -l` (the model comes from `model:`,
/// else the serial stands for it).
pub fn parse_devices(output: &str) -> (r: Vec<Device>)
    ensures
        device_views(r@) == spec_devices(text::spec_lines(output@)),
{
    let ls = lines(&to_chars(output));
    let ghost vl = text::views(ls@);
    let mut out: Vec<Device> = Vec::new();
    let mut i: usize = 0;
    assert(vl.subrange(0, 0) =~= Seq::<Seq<char>>::empty());
    assert(device_views(out@) =~= Seq::<DeviceModel>::empty());
    while i < ls.len()
        invariant
            i <= ls.len(),
            vl == text::views(ls@),
            device_views(out@) == spec_devices(vl.subrange(0, i as int)),
        decreases ls.len() - i,
    {
        let ghost sub = vl.subrange(0, i + 1);
        assert(sub.drop_last() =~= vl.subrange(0, i as int));
        assert(sub.last() == ls@[i as int]@);
        match device_of_line(&ls[i]) {
            Some(d) => {
                let ghost before = device_views(out@);
                let ghost dv = d@;
                out.push(d);
                assert(device_views(out@) =~= before.push(dv));
            },
            None => {},
        }
        i = i + 1;
    }
    assert(vl.subrange(0, ls.len() as int) =~= vl);
    out
}

} // verus!

verus! {

/// The `getprop` keys shown in the device info.
pub open spec fn is_relevant_prop(k: Seq<char>) -> bool {
    k == "ro.product.model"@ || k == "ro.product.manufacturer"@ || k == "ro.build.version.release"@
        || k == "ro.build.version.sdk"@
}

/// The relevant `[key]: [value]` pair on one line of `getprop` output.
pub open spec fn spec_prop_of_line(line: Seq<char>) -> Option<(Seq<char>, Seq<char>)> {
    match text::spec_find(line, "]: ["@) {
        Some(p) => {
            let key = text::spec_trim_start_char(line.subrange(0, p), '[');
            let value = text::spec_trim_end_matches(line.subrange(p + 4, line.len() as int), ']');
            if is_relevant_prop(key) {
                Some((key, value))
            } else {
                None
            }
        },
        None => None,
    }
}

/// Index of key `k` in the property list, or its length when absent.
pub open spec fn key_index(m: Seq<(Seq<char>, Seq<char>)>, k: Seq<char>) -> int
    decreases m.len(),
{
    if m.len() == 0 {
        0
    } else if m[0].0 == k {
        0
    } else {
        1 + key_index(m.drop_first(), k)
    }
}

/// The property list with `k` set to `v` (replacing an earlier value, else appended).
pub open spec fn prop_set(m: Seq<(Seq<char>, Seq<char>)>, k: Seq<char>, v: Seq<char>) -> Seq<
    (Seq<char>, Seq<char>),
> {
    if key_index(m, k) < m.len() {
        m.update(key_index(m, k), (k, v))
    } else {
        m.push((k, v))
    }
}

/// The relevant properties of `getprop` output lines; a later line overrides an earlier one.
pub open spec fn spec_props(lines: Seq<Seq<char>>) -> Seq<(Seq<char>, Seq<char>)>
    decreases lines.len(),
{
    if lines.len() == 0 {
        seq![]
    } else {
        let rest = spec_props(lines.drop_last());
        match spec_prop_of_line(lines.last()) {
            Some(kv) => prop_set(rest, kv.0, kv.1),
            None => rest,
        }
    }
}

proof fn lemma_key_index(m: Seq<(Seq<char>, Seq<char>)>, k: Seq<char>)
    ensures
        0 <= key_index(m, k) <= m.len(),
        key_index(m, k) < m.len() ==> m[key_index(m, k)].0 == k,
        forall|j: int| 0 <= j < key_index(m, k) ==> m[j].0 != k,
    decreases m.len(),
{
    if m.len() > 0 && m[0].0 != k {
        lemma_key_index(m.drop_first(), k);
        assert forall|j: int| 0 <= j < key_index(m, k) implies m[j].0 != k by {
            if j > 0 {
                assert(m[j] == m.drop_first()[j - 1]);
            }
        }
    }
}

fn prop_of_line(line: &Vec<char>) -> (r: Option<(Vec<char>, Vec<char>)>)
    ensures
        r matches Some(kv) ==> spec_prop_of_line(line@) == Some((kv.0@, kv.1@)),
        r is None ==> spec_prop_of_line(line@) is None,
{
    let sep = to_chars("]: [");
    proof {
        reveal_strlit("]: [");
        text::lemma_find_contains(line@, sep@);
    }
    match find(line, &sep) {
        Some(p) => {
            let key = trim_start_char(&slice(line, 0, p), '[');
            let value = trim_end_matches(&slice(line, p + 4, line.len()), ']');
            if chars_eq(&key, &to_chars("ro.product.model")) || chars_eq(
                &key,
                &to_chars("ro.product.manufacturer"),
            ) || chars_eq(&key, &to_chars("ro.build.version.release")) || chars_eq(
                &key,
                &to_chars("ro.build.version.sdk"),
            ) {
                Some((key, value))
            } else {
                None
            }
        },
        None => None,
    }
}

/// Property pairs as character sequences.
pub open spec fn prop_views(v: Seq<(String, String)>) -> Seq<(Seq<char>, Seq<char>)> {
    text::str_pairs(v)
}

impl AdbClient {
    /// A client for the `adb` executable at `adb_path`.
    pub fn new(adb_path: String) -> (r: AdbClient)
        ensures
            r.adb_path@ == adb_path@,
    {
        AdbClient { adb_path }
    }

    /// Devices in the output of `adb devices -l`.
    pub fn list_devices(&self, devices_output: &str) -> (r: Vec<Device>)
        ensures
            device_views(r@) == spec_devices(text::spec_lines(devices_output@)),
    {
        parse_devices(devices_output)
    }

    /// The relevant `getprop` keys for device info display, from `adb shell getprop` output.
    pub fn get_device_props(&self, getprop_output: &str) -> (r: Vec<(String, String)>)
        ensures
            prop_views(r@) == spec_props(text::spec_lines(getprop_output@)),
    {
        let ls = lines(&to_chars(getprop_output));
        let ghost vl = text::views(ls@);
        let mut out: Vec<(String, String)> = Vec::new();
        let mut i: usize = 0;
        assert(vl.subrange(0, 0) =~= Seq::<Seq<char>>::empty());
        assert(prop_views(out@) =~= Seq::<(Seq<char>, Seq<char>)>::empty());
        while i < ls.len()
            invariant
                i <= ls.len(),
                vl == text::views(ls@),
                prop_views(out@) == spec_props(vl.subrange(0, i as int)),
            decreases ls.len() - i,
        {
            let ghost sub = vl.subrange(0, i + 1);
            assert(sub.drop_last() =~= vl.subrange(0, i as int));
            assert(sub.last() == ls@[i as int]@);
            match prop_of_line(&ls[i]) {
                Some(kv) => {
                    let ghost before = prop_views(out@);
                    let k = to_string(&kv.0);
                    let v = to_string(&kv.1);
                    let mut j: usize = 0;
                    while j < out.len() && out[j].0 != k
                        invariant
                            j <= out.len(),
                            before == prop_views(out@),
                            forall|q: int| 0 <= q < j ==> before[q].0 != k@,
                        decreases out.len() - j,
                    {
                        j = j + 1;
                    }
                    proof {
                        lemma_key_index(before, k@);
                        if j < out.len() {
                            assert(before[j as int].0 == k@);
                        }
                        assert(key_index(before, k@) == j);
                    }
                    if j < out.len() {
                        out.set(j, (k, v));
                        assert(prop_views(out@) =~= before.update(j as int, (kv.0@, kv.1@)));
                    } else {
                        out.push((k, v));
                        assert(prop_views(out@) =~= before.push((kv.0@, kv.1@)));
                    }
                },
                None => {},
            }
            i = i + 1;
        }
        assert(vl.subrange(0, ls.len() as int) =~= vl);
        out
    }
}

} // verus!

verus! {

/// Name for whether `regex::Regex::is_match` finds `pattern` in `text`.
pub uninterp spec fn regex_is_match(pattern: Seq<char>, text: Seq<char>) -> bool;

/// Calls `Regex::new`, then `Regex::is_match` on `line`. `None` exactly when the pattern
/// does not compile; otherwise the answer is named by `regex_is_match`.
#[verifier::external_body]
fn regex_is_match_line(pattern: &str, line: &str) -> (r: Option<bool>)
    ensures
        r is None <==> !crate::project::regex_compiles(pattern@),
        r matches Some(b) ==> b == regex_is_match(pattern@, line@),
{
    match regex::Regex::new(pattern) {
        Ok(re) => Some(re.is_match(line)),
        Err(_) => None,
    }
}

/// Whether each line matches `pattern`; `None` when the pattern does not compile.
fn match_lines(pattern: &str, lines: &Vec<Vec<char>>) -> (r: Option<Vec<bool>>)
    ensures
        r is None <==> !crate::project::regex_compiles(pattern@),
        r matches Some(v) ==> v@ == text::views(lines@).map_values(
            |l: Seq<char>| regex_is_match(pattern@, l),
        ),
{
    if !crate::project::regex_is_valid(pattern) {
        return None;
    }
    let ghost want = text::views(lines@).map_values(|l: Seq<char>| regex_is_match(pattern@, l));
    let mut flags: Vec<bool> = Vec::new();
    let mut i: usize = 0;
    while i < lines.len()
        invariant
            i <= lines.len(),
            crate::project::regex_compiles(pattern@),
            want == text::views(lines@).map_values(|l: Seq<char>| regex_is_match(pattern@, l)),
            flags@ == want.subrange(0, i as int),
        decreases lines.len() - i,
    {
        let line = text::to_string(&lines[i]);
        let b = match regex_is_match_line(pattern, line.as_str()) {
            Some(b) => b,
            None => return None,
        };
        assert(text::views(lines@)[i as int] == lines@[i as int]@);
        flags.push(b);
        assert(flags@ =~= want.subrange(0, i + 1));
        i = i + 1;
    }
    assert(want.subrange(0, lines.len() as int) =~= want);
    Some(flags)
}

/// Every `c` in `s` replaced by `rep`.
pub open spec fn spec_replace_char(s: Seq<char>, c: char, rep: Seq<char>) -> Seq<char>
    decreases s.len(),
{
    if s.len() == 0 {
        seq![]
    } else {
        spec_replace_char(s.drop_last(), c, rep) + if s.last() == c {
            rep
        } else {
            seq![s.last()]
        }
    }
}

/// The regex for a package pattern: dots escaped, `*` matching any run of characters.
pub open spec fn spec_package_regex(pattern: Seq<char>) -> Seq<char> {
    spec_replace_char(spec_replace_char(pattern, '.', "\\."@), '*', ".*"@)
}

fn replace_char(s: &Vec<char>, c: char, rep: &Vec<char>) -> (r: Vec<char>)
    ensures
        r@ == spec_replace_char(s@, c, rep@),
{
    let mut out: Vec<char> = Vec::new();
    let mut i: usize = 0;
    assert(s@.subrange(0, 0) =~= Seq::<char>::empty());
    while i < s.len()
        invariant
            i <= s.len(),
            out@ == spec_replace_char(s@.subrange(0, i as int), c, rep@),
        decreases s.len() - i,
    {
        let ghost sub = s@.subrange(0, i + 1);
        assert(sub.drop_last() =~= s@.subrange(0, i as int));
        if s[i] == c {
            out = concat(&out, rep);
        } else {
            let ghost before = out@;
            out.push(s[i]);
            assert(out@ =~= before + seq![s@[i as int]]);
        }
        i = i + 1;
    }
    assert(s@.subrange(0, s.len() as int) =~= s@);
    out
}

/// The second whitespace-separated column of each matching line.
pub open spec fn spec_pid_column(lines: Seq<Seq<char>>, matched: Seq<bool>) -> Seq<Seq<char>>
    decreases lines.len(),
{
    if lines.len() == 0 || matched.len() != lines.len() {
        seq![]
    } else {
        let rest = spec_pid_column(lines.drop_last(), matched.drop_last());
        let cols = text::spec_split_whitespace(lines.last());
        if matched.last() && cols.len() > 1 {
            rest.push(cols[1])
        } else {
            rest
        }
    }
}

/// The PIDs that `ps -A` output lists for processes matching a package pattern;
/// `None` when the pattern does not make a valid regex.
pub open spec fn spec_pids_for_package(pattern: Seq<char>, ps_output: Seq<char>) -> Option<
    Seq<Seq<char>>,
> {
    let re = spec_package_regex(pattern);
    if !crate::project::regex_compiles(re) {
        None
    } else {
        let ls = text::spec_lines(ps_output);
        Some(spec_pid_column(ls, ls.map_values(|l: Seq<char>| regex_is_match(re, l))))
    }
}

impl AdbClient {
    /// Arguments of the `adb` command that installs the APK at `apk_path` on a device, or,
    /// when that file does not exist (`apk_exists` false), the error returned instead of
    /// running `adb`.
    pub fn install_apk_args(&self, device: &str, apk_path: &str, apk_exists: bool) -> (r: Result<
        Vec<String>,
        String,
    >)
        ensures
            !apk_exists ==> (r matches Err(msg) && msg@ == "APK does not exist: "@ + apk_path@),
            apk_exists ==> (r matches Ok(v) && text::strs(v@) == seq![
                "-s"@,
                device@,
                "install"@,
                "-r"@,
                "-d"@,
                apk_path@,
            ]),
    {
        if !apk_exists {
            return Err(text::cat("APK does not exist: ", apk_path));
        }
        let mut v: Vec<String> = Vec::new();
        v.push("-s".to_owned());
        v.push(device.to_owned());
        v.push("install".to_owned());
        v.push("-r".to_owned());
        v.push("-d".to_owned());
        v.push(apk_path.to_owned());
        assert(text::strs(v@) =~= seq!["-s"@, device@, "install"@, "-r"@, "-d"@, apk_path@]);
        Ok(v)
    }

    /// Outcome of `adb install`: success when its standard output says `Success`.
    pub fn install_apk(&self, stdout: &str, stderr: &str) -> (r: Result<(), String>)
        ensures
            r is Ok <==> text::spec_contains(stdout@, "Success"@),
            r matches Err(msg) ==> msg@ == "Install failed: "@ + text::spec_trim(stderr@) + " "@
                + text::spec_trim(stdout@),
    {
        let out = to_chars(stdout);
        if contains(&out, &to_chars("Success")) {
            Ok(())
        } else {
            let a = concat(&to_chars("Install failed: "), &trim(&to_chars(stderr)));
            let b = concat(&a, &to_chars(" "));
            Err(to_string(&concat(&b, &trim(&out))))
        }
    }

    /// Arguments of the `adb` command that uninstalls a package.
    pub fn uninstall_package_args(&self, device: &str, package: &str) -> (r: Vec<String>)
        ensures
            text::strs(r@) == seq!["-s"@, device@, "uninstall"@, package@],
    {
        let mut v: Vec<String> = Vec::new();
        v.push("-s".to_owned());
        v.push(device.to_owned());
        v.push("uninstall".to_owned());
        v.push(package.to_owned());
        assert(text::strs(v@) =~= seq!["-s"@, device@, "uninstall"@, package@]);
        v
    }

    /// Outcome of `adb uninstall`: success when its standard output says `Success`.
    pub fn uninstall_package(&self, stdout: &str) -> (r: Result<(), String>)
        ensures
            r is Ok <==> text::spec_contains(stdout@, "Success"@),
            r matches Err(msg) ==> msg@ == "Uninstall failed: "@ + text::spec_trim(stdout@),
    {
        let out = to_chars(stdout);
        if contains(&out, &to_chars("Success")) {
            Ok(())
        } else {
            Err(to_string(&concat(&to_chars("Uninstall failed: "), &trim(&out))))
        }
    }

    /// PIDs of processes whose `ps -A` line matches a package pattern (`*` as wildcard).
    pub fn pids_for_package(&self, pattern: &str, ps_output: &str) -> (r: Option<Vec<String>>)
        ensures
            r is None <==> spec_pids_for_package(pattern@, ps_output@) is None,
            r matches Some(v) ==> spec_pids_for_package(pattern@, ps_output@) == Some(
                text::strs(v@),
            ),
    {
        let escaped = replace_char(&to_chars(pattern), '.', &to_chars("\\."));
        let re = to_string(&replace_char(&escaped, '*', &to_chars(".*")));
        let ls = lines(&to_chars(ps_output));
        let flags = match match_lines(re.as_str(), &ls) {
            Some(f) => f,
            None => return None,
        };
        let ghost vl = text::views(ls@);
        let ghost fl = vl.map_values(|l: Seq<char>| regex_is_match(re@, l));
        let mut out: Vec<String> = Vec::new();
        let mut i: usize = 0;
        assert(vl.subrange(0, 0) =~= Seq::<Seq<char>>::empty());
        assert(fl.subrange(0, 0) =~= Seq::<bool>::empty());
        assert(text::strs(out@) =~= Seq::<Seq<char>>::empty());
        while i < ls.len()
            invariant
                i <= ls.len(),
                vl == text::views(ls@),
                flags@ == fl,
                fl.len() == vl.len(),
                text::strs(out@) == spec_pid_column(vl.subrange(0, i as int), fl.subrange(0, i as int)),
            decreases ls.len() - i,
        {
            let ghost sub = vl.subrange(0, i + 1);
            let ghost fsub = fl.subrange(0, i + 1);
            assert(sub.drop_last() =~= vl.subrange(0, i as int));
            assert(fsub.drop_last() =~= fl.subrange(0, i as int));
            assert(sub.last() == ls@[i as int]@);
            if flags[i] {
                let cols = split_whitespace(&ls[i]);
                if cols.len() > 1 {
                    let ghost before = text::strs(out@);
                    assert(text::views(cols@)[1] == cols@[1]@);
                    out.push(to_string(&cols[1]));
                    assert(text::strs(out@) =~= before.push(cols@[1]@));
                }
            }
            i = i + 1;
        }
        assert(vl.subrange(0, ls.len() as int) =~= vl);
        assert(fl.subrange(0, ls.len() as int) =~= fl);
        Some(out)
    }
}

} // verus!

verus! {

/// The value of a string of decimal digits.
pub open spec fn digits_value(s: Seq<char>) -> nat
    decreases s.len(),
{
    if s.len() == 0 {
        0
    } else {
        digits_value(s.drop_last()) * 10 + ((s.last() as int) - 48) as nat
    }
}

/// Every character is a decimal digit.
pub open spec fn all_digits(s: Seq<char>) -> bool {
    forall|i: int| 0 <= i < s.len() ==> '0' <= #[trigger] s[i] && s[i] <= '9'
}

/// A percentage written in decimal digits, when it fits in a byte.
pub open spec fn spec_parse_u8(s: Seq<char>) -> Option<u8> {
    if s.len() > 0 && all_digits(s) && digits_value(s) <= 255 {
        Some(digits_value(s) as u8)
    } else {
        None
    }
}

/// `s` read as a decimal byte.
fn parse_u8(s: &Vec<char>) -> (r: Option<u8>)
    ensures
        r == spec_parse_u8(s@),
{
    if s.len() == 0 {
        return None;
    }
    let mut v: u32 = 0;
    let mut i: usize = 0;
    assert(s@.subrange(0, 0) =~= Seq::<char>::empty());
    while i < s.len()
        invariant
            i <= s.len(),
            all_digits(s@.subrange(0, i as int)),
            v as int == if digits_value(s@.subrange(0, i as int)) < 256 {
                digits_value(s@.subrange(0, i as int)) as int
            } else {
                256
            },
        decreases s.len() - i,
    {
        let c = s[i];
        if !('0' <= c && c <= '9') {
            assert(!all_digits(s@)) by {
                assert(s@[i as int] == c);
            }
            return None;
        }
        let d: u32 = (c as u32) - 48;
        let ghost pre = s@.subrange(0, i as int);
        assert(s@.subrange(0, i + 1).drop_last() =~= pre);
        assert(s@.subrange(0, i + 1).last() == c);
        let next = v * 10 + d;
        v = if next > 256 {
            256
        } else {
            next
        };
        i = i + 1;
    }
    assert(s@.subrange(0, s.len() as int) =~= s@);
    if v <= 255 {
        Some(v as u8)
    } else {
        None
    }
}

/// The battery level in a `dumpsys battery` report: the number after `level:` on the first
/// line that starts with it.
pub open spec fn spec_battery_level(report: Seq<char>) -> Option<u8> {
    battery_from(text::spec_lines(report), 0)
}

/// `spec_battery_level` from line `i` on.
pub open spec fn battery_from(lines: Seq<Seq<char>>, i: int) -> Option<u8>
    decreases lines.len() - i,
{
    if i < 0 || i >= lines.len() {
        None
    } else {
        let t = text::spec_trim(lines[i]);
        if text::spec_starts_with(t, "level:"@) {
            spec_parse_u8(text::spec_trim(t.subrange(6, t.len() as int)))
        } else {
            battery_from(lines, i + 1)
        }
    }
}

/// The battery level in a `dumpsys battery` report.
pub fn battery_level(report: &str) -> (r: Option<u8>)
    ensures
        r == spec_battery_level(report@),
{
    proof {
        reveal_strlit("level:");
    }
    let lines = text::lines(&text::to_chars(report));
    let key = text::to_chars("level:");
    let mut i: usize = 0;
    while i < lines.len()
        invariant
            i <= lines.len(),
            key@ == "level:"@,
            key@.len() == 6,
            text::views(lines@) == text::spec_lines(report@),
            battery_from(text::views(lines@), 0) == battery_from(text::views(lines@), i as int),
        decreases lines.len() - i,
    {
        let t = text::trim(&lines[i]);
        assert(text::views(lines@)[i as int] == lines@[i as int]@);
        if text::starts_with(&t, &key) {
            let rest = text::trim(&text::slice(&t, 6, t.len()));
            return parse_u8(&rest);
        }
        i = i + 1;
    }
    None
}

/// The package names in a `pm list packages` listing: each `package:` line, without the
/// prefix, when something follows it.
pub open spec fn spec_installed_packages(listing: Seq<char>) -> Seq<Seq<char>> {
    packages_from(text::spec_lines(listing), text::spec_lines(listing).len() as int)
}

/// The package names among the first `n` lines.
pub open spec fn packages_from(lines: Seq<Seq<char>>, n: int) -> Seq<Seq<char>>
    decreases n,
{
    if n <= 0 {
        Seq::<Seq<char>>::empty()
    } else {
        let prev = packages_from(lines, n - 1);
        let t = text::spec_trim(lines[n - 1]);
        if text::spec_starts_with(t, "package:"@) && text::spec_trim(t.subrange(8, t.len() as int)).len()
            > 0 {
            prev.push(text::spec_trim(t.subrange(8, t.len() as int)))
        } else {
            prev
        }
    }
}

/// The package names in a `pm list packages` listing.
pub fn installed_packages(listing: &str) -> (r: Vec<String>)
    ensures
        text::strs(r@) == spec_installed_packages(listing@),
{
    proof {
        reveal_strlit("package:");
    }
    let lines = text::lines(&text::to_chars(listing));
    let key = text::to_chars("package:");
    let mut out: Vec<String> = Vec::new();
    let mut i: usize = 0;
    assert(text::strs(out@) =~= Seq::<Seq<char>>::empty());
    while i < lines.len()
        invariant
            i <= lines.len(),
            key@ == "package:"@,
            key@.len() == 8,
            text::views(lines@) == text::spec_lines(listing@),
            text::strs(out@) == packages_from(text::views(lines@), i as int),
        decreases lines.len() - i,
    {
        let t = text::trim(&lines[i]);
        assert(text::views(lines@)[i as int] == lines@[i as int]@);
        if text::starts_with(&t, &key) {
            let name = text::trim(&text::slice(&t, 8, t.len()));
            if name.len() > 0 {
                let ghost before = text::strs(out@);
                out.push(text::to_string(&name));
                assert(text::strs(out@) =~= before.push(name@));
            }
        }
        i = i + 1;
    }
    out
}

} // verus!

verus! {

/// The tokens of `split_whitespace` are never empty.
proof fn lemma_ws_tokens_nonempty(s: Seq<char>, i: int, cur: Seq<char>)
    requires
        0 <= i,
    ensures
        forall|k: int|
            0 <= k < text::ws_tokens_acc(s, i, cur).len() ==> (#[trigger] text::ws_tokens_acc(
                s,
                i,
                cur,
            )[k]).len() > 0,
    decreases s.len() - i,
{
    if i < s.len() {
        if text::spec_is_whitespace(s[i]) {
            lemma_ws_tokens_nonempty(s, i + 1, seq![]);
            let r = text::ws_tokens_acc(s, i, cur);
            let rest = text::ws_tokens_acc(s, i + 1, seq![]);
            if cur.len() > 0 {
                assert(r == seq![cur] + rest);
                assert forall|k: int| 0 <= k < r.len() implies (#[trigger] r[k]).len() > 0 by {
                    if k > 0 {
                        assert(r[k] == rest[k - 1]);
                    }
                }
            } else {
                assert(r == rest);
            }
        } else {
            lemma_ws_tokens_nonempty(s, i + 1, cur.push(s[i]));
            assert(text::ws_tokens_acc(s, i, cur) == text::ws_tokens_acc(s, i + 1, cur.push(s[i])));
        }
    } else {
        let r = text::ws_tokens_acc(s, i, cur);
        assert forall|k: int| 0 <= k < r.len() implies (#[trigger] r[k]).len() > 0 by {
            assert(r == seq![cur]);
        }
    }
}

/// A listed device always has a name: the value of its `model:` column, or its serial when
/// the line has no such column or leaves it empty.
pub proof fn law_device_model_defaults_to_serial(line: Seq<char>)
    ensures
        spec_device_of_line(line) matches Some(d) ==> {
            let parts = text::spec_split_whitespace(line);
            &&& d.serial == parts[0]
            &&& d.model.len() > 0
            &&& match model_column(parts.subrange(2, parts.len() as int)) {
                Some(m) if m.len() > 0 => d.model == m,
                _ => d.model == d.serial,
            }
        },
{
    lemma_ws_tokens_nonempty(line, 0, seq![]);
}

/// Every device of an `adb devices -l` listing has a non-empty name.
pub proof fn law_listed_devices_have_a_name(lines: Seq<Seq<char>>)
    ensures
        forall|k: int|
            0 <= k < spec_devices(lines).len() ==> (#[trigger] spec_devices(lines)[k]).model.len() > 0,
    decreases lines.len(),
{
    if lines.len() > 0 {
        law_listed_devices_have_a_name(lines.drop_last());
        law_device_model_defaults_to_serial(lines.last());
        let rest = spec_devices(lines.drop_last());
        assert forall|k: int| 0 <= k < spec_devices(lines).len() implies (#[trigger] spec_devices(
            lines,
        )[k]).model.len() > 0 by {
            if k < rest.len() {
                assert(spec_devices(lines)[k] == rest[k]);
            }
        }
    }
}

} // verus!
