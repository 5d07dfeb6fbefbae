//! Infer application IDs and default Gradle tasks from the text of `app/build.gradle(.kts)`.
use vstd::prelude::*;

use crate::text;
use crate::text::{
    chars_eq, concat, contains, dedup_chars, find, find_from_index, slice, sort_chars, starts_with,
    to_chars, to_string,
};

verus! {

// ─── the regex crate ─────────────────────────────────────────────────────────

/// Name for whether `regex::Regex::new` accepts `pattern`.
pub uninterp spec fn regex_compiles(pattern: Seq<char>) -> bool;

/// Name for the first match of `pattern` in `text` (`Regex::captures`): `None` when the
/// pattern does not compile or does not match, otherwise the text of capture group 1
/// (`None` when that group did not take part in the match).
pub uninterp spec fn regex_first_match(pattern: Seq<char>, text: Seq<char>) -> Option<
    Option<Seq<char>>,
>;

/// Name for the successive non-overlapping matches of `pattern` in `text`
/// (`Regex::captures_iter`), each given by the text of its capture group 1.
pub uninterp spec fn regex_all_matches(pattern: Seq<char>, text: Seq<char>) -> Seq<
    Option<Seq<char>>,
>;

/// Calls `Regex::new` and then `Regex::captures`, and reads capture group 1.
/// The result is named by `regex_first_match`; it is `None` whenever the pattern
/// does not compile.
#[verifier::external_body]
fn regex_captures(pattern: &str, text: &str) -> (r: Option<Option<String>>)
    ensures
        !regex_compiles(pattern@) ==> r is None,
        r is None <==> regex_first_match(pattern@, text@) is None,
        r matches Some(g) ==> regex_first_match(pattern@, text@) == Some(
            match g {
                Some(s) => Some(s@),
                None => None,
            },
        ),
{
    let re = match regex::Regex::new(pattern) {
        Ok(re) => re,
        Err(_) => return None,
    };
    re.captures(text).map(|c| c.get(1).map(|m| m.as_str().to_string()))
}

/// Calls `Regex::new` and then `Regex::captures_iter`, reading capture group 1 of each match.
/// `None` exactly when the pattern does not compile; otherwise the groups are named by
/// `regex_all_matches`.
#[verifier::external_body]
fn regex_captures_iter(pattern: &str, text: &str) -> (r: Option<Vec<Option<String>>>)
    ensures
        r is None <==> !regex_compiles(pattern@),
        r matches Some(v) ==> v@.len() == regex_all_matches(pattern@, text@).len() && forall|
            i: int,
        |
            0 <= i < v@.len() ==> #[trigger] regex_all_matches(pattern@, text@)[i] == match v@[i] {
                Some(s) => Some(s@),
                None => None,
            },
{
    let re = match regex::Regex::new(pattern) {
        Ok(re) => re,
        Err(_) => return None,
    };
    Some(re.captures_iter(text).map(|c| c.get(1).map(|m| m.as_str().to_string())).collect())
}

/// Calls `Regex::new`: whether the pattern is accepted.
#[verifier::external_body]
pub(crate) fn regex_is_valid(pattern: &str) -> (r: bool)
    ensures
        r == regex_compiles(pattern@),
{
    regex::Regex::new(pattern).is_ok()
}

/// The groups that took part, in order.
pub open spec fn present(gs: Seq<Option<Seq<char>>>) -> Seq<Seq<char>>
    decreases gs.len(),
{
    if gs.len() == 0 {
        seq![]
    } else {
        let rest = present(gs.drop_last());
        match gs.last() {
            Some(g) => rest.push(g),
            None => rest,
        }
    }
}

/// Group-1 texts of every match, when the pattern compiles.
fn all_groups(pattern: &str, text: &str) -> (r: Option<Vec<Vec<char>>>)
    ensures
        r is None <==> !regex_compiles(pattern@),
        r matches Some(v) ==> text::views(v@) == present(regex_all_matches(pattern@, text@)),
{
    let gs = match regex_captures_iter(pattern, text) {
        Some(gs) => gs,
        None => return None,
    };
    let ghost all = regex_all_matches(pattern@, text@);
    let mut out: Vec<Vec<char>> = Vec::new();
    let mut i: usize = 0;
    assert(all.subrange(0, 0) =~= Seq::<Option<Seq<char>>>::empty());
    assert(text::views(out@) =~= Seq::<Seq<char>>::empty());
    while i < gs.len()
        invariant
            i <= gs.len(),
            gs@.len() == all.len(),
            forall|k: int| 0 <= k < gs@.len() ==> #[trigger] all[k] == match gs@[k] {
                Some(s) => Some(s@),
                None => None,
            },
            text::views(out@) == present(all.subrange(0, i as int)),
        decreases gs.len() - i,
    {
        assert(all.subrange(0, i + 1).drop_last() =~= all.subrange(0, i as int));
        assert(all.subrange(0, i + 1).last() == all[i as int]);
        match &gs[i] {
            Some(g) => {
                let ghost old_out = out@;
                out.push(to_chars(g.as_str()));
                assert(text::views(out@) =~= text::views(old_out).push(g@));
            },
            None => {},
        }
        i = i + 1;
    }
    assert(all.subrange(0, gs.len() as int) =~= all);
    Some(out)
}

// ─── byte windows ────────────────────────────────────────────────────────────

/// End (character index) of the window that starts at `j` and spans `budget` more bytes,
/// or the end of `s` if fewer bytes remain; `None` when the byte limit falls inside a
/// character (where slicing a `str` panics).
pub open spec fn window_end(s: Seq<char>, j: int, budget: int) -> Option<int>
    decreases s.len() - j,
{
    if budget <= 0 || j >= s.len() || j < 0 {
        Some(j)
    } else if text::utf8_len(s[j]) <= budget {
        window_end(s, j + 1, budget - text::utf8_len(s[j]))
    } else {
        None
    }
}

/// `&s[start..start + budget.min(s.len() - start)]` in bytes, or `None` where that panics.
pub open spec fn spec_window(s: Seq<char>, start: int, budget: int) -> Option<Seq<char>> {
    match window_end(s, start, budget) {
        Some(e) => Some(s.subrange(start, e)),
        None => None,
    }
}

proof fn lemma_window_end_bounds(s: Seq<char>, j: int, budget: int)
    requires
        0 <= j <= s.len(),
    ensures
        window_end(s, j, budget) matches Some(e) ==> j <= e <= s.len(),
    decreases s.len() - j,
{
    if budget <= 0 || j >= s.len() {
    } else if text::utf8_len(s[j]) <= budget {
        lemma_window_end_bounds(s, j + 1, budget - text::utf8_len(s[j]));
    }
}

/// The byte window of `s` starting at character `start`.
fn window(s: &Vec<char>, start: usize, budget: usize) -> (r: Option<Vec<char>>)
    requires
        start <= s.len(),
    ensures
        r matches Some(w) ==> spec_window(s@, start as int, budget as int) == Some(w@),
        r is None ==> spec_window(s@, start as int, budget as int) is None,
{
    let mut j: usize = start;
    let mut b: usize = budget;
    while b > 0 && j < s.len()
        invariant
            start <= j <= s.len(),
            window_end(s@, start as int, budget as int) == window_end(s@, j as int, b as int),
        decreases s.len() - j,
    {
        let w = text::char_len_utf8(s[j]);
        if w > b {
            return None;
        }
        b = b - w;
        j = j + 1;
    }
    Some(slice(s, start, j))
}

// ─── block starts ────────────────────────────────────────────────────────────

/// Index just past the first `{` that follows the first occurrence of `p`.
pub open spec fn spec_block_start_with(t: Seq<char>, p: Seq<char>) -> Option<int> {
    match text::spec_find(t, p) {
        Some(pos) => match text::spec_find(t.subrange(pos, t.len() as int), "{"@) {
            Some(b) => Some(pos + b + 1),
            None => None,
        },
        None => None,
    }
}

/// Start of the block body for a flavor named `name`: after `name {`, `name{` or `("name")`.
pub open spec fn spec_find_flavor_block_start(t: Seq<char>, name: Seq<char>) -> Option<int> {
    match spec_block_start_with(t, name + " {"@) {
        Some(k) => Some(k),
        None => match spec_block_start_with(t, name + "{"@) {
            Some(k) => Some(k),
            None => spec_block_start_with(t, "(\""@ + name + "\")"@),
        },
    }
}

fn block_start_with(t: &Vec<char>, p: &Vec<char>) -> (r: Option<usize>)
    ensures
        r matches Some(k) ==> spec_block_start_with(t@, p@) == Some(k as int) && k <= t.len(),
        r is None ==> spec_block_start_with(t@, p@) is None,
{
    proof {
        text::lemma_find_contains(t@, p@);
    }
    match find(t, p) {
        Some(pos) => {
            let rest = slice(t, pos, t.len());
            let brace = to_chars("{");
            proof {
                reveal_strlit("{");
                text::lemma_find_contains(rest@, brace@);
            }
            match find(&rest, &brace) {
                Some(b) => Some(pos + b + 1),
                None => None,
            }
        },
        None => None,
    }
}

/// Find the start of the block body for a given flavor name (past the `{`).
pub fn find_flavor_block_start(t: &Vec<char>, name: &Vec<char>) -> (r: Option<usize>)
    ensures
        r matches Some(k) ==> spec_find_flavor_block_start(t@, name@) == Some(k as int) && k
            <= t.len(),
        r is None ==> spec_find_flavor_block_start(t@, name@) is None,
{
    let p1 = concat(name, &to_chars(" {"));
    if let Some(k) = block_start_with(t, &p1) {
        return Some(k);
    }
    let p2 = concat(name, &to_chars("{"));
    if let Some(k) = block_start_with(t, &p2) {
        return Some(k);
    }
    let p3a = concat(&to_chars("(\""), name);
    let p3 = concat(&p3a, &to_chars("\")"));
    block_start_with(t, &p3)
}

} // verus!

verus! {

// ─── Gradle DSL extraction ────────────────────────────────────────────────────

/// `applicationId "x"` (Groovy).
pub const APP_ID_SPACED: &'static str = r#"(?i)applicationId\s+["']([^"']+)["']"#;

/// `applicationId = "x"` (Kotlin).
pub const APP_ID_ASSIGNED: &'static str = r#"(?i)applicationId\s*=\s*["']([^"']+)["']"#;

/// `applicationIdSuffix = ".x"`.
pub const SUFFIX_ASSIGNED: &'static str = r#"(?i)applicationIdSuffix\s*=\s*["']([^"']*)["']"#;

/// `applicationIdSuffix ".x"`.
pub const SUFFIX_SPACED: &'static str = r#"(?i)applicationIdSuffix\s+["']([^"']*)["']"#;

/// `flavorDimensions "a", "b"`, `flavorDimensions("a", "b")`, `flavorDimensions += listOf(...)`.
pub const DIMENSIONS_RE: &'static str = r#"(?m)flavorDimensions\s*[\(+\s]*(?:listOf\s*\()?([\s\S]*?)[\)\n]"#;

/// A quoted word.
pub const QUOTED_RE: &'static str = r#"["']([^"']+)["']"#;

/// Kotlin DSL flavor: `create("canary")`.
pub const CREATE_RE: &'static str = r#"create\s*\(\s*["']([^"']+)["']\s*\)"#;

/// Groovy DSL flavor: an indented bare identifier followed by a brace.
pub const BLOCK_RE: &'static str = r"(?m)^\s{2,}([a-zA-Z_][a-zA-Z0-9_]*)\s*\{";

/// `dimension "track"` / `dimension = "track"`.
pub const DIMENSION_ASSIGN_RE: &'static str = r#"dimension\s*[=\s]*["']([^"']+)["']"#;

/// The text searched for the application ID: a window of 8000 bytes from `defaultConfig`
/// when present, else all of it; `None` where taking the window panics.
pub open spec fn spec_app_id_search(t: Seq<char>) -> Option<Seq<char>> {
    match text::spec_find(t, "defaultConfig"@) {
        Some(i) => spec_window(t, i, 8000),
        None => Some(t),
    }
}

/// The application ID found in `search`: group 1 of the first pattern that matches.
pub open spec fn spec_extract_application_id(search: Seq<char>) -> Option<Seq<char>> {
    match regex_first_match(APP_ID_SPACED@, search) {
        Some(g) => g,
        None => match regex_first_match(APP_ID_ASSIGNED@, search) {
            Some(g) => g,
            None => None,
        },
    }
}

fn opt_chars(o: &Option<String>) -> (r: Option<Vec<char>>)
    ensures
        r matches Some(v) ==> o matches Some(s) && v@ == s@,
        r is None ==> o is None,
{
    match o {
        Some(s) => Some(to_chars(s.as_str())),
        None => None,
    }
}

/// `applicationId` of the build file; the outer `None` stands where a byte window
/// of the text would end inside a character.
fn extract_application_id(t: &Vec<char>) -> (r: Option<Option<Vec<char>>>)
    ensures
        r is None <==> spec_app_id_search(t@) is None,
        r matches Some(o) ==> spec_app_id_search(t@) matches Some(search) && match o {
            Some(v) => spec_extract_application_id(search) == Some(v@),
            None => spec_extract_application_id(search) is None,
        },
{
    proof {
        text::lemma_find_contains(t@, "defaultConfig"@);
    }
    let search = match find(t, &to_chars("defaultConfig")) {
        Some(i) => match window(t, i, 8000) {
            Some(w) => w,
            None => return None,
        },
        None => t.clone(),
    };
    let s = to_string(&search);
    match regex_captures(APP_ID_SPACED, s.as_str()) {
        Some(g) => return Some(opt_chars(&g)),
        None => {},
    }
    match regex_captures(APP_ID_ASSIGNED, s.as_str()) {
        Some(g) => Some(opt_chars(&g)),
        None => Some(None),
    }
}

/// Group-1 texts of every match, or nothing when the pattern does not compile.
pub open spec fn groups_if_compiles(p: Seq<char>, t: Seq<char>) -> Seq<Seq<char>> {
    if regex_compiles(p) {
        present(regex_all_matches(p, t))
    } else {
        seq![]
    }
}

/// All `applicationIdSuffix` values, sorted, duplicates removed.
pub open spec fn spec_suffixes(t: Seq<char>) -> Seq<Seq<char>> {
    text::spec_dedup(
        text::spec_sort(
            groups_if_compiles(SUFFIX_ASSIGNED@, t) + groups_if_compiles(SUFFIX_SPACED@, t),
        ),
    )
}

fn groups_or_empty(p: &str, t: &str) -> (r: Vec<Vec<char>>)
    ensures
        text::views(r@) == groups_if_compiles(p@, t@),
{
    match all_groups(p, t) {
        Some(v) => v,
        None => {
            let v: Vec<Vec<char>> = Vec::new();
            assert(text::views(v@) =~= Seq::<Seq<char>>::empty());
            v
        },
    }
}

fn append_all(a: &mut Vec<Vec<char>>, b: Vec<Vec<char>>)
    ensures
        text::views(final(a)@) == text::views(old(a)@) + text::views(b@),
{
    let ghost a0 = text::views(a@);
    let mut i: usize = 0;
    while i < b.len()
        invariant
            i <= b.len(),
            text::views(a@) == a0 + text::views(b@).subrange(0, i as int),
        decreases b.len() - i,
    {
        let ghost before = text::views(a@);
        a.push(b[i].clone());
        assert(text::views(a@) =~= before.push(b@[i as int]@));
        assert(text::views(b@).subrange(0, i + 1) =~= text::views(b@).subrange(0, i as int).push(
            b@[i as int]@,
        ));
        i = i + 1;
    }
    assert(text::views(b@).subrange(0, b.len() as int) =~= text::views(b@));
}

fn extract_application_id_suffixes(t: &str) -> (r: Vec<Vec<char>>)
    ensures
        text::views(r@) == spec_suffixes(t@),
{
    let mut out = groups_or_empty(SUFFIX_ASSIGNED, t);
    append_all(&mut out, groups_or_empty(SUFFIX_SPACED, t));
    let sorted = sort_chars(&out);
    dedup_chars(&sorted)
}

/// The flavor dimensions, in order, consecutive duplicates removed; `None` stands where a
/// byte window of the text would end inside a character.
pub open spec fn spec_flavor_dimensions(t: Seq<char>) -> Option<Seq<Seq<char>>> {
    match regex_first_match(DIMENSIONS_RE@, t) {
        Some(Some(raw)) => if regex_compiles(QUOTED_RE@) {
            Some(text::spec_dedup(present(regex_all_matches(QUOTED_RE@, raw))))
        } else {
            None
        },
        _ => Some(seq![]),
    }
}

fn extract_flavor_dimensions(t: &str) -> (r: Option<Vec<Vec<char>>>)
    ensures
        r is None <==> spec_flavor_dimensions(t@) is None,
        r matches Some(v) ==> spec_flavor_dimensions(t@) == Some(text::views(v@)),
{
    let empty: Vec<Vec<char>> = Vec::new();
    assert(text::views(empty@) =~= Seq::<Seq<char>>::empty());
    match regex_captures(DIMENSIONS_RE, t) {
        Some(Some(raw)) => match all_groups(QUOTED_RE, raw.as_str()) {
            Some(dims) => Some(dedup_chars(&dims)),
            None => None,
        },
        _ => Some(empty),
    }
}

} // verus!

verus! {

/// Flavor entries `(name, dimension)` as character sequences.
pub open spec fn pair_views(v: Seq<(Vec<char>, Vec<char>)>) -> Seq<(Seq<char>, Seq<char>)> {
    v.map_values(|p: (Vec<char>, Vec<char>)| (p.0@, p.1@))
}

/// `n` is a key of the flavor map.
pub open spec fn has_key(m: Seq<(Seq<char>, Seq<char>)>, n: Seq<char>) -> bool {
    exists|i: int| 0 <= i < m.len() && #[trigger] m[i].0 == n
}

/// Names added in order to the flavor map, each once, with no dimension yet
/// (`HashMap::entry(..).or_default()`, kept in first-insertion order).
pub open spec fn add_names(m: Seq<(Seq<char>, Seq<char>)>, names: Seq<Seq<char>>) -> Seq<
    (Seq<char>, Seq<char>),
>
    decreases names.len(),
{
    if names.len() == 0 {
        m
    } else {
        let m1 = add_names(m, names.drop_last());
        if has_key(m1, names.last()) {
            m1
        } else {
            m1.push((names.last(), seq![]))
        }
    }
}

/// Identifiers that open a block in a Gradle file but are not flavors.
pub open spec fn is_skipped_block(n: Seq<char>) -> bool {
    n == "defaultConfig"@ || n == "buildTypes"@ || n == "create"@ || n == "dimension"@ || n
        == "productFlavors"@ || n == "signingConfigs"@ || n == "kotlinOptions"@ || n
        == "packagingOptions"@ || n == "packaging"@ || n == "compileOptions"@ || n
        == "buildFeatures"@ || n == "android"@ || n == "dependencies"@
}

/// Names that are not skipped, in order.
pub open spec fn not_skipped(names: Seq<Seq<char>>) -> Seq<Seq<char>>
    decreases names.len(),
{
    if names.len() == 0 {
        seq![]
    } else if is_skipped_block(names.last()) {
        not_skipped(names.drop_last())
    } else {
        not_skipped(names.drop_last()).push(names.last())
    }
}

/// Each flavor gets the dimension named by the first `dimension "..."` within 2000 bytes
/// after the start of its block; `None` stands where that byte window would end inside a
/// character.
pub open spec fn spec_assign_dims(m: Seq<(Seq<char>, Seq<char>)>, slice: Seq<char>) -> Option<
    Seq<(Seq<char>, Seq<char>)>,
>
    decreases m.len(),
{
    if m.len() == 0 {
        Some(seq![])
    } else {
        match spec_assign_dims(m.drop_last(), slice) {
            None => None,
            Some(rest) => {
                let name = m.last().0;
                let d = m.last().1;
                match spec_find_flavor_block_start(slice, name) {
                    None => Some(rest.push((name, d))),
                    Some(pos) => match spec_window(slice, pos, 2000) {
                        None => None,
                        Some(block) => match regex_first_match(DIMENSION_ASSIGN_RE@, block) {
                            Some(Some(dim)) => Some(rest.push((name, dim))),
                            _ => Some(rest.push((name, d))),
                        },
                    },
                }
            },
        }
    }
}

/// Map of flavor name to dimension (empty when unassigned), in first-seen order;
/// `None` stands where a byte window of the text would end inside a character.
pub open spec fn spec_flavors_with_dimensions(t: Seq<char>, dims: Seq<Seq<char>>) -> Option<
    Seq<(Seq<char>, Seq<char>)>,
> {
    match text::spec_find(t, "productFlavors"@) {
        None => Some(seq![]),
        Some(start) => match spec_window(t, start, 24000) {
            None => None,
            Some(slice) => if !regex_compiles(CREATE_RE@) || !regex_compiles(BLOCK_RE@) {
                None
            } else {
                let m = add_names(
                    add_names(seq![], present(regex_all_matches(CREATE_RE@, slice))),
                    not_skipped(present(regex_all_matches(BLOCK_RE@, slice))),
                );
                if m.len() == 0 || dims.len() == 0 {
                    Some(m)
                } else if !regex_compiles(DIMENSION_ASSIGN_RE@) {
                    None
                } else {
                    spec_assign_dims(m, slice)
                }
            },
        },
    }
}

fn map_has_key(m: &Vec<(Vec<char>, Vec<char>)>, n: &Vec<char>) -> (r: bool)
    ensures
        r == has_key(pair_views(m@), n@),
{
    let ghost pm = pair_views(m@);
    let mut i: usize = 0;
    while i < m.len()
        invariant
            i <= m.len(),
            pm == pair_views(m@),
            forall|j: int| 0 <= j < i ==> #[trigger] pm[j].0 != n@,
        decreases m.len() - i,
    {
        assert(pm[i as int].0 == m@[i as int].0@);
        if chars_eq(&m[i].0, n) {
            return true;
        }
        i = i + 1;
    }
    false
}

fn add_names_exec(m: &mut Vec<(Vec<char>, Vec<char>)>, names: &Vec<Vec<char>>)
    ensures
        pair_views(final(m)@) == add_names(pair_views(old(m)@), text::views(names@)),
{
    let ghost m0 = pair_views(m@);
    let mut i: usize = 0;
    assert(text::views(names@).subrange(0, 0) =~= Seq::<Seq<char>>::empty());
    while i < names.len()
        invariant
            i <= names.len(),
            pair_views(m@) == add_names(m0, text::views(names@).subrange(0, i as int)),
        decreases names.len() - i,
    {
        let ghost sub = text::views(names@).subrange(0, i + 1);
        assert(sub.drop_last() =~= text::views(names@).subrange(0, i as int));
        assert(sub.last() == names@[i as int]@);
        if !map_has_key(m, &names[i]) {
            let ghost before = pair_views(m@);
            m.push((names[i].clone(), Vec::new()));
            assert(pair_views(m@) =~= before.push((names@[i as int]@, seq![])));
        }
        i = i + 1;
    }
    assert(text::views(names@).subrange(0, names.len() as int) =~= text::views(names@));
}

fn is_skipped_name(n: &Vec<char>) -> (r: bool)
    ensures
        r == is_skipped_block(n@),
{
    chars_eq(n, &to_chars("defaultConfig")) || chars_eq(n, &to_chars("buildTypes")) || chars_eq(
        n,
        &to_chars("create"),
    ) || chars_eq(n, &to_chars("dimension")) || chars_eq(n, &to_chars("productFlavors"))
        || chars_eq(n, &to_chars("signingConfigs")) || chars_eq(n, &to_chars("kotlinOptions"))
        || chars_eq(n, &to_chars("packagingOptions")) || chars_eq(n, &to_chars("packaging"))
        || chars_eq(n, &to_chars("compileOptions")) || chars_eq(n, &to_chars("buildFeatures"))
        || chars_eq(n, &to_chars("android")) || chars_eq(n, &to_chars("dependencies"))
}

fn filter_skipped(names: &Vec<Vec<char>>) -> (r: Vec<Vec<char>>)
    ensures
        text::views(r@) == not_skipped(text::views(names@)),
{
    let mut out: Vec<Vec<char>> = Vec::new();
    let mut i: usize = 0;
    assert(text::views(names@).subrange(0, 0) =~= Seq::<Seq<char>>::empty());
    assert(text::views(out@) =~= Seq::<Seq<char>>::empty());
    while i < names.len()
        invariant
            i <= names.len(),
            text::views(out@) == not_skipped(text::views(names@).subrange(0, i as int)),
        decreases names.len() - i,
    {
        let ghost sub = text::views(names@).subrange(0, i + 1);
        assert(sub.drop_last() =~= text::views(names@).subrange(0, i as int));
        assert(sub.last() == names@[i as int]@);
        if !is_skipped_name(&names[i]) {
            let ghost before = text::views(out@);
            out.push(names[i].clone());
            assert(text::views(out@) =~= before.push(names@[i as int]@));
        }
        i = i + 1;
    }
    assert(text::views(names@).subrange(0, names.len() as int) =~= text::views(names@));
    out
}

fn assign_dims(m: &Vec<(Vec<char>, Vec<char>)>, slice_text: &Vec<char>, slice_str: &String) -> (r:
    Option<Vec<(Vec<char>, Vec<char>)>>)
    requires
        slice_str@ == slice_text@,
    ensures
        r is None <==> spec_assign_dims(pair_views(m@), slice_text@) is None,
        r matches Some(v) ==> spec_assign_dims(pair_views(m@), slice_text@) == Some(
            pair_views(v@),
        ),
{
    let ghost pm = pair_views(m@);
    let mut out: Vec<(Vec<char>, Vec<char>)> = Vec::new();
    let mut i: usize = 0;
    assert(pm.subrange(0, 0) =~= Seq::<(Seq<char>, Seq<char>)>::empty());
    assert(pair_views(out@) =~= Seq::<(Seq<char>, Seq<char>)>::empty());
    while i < m.len()
        invariant
            i <= m.len(),
            pm == pair_views(m@),
            slice_str@ == slice_text@,
            spec_assign_dims(pm.subrange(0, i as int), slice_text@) == Some(pair_views(out@)),
        decreases m.len() - i,
    {
        let ghost sub = pm.subrange(0, i + 1);
        assert(sub.drop_last() =~= pm.subrange(0, i as int));
        assert(sub.last() == (m@[i as int].0@, m@[i as int].1@));
        let ghost before = pair_views(out@);
        let name = m[i].0.clone();
        let mut d = m[i].1.clone();
        match find_flavor_block_start(slice_text, &name) {
            None => {},
            Some(pos) => match window(slice_text, pos, 2000) {
                None => {
                    proof {
                        lemma_assign_dims_none_extends(pm, slice_text@, i as int);
                    }
                    return None;
                },
                Some(block) => {
                    let bs = to_string(&block);
                    match regex_captures(DIMENSION_ASSIGN_RE, bs.as_str()) {
                        Some(Some(dim)) => {
                            d = to_chars(dim.as_str());
                        },
                        _ => {},
                    }
                },
            },
        }
        out.push((name, d));
        assert(pair_views(out@) =~= before.push((pair_views(out@).last().0, pair_views(
            out@,
        ).last().1)));
        i = i + 1;
    }
    assert(pm.subrange(0, m.len() as int) =~= pm);
    Some(out)
}

proof fn lemma_assign_dims_none_extends(pm: Seq<(Seq<char>, Seq<char>)>, slice: Seq<char>, i: int)
    requires
        0 <= i < pm.len(),
        spec_assign_dims(pm.subrange(0, i + 1), slice) is None,
    ensures
        spec_assign_dims(pm, slice) is None,
    decreases pm.len() - i,
{
    if i + 1 < pm.len() {
        assert(pm.subrange(0, i + 2).drop_last() =~= pm.subrange(0, i + 1));
        lemma_assign_dims_none_extends(pm, slice, i + 1);
    } else {
        assert(pm.subrange(0, i + 1) =~= pm);
    }
}

} // verus!

verus! {

fn extract_flavors_with_dimensions(t: &Vec<char>, dims: &Vec<Vec<char>>) -> (r: Option<
    Vec<(Vec<char>, Vec<char>)>,
>)
    ensures
        r is None <==> spec_flavors_with_dimensions(t@, text::views(dims@)) is None,
        r matches Some(v) ==> spec_flavors_with_dimensions(t@, text::views(dims@)) == Some(
            pair_views(v@),
        ),
{
    let mut m: Vec<(Vec<char>, Vec<char>)> = Vec::new();
    assert(pair_views(m@) =~= Seq::<(Seq<char>, Seq<char>)>::empty());
    proof {
        text::lemma_find_contains(t@, "productFlavors"@);
    }
    let start = match find(t, &to_chars("productFlavors")) {
        None => return Some(m),
        Some(s) => s,
    };
    let slice_text = match window(t, start, 24000) {
        None => return None,
        Some(w) => w,
    };
    let slice_str = to_string(&slice_text);
    let created = match all_groups(CREATE_RE, slice_str.as_str()) {
        None => return None,
        Some(v) => v,
    };
    let blocks = match all_groups(BLOCK_RE, slice_str.as_str()) {
        None => return None,
        Some(v) => v,
    };
    add_names_exec(&mut m, &created);
    let kept = filter_skipped(&blocks);
    add_names_exec(&mut m, &kept);
    if m.len() == 0 || dims.len() == 0 {
        return Some(m);
    }
    if !regex_is_valid(DIMENSION_ASSIGN_RE) {
        return None;
    }
    assign_dims(&m, &slice_text, &slice_str)
}

/// The dimension recorded for `n` (its first entry), empty when there is none.
pub open spec fn dim_of(m: Seq<(Seq<char>, Seq<char>)>, n: Seq<char>) -> Seq<char>
    decreases m.len(),
{
    if m.len() == 0 {
        seq![]
    } else if m[0].0 == n {
        m[0].1
    } else {
        dim_of(m.drop_first(), n)
    }
}

/// The first name of `names` whose dimension is `dim`.
pub open spec fn first_in_dim(
    names: Seq<Seq<char>>,
    m: Seq<(Seq<char>, Seq<char>)>,
    dim: Seq<char>,
) -> Option<Seq<char>>
    decreases names.len(),
{
    if names.len() == 0 {
        None
    } else if dim_of(m, names[0]) == dim {
        Some(names[0])
    } else {
        first_in_dim(names.drop_first(), m, dim)
    }
}

/// Per dimension, in order, the first flavor (by sorted name) of that dimension.
pub open spec fn select_for_dims(
    dims: Seq<Seq<char>>,
    names: Seq<Seq<char>>,
    m: Seq<(Seq<char>, Seq<char>)>,
) -> Seq<(Seq<char>, Seq<char>)>
    decreases dims.len(),
{
    if dims.len() == 0 {
        seq![]
    } else {
        let rest = select_for_dims(dims.drop_last(), names, m);
        match first_in_dim(names, m, dims.last()) {
            Some(f) => rest.push((dims.last(), f)),
            None => rest,
        }
    }
}

/// The selected `(dimension, flavor)` pairs: without dimensions, the first flavor alone.
pub open spec fn spec_selected_flavors(
    dims: Seq<Seq<char>>,
    names: Seq<Seq<char>>,
    m: Seq<(Seq<char>, Seq<char>)>,
) -> Seq<(Seq<char>, Seq<char>)> {
    if dims.len() == 0 {
        if names.len() > 0 {
            seq![(Seq::<char>::empty(), names[0])]
        } else {
            seq![]
        }
    } else {
        select_for_dims(dims, names, m)
    }
}

/// First character uppercased (Unicode mapping), the rest unchanged.
pub open spec fn spec_capitalize(s: Seq<char>) -> Seq<char> {
    if s.len() == 0 {
        seq![]
    } else {
        text::spec_char_to_uppercase(s[0]) + s.drop_first()
    }
}

/// Concatenation of the capitalized selected flavors.
pub open spec fn variant_segment(sel: Seq<(Seq<char>, Seq<char>)>) -> Seq<char>
    decreases sel.len(),
{
    if sel.len() == 0 {
        seq![]
    } else {
        variant_segment(sel.drop_last()) + spec_capitalize(sel.last().1)
    }
}

/// `base` with an `applicationIdSuffix` appended, a dot inserted when the suffix has none.
pub open spec fn spec_join_suffix(base: Seq<char>, suf: Seq<char>) -> Seq<char> {
    if suf.len() == 0 {
        base
    } else if suf[0] == '.' {
        base + suf
    } else {
        base + "."@ + suf
    }
}

/// `ids` extended by `base` joined with each suffix, skipping IDs already present.
pub open spec fn add_ids(ids: Seq<Seq<char>>, base: Seq<char>, sufs: Seq<Seq<char>>) -> Seq<
    Seq<char>,
>
    decreases sufs.len(),
{
    if sufs.len() == 0 {
        ids
    } else {
        let r = add_ids(ids, base, sufs.drop_last());
        let id = spec_join_suffix(base, sufs.last());
        if r.contains(id) {
            r
        } else {
            r.push(id)
        }
    }
}

/// Application IDs: the base ID first, then base plus each suffix; none without a base.
pub open spec fn spec_application_ids(base: Seq<char>, sufs: Seq<Seq<char>>) -> Seq<Seq<char>> {
    if base.len() == 0 {
        seq![]
    } else {
        add_ids(seq![base], base, sufs)
    }
}

/// Capitalize the first character (Unicode uppercase), keep the rest.
pub fn capitalize(s: &str) -> (r: String)
    ensures
        r@ == spec_capitalize(s@),
{
    let c = to_chars(s);
    to_string(&capitalize_chars(&c))
}

fn capitalize_chars(s: &Vec<char>) -> (r: Vec<char>)
    ensures
        r@ == spec_capitalize(s@),
{
    if s.len() == 0 {
        return Vec::new();
    }
    let up = char_to_uppercase_chars(s[0]);
    let rest = slice(s, 1, s.len());
    assert(rest@ =~= s@.drop_first());
    concat(&up, &rest)
}

fn char_to_uppercase_chars(c: char) -> (r: Vec<char>)
    ensures
        r@ == text::spec_char_to_uppercase(c),
{
    let u = text::char_to_uppercase(c);
    to_chars(u.as_str())
}

/// `base` joined with an `applicationIdSuffix`.
pub fn join_suffix(base: &str, suf: &str) -> (r: String)
    ensures
        r@ == spec_join_suffix(base@, suf@),
{
    to_string(&join_suffix_chars(&to_chars(base), &to_chars(suf)))
}

fn join_suffix_chars(base: &Vec<char>, suf: &Vec<char>) -> (r: Vec<char>)
    ensures
        r@ == spec_join_suffix(base@, suf@),
{
    if suf.len() == 0 {
        base.clone()
    } else if suf[0] == '.' {
        concat(base, suf)
    } else {
        let b = concat(base, &to_chars("."));
        concat(&b, suf)
    }
}

} // verus!

verus! {

fn dim_of_exec(m: &Vec<(Vec<char>, Vec<char>)>, n: &Vec<char>) -> (r: Vec<char>)
    ensures
        r@ == dim_of(pair_views(m@), n@),
{
    let ghost pm = pair_views(m@);
    let mut i: usize = 0;
    assert(pm.subrange(0, pm.len() as int) =~= pm);
    while i < m.len()
        invariant
            i <= m.len(),
            pm == pair_views(m@),
            dim_of(pm, n@) == dim_of(pm.subrange(i as int, pm.len() as int), n@),
        decreases m.len() - i,
    {
        let ghost sub = pm.subrange(i as int, pm.len() as int);
        assert(sub[0] == (m@[i as int].0@, m@[i as int].1@));
        assert(sub.drop_first() =~= pm.subrange(i + 1, pm.len() as int));
        if chars_eq(&m[i].0, n) {
            return m[i].1.clone();
        }
        i = i + 1;
    }
    Vec::new()
}

fn first_in_dim_exec(names: &Vec<Vec<char>>, m: &Vec<(Vec<char>, Vec<char>)>, dim: &Vec<char>) -> (r:
    Option<Vec<char>>)
    ensures
        r matches Some(f) ==> first_in_dim(text::views(names@), pair_views(m@), dim@) == Some(f@),
        r is None ==> first_in_dim(text::views(names@), pair_views(m@), dim@) is None,
{
    let ghost vn = text::views(names@);
    let mut i: usize = 0;
    assert(vn.subrange(0, vn.len() as int) =~= vn);
    while i < names.len()
        invariant
            i <= names.len(),
            vn == text::views(names@),
            first_in_dim(vn, pair_views(m@), dim@) == first_in_dim(
                vn.subrange(i as int, vn.len() as int),
                pair_views(m@),
                dim@,
            ),
        decreases names.len() - i,
    {
        let ghost sub = vn.subrange(i as int, vn.len() as int);
        assert(sub[0] == names@[i as int]@);
        assert(sub.drop_first() =~= vn.subrange(i + 1, vn.len() as int));
        let d = dim_of_exec(m, &names[i]);
        if chars_eq(&d, dim) {
            return Some(names[i].clone());
        }
        i = i + 1;
    }
    None
}

fn selected_flavors(dims: &Vec<Vec<char>>, names: &Vec<Vec<char>>, m: &Vec<(Vec<char>, Vec<char>)>) -> (r:
    Vec<(Vec<char>, Vec<char>)>)
    ensures
        pair_views(r@) == spec_selected_flavors(text::views(dims@), text::views(names@), pair_views(m@)),
{
    let mut out: Vec<(Vec<char>, Vec<char>)> = Vec::new();
    if dims.len() == 0 {
        if names.len() > 0 {
            out.push((Vec::new(), names[0].clone()));
            assert(pair_views(out@) =~= seq![(Seq::<char>::empty(), text::views(names@)[0])]);
        } else {
            assert(pair_views(out@) =~= Seq::<(Seq<char>, Seq<char>)>::empty());
        }
        return out;
    }
    let ghost vd = text::views(dims@);
    let mut i: usize = 0;
    assert(vd.subrange(0, 0) =~= Seq::<Seq<char>>::empty());
    assert(pair_views(out@) =~= Seq::<(Seq<char>, Seq<char>)>::empty());
    while i < dims.len()
        invariant
            i <= dims.len(),
            vd == text::views(dims@),
            pair_views(out@) == select_for_dims(vd.subrange(0, i as int), text::views(names@), pair_views(m@)),
        decreases dims.len() - i,
    {
        let ghost sub = vd.subrange(0, i + 1);
        assert(sub.drop_last() =~= vd.subrange(0, i as int));
        assert(sub.last() == dims@[i as int]@);
        match first_in_dim_exec(names, m, &dims[i]) {
            Some(f) => {
                let ghost before = pair_views(out@);
                let ghost fv = f@;
                out.push((dims[i].clone(), f));
                assert(pair_views(out@) =~= before.push((dims@[i as int]@, fv)));
            },
            None => {},
        }
        i = i + 1;
    }
    assert(vd.subrange(0, dims.len() as int) =~= vd);
    out
}

fn variant_segment_exec(sel: &Vec<(Vec<char>, Vec<char>)>) -> (r: Vec<char>)
    ensures
        r@ == variant_segment(pair_views(sel@)),
{
    let ghost ps = pair_views(sel@);
    let mut out: Vec<char> = Vec::new();
    let mut i: usize = 0;
    assert(ps.subrange(0, 0) =~= Seq::<(Seq<char>, Seq<char>)>::empty());
    while i < sel.len()
        invariant
            i <= sel.len(),
            ps == pair_views(sel@),
            out@ == variant_segment(ps.subrange(0, i as int)),
        decreases sel.len() - i,
    {
        let ghost sub = ps.subrange(0, i + 1);
        assert(sub.drop_last() =~= ps.subrange(0, i as int));
        assert(sub.last() == (sel@[i as int].0@, sel@[i as int].1@));
        let c = capitalize_chars(&sel[i].1);
        out = concat(&out, &c);
        i = i + 1;
    }
    assert(ps.subrange(0, sel.len() as int) =~= ps);
    out
}

fn contains_chars_vec(v: &Vec<Vec<char>>, x: &Vec<char>) -> (r: bool)
    ensures
        r == text::views(v@).contains(x@),
{
    let ghost vv = text::views(v@);
    let mut i: usize = 0;
    while i < v.len()
        invariant
            i <= v.len(),
            vv == text::views(v@),
            forall|j: int| 0 <= j < i ==> vv[j] != x@,
        decreases v.len() - i,
    {
        assert(vv[i as int] == v@[i as int]@);
        if chars_eq(&v[i], x) {
            return true;
        }
        i = i + 1;
    }
    false
}

fn application_ids(base: &Vec<char>, sufs: &Vec<Vec<char>>) -> (r: Vec<Vec<char>>)
    ensures
        text::views(r@) == spec_application_ids(base@, text::views(sufs@)),
{
    let mut ids: Vec<Vec<char>> = Vec::new();
    if base.len() == 0 {
        assert(text::views(ids@) =~= Seq::<Seq<char>>::empty());
        return ids;
    }
    ids.push(base.clone());
    let ghost vs = text::views(sufs@);
    assert(text::views(ids@) =~= seq![base@]);
    assert(vs.subrange(0, 0) =~= Seq::<Seq<char>>::empty());
    let mut i: usize = 0;
    while i < sufs.len()
        invariant
            i <= sufs.len(),
            vs == text::views(sufs@),
            text::views(ids@) == add_ids(seq![base@], base@, vs.subrange(0, i as int)),
        decreases sufs.len() - i,
    {
        let ghost sub = vs.subrange(0, i + 1);
        assert(sub.drop_last() =~= vs.subrange(0, i as int));
        assert(sub.last() == sufs@[i as int]@);
        let id = join_suffix_chars(base, &sufs[i]);
        if !contains_chars_vec(&ids, &id) {
            let ghost before = text::views(ids@);
            let ghost idv = id@;
            ids.push(id);
            assert(text::views(ids@) =~= before.push(idv));
        }
        i = i + 1;
    }
    assert(vs.subrange(0, sufs.len() as int) =~= vs);
    ids
}

} // verus!

verus! {

/// What could be inferred from a Gradle build file.
#[derive(Debug, Clone, Default)]
pub struct ProjectInference {
    /// e.g. `ai.wayve.app`, `ai.wayve.app.dev`
    pub application_ids: Vec<String>,
    /// All flavor names (sorted, de-duplicated).
    pub flavor_names: Vec<String>,
    /// Ordered flavor dimensions, e.g. `["track", "environment"]`.
    pub flavor_dimensions: Vec<String>,
    /// First flavor selected per dimension: `[("track","canary"), ("environment","dev")]`.
    pub selected_flavors: Vec<(String, String)>,
    /// Inferred `assemble*` task.
    pub assemble_task: Option<String>,
    /// Inferred `install*` task.
    pub install_task: Option<String>,
    /// Human-readable summary shown in the UI.
    pub variant_summary: String,
    /// Path of the build file the inference came from.
    pub gradle_file: Option<String>,
}

/// The abstract content of a [`ProjectInference`].
pub struct InferenceModel {
    pub application_ids: Seq<Seq<char>>,
    pub flavor_names: Seq<Seq<char>>,
    pub flavor_dimensions: Seq<Seq<char>>,
    pub selected_flavors: Seq<(Seq<char>, Seq<char>)>,
    pub assemble_task: Option<Seq<char>>,
    pub install_task: Option<Seq<char>>,
    pub variant_summary: Seq<char>,
    pub gradle_file: Option<Seq<char>>,
}

impl View for ProjectInference {
    type V = InferenceModel;

    open spec fn view(&self) -> InferenceModel {
        InferenceModel {
            application_ids: text::strs(self.application_ids@),
            flavor_names: text::strs(self.flavor_names@),
            flavor_dimensions: text::strs(self.flavor_dimensions@),
            selected_flavors: text::str_pairs(self.selected_flavors@),
            assemble_task: text::opt_view(self.assemble_task),
            install_task: text::opt_view(self.install_task),
            variant_summary: self.variant_summary@,
            gradle_file: text::opt_view(self.gradle_file),
        }
    }
}

/// The flavor names of the map, in map order.
pub open spec fn keys(m: Seq<(Seq<char>, Seq<char>)>) -> Seq<Seq<char>> {
    m.map_values(|p: (Seq<char>, Seq<char>)| p.0)
}

/// The inference for a build file with the given parts.
pub open spec fn spec_inference_from(
    base: Seq<char>,
    suffixes: Seq<Seq<char>>,
    dims: Seq<Seq<char>>,
    names: Seq<Seq<char>>,
    sel: Seq<(Seq<char>, Seq<char>)>,
) -> InferenceModel {
    let seg = variant_segment(sel);
    InferenceModel {
        application_ids: spec_application_ids(base, suffixes),
        flavor_names: names,
        flavor_dimensions: dims,
        selected_flavors: sel,
        assemble_task: if seg.len() == 0 {
            Some("assembleDebug"@)
        } else {
            Some("assemble"@ + seg + "Debug"@)
        },
        install_task: if seg.len() == 0 {
            Some("installDebug"@)
        } else {
            Some("install"@ + seg + "Debug"@)
        },
        variant_summary: if seg.len() == 0 {
            "debug (no flavors)"@
        } else {
            seg + "Debug"@
        },
        gradle_file: None,
    }
}

/// What `infer_from_gradle_text` computes for the text of a build file; `None` stands for the
/// inputs on which slicing a byte window of the text panics.
pub open spec fn spec_infer_from_gradle_text(t: Seq<char>) -> Option<InferenceModel> {
    match spec_app_id_search(t) {
        None => None,
        Some(search) => match spec_flavor_dimensions(t) {
            None => None,
            Some(dims) => match spec_flavors_with_dimensions(t, dims) {
                None => None,
                Some(m) => {
                    let base = match spec_extract_application_id(search) {
                        Some(b) => b,
                        None => seq![],
                    };
                    let names = text::spec_dedup(text::spec_sort(keys(m)));
                    let sel = spec_selected_flavors(dims, names, m);
                    Some(spec_inference_from(base, spec_suffixes(t), dims, names, sel))
                },
            },
        },
    }
}

fn keys_exec(m: &Vec<(Vec<char>, Vec<char>)>) -> (r: Vec<Vec<char>>)
    ensures
        text::views(r@) == keys(pair_views(m@)),
{
    let mut out: Vec<Vec<char>> = Vec::new();
    let mut i: usize = 0;
    while i < m.len()
        invariant
            i <= m.len(),
            text::views(out@) == keys(pair_views(m@)).subrange(0, i as int),
        decreases m.len() - i,
    {
        let ghost before = text::views(out@);
        out.push(m[i].0.clone());
        assert(text::views(out@) =~= before.push(m@[i as int].0@));
        assert(keys(pair_views(m@)).subrange(0, i + 1) =~= keys(pair_views(m@)).subrange(
            0,
            i as int,
        ).push(m@[i as int].0@));
        i = i + 1;
    }
    assert(keys(pair_views(m@)).subrange(0, m.len() as int) =~= keys(pair_views(m@)));
    out
}

fn pairs_to_strings(v: &Vec<(Vec<char>, Vec<char>)>) -> (r: Vec<(String, String)>)
    ensures
        text::str_pairs(r@) == pair_views(v@),
{
    let mut out: Vec<(String, String)> = Vec::new();
    let mut i: usize = 0;
    while i < v.len()
        invariant
            i <= v.len(),
            text::str_pairs(out@) == pair_views(v@).subrange(0, i as int),
        decreases v.len() - i,
    {
        let ghost before = text::str_pairs(out@);
        out.push((to_string(&v[i].0), to_string(&v[i].1)));
        assert(text::str_pairs(out@) =~= before.push((v@[i as int].0@, v@[i as int].1@)));
        assert(pair_views(v@).subrange(0, i + 1) =~= pair_views(v@).subrange(0, i as int).push(
            (v@[i as int].0@, v@[i as int].1@),
        ));
        i = i + 1;
    }
    assert(pair_views(v@).subrange(0, v.len() as int) =~= pair_views(v@));
    out
}

fn infer_core(t: &str) -> (r: Option<ProjectInference>)
    ensures
        r is None <==> spec_infer_from_gradle_text(t@) is None,
        r matches Some(p) ==> spec_infer_from_gradle_text(t@) == Some(p@),
{
    let tc = to_chars(t);
    let base_opt = match extract_application_id(&tc) {
        None => return None,
        Some(b) => b,
    };
    let dims = match extract_flavor_dimensions(t) {
        None => return None,
        Some(d) => d,
    };
    let m = match extract_flavors_with_dimensions(&tc, &dims) {
        None => return None,
        Some(m) => m,
    };
    let base = match base_opt {
        Some(b) => b,
        None => Vec::new(),
    };
    let suffixes = extract_application_id_suffixes(t);
    let names = dedup_chars(&sort_chars(&keys_exec(&m)));
    let sel = selected_flavors(&dims, &names, &m);
    let seg = variant_segment_exec(&sel);
    let debug = to_chars("Debug");
    let (assemble, install, summary) = if seg.len() == 0 {
        (to_chars("assembleDebug"), to_chars("installDebug"), to_chars("debug (no flavors)"))
    } else {
        let a = concat(&concat(&to_chars("assemble"), &seg), &debug);
        let i = concat(&concat(&to_chars("install"), &seg), &debug);
        (a, i, concat(&seg, &debug))
    };
    let ids = application_ids(&base, &suffixes);
    let p = ProjectInference {
        application_ids: text::to_strings(&ids),
        flavor_names: text::to_strings(&names),
        flavor_dimensions: text::to_strings(&dims),
        selected_flavors: pairs_to_strings(&sel),
        assemble_task: Some(to_string(&assemble)),
        install_task: Some(to_string(&install)),
        variant_summary: to_string(&summary),
        gradle_file: None,
    };
    Some(p)
}

/// Infer application IDs, flavors and default tasks from the text of a Gradle build file.
pub fn infer_from_gradle_text(t: &str) -> (r: ProjectInference)
    requires
        spec_infer_from_gradle_text(t@) is Some,
    ensures
        spec_infer_from_gradle_text(t@) == Some(r@),
{
    match infer_core(t) {
        Some(p) => p,
        None => ProjectInference::empty_with_summary(String::new()),
    }
}

/// As `infer_from_gradle_text`, or `None` for a text on which slicing one of its byte windows
/// would fall inside a character.
pub fn try_infer_from_gradle_text(t: &str) -> (r: Option<ProjectInference>)
    ensures
        r is None <==> spec_infer_from_gradle_text(t@) is None,
        r matches Some(p) ==> spec_infer_from_gradle_text(t@) == Some(p@),
{
    if infer_core(t).is_some() {
        Some(infer_from_gradle_text(t))
    } else {
        None
    }
}

impl ProjectInference {
    /// An inference with nothing found and the given summary.
    pub fn empty_with_summary(summary: String) -> (r: ProjectInference)
        ensures
            r@.application_ids.len() == 0,
            r@.flavor_names.len() == 0,
            r@.flavor_dimensions.len() == 0,
            r@.selected_flavors.len() == 0,
            r@.assemble_task is None,
            r@.install_task is None,
            r@.variant_summary == summary@,
            r@.gradle_file is None,
    {
        ProjectInference {
            application_ids: Vec::new(),
            flavor_names: Vec::new(),
            flavor_dimensions: Vec::new(),
            selected_flavors: Vec::new(),
            assemble_task: None,
            install_task: None,
            variant_summary: summary,
            gradle_file: None,
        }
    }
}

} // verus!

verus! {

/// The first name of a sorted list with dimension `dim` is in the list, has that dimension,
/// and sorts no later than any other name of the list with that dimension; without one, no
/// name of the list has that dimension.
proof fn lemma_first_in_dim_least(
    names: Seq<Seq<char>>,
    m: Seq<(Seq<char>, Seq<char>)>,
    dim: Seq<char>,
)
    requires
        text::sorted_by_lt(names),
    ensures
        first_in_dim(names, m, dim) matches Some(f) ==> names.contains(f) && dim_of(m, f) == dim
            && forall|g: Seq<char>|
            names.contains(g) && dim_of(m, g) == dim ==> !text::seq_lt(g, f),
        first_in_dim(names, m, dim) is None ==> forall|g: Seq<char>|
            names.contains(g) ==> dim_of(m, g) != dim,
    decreases names.len(),
{
    if names.len() > 0 {
        let t = names.drop_first();
        if dim_of(m, names[0]) == dim {
            assert(names.contains(names[0]));
            assert forall|g: Seq<char>|
                names.contains(g) && dim_of(m, g) == dim implies !text::seq_lt(g, names[0]) by {
                let k = choose|k: int| 0 <= k < names.len() && names[k] == g;
                if k == 0 {
                    text::lemma_seq_lt_irreflexive(g);
                }
            }
        } else {
            assert(text::sorted_by_lt(t)) by {
                assert forall|i: int, j: int| 0 <= i < j < t.len() implies !text::seq_lt(
                    #[trigger] t[j],
                    #[trigger] t[i],
                ) by {
                    assert(t[i] == names[i + 1] && t[j] == names[j + 1]);
                }
            }
            lemma_first_in_dim_least(t, m, dim);
            assert forall|g: Seq<char>| names.contains(g) && g != names[0] implies t.contains(g) by {
                let k = choose|k: int| 0 <= k < names.len() && names[k] == g;
                assert(t[k - 1] == g);
            }
            if let Some(f) = first_in_dim(t, m, dim) {
                let k = choose|k: int| 0 <= k < t.len() && t[k] == f;
                assert(names[k + 1] == f);
            }
        }
    }
}

/// Each selected pair is a dimension of `dims` with the first name of that dimension.
proof fn lemma_select_for_dims(
    dims: Seq<Seq<char>>,
    names: Seq<Seq<char>>,
    m: Seq<(Seq<char>, Seq<char>)>,
)
    ensures
        forall|k: int|
            0 <= k < select_for_dims(dims, names, m).len() ==> dims.contains(
                (#[trigger] select_for_dims(dims, names, m)[k]).0,
            ) && first_in_dim(names, m, select_for_dims(dims, names, m)[k].0) == Some(
                select_for_dims(dims, names, m)[k].1,
            ),
    decreases dims.len(),
{
    if dims.len() > 0 {
        let p = dims.drop_last();
        lemma_select_for_dims(p, names, m);
        let rest = select_for_dims(p, names, m);
        assert forall|d: Seq<char>| p.contains(d) implies dims.contains(d) by {
            let k = choose|k: int| 0 <= k < p.len() && p[k] == d;
            assert(dims[k] == d);
        }
        assert(dims[dims.len() - 1] == dims.last());
        assert(dims.contains(dims.last()));
        let s = select_for_dims(dims, names, m);
        assert forall|k: int| 0 <= k < s.len() implies dims.contains((#[trigger] s[k]).0)
            && first_in_dim(names, m, s[k].0) == Some(s[k].1) by {
            if k < rest.len() {
                assert(s[k] == rest[k]);
            }
        }
    }
}

/// The flavor selected for a dimension (for the variant and the default tasks) is a flavor
/// of the build file with that dimension, and the alphabetically first of all flavors with
/// it; without dimensions, the alphabetically first flavor. The order in which the file
/// declares its flavors does not matter.
pub proof fn law_selected_flavor_is_alphabetically_first(t: Seq<char>)
    requires
        spec_infer_from_gradle_text(t) is Some,
    ensures
        ({
            let inf = spec_infer_from_gradle_text(t)->0;
            let dims = inf.flavor_dimensions;
            let m = spec_flavors_with_dimensions(t, dims)->0;
            forall|k: int|
                0 <= k < inf.selected_flavors.len() ==> {
                    let f = (#[trigger] inf.selected_flavors[k]).1;
                    let d = inf.selected_flavors[k].0;
                    &&& keys(m).contains(f)
                    &&& dims.len() > 0 ==> dims.contains(d) && dim_of(m, f) == d
                    &&& forall|g: Seq<char>|
                        keys(m).contains(g) && (dims.len() == 0 || dim_of(m, g) == d)
                            ==> !text::seq_lt(g, f)
                }
        }),
{
    let inf = spec_infer_from_gradle_text(t)->0;
    let dims = spec_flavor_dimensions(t)->0;
    let m = spec_flavors_with_dimensions(t, dims)->0;
    let ks = keys(m);
    let names = text::spec_dedup(text::spec_sort(ks));
    text::lemma_sort_sorted(ks);
    text::lemma_dedup_sorted(text::spec_sort(ks));
    assert forall|g: Seq<char>| #[trigger] names.contains(g) <==> ks.contains(g) by {
        assert(names.contains(g) <==> text::spec_sort(ks).contains(g));
    }
    let sel = spec_selected_flavors(dims, names, m);
    assert(inf.selected_flavors == sel);
    assert(inf.flavor_dimensions == dims);
    if dims.len() == 0 {
        assert forall|k: int| 0 <= k < sel.len() implies {
            let f = (#[trigger] sel[k]).1;
            &&& ks.contains(f)
            &&& forall|g: Seq<char>| ks.contains(g) ==> !text::seq_lt(g, f)
        } by {
            assert(sel[k].1 == names[0]);
            assert(names.contains(names[0]));
            assert forall|g: Seq<char>| ks.contains(g) implies !text::seq_lt(g, names[0]) by {
                assert(names.contains(g));
                let j = choose|j: int| 0 <= j < names.len() && names[j] == g;
                if j == 0 {
                    text::lemma_seq_lt_irreflexive(g);
                }
            }
        }
    } else {
        lemma_select_for_dims(dims, names, m);
        assert forall|k: int| 0 <= k < sel.len() implies {
            let f = (#[trigger] sel[k]).1;
            let d = sel[k].0;
            &&& ks.contains(f)
            &&& dims.contains(d) && dim_of(m, f) == d
            &&& forall|g: Seq<char>| ks.contains(g) && dim_of(m, g) == d ==> !text::seq_lt(g, f)
        } by {
            lemma_first_in_dim_least(names, m, sel[k].0);
        }
    }
}

} // verus!
