//! Character-sequence utilities with specifications.
use vstd::prelude::*;

verus! {

/// Unicode `White_Space` property, as used by `char::is_whitespace`.
pub open spec fn spec_is_whitespace(c: char) -> bool {
    let u = c as u32;
    (0x09 <= u && u <= 0x0D) || u == 0x20 || u == 0x85 || u == 0xA0 || u == 0x1680
        || (0x2000 <= u && u <= 0x200A) || u == 0x2028 || u == 0x2029 || u == 0x202F
        || u == 0x205F || u == 0x3000
}

/// Whether `c` is a whitespace character.
pub fn is_whitespace(c: char) -> (r: bool)
    ensures
        r == spec_is_whitespace(c),
{
    let u = c as u32;
    (0x09 <= u && u <= 0x0D) || u == 0x20 || u == 0x85 || u == 0xA0 || u == 0x1680
        || (0x2000 <= u && u <= 0x200A) || u == 0x2028 || u == 0x2029 || u == 0x202F
        || u == 0x205F || u == 0x3000
}

/// The characters of `s`.
pub fn to_chars(s: &str) -> (r: Vec<char>)
    ensures
        r@ == s@,
{
    let mut r: Vec<char> = Vec::new();
    for c in it: s.chars()
        invariant
            r@ == it.seq().take(it.index() as int),
            it.seq() == s@,
    {
        r.push(c);
    }
    r
}

} // verus!

verus! {

/// `n` occurs in `h` starting at index `i`.
pub open spec fn occurs_at(h: Seq<char>, n: Seq<char>, i: int) -> bool {
    0 <= i && i + n.len() <= h.len() && h.subrange(i, i + n.len()) == n
}

/// Index of the first occurrence of `n` in `h` at or after `i`.
pub open spec fn find_from(h: Seq<char>, n: Seq<char>, i: int) -> Option<int>
    decreases h.len() + 1 - i,
{
    if i < 0 || i + n.len() > h.len() {
        None
    } else if occurs_at(h, n, i) {
        Some(i)
    } else {
        find_from(h, n, i + 1)
    }
}

/// Index of the first occurrence of `n` in `h` (as `str::find` with a string pattern,
/// counted in characters).
pub open spec fn spec_find(h: Seq<char>, n: Seq<char>) -> Option<int> {
    find_from(h, n, 0)
}

/// `h` contains `n` as a contiguous subsequence.
pub open spec fn spec_contains(h: Seq<char>, n: Seq<char>) -> bool {
    exists|i: int| occurs_at(h, n, i)
}

/// `h` begins with `p`.
pub open spec fn spec_starts_with(h: Seq<char>, p: Seq<char>) -> bool {
    p.len() <= h.len() && h.subrange(0, p.len() as int) == p
}

/// `h` ends with `p`.
pub open spec fn spec_ends_with(h: Seq<char>, p: Seq<char>) -> bool {
    p.len() <= h.len() && h.subrange(h.len() - p.len(), h.len() as int) == p
}

pub proof fn lemma_find_from(h: Seq<char>, n: Seq<char>, i: int)
    requires
        0 <= i,
    ensures
        find_from(h, n, i) matches Some(k) ==> i <= k && occurs_at(h, n, k) && forall|j: int|
            i <= j < k ==> !occurs_at(h, n, j),
        find_from(h, n, i) is None ==> forall|j: int| i <= j ==> !occurs_at(h, n, j),
    decreases h.len() - i,
{
    if i + n.len() > h.len() {
    } else if occurs_at(h, n, i) {
    } else {
        if n.len() == 0 {
            assert(h.subrange(i, i) =~= n);
        }
        lemma_find_from(h, n, i + 1);
    }
}

/// Finding and containment agree.
pub proof fn lemma_find_contains(h: Seq<char>, n: Seq<char>)
    ensures
        spec_find(h, n) is Some <==> spec_contains(h, n),
        spec_find(h, n) matches Some(k) ==> occurs_at(h, n, k) && forall|j: int|
            0 <= j < k ==> !occurs_at(h, n, j),
{
    lemma_find_from(h, n, 0);
}

/// Whether `n` occurs in `h` at position `i`.
pub fn matches_at(h: &Vec<char>, n: &Vec<char>, i: usize) -> (r: bool)
    ensures
        r == occurs_at(h@, n@, i as int),
{
    if i > h.len() || n.len() > h.len() - i {
        return false;
    }
    let mut k: usize = 0;
    while k < n.len()
        invariant
            i + n.len() <= h.len(),
            k <= n.len(),
            forall|j: int| 0 <= j < k ==> h@[i + j] == n@[j],
        decreases n.len() - k,
    {
        if h[i + k] != n[k] {
            assert(h@.subrange(i as int, i + n.len())[k as int] != n@[k as int]);
            return false;
        }
        k = k + 1;
    }
    assert(h@.subrange(i as int, i + n.len()) =~= n@);
    true
}

/// First occurrence of `n` in `h` at or after `start`.
pub fn find_from_index(h: &Vec<char>, n: &Vec<char>, start: usize) -> (r: Option<usize>)
    ensures
        r matches Some(k) ==> Some(k as int) == find_from(h@, n@, start as int),
        r is None ==> find_from(h@, n@, start as int) is None,
{
    if start > h.len() || n.len() > h.len() - start {
        return None;
    }
    let mut i: usize = start;
    let last: usize = h.len() - n.len();
    while i <= last
        invariant
            start <= i,
            last == h.len() - n.len(),
            i <= h.len(),
            find_from(h@, n@, start as int) == find_from(h@, n@, i as int),
        decreases h.len() - i,
    {
        if matches_at(h, n, i) {
            return Some(i);
        }
        proof {
            if n.len() == 0 {
                assert(h@.subrange(i as int, i as int) =~= n@);
            }
        }
        i = i + 1;
    }
    None
}

/// First occurrence of `n` in `h`.
pub fn find(h: &Vec<char>, n: &Vec<char>) -> (r: Option<usize>)
    ensures
        r matches Some(k) ==> spec_find(h@, n@) == Some(k as int),
        r is None ==> spec_find(h@, n@) is None,
{
    find_from_index(h, n, 0)
}

/// Whether `n` occurs in `h`.
pub fn contains(h: &Vec<char>, n: &Vec<char>) -> (r: bool)
    ensures
        r == spec_contains(h@, n@),
{
    proof {
        lemma_find_contains(h@, n@);
    }
    find(h, n).is_some()
}

/// Whether `h` begins with `p`.
pub fn starts_with(h: &Vec<char>, p: &Vec<char>) -> (r: bool)
    ensures
        r == spec_starts_with(h@, p@),
{
    matches_at(h, p, 0)
}

/// Whether `h` ends with `p`.
pub fn ends_with(h: &Vec<char>, p: &Vec<char>) -> (r: bool)
    ensures
        r == spec_ends_with(h@, p@),
{
    if p.len() > h.len() {
        false
    } else {
        matches_at(h, p, h.len() - p.len())
    }
}

/// Copy of `s[a..b]`.
pub fn slice(s: &Vec<char>, a: usize, b: usize) -> (r: Vec<char>)
    requires
        a <= b <= s.len(),
    ensures
        r@ == s@.subrange(a as int, b as int),
{
    let mut r: Vec<char> = Vec::new();
    let mut i: usize = a;
    while i < b
        invariant
            a <= i <= b <= s.len(),
            r@ == s@.subrange(a as int, i as int),
        decreases b - i,
    {
        r.push(s[i]);
        i = i + 1;
        assert(r@ =~= s@.subrange(a as int, i as int));
    }
    r
}

/// `a` followed by `b`.
pub fn concat(a: &Vec<char>, b: &Vec<char>) -> (r: Vec<char>)
    ensures
        r@ == a@ + b@,
{
    let mut r = a.clone();
    let mut i: usize = 0;
    while i < b.len()
        invariant
            i <= b.len(),
            r@ == a@ + b@.subrange(0, i as int),
        decreases b.len() - i,
    {
        r.push(b[i]);
        i = i + 1;
        assert(r@ =~= a@ + b@.subrange(0, i as int));
    }
    assert(b@.subrange(0, b.len() as int) =~= b@);
    r
}

/// Whether two character sequences are equal.
pub fn chars_eq(a: &Vec<char>, b: &Vec<char>) -> (r: bool)
    ensures
        r == (a@ == b@),
{
    if a.len() != b.len() {
        return false;
    }
    let r = matches_at(a, b, 0);
    proof {
        if r {
            assert(a@.subrange(0, b.len() as int) =~= a@);
        } else {
            assert(a@.subrange(0, b.len() as int) =~= a@);
        }
    }
    r
}

} // verus!

verus! {

/// Name for what `str::to_lowercase` returns (Unicode lowercase mapping).
pub uninterp spec fn spec_to_lowercase(s: Seq<char>) -> Seq<char>;

/// Name for what `char::to_uppercase` yields, collected (Unicode uppercase mapping).
pub uninterp spec fn spec_char_to_uppercase(c: char) -> Seq<char>;

/// Calls `str::to_lowercase`; the result is named by `spec_to_lowercase` of the input.
#[verifier::external_body]
pub(crate) fn to_lowercase(s: &str) -> (r: String)
    ensures
        r@ == spec_to_lowercase(s@),
{
    s.to_lowercase()
}

/// Calls `char::to_uppercase` and collects it; the result is named by
/// `spec_char_to_uppercase` of the input.
#[verifier::external_body]
pub(crate) fn char_to_uppercase(c: char) -> (r: String)
    ensures
        r@ == spec_char_to_uppercase(c),
{
    c.to_uppercase().collect()
}

/// Calls `String::push`: the character is appended at the end.
#[verifier::external_body]
pub(crate) fn push_char(s: &mut String, c: char)
    ensures
        final(s)@ == old(s)@.push(c),
{
    s.push(c)
}

/// A `String` holding exactly the characters of `v`.
pub fn to_string(v: &Vec<char>) -> (r: String)
    ensures
        r@ == v@,
{
    let mut r = String::new();
    let mut i: usize = 0;
    while i < v.len()
        invariant
            i <= v.len(),
            r@ == v@.subrange(0, i as int),
        decreases v.len() - i,
    {
        push_char(&mut r, v[i]);
        i = i + 1;
        assert(r@ =~= v@.subrange(0, i as int));
    }
    assert(v@.subrange(0, v.len() as int) =~= v@);
    r
}

/// The characters of a `String`.
pub fn string_chars(s: &String) -> (r: Vec<char>)
    ensures
        r@ == s@,
{
    to_chars(s.as_str())
}

/// Lowercase of a character sequence.
pub fn lower(v: &Vec<char>) -> (r: Vec<char>)
    ensures
        r@ == spec_to_lowercase(v@),
{
    let s = to_string(v);
    let l = to_lowercase(s.as_str());
    string_chars(&l)
}

/// Index just past the leading whitespace of `s` from `i`.
pub open spec fn skip_ws(s: Seq<char>, i: int) -> int
    decreases s.len() - i,
{
    if 0 <= i < s.len() && spec_is_whitespace(s[i]) {
        skip_ws(s, i + 1)
    } else {
        i
    }
}

/// End index of `s[..j]` with trailing whitespace removed.
pub open spec fn back_ws(s: Seq<char>, j: int) -> int
    decreases j,
{
    if 0 < j <= s.len() && spec_is_whitespace(s[j - 1]) {
        back_ws(s, j - 1)
    } else {
        j
    }
}

/// `str::trim_start`.
pub open spec fn spec_trim_start(s: Seq<char>) -> Seq<char> {
    s.subrange(skip_ws(s, 0), s.len() as int)
}

/// `str::trim_end`.
pub open spec fn spec_trim_end(s: Seq<char>) -> Seq<char> {
    s.subrange(0, back_ws(s, s.len() as int))
}

/// `str::trim`.
pub open spec fn spec_trim(s: Seq<char>) -> Seq<char> {
    spec_trim_end(spec_trim_start(s))
}

pub proof fn lemma_skip_ws(s: Seq<char>, i: int)
    requires
        0 <= i <= s.len(),
    ensures
        i <= skip_ws(s, i) <= s.len(),
        forall|k: int| i <= k < skip_ws(s, i) ==> spec_is_whitespace(s[k]),
        skip_ws(s, i) < s.len() ==> !spec_is_whitespace(s[skip_ws(s, i)]),
    decreases s.len() - i,
{
    if i < s.len() && spec_is_whitespace(s[i]) {
        lemma_skip_ws(s, i + 1);
    }
}

pub proof fn lemma_back_ws(s: Seq<char>, j: int)
    requires
        0 <= j <= s.len(),
    ensures
        0 <= back_ws(s, j) <= j,
        forall|k: int| back_ws(s, j) <= k < j ==> spec_is_whitespace(s[k]),
        back_ws(s, j) > 0 ==> !spec_is_whitespace(s[back_ws(s, j) - 1]),
    decreases j,
{
    if 0 < j && spec_is_whitespace(s[j - 1]) {
        lemma_back_ws(s, j - 1);
    }
}

/// `str::trim_start`: drops leading whitespace.
pub fn trim_start(s: &Vec<char>) -> (r: Vec<char>)
    ensures
        r@ == spec_trim_start(s@),
{
    let mut i: usize = 0;
    while i < s.len() && is_whitespace(s[i])
        invariant
            i <= s.len(),
            skip_ws(s@, 0) == skip_ws(s@, i as int),
        decreases s.len() - i,
    {
        i = i + 1;
    }
    slice(s, i, s.len())
}

/// `str::trim_end`: drops trailing whitespace.
pub fn trim_end(s: &Vec<char>) -> (r: Vec<char>)
    ensures
        r@ == spec_trim_end(s@),
{
    let mut j: usize = s.len();
    while j > 0 && is_whitespace(s[j - 1])
        invariant
            j <= s.len(),
            back_ws(s@, s.len() as int) == back_ws(s@, j as int),
        decreases j,
    {
        j = j - 1;
    }
    slice(s, 0, j)
}

/// `str::trim`: drops leading and trailing whitespace.
pub fn trim(s: &Vec<char>) -> (r: Vec<char>)
    ensures
        r@ == spec_trim(s@),
{
    let t = trim_start(s);
    trim_end(&t)
}

/// `str::trim_start_matches` with a string pattern: strips repeated leading copies of `p`.
pub open spec fn spec_trim_start_matches(s: Seq<char>, p: Seq<char>) -> Seq<char>
    decreases s.len(),
{
    if p.len() > 0 && spec_starts_with(s, p) {
        spec_trim_start_matches(s.subrange(p.len() as int, s.len() as int), p)
    } else {
        s
    }
}

/// `str::trim_end_matches` with a character pattern: strips trailing copies of `c`.
pub open spec fn spec_trim_end_matches(s: Seq<char>, c: char) -> Seq<char>
    decreases s.len(),
{
    if s.len() > 0 && s.last() == c {
        spec_trim_end_matches(s.drop_last(), c)
    } else {
        s
    }
}

/// `str::trim_start_matches` with a character pattern: strips leading copies of `c`.
pub open spec fn spec_trim_start_char(s: Seq<char>, c: char) -> Seq<char>
    decreases s.len(),
{
    if s.len() > 0 && s[0] == c {
        spec_trim_start_char(s.drop_first(), c)
    } else {
        s
    }
}

/// Strips repeated leading copies of `p`.
pub fn trim_start_matches(s: &Vec<char>, p: &Vec<char>) -> (r: Vec<char>)
    ensures
        r@ == spec_trim_start_matches(s@, p@),
{
    let mut cur = s.clone();
    if p.len() == 0 {
        return cur;
    }
    while starts_with(&cur, p)
        invariant
            p.len() > 0,
            spec_trim_start_matches(cur@, p@) == spec_trim_start_matches(s@, p@),
        decreases cur.len(),
    {
        cur = slice(&cur, p.len(), cur.len());
    }
    cur
}

/// Strips trailing copies of `c`.
pub fn trim_end_matches(s: &Vec<char>, c: char) -> (r: Vec<char>)
    ensures
        r@ == spec_trim_end_matches(s@, c),
{
    let mut j: usize = s.len();
    assert(s@.subrange(0, s.len() as int) =~= s@);
    while j > 0 && s[j - 1] == c
        invariant
            j <= s.len(),
            spec_trim_end_matches(s@.subrange(0, j as int), c) == spec_trim_end_matches(s@, c),
        decreases j,
    {
        assert(s@.subrange(0, j as int).drop_last() =~= s@.subrange(0, j - 1));
        j = j - 1;
    }
    proof {
        assert(s@.subrange(0, s.len() as int) =~= s@);
    }
    slice(s, 0, j)
}

/// Strips leading copies of `c`.
pub fn trim_start_char(s: &Vec<char>, c: char) -> (r: Vec<char>)
    ensures
        r@ == spec_trim_start_char(s@, c),
{
    let mut i: usize = 0;
    assert(s@.subrange(0, s.len() as int) =~= s@);
    while i < s.len() && s[i] == c
        invariant
            i <= s.len(),
            spec_trim_start_char(s@.subrange(i as int, s.len() as int), c)
                == spec_trim_start_char(s@, c),
        decreases s.len() - i,
    {
        assert(s@.subrange(i as int, s.len() as int).drop_first() =~= s@.subrange(
            i + 1,
            s.len() as int,
        ));
        i = i + 1;
    }
    proof {
        assert(s@.subrange(0, s.len() as int) =~= s@);
    }
    slice(s, i, s.len())
}

} // verus!

verus! {

/// The character sequences held by a vector of character vectors.
pub open spec fn views(v: Seq<Vec<char>>) -> Seq<Seq<char>> {
    v.map_values(|x: Vec<char>| x@)
}

/// Whitespace-separated tokens of `s[i..]`, where `cur` is the token being read.
pub open spec fn ws_tokens_acc(s: Seq<char>, i: int, cur: Seq<char>) -> Seq<Seq<char>>
    decreases s.len() - i,
{
    if i >= s.len() {
        if cur.len() > 0 {
            seq![cur]
        } else {
            seq![]
        }
    } else if spec_is_whitespace(s[i]) {
        if cur.len() > 0 {
            seq![cur] + ws_tokens_acc(s, i + 1, seq![])
        } else {
            ws_tokens_acc(s, i + 1, seq![])
        }
    } else {
        ws_tokens_acc(s, i + 1, cur.push(s[i]))
    }
}

/// `str::split_whitespace`: the maximal runs of non-whitespace characters.
pub open spec fn spec_split_whitespace(s: Seq<char>) -> Seq<Seq<char>> {
    ws_tokens_acc(s, 0, seq![])
}

/// Pieces of `s[i..]` separated by `sep`, where `cur` is the piece being read.
pub open spec fn split_acc(s: Seq<char>, sep: char, i: int, cur: Seq<char>) -> Seq<Seq<char>>
    decreases s.len() - i,
{
    if i >= s.len() {
        seq![cur]
    } else if s[i] == sep {
        seq![cur] + split_acc(s, sep, i + 1, seq![])
    } else {
        split_acc(s, sep, i + 1, cur.push(s[i]))
    }
}

/// `str::split` with a character separator: always at least one piece.
pub open spec fn spec_split(s: Seq<char>, sep: char) -> Seq<Seq<char>> {
    split_acc(s, sep, 0, seq![])
}

/// A line without its carriage return.
pub open spec fn strip_cr(l: Seq<char>) -> Seq<char> {
    if l.len() > 0 && l.last() == '\r' {
        l.drop_last()
    } else {
        l
    }
}

/// Lines of `s[i..]`, where `cur` is the line being read.
pub open spec fn lines_acc(s: Seq<char>, i: int, cur: Seq<char>) -> Seq<Seq<char>>
    decreases s.len() - i,
{
    if i >= s.len() {
        if cur.len() > 0 {
            seq![cur]
        } else {
            seq![]
        }
    } else if s[i] == '\n' {
        seq![strip_cr(cur)] + lines_acc(s, i + 1, seq![])
    } else {
        lines_acc(s, i + 1, cur.push(s[i]))
    }
}

/// `str::lines`: split at `\n`, a `\r` before the `\n` removed, no empty last line.
pub open spec fn spec_lines(s: Seq<char>) -> Seq<Seq<char>> {
    lines_acc(s, 0, seq![])
}

/// `parts` joined with `sep` between consecutive parts.
pub open spec fn spec_join(parts: Seq<Seq<char>>, sep: Seq<char>) -> Seq<char>
    decreases parts.len(),
{
    if parts.len() == 0 {
        seq![]
    } else if parts.len() == 1 {
        parts[0]
    } else {
        spec_join(parts.drop_last(), sep) + sep + parts.last()
    }
}

/// `str::split_whitespace`, collected.
pub fn split_whitespace(s: &Vec<char>) -> (r: Vec<Vec<char>>)
    ensures
        views(r@) == spec_split_whitespace(s@),
{
    let mut out: Vec<Vec<char>> = Vec::new();
    let mut cur: Vec<char> = Vec::new();
    let mut i: usize = 0;
    while i < s.len()
        invariant
            i <= s.len(),
            views(out@) + ws_tokens_acc(s@, i as int, cur@) == spec_split_whitespace(s@),
        decreases s.len() - i,
    {
        let ghost old_out = out@;
        let c = s[i];
        if is_whitespace(c) {
            if cur.len() > 0 {
                let ghost cv = cur@;
                out.push(cur);
                cur = Vec::new();
                assert(views(out@) =~= views(old_out).push(cv));
                assert(views(out@) + ws_tokens_acc(s@, i + 1, cur@) =~= views(old_out) + (seq![cv]
                    + ws_tokens_acc(s@, i + 1, seq![])));
            } else {
                assert(cur@ =~= seq![]);
            }
        } else {
            cur.push(c);
        }
        i = i + 1;
    }
    if cur.len() > 0 {
        let ghost old_out = out@;
        let ghost cv = cur@;
        out.push(cur);
        assert(views(out@) =~= views(old_out).push(cv));
    } else {
        assert(views(out@) + ws_tokens_acc(s@, i as int, cur@) =~= views(out@));
    }
    out
}

/// `str::split` with a character separator, collected.
pub fn split_char(s: &Vec<char>, sep: char) -> (r: Vec<Vec<char>>)
    ensures
        views(r@) == spec_split(s@, sep),
{
    let mut out: Vec<Vec<char>> = Vec::new();
    let mut cur: Vec<char> = Vec::new();
    let mut i: usize = 0;
    while i < s.len()
        invariant
            i <= s.len(),
            views(out@) + split_acc(s@, sep, i as int, cur@) == spec_split(s@, sep),
        decreases s.len() - i,
    {
        let ghost old_out = out@;
        let c = s[i];
        if c == sep {
            let ghost cv = cur@;
            out.push(cur);
            cur = Vec::new();
            assert(views(out@) =~= views(old_out).push(cv));
            assert(views(out@) + split_acc(s@, sep, i + 1, cur@) =~= views(old_out) + (seq![cv]
                + split_acc(s@, sep, i + 1, seq![])));
        } else {
            cur.push(c);
        }
        i = i + 1;
    }
    let ghost old_out = out@;
    let ghost cv = cur@;
    out.push(cur);
    assert(views(out@) =~= views(old_out).push(cv));
    out
}

/// `str::lines`, collected.
pub fn lines(s: &Vec<char>) -> (r: Vec<Vec<char>>)
    ensures
        views(r@) == spec_lines(s@),
{
    let mut out: Vec<Vec<char>> = Vec::new();
    let mut cur: Vec<char> = Vec::new();
    let mut i: usize = 0;
    while i < s.len()
        invariant
            i <= s.len(),
            views(out@) + lines_acc(s@, i as int, cur@) == spec_lines(s@),
        decreases s.len() - i,
    {
        let ghost old_out = out@;
        let c = s[i];
        if c == '\n' {
            let ghost cv = cur@;
            if cur.len() > 0 && cur[cur.len() - 1] == '\r' {
                cur.pop();
            }
            assert(cur@ == strip_cr(cv));
            out.push(cur);
            cur = Vec::new();
            assert(views(out@) =~= views(old_out).push(strip_cr(cv)));
            assert(views(out@) + lines_acc(s@, i + 1, cur@) =~= views(old_out) + (seq![
                strip_cr(cv),
            ] + lines_acc(s@, i + 1, seq![])));
        } else {
            cur.push(c);
        }
        i = i + 1;
    }
    if cur.len() > 0 {
        let ghost old_out = out@;
        let ghost cv = cur@;
        out.push(cur);
        assert(views(out@) =~= views(old_out).push(cv));
    } else {
        assert(views(out@) + lines_acc(s@, i as int, cur@) =~= views(out@));
    }
    out
}

/// `parts[start..]` joined with `sep`.
pub fn join_from(parts: &Vec<Vec<char>>, start: usize, sep: &Vec<char>) -> (r: Vec<char>)
    requires
        start <= parts.len(),
    ensures
        r@ == spec_join(views(parts@).subrange(start as int, parts.len() as int), sep@),
{
    let mut r: Vec<char> = Vec::new();
    let mut i: usize = start;
    assert(views(parts@).subrange(start as int, start as int) =~= Seq::<Seq<char>>::empty());
    while i < parts.len()
        invariant
            start <= i <= parts.len(),
            r@ == spec_join(views(parts@).subrange(start as int, i as int), sep@),
        decreases parts.len() - i,
    {
        let ghost sub = views(parts@).subrange(start as int, i + 1);
        assert(sub.drop_last() =~= views(parts@).subrange(start as int, i as int));
        if i == start {
            r = parts[i].clone();
            assert(sub.len() == 1);
        } else {
            let t = concat(&r, sep);
            r = concat(&t, &parts[i]);
        }
        i = i + 1;
    }
    r
}

} // verus!

verus! {

/// Number of bytes in the UTF-8 encoding of `c`.
pub open spec fn utf8_len(c: char) -> nat {
    vstd::utf8::encode_scalar(c as u32).len()
}

/// Number of bytes in the UTF-8 encoding of `s` (what `str::len` returns).
pub open spec fn byte_len(s: Seq<char>) -> nat {
    vstd::utf8::encode_utf8(s).len()
}

pub proof fn lemma_encode_concat(a: Seq<char>, b: Seq<char>)
    ensures
        vstd::utf8::encode_utf8(a + b) == vstd::utf8::encode_utf8(a) + vstd::utf8::encode_utf8(b),
    decreases a.len(),
{
    if a.len() == 0 {
        assert(a + b =~= b);
        assert(vstd::utf8::encode_utf8(a) =~= Seq::<u8>::empty());
        assert(Seq::<u8>::empty() + vstd::utf8::encode_utf8(b) =~= vstd::utf8::encode_utf8(b));
    } else {
        assert((a + b).drop_first() =~= a.drop_first() + b);
        lemma_encode_concat(a.drop_first(), b);
        assert((a + b)[0] == a[0]);
        assert(vstd::utf8::encode_utf8(a + b) =~= vstd::utf8::encode_scalar(a[0] as u32)
            + vstd::utf8::encode_utf8(a.drop_first() + b));
    }
}

pub proof fn lemma_byte_len_push(s: Seq<char>, c: char)
    ensures
        byte_len(s.push(c)) == byte_len(s) + utf8_len(c),
{
    lemma_encode_concat(s, seq![c]);
    assert(s.push(c) =~= s + seq![c]);
    assert(seq![c].drop_first() =~= Seq::<char>::empty());
    assert(vstd::utf8::encode_utf8(seq![c]) =~= vstd::utf8::encode_scalar(c as u32)
        + vstd::utf8::encode_utf8(Seq::<char>::empty()));
}

pub proof fn lemma_byte_len_concat(a: Seq<char>, b: Seq<char>)
    ensures
        byte_len(a + b) == byte_len(a) + byte_len(b),
{
    lemma_encode_concat(a, b);
}

/// `char::len_utf8`.
pub fn char_len_utf8(c: char) -> (r: usize)
    ensures
        r == utf8_len(c),
        1 <= r <= 4,
{
    let u = c as u32;
    proof {
        vstd::utf8::char_is_scalar(c);
    }
    if u <= 0x7F {
        1
    } else if u <= 0x7FF {
        2
    } else if u <= 0xFFFF {
        3
    } else {
        4
    }
}

/// Byte length of `s[..n]`, saturating at `usize::MAX`.
pub fn byte_len_prefix(s: &Vec<char>, n: usize) -> (r: usize)
    requires
        n <= s.len(),
    ensures
        byte_len(s@.subrange(0, n as int)) <= usize::MAX ==> r == byte_len(s@.subrange(0, n as int)),
        byte_len(s@.subrange(0, n as int)) > usize::MAX ==> r == usize::MAX,
{
    let mut total: usize = 0;
    let mut i: usize = 0;
    assert(s@.subrange(0, 0) =~= Seq::<char>::empty());
    while i < n
        invariant
            i <= n <= s.len(),
            byte_len(s@.subrange(0, i as int)) <= usize::MAX ==> total == byte_len(
                s@.subrange(0, i as int),
            ),
            byte_len(s@.subrange(0, i as int)) > usize::MAX ==> total == usize::MAX,
        decreases n - i,
    {
        let w = char_len_utf8(s[i]);
        proof {
            assert(s@.subrange(0, i + 1) =~= s@.subrange(0, i as int).push(s@[i as int]));
            lemma_byte_len_push(s@.subrange(0, i as int), s@[i as int]);
        }
        if total > usize::MAX - w {
            total = usize::MAX;
        } else {
            total = total + w;
        }
        i = i + 1;
    }
    total
}

} // verus!

verus! {

/// Lexicographic order by code point, a proper prefix first (the order of `Ord` on `String`,
/// since UTF-8 byte order follows code point order).
pub open spec fn seq_lt(a: Seq<char>, b: Seq<char>) -> bool
    decreases a.len(),
{
    if b.len() == 0 {
        false
    } else if a.len() == 0 {
        true
    } else if a[0] != b[0] {
        (a[0] as u32) < (b[0] as u32)
    } else {
        seq_lt(a.drop_first(), b.drop_first())
    }
}

/// Whether `a` sorts strictly before `b`.
pub fn chars_lt(a: &Vec<char>, b: &Vec<char>) -> (r: bool)
    ensures
        r == seq_lt(a@, b@),
{
    let mut i: usize = 0;
    assert(a@.subrange(0, a.len() as int) =~= a@);
    assert(b@.subrange(0, b.len() as int) =~= b@);
    while i < a.len() && i < b.len() && a[i] == b[i]
        invariant
            i <= a.len(),
            i <= b.len(),
            seq_lt(a@, b@) == seq_lt(a@.subrange(i as int, a.len() as int), b@.subrange(
                i as int,
                b.len() as int,
            )),
        decreases a.len() - i,
    {
        assert(a@.subrange(i as int, a.len() as int).drop_first() =~= a@.subrange(
            i + 1,
            a.len() as int,
        ));
        assert(b@.subrange(i as int, b.len() as int).drop_first() =~= b@.subrange(
            i + 1,
            b.len() as int,
        ));
        i = i + 1;
    }
    if i >= b.len() {
        false
    } else if i >= a.len() {
        true
    } else {
        (a[i] as u32) < (b[i] as u32)
    }
}

/// `x` inserted into `s` before the first element that sorts strictly after it.
pub open spec fn sorted_insert(s: Seq<Seq<char>>, x: Seq<char>) -> Seq<Seq<char>>
    decreases s.len(),
{
    if s.len() == 0 {
        seq![x]
    } else if seq_lt(x, s[0]) {
        seq![x] + s
    } else {
        seq![s[0]] + sorted_insert(s.drop_first(), x)
    }
}

/// Stable insertion sort by `seq_lt`.
pub open spec fn spec_sort(s: Seq<Seq<char>>) -> Seq<Seq<char>>
    decreases s.len(),
{
    if s.len() == 0 {
        seq![]
    } else {
        sorted_insert(spec_sort(s.drop_last()), s.last())
    }
}

/// Consecutive duplicates removed (`Vec::dedup`).
pub open spec fn spec_dedup(s: Seq<Seq<char>>) -> Seq<Seq<char>>
    decreases s.len(),
{
    if s.len() <= 1 {
        s
    } else if s.last() == s[s.len() - 2] {
        spec_dedup(s.drop_last())
    } else {
        spec_dedup(s.drop_last()).push(s.last())
    }
}

proof fn lemma_sorted_insert_at(s: Seq<Seq<char>>, x: Seq<char>, k: int)
    requires
        0 <= k <= s.len(),
        forall|j: int| 0 <= j < k ==> !seq_lt(x, #[trigger] s[j]),
        k < s.len() ==> seq_lt(x, s[k]),
    ensures
        sorted_insert(s, x) == s.subrange(0, k) + seq![x] + s.subrange(k, s.len() as int),
    decreases s.len(),
{
    if s.len() == 0 {
        assert(s.subrange(0, k) + seq![x] + s.subrange(k, s.len() as int) =~= seq![x]);
    } else if k == 0 {
        assert(s.subrange(0, k) + seq![x] + s.subrange(k, s.len() as int) =~= seq![x] + s);
    } else {
        let t = s.drop_first();
        assert forall|j: int| 0 <= j < k - 1 implies !seq_lt(x, #[trigger] t[j]) by {
            assert(t[j] == s[j + 1]);
        }
        lemma_sorted_insert_at(t, x, k - 1);
        assert(s.subrange(0, k) + seq![x] + s.subrange(k, s.len() as int) =~= seq![s[0]] + (
        t.subrange(0, k - 1) + seq![x] + t.subrange(k - 1, t.len() as int)));
    }
}

fn insert_sorted(r: &mut Vec<Vec<char>>, x: Vec<char>)
    ensures
        views(final(r)@) == sorted_insert(views(old(r)@), x@),
{
    let ghost s = views(r@);
    let mut k: usize = 0;
    while k < r.len() && !chars_lt(&x, &r[k])
        invariant
            k <= r.len(),
            s == views(r@),
            forall|j: int| 0 <= j < k ==> !seq_lt(x@, #[trigger] s[j]),
        decreases r.len() - k,
    {
        assert(s[k as int] == r@[k as int]@);
        k = k + 1;
    }
    proof {
        if k < r.len() {
            assert(s[k as int] == r@[k as int]@);
        }
        lemma_sorted_insert_at(s, x@, k as int);
    }
    let ghost xv = x@;
    r.insert(k, x);
    assert(views(r@) =~= s.subrange(0, k as int) + seq![xv] + s.subrange(k as int, s.len() as int));
}

/// Sort by `seq_lt` (as `Vec::sort` on strings).
pub fn sort_chars(v: &Vec<Vec<char>>) -> (r: Vec<Vec<char>>)
    ensures
        views(r@) == spec_sort(views(v@)),
{
    let mut r: Vec<Vec<char>> = Vec::new();
    let mut i: usize = 0;
    assert(views(v@).subrange(0, 0) =~= Seq::<Seq<char>>::empty());
    assert(views(r@) =~= Seq::<Seq<char>>::empty());
    while i < v.len()
        invariant
            i <= v.len(),
            views(r@) == spec_sort(views(v@).subrange(0, i as int)),
        decreases v.len() - i,
    {
        let ghost pre = views(v@).subrange(0, i as int);
        assert(views(v@).subrange(0, i + 1).drop_last() =~= pre);
        assert(views(v@).subrange(0, i + 1).last() == v@[i as int]@);
        insert_sorted(&mut r, v[i].clone());
        i = i + 1;
    }
    assert(views(v@).subrange(0, v.len() as int) =~= views(v@));
    r
}

proof fn lemma_dedup_last(s: Seq<Seq<char>>)
    requires
        s.len() > 0,
    ensures
        spec_dedup(s).len() > 0,
        spec_dedup(s).last() == s.last(),
    decreases s.len(),
{
    if s.len() > 1 {
        lemma_dedup_last(s.drop_last());
    }
}

/// Consecutive duplicates removed (as `Vec::dedup`).
pub fn dedup_chars(v: &Vec<Vec<char>>) -> (r: Vec<Vec<char>>)
    ensures
        views(r@) == spec_dedup(views(v@)),
{
    let mut r: Vec<Vec<char>> = Vec::new();
    let mut i: usize = 0;
    assert(views(v@).subrange(0, 0) =~= Seq::<Seq<char>>::empty());
    assert(views(r@) =~= Seq::<Seq<char>>::empty());
    while i < v.len()
        invariant
            i <= v.len(),
            views(r@) == spec_dedup(views(v@).subrange(0, i as int)),
        decreases v.len() - i,
    {
        let ghost pre = views(v@).subrange(0, i as int);
        let ghost next = views(v@).subrange(0, i + 1);
        assert(next.drop_last() =~= pre);
        assert(next.last() == v@[i as int]@);
        proof {
            if i > 0 {
                lemma_dedup_last(pre);
                assert(next[next.len() - 2] == pre.last());
                assert(views(r@).last() == r@[r.len() - 1]@);
            }
        }
        if r.len() == 0 || !chars_eq(&r[r.len() - 1], &v[i]) {
            let ghost old_r = r@;
            r.push(v[i].clone());
            assert(views(r@) =~= views(old_r).push(v@[i as int]@));
        }
        i = i + 1;
    }
    assert(views(v@).subrange(0, v.len() as int) =~= views(v@));
    r
}

} // verus!

verus! {

/// The character sequences held by a sequence of strings.
pub open spec fn strs(v: Seq<String>) -> Seq<Seq<char>> {
    v.map_values(|s: String| s@)
}

/// The character sequences held by a sequence of string pairs.
pub open spec fn str_pairs(v: Seq<(String, String)>) -> Seq<(Seq<char>, Seq<char>)> {
    v.map_values(|p: (String, String)| (p.0@, p.1@))
}

/// The character sequence held by an optional string.
pub open spec fn opt_view(o: Option<String>) -> Option<Seq<char>> {
    match o {
        Some(s) => Some(s@),
        None => None,
    }
}

/// Strings holding the given character sequences.
pub fn to_strings(v: &Vec<Vec<char>>) -> (r: Vec<String>)
    ensures
        strs(r@) == views(v@),
{
    let mut out: Vec<String> = Vec::new();
    let mut i: usize = 0;
    while i < v.len()
        invariant
            i <= v.len(),
            strs(out@) == views(v@).subrange(0, i as int),
        decreases v.len() - i,
    {
        let ghost before = strs(out@);
        out.push(to_string(&v[i]));
        assert(strs(out@) =~= before.push(v@[i as int]@));
        assert(views(v@).subrange(0, i + 1) =~= views(v@).subrange(0, i as int).push(v@[i as int]@));
        i = i + 1;
    }
    assert(views(v@).subrange(0, v.len() as int) =~= views(v@));
    out
}

/// Character vectors holding the given strings.
pub fn strings_chars(v: &[String]) -> (r: Vec<Vec<char>>)
    ensures
        views(r@) == strs(v@),
{
    let mut out: Vec<Vec<char>> = Vec::new();
    let mut i: usize = 0;
    while i < v.len()
        invariant
            i <= v.len(),
            views(out@) == strs(v@).subrange(0, i as int),
        decreases v.len() - i,
    {
        let ghost before = views(out@);
        out.push(string_chars(&v[i]));
        assert(views(out@) =~= before.push(v@[i as int]@));
        assert(strs(v@).subrange(0, i + 1) =~= strs(v@).subrange(0, i as int).push(v@[i as int]@));
        i = i + 1;
    }
    assert(strs(v@).subrange(0, v.len() as int) =~= strs(v@));
    out
}

} // verus!

verus! {

/// Calls `str::len`, the length of the string in bytes (its UTF-8 encoding).
#[verifier::external_body]
pub(crate) fn str_byte_len(s: &str) -> (r: usize)
    ensures
        r as int == byte_len(s@),
{
    s.len()
}

/// Byte offset of character `i`, i.e. the UTF-8 length of `s[..i]`.
pub fn byte_offset(s: &Vec<char>, i: usize, total: usize) -> (r: usize)
    requires
        i <= s.len(),
        total as int == byte_len(s@),
    ensures
        r as int == byte_len(s@.subrange(0, i as int)),
{
    proof {
        lemma_byte_len_concat(s@.subrange(0, i as int), s@.subrange(i as int, s.len() as int));
        assert(s@.subrange(0, i as int) + s@.subrange(i as int, s.len() as int) =~= s@);
    }
    byte_len_prefix(s, i)
}

} // verus!

verus! {

/// The decimal digit character for `d < 10`.
pub open spec fn digit_char(d: nat) -> char {
    ((48 + d) as u8) as char
}

/// Decimal representation of a natural number, without leading zeros.
pub open spec fn spec_decimal(n: nat) -> Seq<char>
    decreases n,
{
    if n < 10 {
        seq![digit_char(n)]
    } else {
        spec_decimal(n / 10).push(digit_char(n % 10))
    }
}

/// Decimal representation of an integer, with a leading `-` when negative.
pub open spec fn spec_signed_decimal(n: int) -> Seq<char> {
    if n < 0 {
        seq!['-'] + spec_decimal((-n) as nat)
    } else {
        spec_decimal(n as nat)
    }
}

fn digit(d: u64) -> (r: char)
    requires
        d < 10,
    ensures
        r == digit_char(d as nat),
{
    let b: u8 = d as u8;
    (48u8 + b) as char
}

fn decimal_chars(n: u64) -> (r: Vec<char>)
    ensures
        r@ == spec_decimal(n as nat),
    decreases n,
{
    if n < 10 {
        let mut v: Vec<char> = Vec::new();
        v.push(digit(n));
        assert(v@ =~= seq![digit_char(n as nat)]);
        v
    } else {
        let mut v = decimal_chars(n / 10);
        v.push(digit(n % 10));
        v
    }
}

/// `n` written in decimal, as `format!("{n}")` writes it.
pub fn fmt_u64(n: u64) -> (r: String)
    ensures
        r@ == spec_decimal(n as nat),
{
    to_string(&decimal_chars(n))
}

/// `n` written in decimal, as `format!("{n}")` writes it.
pub fn fmt_usize(n: usize) -> (r: String)
    ensures
        r@ == spec_decimal(n as nat),
{
    to_string(&decimal_chars(n as u64))
}

/// `n` written in decimal with its sign, as `format!("{n}")` writes it.
pub fn fmt_i32(n: i32) -> (r: String)
    ensures
        r@ == spec_signed_decimal(n as int),
{
    if n < 0 {
        let m: i64 = n as i64;
        let a: u64 = (-m) as u64;
        let d = decimal_chars(a);
        let mut v: Vec<char> = Vec::new();
        v.push('-');
        let r = concat(&v, &d);
        assert(v@ =~= seq!['-']);
        to_string(&r)
    } else {
        to_string(&decimal_chars(n as u64))
    }
}

/// `a` followed by `b`.
pub fn cat(a: &str, b: &str) -> (r: String)
    ensures
        r@ == a@ + b@,
{
    a.to_owned().concat(b)
}

/// `a`, `b` and `c` in turn.
pub fn cat3(a: &str, b: &str, c: &str) -> (r: String)
    ensures
        r@ == a@ + b@ + c@,
{
    a.to_owned().concat(b).concat(c)
}

} // verus!

verus! {

/// No sequence sorts before itself.
pub proof fn lemma_seq_lt_irreflexive(a: Seq<char>)
    ensures
        !seq_lt(a, a),
    decreases a.len(),
{
    if a.len() > 0 {
        lemma_seq_lt_irreflexive(a.drop_first());
    }
}

/// `seq_lt` is asymmetric.
pub proof fn lemma_seq_lt_asymmetric(a: Seq<char>, b: Seq<char>)
    ensures
        seq_lt(a, b) ==> !seq_lt(b, a),
    decreases a.len(),
{
    if a.len() > 0 && b.len() > 0 && a[0] == b[0] {
        lemma_seq_lt_asymmetric(a.drop_first(), b.drop_first());
    }
}

/// `seq_lt` is transitive.
pub proof fn lemma_seq_lt_transitive(a: Seq<char>, b: Seq<char>, c: Seq<char>)
    ensures
        seq_lt(a, b) && seq_lt(b, c) ==> seq_lt(a, c),
    decreases a.len(),
{
    if a.len() > 0 && b.len() > 0 && c.len() > 0 && a[0] == b[0] && b[0] == c[0] {
        lemma_seq_lt_transitive(a.drop_first(), b.drop_first(), c.drop_first());
    }
}

/// Every element is at most every later one (by `seq_lt`).
pub open spec fn sorted_by_lt(s: Seq<Seq<char>>) -> bool {
    forall|i: int, j: int| 0 <= i < j < s.len() ==> !seq_lt(#[trigger] s[j], #[trigger] s[i])
}

/// Inserting into a sorted sequence keeps it sorted, and adds exactly the inserted element.
pub proof fn lemma_sorted_insert(s: Seq<Seq<char>>, x: Seq<char>)
    requires
        sorted_by_lt(s),
    ensures
        sorted_by_lt(sorted_insert(s, x)),
        forall|y: Seq<char>| #[trigger] sorted_insert(s, x).contains(y) <==> s.contains(y) || y == x,
    decreases s.len(),
{
    let r = sorted_insert(s, x);
    if s.len() == 0 {
        assert forall|y: Seq<char>| #[trigger] r.contains(y) <==> s.contains(y) || y == x by {
            if r.contains(y) {
                let k = choose|k: int| 0 <= k < r.len() && r[k] == y;
            }
            if y == x {
                assert(r[0] == x);
            }
        }
    } else if seq_lt(x, s[0]) {
        assert(r == seq![x] + s);
        assert forall|i: int, j: int| 0 <= i < j < r.len() implies !seq_lt(
            #[trigger] r[j],
            #[trigger] r[i],
        ) by {
            if i == 0 {
                lemma_seq_lt_asymmetric(x, s[0]);
                if j > 1 {
                    assert(!seq_lt(s[j - 1], s[0]));
                    lemma_seq_lt_transitive(s[j - 1], x, s[0]);
                }
            } else {
                assert(r[i] == s[i - 1] && r[j] == s[j - 1]);
            }
        }
        assert forall|y: Seq<char>| #[trigger] r.contains(y) <==> s.contains(y) || y == x by {
            if r.contains(y) {
                let k = choose|k: int| 0 <= k < r.len() && r[k] == y;
                if k > 0 {
                    assert(s[k - 1] == y);
                }
            }
            if s.contains(y) {
                let k = choose|k: int| 0 <= k < s.len() && s[k] == y;
                assert(r[k + 1] == y);
            }
            if y == x {
                assert(r[0] == x);
            }
        }
    } else {
        let t = s.drop_first();
        assert(sorted_by_lt(t)) by {
            assert forall|i: int, j: int| 0 <= i < j < t.len() implies !seq_lt(
                #[trigger] t[j],
                #[trigger] t[i],
            ) by {
                assert(t[i] == s[i + 1] && t[j] == s[j + 1]);
            }
        }
        lemma_sorted_insert(t, x);
        let u = sorted_insert(t, x);
        assert(r == seq![s[0]] + u);
        assert forall|i: int, j: int| 0 <= i < j < r.len() implies !seq_lt(
            #[trigger] r[j],
            #[trigger] r[i],
        ) by {
            if i == 0 {
                let e = r[j];
                assert(u[j - 1] == e);
                assert(u.contains(e));
                if e != x {
                    assert(t.contains(e));
                    let k = choose|k: int| 0 <= k < t.len() && t[k] == e;
                    assert(s[k + 1] == e);
                }
            } else {
                assert(r[i] == u[i - 1] && r[j] == u[j - 1]);
            }
        }
        assert forall|y: Seq<char>| #[trigger] r.contains(y) <==> s.contains(y) || y == x by {
            if r.contains(y) {
                let k = choose|k: int| 0 <= k < r.len() && r[k] == y;
                if k > 0 {
                    assert(u[k - 1] == y);
                    assert(u.contains(y));
                    if t.contains(y) {
                        let k2 = choose|k2: int| 0 <= k2 < t.len() && t[k2] == y;
                        assert(s[k2 + 1] == y);
                    }
                } else {
                    assert(s[0] == y);
                }
            }
            if s.contains(y) {
                let k = choose|k: int| 0 <= k < s.len() && s[k] == y;
                if k == 0 {
                    assert(r[0] == y);
                } else {
                    assert(t[k - 1] == y);
                    assert(t.contains(y));
                    assert(u.contains(y));
                    let k2 = choose|k2: int| 0 <= k2 < u.len() && u[k2] == y;
                    assert(r[k2 + 1] == y);
                }
            }
            if y == x {
                assert(u.contains(x));
                let k2 = choose|k2: int| 0 <= k2 < u.len() && u[k2] == x;
                assert(r[k2 + 1] == x);
            }
        }
    }
}

/// `spec_sort` gives a sorted sequence of the same elements.
pub proof fn lemma_sort_sorted(s: Seq<Seq<char>>)
    ensures
        sorted_by_lt(spec_sort(s)),
        forall|y: Seq<char>| #[trigger] spec_sort(s).contains(y) <==> s.contains(y),
    decreases s.len(),
{
    if s.len() > 0 {
        let p = s.drop_last();
        lemma_sort_sorted(p);
        lemma_sorted_insert(spec_sort(p), s.last());
        assert forall|y: Seq<char>| #[trigger] spec_sort(s).contains(y) <==> s.contains(y) by {
            if p.contains(y) {
                let k = choose|k: int| 0 <= k < p.len() && p[k] == y;
                assert(s[k] == y);
            }
            if s.contains(y) {
                let k = choose|k: int| 0 <= k < s.len() && s[k] == y;
                if k < s.len() - 1 {
                    assert(p[k] == y);
                }
            }
        }
    } else {
        assert forall|y: Seq<char>| #[trigger] spec_sort(s).contains(y) <==> s.contains(y) by {}
    }
}

/// Removing consecutive duplicates keeps the elements and a sorted order.
pub proof fn lemma_dedup_sorted(s: Seq<Seq<char>>)
    ensures
        sorted_by_lt(s) ==> sorted_by_lt(spec_dedup(s)),
        forall|y: Seq<char>| #[trigger] spec_dedup(s).contains(y) <==> s.contains(y),
    decreases s.len(),
{
    if s.len() > 1 {
        let p = s.drop_last();
        lemma_dedup_sorted(p);
        let dp = spec_dedup(p);
        assert(sorted_by_lt(s) ==> sorted_by_lt(p)) by {
            if sorted_by_lt(s) {
                assert forall|i: int, j: int| 0 <= i < j < p.len() implies !seq_lt(
                    #[trigger] p[j],
                    #[trigger] p[i],
                ) by {
                    assert(p[i] == s[i] && p[j] == s[j]);
                }
            }
        }
        assert forall|y: Seq<char>| #[trigger] p.contains(y) ==> s.contains(y) by {
            if p.contains(y) {
                let k = choose|k: int| 0 <= k < p.len() && p[k] == y;
                assert(s[k] == y);
            }
        }
        assert forall|y: Seq<char>| #[trigger] s.contains(y) ==> p.contains(y) || y == s.last() by {
            if s.contains(y) {
                let k = choose|k: int| 0 <= k < s.len() && s[k] == y;
                if k < s.len() - 1 {
                    assert(p[k] == y);
                }
            }
        }
        if s.last() == s[s.len() - 2] {
            assert(p[p.len() - 1] == s.last());
            assert(p.contains(s.last()));
            assert forall|y: Seq<char>| #[trigger] spec_dedup(s).contains(y) <==> s.contains(y) by {
                assert(spec_dedup(s) == dp);
            }
        } else {
            let r = dp.push(s.last());
            assert(spec_dedup(s) == r);
            assert forall|y: Seq<char>| #[trigger] r.contains(y) <==> s.contains(y) by {
                if r.contains(y) {
                    let k = choose|k: int| 0 <= k < r.len() && r[k] == y;
                    if k < dp.len() {
                        assert(dp[k] == y);
                        assert(dp.contains(y));
                    } else {
                        assert(s[s.len() - 1] == y);
                    }
                }
                if s.contains(y) {
                    if y == s.last() {
                        assert(r[dp.len() as int] == y);
                    } else {
                        assert(p.contains(y));
                        assert(dp.contains(y));
                        let k = choose|k: int| 0 <= k < dp.len() && dp[k] == y;
                        assert(r[k] == y);
                    }
                }
            }
            if sorted_by_lt(s) {
                assert forall|i: int, j: int| 0 <= i < j < r.len() implies !seq_lt(
                    #[trigger] r[j],
                    #[trigger] r[i],
                ) by {
                    if j == dp.len() {
                        let e = r[i];
                        assert(dp[i] == e);
                        assert(dp.contains(e));
                        assert(p.contains(e));
                        let k = choose|k: int| 0 <= k < p.len() && p[k] == e;
                        assert(s[k] == e);
                        assert(r[j] == s[s.len() - 1]);
                    } else {
                        assert(r[i] == dp[i] && r[j] == dp[j]);
                    }
                }
            }
        }
    } else {
        assert forall|y: Seq<char>| #[trigger] spec_dedup(s).contains(y) <==> s.contains(y) by {}
        assert(sorted_by_lt(s) ==> sorted_by_lt(spec_dedup(s)));
    }
}

} // verus!
