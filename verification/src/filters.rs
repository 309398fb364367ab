//! Release-string normalization for native RPM and DEB packages, and the
//! marker rewrites that map dev and prerelease versions onto native ordering.

use vstd::prelude::*;

verus! {

use crate::text::{
    chars_of, collect_string, is_digit, push_all, spec_is_alnum, spec_is_digit, spec_trim_matches,
    sub_chars, trim_matches,
};

/// `c` may appear unchanged in an RPM release string.
pub open spec fn spec_rpm_release_allowed(c: char) -> bool {
    spec_is_alnum(c) || c == '.' || c == '+' || c == '~' || c == '_'
}

/// `c` may appear unchanged in a DEB release string.
pub open spec fn spec_deb_release_allowed(c: char) -> bool {
    spec_is_alnum(c) || c == '.' || c == '+' || c == '~'
}

/// Disallowed characters replaced by `.`, under the RPM or the DEB class.
pub open spec fn spec_release_mapped(s: Seq<char>, rpm: bool) -> Seq<char> {
    s.map(
        |_i: int, c: char|
            if (rpm && spec_rpm_release_allowed(c)) || (!rpm && spec_deb_release_allowed(c)) {
                c
            } else {
                '.'
            },
    )
}

/// The normalized release: disallowed characters become `.`, the result is
/// trimmed of `.` at both ends, and an empty result becomes `1`.
pub open spec fn spec_normalize_release(s: Seq<char>, rpm: bool) -> Seq<char> {
    let trimmed = spec_trim_matches(spec_release_mapped(s, rpm), '.');
    if trimmed.len() == 0 {
        seq!['1']
    } else {
        trimmed
    }
}

fn normalize_release_chars(v: &Vec<char>, rpm: bool) -> (r: Vec<char>)
    ensures
        r@ == spec_normalize_release(v@, rpm),
{
    let mut mapped: Vec<char> = Vec::new();
    let mut i: usize = 0;
    while i < v.len()
        invariant
            i <= v@.len(),
            mapped@ == spec_release_mapped(v@, rpm).subrange(0, i as int),
        decreases v@.len() - i,
    {
        let c = v[i];
        let u = c as u32;
        let allowed = if rpm {
            (48 <= u && u <= 57) || (97 <= u && u <= 122) || (65 <= u && u <= 90) || c == '.'
                || c == '+' || c == '~' || c == '_'
        } else {
            (48 <= u && u <= 57) || (97 <= u && u <= 122) || (65 <= u && u <= 90) || c == '.'
                || c == '+' || c == '~'
        };
        if allowed {
            mapped.push(c);
        } else {
            mapped.push('.');
        }
        i = i + 1;
        proof {
            assert(mapped@ =~= spec_release_mapped(v@, rpm).subrange(0, i as int));
        }
    }
    proof {
        assert(mapped@ =~= spec_release_mapped(v@, rpm));
    }
    let trimmed = trim_matches(&mapped, '.');
    if trimmed.len() == 0 {
        let one: Vec<char> = vec!['1'];
        proof {
            assert(one@ =~= seq!['1']);
        }
        one
    } else {
        trimmed
    }
}

/// Normalize a build string for use as an RPM release.
pub fn normalize_rpm_release(build: &str) -> (r: String)
    ensures
        r@ == spec_normalize_release(build@, true),
{
    let chars = chars_of(build);
    let out = normalize_release_chars(&chars, true);
    collect_string(&out)
}

/// Normalize a build string for use as a DEB release.
pub fn normalize_deb_release(build: &str) -> (r: String)
    ensures
        r@ == spec_normalize_release(build@, false),
{
    let chars = chars_of(build);
    let out = normalize_release_chars(&chars, false);
    collect_string(&out)
}

/// `m` occurs in `s` at position `i`.
pub open spec fn spec_match_at(s: Seq<char>, m: Seq<char>, i: int) -> bool {
    &&& 0 <= i
    &&& i + m.len() <= s.len()
    &&& s.subrange(i, i + m.len()) == m
}

/// The character before the occurrence permits a marker: a digit, `.`, `-`,
/// `_`, or the start of the string.
pub open spec fn spec_prev_ok(s: Seq<char>, i: int) -> bool {
    i == 0 || spec_is_digit(s[i - 1]) || s[i - 1] == '.' || s[i - 1] == '-' || s[i - 1] == '_'
}

/// The character after the occurrence permits a marker: a digit or the end of
/// the string.
pub open spec fn spec_next_ok(s: Seq<char>, end: int) -> bool {
    end == s.len() || spec_is_digit(s[end])
}

/// An occurrence of `m` at `i` in `s` whose surroundings permit a marker.
pub open spec fn spec_marker_ok_at(s: Seq<char>, m: Seq<char>, i: int) -> bool {
    spec_match_at(s, m, i) && spec_prev_ok(s, i) && spec_next_ok(s, i + m.len())
}

/// The first occurrence of `m` in `s` at or after `idx`, boundary conditions
/// aside.
pub open spec fn spec_first_occurrence(s: Seq<char>, m: Seq<char>, idx: int) -> Option<int>
    decreases s.len() - idx,
{
    if idx < 0 || m.len() == 0 || idx + m.len() > s.len() {
        None
    } else if spec_match_at(s, m, idx) {
        Some(idx)
    } else {
        spec_first_occurrence(s, m, idx + 1)
    }
}

/// The marker search: scan for occurrences of `m` from `idx` on; accept the
/// first whose surroundings permit a marker; after a rejected occurrence,
/// resume the scan past its end.
pub open spec fn spec_find_marker_from(s: Seq<char>, m: Seq<char>, idx: int) -> Option<(int, int)>
    decreases s.len() - idx,
        via spec_find_marker_from_decreases
{
    match spec_first_occurrence(s, m, idx) {
        None => None,
        Some(j) => if spec_marker_ok_at(s, m, j) {
            Some((j, j + m.len() as int))
        } else {
            spec_find_marker_from(s, m, j + m.len() as int)
        },
    }
}

#[via_fn]
proof fn spec_find_marker_from_decreases(s: Seq<char>, m: Seq<char>, idx: int) {
    match spec_first_occurrence(s, m, idx) {
        None => {},
        Some(j) => {
            lemma_first_occurrence_bounds(s, m, idx);
        },
    }
}

/// The span of the first acceptable marker occurrence, if any.
pub open spec fn spec_find_marker(s: Seq<char>, m: Seq<char>) -> Option<(int, int)> {
    spec_find_marker_from(s, m, 0)
}

pub proof fn lemma_first_occurrence_bounds(s: Seq<char>, m: Seq<char>, idx: int)
    requires
        spec_first_occurrence(s, m, idx) is Some,
    ensures
        m.len() > 0,
        ({
            let j = spec_first_occurrence(s, m, idx)->Some_0;
            &&& idx <= j
            &&& j + m.len() <= s.len()
            &&& spec_match_at(s, m, j)
        }),
    decreases s.len() - idx,
{
    if idx < 0 || m.len() == 0 || idx + m.len() > s.len() {
    } else if spec_match_at(s, m, idx) {
    } else {
        lemma_first_occurrence_bounds(s, m, idx + 1);
    }
}

/// Compare `v` against `m` at position `i`.
fn match_at(v: &Vec<char>, m: &Vec<char>, i: usize) -> (r: bool)
    requires
        i + m@.len() <= v@.len(),
    ensures
        r == spec_match_at(v@, m@, i as int),
{
    let n = v.len();
    let mut k: usize = 0;
    while k < m.len()
        invariant
            k <= m@.len(),
            n == v@.len(),
            i + m@.len() <= v@.len(),
            forall|j: int| 0 <= j < k ==> v@[i + j] == m@[j],
        decreases m@.len() - k,
    {
        if v[i + k] != m[k] {
            proof {
                assert(v@.subrange(i as int, i + m@.len())[k as int] != m@[k as int]);
            }
            return false;
        }
        k = k + 1;
    }
    proof {
        assert(v@.subrange(i as int, i + m@.len()) =~= m@);
    }
    true
}

/// Find the first occurrence of `m` in `v` at or after `idx`.
pub fn first_occurrence(v: &Vec<char>, m: &Vec<char>, idx: usize) -> (r: Option<usize>)
    requires
        m@.len() > 0,
    ensures
        match r {
            Some(j) => spec_first_occurrence(v@, m@, idx as int) == Some(j as int),
            None => spec_first_occurrence(v@, m@, idx as int) is None,
        },
{
    let n = v.len();
    let mlen = m.len();
    if idx > n || mlen > n - idx {
        proof {
            lemma_first_occurrence_none(v@, m@, idx as int);
        }
        return None;
    }
    let limit = n - mlen;
    let mut i: usize = idx;
    while i <= limit
        invariant
            idx <= i <= limit + 1,
            limit == n - mlen,
            mlen > 0,
            n == v@.len(),
            mlen == m@.len(),
            spec_first_occurrence(v@, m@, idx as int) == spec_first_occurrence(v@, m@, i as int),
        decreases limit + 1 - i,
    {
        if match_at(v, m, i) {
            return Some(i);
        }
        i = i + 1;
    }
    None
}

proof fn lemma_first_occurrence_none(s: Seq<char>, m: Seq<char>, idx: int)
    requires
        idx > s.len() || m.len() > s.len() - idx,
    ensures
        spec_first_occurrence(s, m, idx) is None,
    decreases s.len() - idx,
{
    if idx >= 0 && m.len() > 0 && idx + m.len() <= s.len() {
        lemma_first_occurrence_none(s, m, idx + 1);
    }
}

/// Test whether the character before position `i` permits a marker.
fn prev_ok(v: &Vec<char>, i: usize) -> (r: bool)
    requires
        i <= v@.len(),
    ensures
        r == spec_prev_ok(v@, i as int),
{
    if i == 0 {
        true
    } else {
        let c = v[i - 1];
        is_digit(c) || c == '.' || c == '-' || c == '_'
    }
}

/// Test whether the character at position `end` permits a marker.
fn next_ok(v: &Vec<char>, end: usize) -> (r: bool)
    requires
        end <= v@.len(),
    ensures
        r == spec_next_ok(v@, end as int),
{
    if end == v.len() {
        true
    } else {
        is_digit(v[end])
    }
}

/// Search for a marker occurrence of `m` whose surroundings permit it,
/// scanning past rejected occurrences.
pub fn find_marker(v: &Vec<char>, m: &Vec<char>) -> (r: Option<(usize, usize)>)
    requires
        m@.len() > 0,
    ensures
        match r {
            Some(span) => spec_find_marker(v@, m@) == Some((span.0 as int, span.1 as int)),
            None => spec_find_marker(v@, m@) is None,
        },
{
    let n = v.len();
    let mut idx: usize = 0;
    loop
        invariant
            m@.len() > 0,
            n == v@.len(),
            idx >= 0,
            spec_find_marker(v@, m@) == spec_find_marker_from(v@, m@, idx as int),
        decreases v@.len() + m@.len() - idx,
    {
        match first_occurrence(v, m, idx) {
            None => {
                return None;
            },
            Some(j) => {
                proof {
                    lemma_first_occurrence_bounds(v@, m@, idx as int);
                }
                let end = j + m.len();
                if prev_ok(v, j) && next_ok(v, end) {
                    return Some((j, end));
                }
                idx = end;
            },
        }
    }
}

/// `dev` rewritten as `~~dev` at the first acceptable marker occurrence, so
/// that development builds order before releases.
pub open spec fn spec_apply_dev_marker(s: Seq<char>) -> Seq<char> {
    let m = seq!['d', 'e', 'v'];
    match spec_find_marker(s, m) {
        Some(span) => s.subrange(0, span.0) + seq!['~', '~', 'd', 'e', 'v'] + s.subrange(
            span.1,
            s.len() as int,
        ),
        None => s,
    }
}

/// Rewrite `dev` as `~~dev` at the first acceptable occurrence.
pub fn apply_dev_marker(v: &Vec<char>) -> (r: Vec<char>)
    ensures
        r@ == spec_apply_dev_marker(v@),
{
    let m: Vec<char> = vec!['d', 'e', 'v'];
    proof {
        assert(m@ =~= seq!['d', 'e', 'v']);
    }
    match find_marker(v, &m) {
        Some((start, end)) => {
            proof {
                lemma_find_marker_bounds(v@, m@, 0);
            }
            let mut out = sub_chars(v, 0, start);
            let tilde: Vec<char> = vec!['~', '~', 'd', 'e', 'v'];
            push_all(&mut out, &tilde);
            let rest = sub_chars(v, end, v.len());
            push_all(&mut out, &rest);
            proof {
                assert(tilde@ =~= seq!['~', '~', 'd', 'e', 'v']);
                assert(out@ =~= spec_apply_dev_marker(v@));
            }
            out
        },
        None => {
            let mut out: Vec<char> = Vec::new();
            push_all(&mut out, v);
            proof {
                assert(out@ =~= v@);
            }
            out
        },
    }
}

/// The prerelease rewrite applied to a found marker span: a `~` is inserted
/// before the marker, replacing a directly preceding `.`, `-` or `_`.
pub open spec fn spec_prerelease_transform(s: Seq<char>, start: int, end: int) -> Seq<char> {
    let prefix = s.subrange(0, start);
    let prefix2 = if prefix.len() > 0 && (prefix.last() == '.' || prefix.last() == '-'
        || prefix.last() == '_') {
        prefix.drop_last().push('~')
    } else {
        prefix.push('~')
    };
    prefix2 + s.subrange(start, end) + s.subrange(end, s.len() as int)
}

/// The ordered list of prerelease markers that are recognized.
pub open spec fn spec_prerelease_markers() -> Seq<Seq<char>> {
    seq![
        seq!['a', 'l', 'p', 'h', 'a'],
        seq!['b', 'e', 't', 'a'],
        seq!['p', 'r', 'e', 'v', 'i', 'e', 'w'],
        seq!['p', 'r', 'e'],
        seq!['r', 'c'],
        seq!['a'],
        seq!['b'],
    ]
}

/// The first recognized prerelease marker, tried in order, rewritten with a
/// preceding `~`; the input unchanged when none occurs.
pub open spec fn spec_apply_prerelease_from(s: Seq<char>, k: int) -> Seq<char>
    decreases spec_prerelease_markers().len() - k,
{
    if k < 0 || k >= spec_prerelease_markers().len() {
        s
    } else {
        match spec_find_marker(s, spec_prerelease_markers()[k]) {
            Some(span) => spec_prerelease_transform(s, span.0, span.1),
            None => spec_apply_prerelease_from(s, k + 1),
        }
    }
}

/// The prerelease rewrite over the whole marker list.
pub open spec fn spec_apply_prerelease_marker(s: Seq<char>) -> Seq<char> {
    spec_apply_prerelease_from(s, 0)
}

/// Apply the rewrite for one marker when it occurs.
fn try_prerelease_marker(v: &Vec<char>, m: &Vec<char>) -> (r: Option<Vec<char>>)
    requires
        m@.len() > 0,
    ensures
        match r {
            Some(out) => {
                &&& spec_find_marker(v@, m@) is Some
                &&& out@ == spec_prerelease_transform(
                    v@,
                    spec_find_marker(v@, m@)->Some_0.0,
                    spec_find_marker(v@, m@)->Some_0.1,
                )
            },
            None => spec_find_marker(v@, m@) is None,
        },
{
    match find_marker(v, m) {
        Some((start, end)) => {
            proof {
                lemma_find_marker_bounds(v@, m@, 0);
            }
            let mut prefix = sub_chars(v, 0, start);
            let tail_is_sep = if prefix.len() > 0 {
                let last = prefix[prefix.len() - 1];
                last == '.' || last == '-' || last == '_'
            } else {
                false
            };
            if tail_is_sep {
                let ghost before = prefix@;
                prefix.pop();
                proof {
                    assert(prefix@ =~= before.drop_last());
                }
            }
            prefix.push('~');
            let marker_part = sub_chars(v, start, end);
            push_all(&mut prefix, &marker_part);
            let rest = sub_chars(v, end, v.len());
            push_all(&mut prefix, &rest);
            proof {
                assert(prefix@ =~= spec_prerelease_transform(v@, start as int, end as int));
            }
            Some(prefix)
        },
        None => None,
    }
}

/// Rewrite the first recognized prerelease marker with a preceding `~`, so
/// that prereleases order before the corresponding release.
pub fn apply_prerelease_marker(v: &Vec<char>) -> (r: Vec<char>)
    ensures
        r@ == spec_apply_prerelease_marker(v@),
{
    let m0: Vec<char> = vec!['a', 'l', 'p', 'h', 'a'];
    let m1: Vec<char> = vec!['b', 'e', 't', 'a'];
    let m2: Vec<char> = vec!['p', 'r', 'e', 'v', 'i', 'e', 'w'];
    let m3: Vec<char> = vec!['p', 'r', 'e'];
    let m4: Vec<char> = vec!['r', 'c'];
    let m5: Vec<char> = vec!['a'];
    let m6: Vec<char> = vec!['b'];
    proof {
        assert(m0@ =~= spec_prerelease_markers()[0]);
        assert(m1@ =~= spec_prerelease_markers()[1]);
        assert(m2@ =~= spec_prerelease_markers()[2]);
        assert(m3@ =~= spec_prerelease_markers()[3]);
        assert(m4@ =~= spec_prerelease_markers()[4]);
        assert(m5@ =~= spec_prerelease_markers()[5]);
        assert(m6@ =~= spec_prerelease_markers()[6]);
    }
    if let Some(out) = try_prerelease_marker(v, &m0) {
        proof {
            assert(spec_apply_prerelease_from(v@, 0) == out@);
        }
        return out;
    }
    proof {
        assert(spec_apply_prerelease_from(v@, 0) == spec_apply_prerelease_from(v@, 1));
    }
    if let Some(out) = try_prerelease_marker(v, &m1) {
        proof {
            assert(spec_apply_prerelease_from(v@, 1) == out@);
        }
        return out;
    }
    proof {
        assert(spec_apply_prerelease_from(v@, 1) == spec_apply_prerelease_from(v@, 2));
    }
    if let Some(out) = try_prerelease_marker(v, &m2) {
        proof {
            assert(spec_apply_prerelease_from(v@, 2) == out@);
        }
        return out;
    }
    proof {
        assert(spec_apply_prerelease_from(v@, 2) == spec_apply_prerelease_from(v@, 3));
    }
    if let Some(out) = try_prerelease_marker(v, &m3) {
        proof {
            assert(spec_apply_prerelease_from(v@, 3) == out@);
        }
        return out;
    }
    proof {
        assert(spec_apply_prerelease_from(v@, 3) == spec_apply_prerelease_from(v@, 4));
    }
    if let Some(out) = try_prerelease_marker(v, &m4) {
        proof {
            assert(spec_apply_prerelease_from(v@, 4) == out@);
        }
        return out;
    }
    proof {
        assert(spec_apply_prerelease_from(v@, 4) == spec_apply_prerelease_from(v@, 5));
    }
    if let Some(out) = try_prerelease_marker(v, &m5) {
        proof {
            assert(spec_apply_prerelease_from(v@, 5) == out@);
        }
        return out;
    }
    proof {
        assert(spec_apply_prerelease_from(v@, 5) == spec_apply_prerelease_from(v@, 6));
    }
    if let Some(out) = try_prerelease_marker(v, &m6) {
        proof {
            assert(spec_apply_prerelease_from(v@, 6) == out@);
        }
        return out;
    }
    proof {
        assert(spec_apply_prerelease_from(v@, 6) == spec_apply_prerelease_from(v@, 7));
        assert(spec_apply_prerelease_from(v@, 7) == v@);
    }
    let mut out: Vec<char> = Vec::new();
    push_all(&mut out, v);
    proof {
        assert(out@ =~= v@);
    }
    out
}

/// A version string rewritten for native package ordering: the dev rewrite
/// first, then the prerelease rewrite.
pub open spec fn spec_native_version(s: Seq<char>) -> Seq<char> {
    spec_apply_prerelease_marker(spec_apply_dev_marker(s))
}

/// Rewrite a version string for native package ordering.
pub fn native_version(raw: &str) -> (r: String)
    ensures
        r@ == spec_native_version(raw@),
{
    let chars = chars_of(raw);
    let with_dev = apply_dev_marker(&chars);
    let out = apply_prerelease_marker(&with_dev);
    collect_string(&out)
}

proof fn lemma_find_marker_bounds(s: Seq<char>, m: Seq<char>, idx: int)
    requires
        m.len() > 0,
        idx >= 0,
        spec_find_marker_from(s, m, idx) is Some,
    ensures
        ({
            let span = spec_find_marker_from(s, m, idx)->Some_0;
            &&& 0 <= span.0
            &&& span.1 == span.0 + m.len()
            &&& span.1 <= s.len()
        }),
    decreases s.len() - idx,
{
    match spec_first_occurrence(s, m, idx) {
        None => {},
        Some(j) => {
            lemma_first_occurrence_bounds(s, m, idx);
            if spec_marker_ok_at(s, m, j) {
            } else {
                lemma_find_marker_bounds(s, m, j + m.len() as int);
            }
        },
    }
}

} // verus!
