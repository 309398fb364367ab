//! Naming rules: conda package names, native package names, image labels,
//! single-line metadata fields, and the container tag template.

use vstd::prelude::*;

verus! {

use crate::errors::{DistError, ErrorKind};
use crate::filters::spec_first_occurrence;
use crate::text::{
    chars_of, collect_string, is_alnum, is_space, push_all, spec_is_alnum, spec_is_space,
    spec_to_lower, spec_trim_matches, to_lower, trim_matches,
};

/// `c` may appear in a conda package name: a letter, a digit, `-`, `_` or `.`.
pub open spec fn spec_package_name_char(c: char) -> bool {
    spec_is_alnum(c) || c == '-' || c == '_' || c == '.'
}

/// Every character of `s` may appear in a conda package name.
pub open spec fn spec_package_name_valid(s: Seq<char>) -> bool {
    forall|i: int| 0 <= i < s.len() ==> spec_package_name_char(#[trigger] s[i])
}

/// The normalized form of a conda package name: ASCII lowercase.
pub open spec fn spec_normalized_name(s: Seq<char>) -> Seq<char> {
    s.map(|_i: int, c: char| spec_to_lower(c))
}

/// Validate and normalize a conda package name: accepted exactly when every
/// character is a letter, digit, `-`, `_` or `.`; the result is the ASCII
/// lowercase form.
pub fn normalize_package_name(raw: &str) -> (r: Option<String>)
    ensures
        r is Some <==> spec_package_name_valid(raw@),
        r matches Some(n) ==> n@ == spec_normalized_name(raw@),
{
    let chars = chars_of(raw);
    let mut out: Vec<char> = Vec::new();
    let mut i: usize = 0;
    while i < chars.len()
        invariant
            i <= chars@.len(),
            chars@ == raw@,
            out@ == spec_normalized_name(raw@).subrange(0, i as int),
            forall|j: int| 0 <= j < i ==> spec_package_name_char(#[trigger] raw@[j]),
        decreases chars@.len() - i,
    {
        let c = chars[i];
        if !(is_alnum(c) || c == '-' || c == '_' || c == '.') {
            return None;
        }
        out.push(to_lower(c));
        i = i + 1;
        proof {
            assert(out@ =~= spec_normalized_name(raw@).subrange(0, i as int));
        }
    }
    proof {
        assert(out@ =~= spec_normalized_name(raw@));
    }
    Some(collect_string(&out))
}

/// `c` survives native-name sanitizing unchanged (modulo lowercasing).
pub open spec fn spec_native_allowed(c: char) -> bool {
    spec_is_alnum(c) || c == '.' || c == '+' || c == '-'
}

/// One left-to-right pass of native-name sanitizing: allowed characters are
/// kept lowercased, runs of anything else collapse to a single `-`. The
/// second component tells whether the pass ended inside such a run.
pub open spec fn spec_native_fold(s: Seq<char>) -> (Seq<char>, bool)
    decreases s.len(),
{
    if s.len() == 0 {
        (Seq::<char>::empty(), false)
    } else {
        let prev = spec_native_fold(s.drop_last());
        let c = s.last();
        if spec_native_allowed(c) {
            (prev.0.push(spec_to_lower(c)), false)
        } else if prev.1 {
            (prev.0, true)
        } else {
            (prev.0.push('-'), true)
        }
    }
}

/// The sanitized native package name: the collapsing pass, trimmed of `-` at
/// both ends; an empty result becomes `pkg`, and a result that does not start
/// with a letter or digit gains a `pkg-` prefix.
pub open spec fn spec_sanitize_native_name(s: Seq<char>) -> Seq<char> {
    let trimmed = spec_trim_matches(spec_native_fold(s).0, '-');
    let cleaned = if trimmed.len() == 0 {
        seq!['p', 'k', 'g']
    } else {
        trimmed
    };
    if cleaned.len() > 0 && spec_is_alnum(cleaned[0]) {
        cleaned
    } else {
        seq!['p', 'k', 'g', '-'] + cleaned
    }
}

/// Normalize a string into a native package-safe name.
pub fn sanitize_native_name(raw: &str) -> (r: String)
    ensures
        r@ == spec_sanitize_native_name(raw@),
{
    let chars = chars_of(raw);
    let mut out: Vec<char> = Vec::new();
    let mut last_sep = false;
    let mut i: usize = 0;
    while i < chars.len()
        invariant
            i <= chars@.len(),
            chars@ == raw@,
            (out@, last_sep) == spec_native_fold(raw@.subrange(0, i as int)),
        decreases chars@.len() - i,
    {
        let c = chars[i];
        proof {
            assert(raw@.subrange(0, i + 1).drop_last() =~= raw@.subrange(0, i as int));
            assert(raw@.subrange(0, i + 1).last() == raw@[i as int]);
        }
        if is_alnum(c) || c == '.' || c == '+' || c == '-' {
            out.push(to_lower(c));
            last_sep = false;
        } else if !last_sep {
            out.push('-');
            last_sep = true;
        }
        i = i + 1;
    }
    proof {
        assert(raw@.subrange(0, raw@.len() as int) =~= raw@);
    }
    let trimmed = trim_matches(&out, '-');
    let mut cleaned = if trimmed.len() == 0 {
        let pkg: Vec<char> = vec!['p', 'k', 'g'];
        proof {
            assert(pkg@ =~= seq!['p', 'k', 'g']);
        }
        pkg
    } else {
        trimmed
    };
    if !is_alnum(cleaned[0]) {
        let mut prefixed: Vec<char> = vec!['p', 'k', 'g', '-'];
        push_all(&mut prefixed, &cleaned);
        proof {
            assert(prefixed@ =~= seq!['p', 'k', 'g', '-'] + cleaned@);
        }
        cleaned = prefixed;
    }
    collect_string(&cleaned)
}

/// One left-to-right pass of whitespace collapsing: words are kept and joined
/// by single spaces. The second component tells whether the pass ended inside
/// a word.
pub open spec fn spec_line_fold(s: Seq<char>) -> (Seq<char>, bool)
    decreases s.len(),
{
    if s.len() == 0 {
        (Seq::<char>::empty(), false)
    } else {
        let prev = spec_line_fold(s.drop_last());
        let c = s.last();
        if spec_is_space(c) {
            (prev.0, false)
        } else if prev.1 {
            (prev.0.push(c), true)
        } else if prev.0.len() == 0 {
            (prev.0.push(c), true)
        } else {
            (prev.0.push(' ').push(c), true)
        }
    }
}

/// Whitespace-separated words joined by single spaces.
pub open spec fn spec_sanitize_single_line(s: Seq<char>) -> Seq<char> {
    spec_line_fold(s).0
}

/// Collapse all whitespace runs of `raw` into single spaces and trim the ends.
pub fn sanitize_single_line(raw: &str) -> (r: String)
    ensures
        r@ == spec_sanitize_single_line(raw@),
{
    let chars = chars_of(raw);
    let mut out: Vec<char> = Vec::new();
    let mut in_word = false;
    let mut i: usize = 0;
    while i < chars.len()
        invariant
            i <= chars@.len(),
            chars@ == raw@,
            (out@, in_word) == spec_line_fold(raw@.subrange(0, i as int)),
        decreases chars@.len() - i,
    {
        let c = chars[i];
        proof {
            assert(raw@.subrange(0, i + 1).drop_last() =~= raw@.subrange(0, i as int));
            assert(raw@.subrange(0, i + 1).last() == raw@[i as int]);
        }
        if is_space(c) {
            in_word = false;
        } else if in_word {
            out.push(c);
        } else if out.len() == 0 {
            out.push(c);
            in_word = true;
        } else {
            out.push(' ');
            out.push(c);
            in_word = true;
        }
        i = i + 1;
    }
    proof {
        assert(raw@.subrange(0, raw@.len() as int) =~= raw@);
    }
    collect_string(&out)
}

/// One left-to-right pass of image-label sanitizing: letters and digits are
/// kept lowercased, runs of anything else collapse to a single `_`.
pub open spec fn spec_label_fold(s: Seq<char>) -> (Seq<char>, bool)
    decreases s.len(),
{
    if s.len() == 0 {
        (Seq::<char>::empty(), false)
    } else {
        let prev = spec_label_fold(s.drop_last());
        let c = s.last();
        if spec_is_alnum(c) {
            (prev.0.push(spec_to_lower(c)), false)
        } else if prev.1 {
            (prev.0, true)
        } else {
            (prev.0.push('_'), true)
        }
    }
}

/// The sanitized image label: the collapsing pass, trimmed of `_` at both
/// ends; an empty result becomes `image`.
pub open spec fn spec_sanitize_image_label(s: Seq<char>) -> Seq<char> {
    let trimmed = spec_trim_matches(spec_label_fold(s).0, '_');
    if trimmed.len() == 0 {
        seq!['i', 'm', 'a', 'g', 'e']
    } else {
        trimmed
    }
}

/// Normalize a container image reference into a label-safe name.
pub fn sanitize_image_label(image: &str) -> (r: String)
    ensures
        r@ == spec_sanitize_image_label(image@),
{
    let chars = chars_of(image);
    let mut out: Vec<char> = Vec::new();
    let mut last_sep = false;
    let mut i: usize = 0;
    while i < chars.len()
        invariant
            i <= chars@.len(),
            chars@ == image@,
            (out@, last_sep) == spec_label_fold(image@.subrange(0, i as int)),
        decreases chars@.len() - i,
    {
        let c = chars[i];
        proof {
            assert(image@.subrange(0, i + 1).drop_last() =~= image@.subrange(0, i as int));
            assert(image@.subrange(0, i + 1).last() == image@[i as int]);
        }
        if is_alnum(c) {
            out.push(to_lower(c));
            last_sep = false;
        } else if !last_sep {
            out.push('_');
            last_sep = true;
        }
        i = i + 1;
    }
    proof {
        assert(image@.subrange(0, image@.len() as int) =~= image@);
    }
    let trimmed = trim_matches(&out, '_');
    if trimmed.len() == 0 {
        let fallback: Vec<char> = vec!['i', 'm', 'a', 'g', 'e'];
        proof {
            assert(fallback@ =~= seq!['i', 'm', 'a', 'g', 'e']);
        }
        collect_string(&fallback)
    } else {
        collect_string(&trimmed)
    }
}

/// The native package name of a dependency package: the environment name, a
/// dash, and the sanitized source name.
pub open spec fn spec_split_package_name(env: Seq<char>, source: Seq<char>) -> Seq<char> {
    env + seq!['-'] + spec_sanitize_native_name(source)
}

/// Build the native package name for a dependency package.
pub fn split_package_name(env_name: &str, source_name: &str) -> (r: String)
    ensures
        r@ == spec_split_package_name(env_name@, source_name@),
{
    let mut out = chars_of(env_name);
    out.push('-');
    let sanitized = sanitize_native_name(source_name);
    let tail = chars_of(sanitized.as_str());
    push_all(&mut out, &tail);
    proof {
        assert(out@ =~= spec_split_package_name(env_name@, source_name@));
    }
    collect_string(&out)
}

/// Leading and trailing ASCII whitespace removed.
pub open spec fn spec_trim_front_ws(s: Seq<char>) -> Seq<char>
    decreases s.len(),
{
    if s.len() > 0 && spec_is_space(s[0]) {
        spec_trim_front_ws(s.drop_first())
    } else {
        s
    }
}

/// Trailing ASCII whitespace removed.
pub open spec fn spec_trim_back_ws(s: Seq<char>) -> Seq<char>
    decreases s.len(),
{
    if s.len() > 0 && spec_is_space(s.last()) {
        spec_trim_back_ws(s.drop_last())
    } else {
        s
    }
}

/// ASCII whitespace removed from both ends.
pub open spec fn spec_trim_ws(s: Seq<char>) -> Seq<char> {
    spec_trim_back_ws(spec_trim_front_ws(s))
}

proof fn lemma_trim_front_ws_subrange(s: Seq<char>, k: int)
    requires
        0 <= k <= s.len(),
        forall|j: int| 0 <= j < k ==> spec_is_space(#[trigger] s[j]),
        k < s.len() ==> !spec_is_space(s[k]),
    ensures
        spec_trim_front_ws(s) == s.subrange(k, s.len() as int),
    decreases k,
{
    if k == 0 {
        assert(s.subrange(0, s.len() as int) =~= s);
    } else {
        let t = s.drop_first();
        assert(forall|j: int| 0 <= j < k - 1 ==> spec_is_space(#[trigger] t[j]));
        lemma_trim_front_ws_subrange(t, k - 1);
        assert(t.subrange(k - 1, t.len() as int) =~= s.subrange(k, s.len() as int));
    }
}

proof fn lemma_trim_back_ws_subrange(s: Seq<char>, k: int)
    requires
        0 <= k <= s.len(),
        forall|j: int| k <= j < s.len() ==> spec_is_space(#[trigger] s[j]),
        k > 0 ==> !spec_is_space(s[k - 1]),
    ensures
        spec_trim_back_ws(s) == s.subrange(0, k),
    decreases s.len() - k,
{
    if k == s.len() {
        assert(s.subrange(0, s.len() as int) =~= s);
    } else {
        let t = s.drop_last();
        assert(forall|j: int| k <= j < t.len() ==> spec_is_space(#[trigger] t[j]));
        lemma_trim_back_ws_subrange(t, k);
        assert(t.subrange(0, k) =~= s.subrange(0, k));
    }
}

/// Remove ASCII whitespace from both ends of `v`.
pub fn trim_ws(v: &Vec<char>) -> (r: Vec<char>)
    ensures
        r@ == spec_trim_ws(v@),
{
    let n = v.len();
    let mut start: usize = 0;
    while start < n && is_space(v[start])
        invariant
            start <= n,
            n == v@.len(),
            forall|j: int| 0 <= j < start ==> spec_is_space(#[trigger] v@[j]),
        decreases n - start,
    {
        start = start + 1;
    }
    proof {
        lemma_trim_front_ws_subrange(v@, start as int);
    }
    let ghost front = v@.subrange(start as int, n as int);
    let mut end: usize = n;
    while end > start && is_space(v[end - 1])
        invariant
            start <= end <= n,
            n == v@.len(),
            forall|j: int| end <= j < n ==> spec_is_space(#[trigger] v@[j]),
        decreases end,
    {
        end = end - 1;
    }
    proof {
        assert(forall|j: int|
            end - start <= j < front.len() ==> spec_is_space(#[trigger] front[j]));
        lemma_trim_back_ws_subrange(front, end - start);
    }
    let mut out: Vec<char> = Vec::new();
    let mut i: usize = start;
    while i < end
        invariant
            start <= i <= end <= n,
            n == v@.len(),
            out@ == v@.subrange(start as int, i as int),
        decreases end - i,
    {
        out.push(v[i]);
        i = i + 1;
        proof {
            assert(out@ =~= v@.subrange(start as int, i as int));
        }
    }
    proof {
        assert(out@ =~= front.subrange(0, end - start));
    }
    out
}

/// The author string formatted for package metadata: whitespace collapsed.
pub fn package_author(author: &str) -> (r: String)
    ensures
        r@ == spec_sanitize_single_line(author@),
{
    sanitize_single_line(author)
}

/// Some character of `s` is ASCII whitespace.
pub open spec fn spec_has_ws(s: Seq<char>) -> bool {
    exists|i: int| 0 <= i < s.len() && spec_is_space(s[i])
}

/// Some character of `s` equals `c`.
pub open spec fn spec_has_char(s: Seq<char>, c: char) -> bool {
    exists|i: int| 0 <= i < s.len() && s[i] == c
}

fn has_ws(v: &Vec<char>) -> (r: bool)
    ensures
        r == spec_has_ws(v@),
{
    let mut i: usize = 0;
    while i < v.len()
        invariant
            i <= v@.len(),
            forall|j: int| 0 <= j < i ==> !spec_is_space(#[trigger] v@[j]),
        decreases v@.len() - i,
    {
        if is_space(v[i]) {
            return true;
        }
        i = i + 1;
    }
    false
}

fn has_char(v: &Vec<char>, c: char) -> (r: bool)
    ensures
        r == spec_has_char(v@, c),
{
    let mut i: usize = 0;
    while i < v.len()
        invariant
            i <= v@.len(),
            forall|j: int| 0 <= j < i ==> v@[j] != c,
        decreases v@.len() - i,
    {
        if v[i] == c {
            return true;
        }
        i = i + 1;
    }
    false
}

/// The tag template with `{name}` and `{version}` substituted.
pub open spec fn spec_rendered_tag(name: Seq<char>, version: Seq<char>, template: Seq<char>) -> Seq<
    char,
> {
    spec_replace(
        spec_replace(
            spec_trim_ws(template),
            seq!['{', 'n', 'a', 'm', 'e', '}'],
            name,
        ),
        seq!['{', 'v', 'e', 'r', 's', 'i', 'o', 'n', '}'],
        version,
    )
}

/// The container image tag derived from the manifest, when every check
/// passes: the trimmed version is non-empty and has no inner whitespace, the
/// trimmed template is non-empty, the rendered tag has no stray braces, and
/// the trimmed tag is non-empty and whitespace-free.
pub open spec fn spec_derive_image_tag(
    name: Seq<char>,
    version: Seq<char>,
    template: Seq<char>,
) -> Option<Seq<char>> {
    let v = spec_trim_ws(version);
    let t = spec_trim_ws(template);
    let rendered = spec_rendered_tag(name, v, template);
    let tag = spec_trim_ws(rendered);
    if v.len() == 0 || spec_has_ws(v) {
        None
    } else if t.len() == 0 {
        None
    } else if spec_has_char(rendered, '{') || spec_has_char(rendered, '}') {
        None
    } else if tag.len() == 0 || spec_has_ws(tag) {
        None
    } else {
        Some(tag)
    }
}

/// Render the container image tag from the manifest name, version and tag
/// template; reject empty or whitespace-ridden results and leftover
/// placeholders.
pub fn derive_image_tag(name: &str, version: &str, template: &str) -> (r: Result<
    String,
    DistError,
>)
    ensures
        r is Ok <==> spec_derive_image_tag(name@, version@, template@) is Some,
        r matches Ok(tag) ==> Some(tag@) == spec_derive_image_tag(name@, version@, template@),
        r matches Err(e) ==> e.kind == ErrorKind::ManifestInvalid,
{
    let version_chars = chars_of(version);
    let v = trim_ws(&version_chars);
    if v.len() == 0 {
        return Err(DistError::new(
            ErrorKind::ManifestInvalid,
            String::from_str("manifest 'version' field cannot be empty for container builds"),
        ));
    }
    if has_ws(&v) {
        return Err(DistError::new(
            ErrorKind::ManifestInvalid,
            String::from_str("manifest 'version' field must not contain whitespace"),
        ));
    }
    let template_chars = chars_of(template);
    let t = trim_ws(&template_chars);
    if t.len() == 0 {
        return Err(DistError::new(
            ErrorKind::ManifestInvalid,
            String::from_str("container 'tag_template' must not be empty"),
        ));
    }
    let name_pat: Vec<char> = vec!['{', 'n', 'a', 'm', 'e', '}'];
    let version_pat: Vec<char> = vec!['{', 'v', 'e', 'r', 's', 'i', 'o', 'n', '}'];
    proof {
        assert(name_pat@ =~= seq!['{', 'n', 'a', 'm', 'e', '}']);
        assert(version_pat@ =~= seq!['{', 'v', 'e', 'r', 's', 'i', 'o', 'n', '}']);
    }
    let name_chars = chars_of(name);
    let step1 = replace_all(&t, &name_pat, &name_chars);
    let rendered = replace_all(&step1, &version_pat, &v);
    if has_char(&rendered, '{') || has_char(&rendered, '}') {
        return Err(DistError::new(
            ErrorKind::ManifestInvalid,
            String::from_str("container tag template contains unsupported placeholders"),
        ));
    }
    let tag = trim_ws(&rendered);
    if tag.len() == 0 {
        return Err(DistError::new(
            ErrorKind::ManifestInvalid,
            String::from_str("container tag template resolved to an empty tag"),
        ));
    }
    if has_ws(&tag) {
        return Err(DistError::new(
            ErrorKind::ManifestInvalid,
            String::from_str("container tag must not contain whitespace"),
        ));
    }
    Ok(collect_string(&tag))
}

/// Non-overlapping occurrences of `pat` replaced by `rep`, left to right.
pub open spec fn spec_replace(s: Seq<char>, pat: Seq<char>, rep: Seq<char>) -> Seq<char>
    decreases s.len(),
        via spec_replace_decreases
{
    match spec_first_occurrence(s, pat, 0) {
        None => s,
        Some(j) => s.subrange(0, j) + rep + spec_replace(
            s.subrange(j + pat.len(), s.len() as int),
            pat,
            rep,
        ),
    }
}

#[via_fn]
proof fn spec_replace_decreases(s: Seq<char>, pat: Seq<char>, rep: Seq<char>) {
    match spec_first_occurrence(s, pat, 0) {
        None => {},
        Some(j) => {
            crate::filters::lemma_first_occurrence_bounds(s, pat, 0);
        },
    }
}

/// Replace every non-overlapping occurrence of `pat` in `v` by `rep`.
pub fn replace_all(v: &Vec<char>, pat: &Vec<char>, rep: &Vec<char>) -> (r: Vec<char>)
    requires
        pat@.len() > 0,
    ensures
        r@ == spec_replace(v@, pat@, rep@),
    decreases v@.len(),
{
    let n = v.len();
    match crate::filters::first_occurrence(v, pat, 0) {
        None => {
            let mut out: Vec<char> = Vec::new();
            push_all(&mut out, v);
            proof {
                assert(out@ =~= v@);
            }
            out
        },
        Some(j) => {
            proof {
                crate::filters::lemma_first_occurrence_bounds(v@, pat@, 0);
            }
            let mut out = crate::text::sub_chars(v, 0, j);
            push_all(&mut out, rep);
            let rest_start = j + pat.len();
            let rest = crate::text::sub_chars(v, rest_start, v.len());
            let rest_replaced = replace_all(&rest, pat, rep);
            push_all(&mut out, &rest_replaced);
            proof {
                assert(out@ =~= spec_replace(v@, pat@, rep@));
            }
            out
        },
    }
}

} // verus!
