//! Trusted declarations over the conda type library: dependency-spec parsing
//! and record matching. Each contract names what the outside call returns as
//! a function of its string arguments alone; everything that reasons about
//! matching goes through these names.

use vstd::prelude::*;

use std::str::FromStr;

verus! {

/// Whether a conda version string parses.
pub uninterp spec fn version_parses(v: Seq<char>) -> bool;

/// Whether a match-spec string parses, under strict or lenient parsing.
/// One caveat: for a spec naming a relative path channel the parser resolves
/// the path against the process's working directory, so parse success can
/// differ only in the degenerate state where that directory is unavailable;
/// for every other input the result is a function of the string and the
/// strictness alone.
pub uninterp spec fn match_spec_parses(strict: bool, s: Seq<char>) -> bool;

/// The exact normalized package name of a parsed match-spec string, when its
/// name part is a literal name.
pub uninterp spec fn match_spec_name(strict: bool, s: Seq<char>) -> Option<Seq<char>>;

/// Whether the parsed match-spec accepts a record with the given normalized
/// name, version, build string and subdir. The record judged carries exactly
/// these fields — other record fields a spec could constrain (build number,
/// digests, license) sit at their defaults, following the record model the
/// pipeline works with.
pub uninterp spec fn match_spec_accepts(
    strict: bool,
    s: Seq<char>,
    name: Seq<char>,
    version: Seq<char>,
    build: Seq<char>,
    subdir: Seq<char>,
) -> bool;

/// Relies on `rattler_conda_types::VersionWithSource::from_str`: whether a
/// version string parses depends on the string alone.
#[verifier::external_body]
pub fn version_ok(v: &str) -> (r: bool)
    ensures
        r == version_parses(v@),
{
    rattler_conda_types::VersionWithSource::from_str(v).is_ok()
}

/// Relies on `rattler_conda_types::MatchSpec::from_str`: whether the string
/// parses, and the literal package name of the parsed spec, depend on the
/// string and the strictness alone (see the caveat on `match_spec_parses`
/// about relative path channels). `Err` reports a parse failure; `Ok(None)`
/// a spec whose name part is not a literal name.
#[verifier::external_body]
pub fn parse_match_spec_name(s: &str, strict: bool) -> (r: Result<Option<String>, ()>)
    ensures
        r is Ok <==> match_spec_parses(strict, s@),
        r matches Ok(n) ==> (match n {
            Some(nm) => match_spec_name(strict, s@) == Some(nm@),
            None => match_spec_name(strict, s@) is None,
        }),
{
    let strictness = if strict {
        rattler_conda_types::ParseStrictness::Strict
    } else {
        rattler_conda_types::ParseStrictness::Lenient
    };
    match rattler_conda_types::MatchSpec::from_str(s, strictness) {
        Ok(spec) => Ok(spec.name.as_exact().map(|n| n.as_normalized().to_string())),
        Err(_) => Err(()),
    }
}

/// Relies on `rattler_conda_types::MatchSpec::from_str` and
/// `Matches<PackageRecord>::matches`: whether the spec accepts a record is a
/// function of the spec string, the strictness, and the record's name,
/// version, build and subdir.
#[verifier::external_body]
pub fn match_spec_check(
    s: &str,
    strict: bool,
    name: &str,
    version: &str,
    build: &str,
    subdir: &str,
) -> (r: bool)
    requires
        match_spec_parses(strict, s@),
        version_parses(version@),
    ensures
        r == match_spec_accepts(strict, s@, name@, version@, build@, subdir@),
{
    let strictness = if strict {
        rattler_conda_types::ParseStrictness::Strict
    } else {
        rattler_conda_types::ParseStrictness::Lenient
    };
    let Ok(spec) = rattler_conda_types::MatchSpec::from_str(s, strictness) else {
        return false;
    };
    let Ok(version) = rattler_conda_types::VersionWithSource::from_str(version) else {
        return false;
    };
    let pkg_name = rattler_conda_types::PackageName::new_unchecked(name);
    let mut record = rattler_conda_types::PackageRecord::new(pkg_name, version, build.to_string());
    record.subdir = subdir.to_string();
    rattler_conda_types::Matches::matches(&spec, &record)
}

} // verus!
