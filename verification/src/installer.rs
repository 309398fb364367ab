//! Installer assembly decisions: which platforms get an installer, where
//! the files go, which embedded launcher serves a platform, and the name of
//! each emitted image.

use vstd::prelude::*;

verus! {

use crate::errors::{DistError, ErrorKind};
use crate::names::{spec_normalized_name, spec_trim_ws, trim_ws};
use crate::platform::{spec_platform_name, Platform};
use crate::text::{chars_of, collect_string, push_all, to_lower};

/// Which installer platforms a run builds.
#[derive(Clone, Copy, Debug, PartialEq, Eq, Structural)]
pub enum InstallerPlatformSelection {
    /// Every non-noarch platform of the manifest.
    All,
    /// The platform the producer runs on.
    Host,
    /// One named platform.
    Specific(Platform),
}

/// The parse of a selection string: `all` and `host` (after trimming and
/// lowercasing) are the named modes; anything else must be a platform name.
pub open spec fn spec_selection_of(s: Seq<char>) -> Option<InstallerPlatformSelection> {
    let t = spec_trim_ws(s);
    if spec_normalized_name(t) == "all"@ {
        Some(InstallerPlatformSelection::All)
    } else if spec_normalized_name(t) == "host"@ {
        Some(InstallerPlatformSelection::Host)
    } else {
        match crate::platform::spec_platform_of(t) {
            Some(p) => Some(InstallerPlatformSelection::Specific(p)),
            None => None,
        }
    }
}

/// Parse an installer platform selection.
pub fn parse_selection(s: &String) -> (r: Option<InstallerPlatformSelection>)
    ensures
        r == spec_selection_of(s@),
{
    let chars = chars_of(s.as_str());
    let t = trim_ws(&chars);
    let mut lower: Vec<char> = Vec::new();
    let mut i: usize = 0;
    while i < t.len()
        invariant
            i <= t@.len(),
            lower@ == spec_normalized_name(t@).subrange(0, i as int),
        decreases t@.len() - i,
    {
        lower.push(to_lower(t[i]));
        i = i + 1;
        proof {
            assert(lower@ =~= spec_normalized_name(t@).subrange(0, i as int));
        }
    }
    proof {
        assert(lower@ =~= spec_normalized_name(t@));
    }
    let all_lit: Vec<char> = vec!['a', 'l', 'l'];
    let host_lit: Vec<char> = vec!['h', 'o', 's', 't'];
    proof {
        reveal_strlit("all");
        reveal_strlit("host");
        assert(all_lit@ =~= "all"@);
        assert(host_lit@ =~= "host"@);
    }
    if crate::platform::eq_chars(&lower, &all_lit) {
        return Some(InstallerPlatformSelection::All);
    }
    if crate::platform::eq_chars(&lower, &host_lit) {
        return Some(InstallerPlatformSelection::Host);
    }
    let trimmed = collect_string(&t);
    match Platform::from_str(trimmed.as_str()) {
        Some(p) => Some(InstallerPlatformSelection::Specific(p)),
        None => None,
    }
}

/// The manifest's non-noarch platforms, first occurrence kept.
pub open spec fn spec_ordered_unique(ps: Seq<Platform>) -> Seq<Platform>
    decreases ps.len(),
{
    if ps.len() == 0 {
        Seq::<Platform>::empty()
    } else {
        let prev = spec_ordered_unique(ps.drop_last());
        let p = ps.last();
        if p == Platform::NoArch || prev.contains(p) {
            prev
        } else {
            prev.push(p)
        }
    }
}

/// The platforms selected for installer builds: under `All` every unique
/// non-noarch manifest platform (at least one required); under `Host` the
/// host platform, which must be listed; under a specific platform that
/// platform, which must be listed and must not be noarch.
pub open spec fn spec_selected_platforms(
    selection: InstallerPlatformSelection,
    manifest: Seq<Platform>,
    host: Platform,
) -> Option<Seq<Platform>> {
    let unique = spec_ordered_unique(manifest);
    match selection {
        InstallerPlatformSelection::All => if unique.len() > 0 {
            Some(unique)
        } else {
            None
        },
        InstallerPlatformSelection::Host => if unique.contains(host) {
            Some(seq![host])
        } else {
            None
        },
        InstallerPlatformSelection::Specific(p) => if p != Platform::NoArch && manifest.contains(p) {
            Some(seq![p])
        } else {
            None
        },
    }
}

fn platform_in(ps: &Vec<Platform>, p: Platform) -> (r: bool)
    ensures
        r == ps@.contains(p),
{
    let mut i: usize = 0;
    while i < ps.len()
        invariant
            i <= ps@.len(),
            forall|j: int| 0 <= j < i ==> ps@[j] != p,
        decreases ps@.len() - i,
    {
        if ps[i] == p {
            proof {
                assert(ps@[i as int] == p);
            }
            return true;
        }
        i = i + 1;
    }
    false
}

/// Resolve the installer platform selection against the manifest platforms.
#[verifier::loop_isolation(false)]
pub fn resolve_installer_platforms(
    selection: InstallerPlatformSelection,
    manifest_platforms: &Vec<Platform>,
    host: Platform,
) -> (r: Result<Vec<Platform>, DistError>)
    ensures
        r is Ok <==> spec_selected_platforms(selection, manifest_platforms@, host) is Some,
        r matches Ok(ps) ==> Some(ps@) == spec_selected_platforms(
            selection,
            manifest_platforms@,
            host,
        ),
        r matches Err(e) ==> e.kind == ErrorKind::ManifestInvalid,
{
    let mut unique: Vec<Platform> = Vec::new();
    let mut i: usize = 0;
    while i < manifest_platforms.len()
        invariant
            i <= manifest_platforms@.len(),
            unique@ == spec_ordered_unique(manifest_platforms@.subrange(0, i as int)),
        decreases manifest_platforms@.len() - i,
    {
        let p = manifest_platforms[i];
        let skip = matches!(p, Platform::NoArch) || platform_in(&unique, p);
        if !skip {
            unique.push(p);
        }
        i = i + 1;
        proof {
            let cur = manifest_platforms@.subrange(0, i as int);
            assert(cur.drop_last() =~= manifest_platforms@.subrange(0, i - 1));
            assert(cur.last() == manifest_platforms@[i - 1]);
            assert(unique@ =~= spec_ordered_unique(cur));
        }
    }
    proof {
        assert(manifest_platforms@.subrange(0, manifest_platforms@.len() as int)
            =~= manifest_platforms@);
    }
    match selection {
        InstallerPlatformSelection::All => {
            if unique.len() == 0 {
                return Err(DistError::new(
                    ErrorKind::ManifestInvalid,
                    String::from_str("no non-noarch platforms available to build installers for"),
                ));
            }
            Ok(unique)
        },
        InstallerPlatformSelection::Host => {
            if platform_in(&unique, host) {
                let mut out: Vec<Platform> = Vec::new();
                out.push(host);
                proof {
                    assert(out@ =~= seq![host]);
                }
                Ok(out)
            } else {
                Err(DistError::new(
                    ErrorKind::ManifestInvalid,
                    String::from_str("the host platform is not listed in the manifest platforms"),
                ))
            }
        },
        InstallerPlatformSelection::Specific(p) => {
            if matches!(p, Platform::NoArch) {
                return Err(DistError::new(
                    ErrorKind::ManifestInvalid,
                    String::from_str("cannot build an installer for the noarch platform"),
                ));
            }
            if platform_in(manifest_platforms, p) {
                let mut out: Vec<Platform> = Vec::new();
                out.push(p);
                proof {
                    assert(out@ =~= seq![p]);
                }
                Ok(out)
            } else {
                Err(DistError::new(
                    ErrorKind::ManifestInvalid,
                    String::from_str(
                        "the selected platform is not listed in the manifest platforms",
                    ),
                ))
            }
        },
    }
}

/// The output directory and file-name prefix for installer images: an
/// existing directory takes the environment name as prefix; otherwise the
/// path's parent directory (or `.`) is used and its final component is the
/// prefix, falling back to the environment name when that component is
/// empty.
pub open spec fn spec_output_spec(
    requested: Seq<char>,
    is_dir: bool,
    env_name: Seq<char>,
) -> (Seq<char>, Seq<char>) {
    if is_dir {
        (requested, env_name)
    } else {
        let comp = crate::workspace::spec_component_start(requested);
        let file_name = requested.subrange(comp, requested.len() as int);
        let parent = if comp == 0 {
            "."@
        } else {
            requested.subrange(0, comp - 1)
        };
        let parent2 = if parent.len() == 0 {
            "."@
        } else {
            parent
        };
        if file_name.len() == 0 {
            (parent2, env_name)
        } else {
            (parent2, file_name)
        }
    }
}

/// Split the requested output path into the output directory and the image
/// name prefix. Whether the path is an existing directory is observed by the
/// caller.
#[verifier::loop_isolation(false)]
pub fn installer_output_spec(requested: &String, is_dir: bool, env_name: &String) -> (r: (
    String,
    String,
))
    ensures
        r.0@ == spec_output_spec(requested@, is_dir, env_name@).0,
        r.1@ == spec_output_spec(requested@, is_dir, env_name@).1,
{
    if is_dir {
        return (requested.clone(), env_name.clone());
    }
    let chars = chars_of(requested.as_str());
    let n = chars.len();
    let mut comp: usize = 0;
    let mut i: usize = 0;
    while i < n
        invariant
            i <= n,
            n == chars@.len(),
            chars@ == requested@,
            comp == crate::workspace::spec_component_start(chars@.subrange(0, i as int)),
            comp <= i,
        decreases n - i,
    {
        proof {
            assert(chars@.subrange(0, i + 1).drop_last() =~= chars@.subrange(0, i as int));
            assert(chars@.subrange(0, i + 1).last() == chars@[i as int]);
        }
        if chars[i] == '/' {
            comp = i + 1;
        }
        i = i + 1;
    }
    proof {
        assert(chars@.subrange(0, n as int) =~= chars@);
    }
    let file_name = crate::text::sub_chars(&chars, comp, n);
    let parent = if comp == 0 {
        let dotv: Vec<char> = vec!['.'];
        proof {
            reveal_strlit(".");
            assert(dotv@ =~= "."@);
        }
        dotv
    } else {
        crate::text::sub_chars(&chars, 0, comp - 1)
    };
    let parent2 = if parent.len() == 0 {
        let dotv: Vec<char> = vec!['.'];
        proof {
            reveal_strlit(".");
            assert(dotv@ =~= "."@);
        }
        dotv
    } else {
        parent
    };
    if file_name.len() == 0 {
        (collect_string(&parent2), env_name.clone())
    } else {
        (collect_string(&parent2), collect_string(&file_name))
    }
}

/// The file name of an emitted installer image: the prefix, a dash, and the
/// platform name.
pub open spec fn spec_installer_file_name(prefix: Seq<char>, p: Platform) -> Seq<char> {
    prefix + seq!['-'] + spec_platform_name(p)
}

/// Name one installer image.
pub fn installer_file_name(prefix: &String, p: Platform) -> (r: String)
    ensures
        r@ == spec_installer_file_name(prefix@, p),
{
    let mut out = chars_of(prefix.as_str());
    out.push('-');
    let name = chars_of(p.as_str());
    push_all(&mut out, &name);
    proof {
        assert(out@ =~= spec_installer_file_name(prefix@, p));
    }
    collect_string(&out)
}

/// The launcher bytes embedded for a platform: the first table entry whose
/// name is the platform's subdir name.
pub open spec fn spec_launcher_for(
    table: Seq<(String, Vec<u8>)>,
    p: Platform,
) -> Option<int>
    decreases table.len(),
{
    if table.len() == 0 {
        None
    } else if table[0].0@ == spec_platform_name(p) {
        Some(0)
    } else {
        match spec_launcher_for(table.drop_first(), p) {
            Some(i) => Some(i + 1),
            None => None,
        }
    }
}

/// Look up the embedded launcher for a platform in the injected asset table.
#[verifier::loop_isolation(false)]
pub fn launcher_for_platform<'a>(table: &'a Vec<(String, Vec<u8>)>, p: Platform) -> (r: Option<
    &'a Vec<u8>,
>)
    ensures
        r is Some <==> spec_launcher_for(table@, p) is Some,
        r matches Some(bytes) ==> spec_launcher_for(table@, p) matches Some(i) && 0 <= i
            < table@.len() && bytes@ == table@[i].1@,
{
    let key = p.as_str();
    let mut i: usize = 0;
    while i < table.len()
        invariant
            i <= table@.len(),
            forall|j: int| 0 <= j < i ==> (#[trigger] table@[j]).0@ != spec_platform_name(p),
        decreases table@.len() - i,
    {
        let matches_key = {
            let a = chars_of(table[i].0.as_str());
            let b = chars_of(key);
            crate::platform::eq_chars(&a, &b)
        };
        if matches_key {
            proof {
                lemma_launcher_for_found(table@, p, i as int);
            }
            return Some(&table[i].1);
        }
        i = i + 1;
    }
    proof {
        lemma_launcher_for_none(table@, p);
    }
    None
}

proof fn lemma_launcher_for_bounds(table: Seq<(String, Vec<u8>)>, p: Platform)
    requires
        spec_launcher_for(table, p) is Some,
    ensures
        0 <= spec_launcher_for(table, p)->Some_0 < table.len(),
        table[spec_launcher_for(table, p)->Some_0].0@ == spec_platform_name(p),
    decreases table.len(),
{
    if table.len() > 0 && table[0].0@ != spec_platform_name(p) {
        lemma_launcher_for_bounds(table.drop_first(), p);
        let w = spec_launcher_for(table.drop_first(), p)->Some_0;
        assert(table.drop_first()[w] == table[w + 1]);
    }
}

proof fn lemma_launcher_for_found(table: Seq<(String, Vec<u8>)>, p: Platform, i: int)
    requires
        0 <= i < table.len(),
        table[i].0@ == spec_platform_name(p),
        forall|j: int| 0 <= j < i ==> (#[trigger] table[j]).0@ != spec_platform_name(p),
    ensures
        spec_launcher_for(table, p) == Some(i),
    decreases i,
{
    if i == 0 {
    } else {
        assert(table.drop_first()[i - 1] == table[i]);
        assert forall|j: int|
            0 <= j < i - 1 implies (#[trigger] table.drop_first()[j]).0@ != spec_platform_name(
            p,
        ) by {
            assert(table.drop_first()[j] == table[j + 1]);
        }
        lemma_launcher_for_found(table.drop_first(), p, i - 1);
    }
}

proof fn lemma_launcher_for_none(table: Seq<(String, Vec<u8>)>, p: Platform)
    requires
        forall|j: int| 0 <= j < table.len() ==> (#[trigger] table[j]).0@ != spec_platform_name(p),
    ensures
        spec_launcher_for(table, p) is None,
    decreases table.len(),
{
    if table.len() > 0 {
        assert forall|j: int|
            0 <= j < table.drop_first().len() implies (#[trigger] table.drop_first()[j]).0@
            != spec_platform_name(p) by {
            assert(table.drop_first()[j] == table[j + 1]);
        }
        lemma_launcher_for_none(table.drop_first(), p);
    }
}

} // verus!
