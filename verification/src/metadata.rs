//! Bundle metadata derivation: the presentation data embedded into an
//! installer, with every featured package validated against the resolved
//! record set.

use vstd::prelude::*;

verus! {

use crate::errors::{DistError, ErrorKind};
use crate::names::{
    normalize_package_name, sanitize_single_line, spec_normalized_name, spec_package_name_valid,
    spec_sanitize_single_line, spec_trim_ws, trim_ws,
};
use crate::text::{chars_of, collect_string};

/// The optional metadata table of the manifest.
pub struct BundleMetadataConfig {
    pub summary: Option<String>,
    pub description: Option<String>,
    pub release_notes: Option<String>,
    pub featured_packages: Vec<String>,
}

/// A featured package reference in the serialized bundle metadata.
#[derive(Debug)]
pub struct FeaturedPackageManifest {
    pub name: String,
}

/// The bundle metadata blob embedded into an installer.
#[derive(Debug)]
pub struct BundleMetadataManifest {
    pub summary: String,
    pub author: String,
    pub description: Option<String>,
    pub release_notes: Option<String>,
    pub featured_packages: Vec<FeaturedPackageManifest>,
}

/// Derived bundle metadata, ready for serialization.
#[derive(Debug)]
pub struct PreparedBundleMetadata {
    pub manifest: BundleMetadataManifest,
}

/// A name occurs in the list.
pub open spec fn spec_name_in(names: Seq<Seq<char>>, name: Seq<char>) -> bool {
    exists|i: int| 0 <= i < names.len() && names[i] == name
}

/// The views of a vector of strings.
pub open spec fn spec_views(names: Seq<String>) -> Seq<Seq<char>> {
    names.map(|_i: int, s: String| s@)
}

/// Every featured entry is a valid conda package name whose normalized form
/// appears among the resolved record names.
pub open spec fn spec_featured_ok(entries: Seq<Seq<char>>, names: Seq<Seq<char>>) -> bool {
    forall|i: int|
        0 <= i < entries.len() ==> spec_package_name_valid(#[trigger] entries[i]) && spec_name_in(
            names,
            spec_normalized_name(entries[i]),
        )
}

/// The featured list after validation: normalized names, first occurrence
/// kept, duplicates dropped.
pub open spec fn spec_featured_names(entries: Seq<Seq<char>>) -> Seq<Seq<char>>
    decreases entries.len(),
{
    if entries.len() == 0 {
        Seq::<Seq<char>>::empty()
    } else {
        let prev = spec_featured_names(entries.drop_last());
        let n = spec_normalized_name(entries.last());
        if spec_name_in(prev, n) {
            prev
        } else {
            prev.push(n)
        }
    }
}

/// The summary actually used: the configured one, or the environment name.
pub open spec fn spec_summary(config_summary: Option<Seq<char>>, env: Seq<char>) -> Seq<char> {
    match config_summary {
        Some(s) => s,
        None => env,
    }
}

/// Search for a name in a list of strings.
fn name_in(names: &Vec<String>, name: &String) -> (r: bool)
    ensures
        r == spec_name_in(spec_views(names@), name@),
{
    let mut i: usize = 0;
    while i < names.len()
        invariant
            i <= names@.len(),
            forall|j: int| 0 <= j < i ==> spec_views(names@)[j] != name@,
        decreases names@.len() - i,
    {
        proof {
            assert(spec_views(names@)[i as int] == names@[i as int]@);
        }
        if crate::records::eq_str(&names[i], name) {
            proof {
                assert(spec_views(names@)[i as int] == name@);
            }
            return true;
        }
        i = i + 1;
    }
    false
}

/// Derive the bundle metadata: the summary defaults to the environment name,
/// the author is trimmed, and every featured package must be a valid conda
/// name present in the resolved record set; duplicates are dropped in
/// first-seen order. A featured package that is absent or unparseable is a
/// fatal metadata error, raised before any staging happens.
#[verifier::loop_isolation(false)]
pub fn prepare_bundle_metadata(
    environment_name: &String,
    config_summary: Option<String>,
    description: Option<String>,
    release_notes: Option<String>,
    featured_packages: &Vec<String>,
    record_names: &Vec<String>,
    author: &String,
) -> (r: Result<PreparedBundleMetadata, DistError>)
    ensures
        r is Ok <==> spec_featured_ok(spec_views(featured_packages@), spec_views(record_names@)),
        r matches Ok(prep) ==> {
            &&& prep.manifest.summary@ == spec_summary(
                match config_summary {
                    Some(s) => Some(s@),
                    None => None,
                },
                environment_name@,
            )
            &&& prep.manifest.author@ == spec_trim_ws(author@)
            &&& prep.manifest.description == description
            &&& prep.manifest.release_notes == release_notes
            &&& spec_views(
                prep.manifest.featured_packages@.map(
                    |_i: int, f: FeaturedPackageManifest| f.name,
                ),
            ) == spec_featured_names(spec_views(featured_packages@))
        },
        r matches Err(e) ==> e.kind == ErrorKind::MetadataInvalid,
{
    let summary = match config_summary {
        Some(s) => s,
        None => environment_name.clone(),
    };
    let author_chars = chars_of(author.as_str());
    let trimmed_author = trim_ws(&author_chars);
    let author_string = collect_string(&trimmed_author);

    let ghost entries = spec_views(featured_packages@);
    let mut featured: Vec<FeaturedPackageManifest> = Vec::new();
    let mut seen: Vec<String> = Vec::new();
    let mut i: usize = 0;
    while i < featured_packages.len()
        invariant
            i <= featured_packages@.len(),
            entries == spec_views(featured_packages@),
            spec_views(seen@) == spec_featured_names(entries.subrange(0, i as int)),
            featured@.len() == seen@.len(),
            forall|j: int|
                0 <= j < featured@.len() ==> (#[trigger] featured@[j]).name == seen@[j],
            forall|j: int|
                0 <= j < i ==> spec_package_name_valid(#[trigger] entries[j]) && spec_name_in(
                    spec_views(record_names@),
                    spec_normalized_name(entries[j]),
                ),
        decreases featured_packages@.len() - i,
    {
        let entry = &featured_packages[i];
        proof {
            assert(entries[i as int] == featured_packages@[i as int]@);
        }
        let normalized = match normalize_package_name(entry.as_str()) {
            Some(n) => n,
            None => {
                return Err(DistError::new(
                    ErrorKind::MetadataInvalid,
                    String::from_str("a featured package is not a valid package name"),
                ));
            },
        };
        if !name_in(record_names, &normalized) {
            return Err(DistError::new(
                ErrorKind::MetadataInvalid,
                String::from_str("a featured package was not found in the resolved environment"),
            ));
        }
        let ghost pre_seen = seen@;
        if !name_in(&seen, &normalized) {
            seen.push(normalized.clone());
            featured.push(FeaturedPackageManifest { name: normalized });
            proof {
                assert forall|k: int|
                    0 <= k < pre_seen.len() implies spec_views(seen@)[k] == spec_views(
                    pre_seen,
                )[k] by {
                    assert(seen@[k] == pre_seen[k]);
                }
                assert(spec_views(seen@)[pre_seen.len() as int] == seen@[pre_seen.len() as int]@);
            }
        }
        i = i + 1;
        proof {
            let cur = entries.subrange(0, i as int);
            assert(cur.drop_last() =~= entries.subrange(0, i - 1));
            assert(cur.last() == entries[i - 1]);
            assert(spec_views(seen@) =~= spec_featured_names(cur));
        }
    }
    proof {
        assert(entries.subrange(0, entries.len() as int) =~= entries);
        assert(spec_views(featured@.map(|_i: int, f: FeaturedPackageManifest| f.name))
            =~= spec_views(seen@));
    }
    Ok(
        PreparedBundleMetadata {
            manifest: BundleMetadataManifest {
                summary,
                author: author_string,
                description,
                release_notes,
                featured_packages: featured,
            },
        },
    )
}

/// The description sections of the native package metadata: the description
/// paragraph if non-empty, then the release notes prefixed by a header.
pub open spec fn spec_description_parts(
    description: Option<Seq<char>>,
    release_notes: Option<Seq<char>>,
) -> Seq<Seq<char>> {
    let first: Seq<Seq<char>> = match description {
        Some(d) => if spec_trim_ws(d).len() > 0 {
            seq![spec_trim_ws(d)]
        } else {
            Seq::<Seq<char>>::empty()
        },
        None => Seq::<Seq<char>>::empty(),
    };
    match release_notes {
        Some(n) => if spec_trim_ws(n).len() > 0 {
            first.push("Release notes:\n"@ + spec_trim_ws(n))
        } else {
            first
        },
        None => first,
    }
}

/// Collect the description paragraphs for native package metadata.
pub fn compose_description_parts(
    description: Option<&String>,
    release_notes: Option<&String>,
) -> (r: Vec<String>)
    ensures
        spec_views(r@) == spec_description_parts(
            match description {
                Some(d) => Some(d@),
                None => None,
            },
            match release_notes {
                Some(n) => Some(n@),
                None => None,
            },
        ),
{
    let mut sections: Vec<String> = Vec::new();
    if let Some(d) = description {
        let chars = chars_of(d.as_str());
        let trimmed = trim_ws(&chars);
        if trimmed.len() > 0 {
            sections.push(collect_string(&trimmed));
        }
    }
    let ghost first = spec_views(sections@);
    if let Some(n) = release_notes {
        let chars = chars_of(n.as_str());
        let trimmed = trim_ws(&chars);
        if trimmed.len() > 0 {
            let mut text = String::from_str("Release notes:\n");
            let tail = collect_string(&trimmed);
            text.append(tail.as_str());
            let ghost pre = sections@;
            sections.push(text);
            proof {
                assert forall|k: int|
                    0 <= k < pre.len() implies spec_views(sections@)[k] == spec_views(pre)[k] by {
                    assert(sections@[k] == pre[k]);
                }
                assert(spec_views(sections@)[pre.len() as int] == sections@[pre.len() as int]@);
            }
        }
    }
    proof {
        assert(spec_views(sections@) =~= spec_description_parts(
            match description {
                Some(d) => Some(d@),
                None => None,
            },
            match release_notes {
                Some(n) => Some(n@),
                None => None,
            },
        ));
    }
    sections
}

/// The description paragraphs joined by blank lines.
pub open spec fn spec_joined_paragraphs(parts: Seq<Seq<char>>) -> Seq<char>
    decreases parts.len(),
{
    if parts.len() == 0 {
        Seq::<char>::empty()
    } else if parts.len() == 1 {
        parts[0]
    } else {
        spec_joined_paragraphs(parts.drop_last()) + "\n\n"@ + parts.last()
    }
}

/// Join the description paragraphs into the single description text used by
/// native package metadata.
pub fn compose_description(parts: &Vec<String>) -> (r: String)
    ensures
        r@ == spec_joined_paragraphs(spec_views(parts@)),
{
    let mut out: Vec<char> = Vec::new();
    let mut i: usize = 0;
    while i < parts.len()
        invariant
            i <= parts@.len(),
            out@ == spec_joined_paragraphs(spec_views(parts@).subrange(0, i as int)),
        decreases parts@.len() - i,
    {
        if i > 0 {
            out.push('\n');
            out.push('\n');
        }
        let part = chars_of(parts[i].as_str());
        crate::text::push_all(&mut out, &part);
        i = i + 1;
        proof {
            let vs = spec_views(parts@);
            let cur = vs.subrange(0, i as int);
            assert(cur.drop_last() =~= vs.subrange(0, i - 1));
            assert(cur.last() == vs[i - 1]);
            assert(vs[i - 1] == parts@[i - 1]@);
            reveal_strlit("\n\n");
            assert(out@ =~= spec_joined_paragraphs(cur));
        }
    }
    proof {
        assert(spec_views(parts@).subrange(0, spec_views(parts@).len() as int) =~= spec_views(
            parts@,
        ));
    }
    collect_string(&out)
}

/// The base package summary for native builds: the bundle summary collapsed
/// to one line, or the environment name when the summary is blank.
pub open spec fn spec_base_summary(env: Seq<char>, summary: Seq<char>) -> Seq<char> {
    if spec_trim_ws(summary).len() == 0 {
        env
    } else {
        spec_sanitize_single_line(summary)
    }
}

/// Determine the base package summary, falling back to the environment name;
/// an empty result is a fatal metadata error.
pub fn base_summary(environment_name: &String, summary: &String) -> (r: Result<String, DistError>)
    ensures
        r is Ok <==> spec_base_summary(environment_name@, summary@).len() > 0,
        r matches Ok(line) ==> line@ == spec_base_summary(environment_name@, summary@),
        r matches Err(e) ==> e.kind == ErrorKind::MetadataInvalid,
{
    let chars = chars_of(summary.as_str());
    let trimmed = trim_ws(&chars);
    let line = if trimmed.len() == 0 {
        environment_name.clone()
    } else {
        sanitize_single_line(summary.as_str())
    };
    if line.as_str().unicode_len() == 0 {
        return Err(DistError::new(
            ErrorKind::MetadataInvalid,
            String::from_str("package summary for native builds must not be empty"),
        ));
    }
    Ok(line)
}

} // verus!
