//! The launcher's view of a bundle: the trailer metadata, the extracted
//! bundle root, and the records selected for installation on the running
//! platform.

use vstd::prelude::*;

verus! {

use crate::errors::{DistError, ErrorKind};
use crate::platform::Platform;
use crate::records::{models_of, LockRecord, RecordModel};

/// The small launcher-facing metadata embedded between the stub and the
/// payload.
pub struct LauncherMetadata {
    pub summary: String,
}

/// A featured package reference read back from the bundle metadata.
pub struct FeaturedPackage {
    pub name: String,
}

/// The bundle metadata read back from an extracted bundle.
pub struct BundleMetadata {
    pub summary: String,
    pub author: String,
    pub description: Option<String>,
    pub release_notes: Option<String>,
    pub featured_packages: Vec<FeaturedPackage>,
}

impl BundleMetadata {
    /// The metadata assumed when a bundle carries none: the environment name
    /// as summary and an unknown author.
    pub fn fallback(environment_name: &String) -> (r: BundleMetadata)
        ensures
            r.summary@ == environment_name@,
            r.author@ == "unknown"@,
            r.description is None,
            r.release_notes is None,
            r.featured_packages@.len() == 0,
    {
        BundleMetadata {
            summary: environment_name.clone(),
            author: String::from_str("unknown"),
            description: None,
            release_notes: None,
            featured_packages: Vec::new(),
        }
    }
}

/// The environment selected from a lockfile's environment names: a requested
/// name must be listed; without a request the environment named `default`
/// wins, then a sole environment; no environment or several ambiguous ones
/// select nothing.
pub open spec fn spec_selected_environment(
    names: Seq<Seq<char>>,
    requested: Option<Seq<char>>,
) -> Option<Seq<char>> {
    match requested {
        Some(n) => if crate::metadata::spec_name_in(names, n) {
            Some(n)
        } else {
            None
        },
        None => if crate::metadata::spec_name_in(names, "default"@) {
            Some("default"@)
        } else if names.len() == 1 {
            Some(names[0])
        } else {
            None
        },
    }
}

/// Select the environment to install from the embedded lockfile's
/// environment names, honoring a requested name.
pub fn resolve_environment(names: &Vec<String>, requested: Option<&String>) -> (r: Result<
    String,
    DistError,
>)
    ensures
        r is Ok <==> spec_selected_environment(
            crate::metadata::spec_views(names@),
            match requested {
                Some(n) => Some(n@),
                None => None,
            },
        ) is Some,
        r matches Ok(name) ==> Some(name@) == spec_selected_environment(
            crate::metadata::spec_views(names@),
            match requested {
                Some(n) => Some(n@),
                None => None,
            },
        ),
        r matches Err(e) ==> e.kind == ErrorKind::PayloadInvalid,
{
    match requested {
        Some(n) => {
            if name_listed(names, n) {
                Ok(n.clone())
            } else {
                Err(DistError::new(
                    ErrorKind::PayloadInvalid,
                    String::from_str("the requested installer definition is not in the bundle"),
                ))
            }
        },
        None => {
            let default_name = String::from_str("default");
            if name_listed(names, &default_name) {
                return Ok(default_name);
            }
            if names.len() == 1 {
                proof {
                    assert(crate::metadata::spec_views(names@)[0] == names@[0]@);
                }
                return Ok(names[0].clone());
            }
            if names.len() == 0 {
                Err(DistError::new(
                    ErrorKind::PayloadInvalid,
                    String::from_str(
                        "the installer bundle did not contain any installation definitions",
                    ),
                ))
            } else {
                Err(DistError::new(
                    ErrorKind::PayloadInvalid,
                    String::from_str("the installer bundle is ambiguous"),
                ))
            }
        },
    }
}

/// Search for a name among the environment names.
fn name_listed(names: &Vec<String>, name: &String) -> (r: bool)
    ensures
        r == crate::metadata::spec_name_in(crate::metadata::spec_views(names@), name@),
{
    let mut i: usize = 0;
    while i < names.len()
        invariant
            i <= names@.len(),
            forall|j: int| 0 <= j < i ==> crate::metadata::spec_views(names@)[j] != name@,
        decreases names@.len() - i,
    {
        proof {
            assert(crate::metadata::spec_views(names@)[i as int] == names@[i as int]@);
        }
        if crate::records::eq_str(&names[i], name) {
            proof {
                assert(crate::metadata::spec_views(names@)[i as int] == name@);
            }
            return true;
        }
        i = i + 1;
    }
    false
}

/// Select the single bundle root among the extracted top-level directories:
/// none or several is a corrupt payload.
pub fn resolve_bundle_root(dirs: Vec<String>) -> (r: Result<String, DistError>)
    ensures
        r is Ok <==> dirs@.len() == 1,
        r matches Ok(root) ==> root@ == dirs@[0]@,
        r matches Err(e) ==> e.kind == ErrorKind::PayloadInvalid,
{
    if dirs.len() == 1 {
        let mut dirs = dirs;
        match dirs.pop() {
            Some(root) => Ok(root),
            None => Err(DistError::new(
                ErrorKind::PayloadInvalid,
                String::from_str("installer payload did not contain bundle contents"),
            )),
        }
    } else if dirs.len() == 0 {
        Err(DistError::new(
            ErrorKind::PayloadInvalid,
            String::from_str("installer payload did not contain bundle contents"),
        ))
    } else {
        Err(DistError::new(
            ErrorKind::PayloadInvalid,
            String::from_str("installer payload contained multiple bundle roots"),
        ))
    }
}

/// One package listed by the embedded lockfile: the record, whether the
/// entry is a binary package, and whether its file is present in the
/// extracted bundle.
pub struct BundleEntry {
    pub record: LockRecord,
    pub platform: Platform,
    pub binary: bool,
    pub present: bool,
}

/// The entry belongs to the running platform's installation: its platform is
/// the target or noarch.
pub open spec fn spec_entry_relevant(platform: Platform, target: Platform) -> bool {
    platform == target || platform == Platform::NoArch
}

/// Every relevant entry is a present binary package, and some entry carries
/// the target platform itself.
pub open spec fn spec_bundle_complete(
    entries: Seq<(RecordModel, Platform, bool, bool)>,
    target: Platform,
) -> bool {
    &&& exists|i: int| 0 <= i < entries.len() && (#[trigger] entries[i]).1 == target
    &&& forall|i: int|
        0 <= i < entries.len() && spec_entry_relevant((#[trigger] entries[i]).1, target) ==> (
        entries[i].2 && entries[i].3)
}

/// The models of the relevant records, in order.
pub open spec fn spec_relevant_records(
    entries: Seq<(RecordModel, Platform, bool, bool)>,
    target: Platform,
) -> Seq<RecordModel>
    decreases entries.len(),
{
    if entries.len() == 0 {
        Seq::<RecordModel>::empty()
    } else {
        let prev = spec_relevant_records(entries.drop_last(), target);
        let e = entries.last();
        if spec_entry_relevant(e.1, target) {
            prev.push(e.0)
        } else {
            prev
        }
    }
}

/// The view of a bundle entry list.
pub open spec fn entry_views(s: Seq<BundleEntry>) -> Seq<(RecordModel, Platform, bool, bool)> {
    s.map(|_i: int, e: BundleEntry| (e.record@, e.platform, e.binary, e.present))
}

/// Collect the records to install on the running platform: entries of the
/// target platform and noarch, each of which must be a binary package whose
/// file is present in the bundle; the bundle must carry the target platform
/// at all. Anything else is an invalid payload.
#[verifier::loop_isolation(false)]
pub fn collect_bundle_records(entries: Vec<BundleEntry>, target: Platform) -> (r: Result<
    Vec<LockRecord>,
    DistError,
>)
    ensures
        r is Ok <==> spec_bundle_complete(entry_views(entries@), target),
        r matches Ok(records) ==> models_of(records@) == spec_relevant_records(
            entry_views(entries@),
            target,
        ),
        r matches Err(e) ==> e.kind == ErrorKind::PayloadInvalid,
{
    let ghost views = entry_views(entries@);
    let mut out: Vec<LockRecord> = Vec::new();
    let mut has_target = false;
    let mut i: usize = 0;
    while i < entries.len()
        invariant
            i <= entries@.len(),
            views == entry_views(entries@),
            models_of(out@) == spec_relevant_records(views.subrange(0, i as int), target),
            has_target == (exists|j: int| 0 <= j < i && (#[trigger] views[j]).1 == target),
            forall|j: int|
                0 <= j < i && spec_entry_relevant((#[trigger] views[j]).1, target) ==> (views[j].2
                    && views[j].3),
        decreases entries@.len() - i,
    {
        let e = &entries[i];
        proof {
            assert(views[i as int] == (entries@[i as int].record@, entries@[i as int].platform,
            entries@[i as int].binary, entries@[i as int].present));
        }
        let ghost pre_has = has_target;
        if e.platform == target {
            has_target = true;
        }
        let relevant = e.platform == target || matches!(e.platform, Platform::NoArch);
        if relevant {
            if !e.binary {
                return Err(DistError::new(
                    ErrorKind::PayloadInvalid,
                    String::from_str("an installer component is not supported on this system"),
                ));
            }
            if !e.present {
                return Err(DistError::new(
                    ErrorKind::PayloadInvalid,
                    String::from_str("an installer component is missing from the bundle"),
                ));
            }
            out.push(e.record.duplicate());
        }
        i = i + 1;
        proof {
            let cur = views.subrange(0, i as int);
            assert(cur.drop_last() =~= views.subrange(0, i - 1));
            assert(cur.last() == views[i - 1]);
            assert(models_of(out@) =~= spec_relevant_records(cur, target));
            if pre_has {
                let w = choose|j: int| 0 <= j < i - 1 && (#[trigger] views[j]).1 == target;
                assert(views[w].1 == target);
            }
        }
    }
    proof {
        assert(views.subrange(0, views.len() as int) =~= views);
    }
    if !has_target {
        return Err(DistError::new(
            ErrorKind::PayloadInvalid,
            String::from_str("the installer bundle does not include components for this platform"),
        ));
    }
    Ok(out)
}

} // verus!
