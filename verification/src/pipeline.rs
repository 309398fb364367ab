//! The environment pipeline's pure decisions: the effective channel list,
//! the per-platform solver pins, and the choice between reusing locked
//! records and accepting freshly solved ones.

use vstd::prelude::*;

verus! {

use crate::lockmode::{spec_decide, spec_lock_state, LockAction, LockMode};
use crate::platform::{spec_platform_name, Platform};
use crate::records::{models_of, LockRecord, RecordModel};

/// The default channel used when the manifest names none.
pub open spec fn spec_default_channel() -> Seq<char> {
    "conda-forge"@
}

/// The channel list actually used: the manifest's, or the default when the
/// manifest names none.
pub fn effective_channels(channels: &Vec<String>) -> (r: Vec<String>)
    ensures
        channels@.len() > 0 ==> r@ == channels@,
        channels@.len() == 0 ==> r@.len() == 1 && r@[0]@ == spec_default_channel(),
{
    if channels.len() == 0 {
        let mut out: Vec<String> = Vec::new();
        out.push(String::from_str("conda-forge"));
        out
    } else {
        crate::records::copy_strings(channels)
    }
}

/// The channel URL list written into a lockfile: the synthetic `file:./`
/// entry for the embedded channel, then every parsed channel URL.
pub fn lockfile_channel_urls(base_urls: &Vec<String>) -> (r: Vec<String>)
    ensures
        r@.len() == base_urls@.len() + 1,
        r@[0]@ == "file:./"@,
        forall|i: int| 0 <= i < base_urls@.len() ==> r@[i + 1] == #[trigger] base_urls@[i],
{
    let mut out: Vec<String> = Vec::new();
    out.push(String::from_str("file:./"));
    let mut i: usize = 0;
    while i < base_urls.len()
        invariant
            i <= base_urls@.len(),
            out@.len() == i + 1,
            out@[0]@ == "file:./"@,
            forall|j: int| 0 <= j < i ==> out@[j + 1] == #[trigger] base_urls@[j],
        decreases base_urls@.len() - i,
    {
        out.push(base_urls[i].clone());
        i = i + 1;
    }
    out
}

/// Reject a manifest whose dependency map is empty: the pipeline needs at
/// least one requirement to solve for.
pub fn require_dependencies(specs: &Vec<crate::validate::SpecReq>) -> (r: Result<
    (),
    crate::errors::DistError,
>)
    ensures
        r is Ok <==> specs@.len() > 0,
        r matches Err(e) ==> e.kind == crate::errors::ErrorKind::ManifestInvalid,
{
    if specs.len() == 0 {
        return Err(crate::errors::DistError::new(
            crate::errors::ErrorKind::ManifestInvalid,
            String::from_str("no dependencies specified in manifest"),
        ));
    }
    Ok(())
}

/// The records of `rs` whose subdir is exactly `sub`, in order.
pub open spec fn spec_matching_subdir(rs: Seq<RecordModel>, sub: Seq<char>) -> Seq<RecordModel>
    decreases rs.len(),
{
    if rs.len() == 0 {
        Seq::<RecordModel>::empty()
    } else {
        let prev = spec_matching_subdir(rs.drop_last(), sub);
        if rs.last().subdir == sub {
            prev.push(rs.last())
        } else {
            prev
        }
    }
}

/// The locked records handed to the solver as pins for platform `p`: the
/// records of the platform's own subdir, then the noarch records.
pub open spec fn spec_platform_pins(rs: Seq<RecordModel>, p: Platform) -> Seq<RecordModel> {
    spec_matching_subdir(rs, spec_platform_name(p)) + spec_matching_subdir(
        rs,
        spec_platform_name(Platform::NoArch),
    )
}

#[verifier::loop_isolation(false)]
fn matching_subdir(records: &Vec<LockRecord>, sub: &str) -> (r: Vec<LockRecord>)
    ensures
        models_of(r@) == spec_matching_subdir(models_of(records@), sub@),
{
    let ghost rs = models_of(records@);
    let mut out: Vec<LockRecord> = Vec::new();
    let mut i: usize = 0;
    while i < records.len()
        invariant
            i <= records@.len(),
            rs == models_of(records@),
            models_of(out@) == spec_matching_subdir(rs.subrange(0, i as int), sub@),
        decreases records@.len() - i,
    {
        let rec = &records[i];
        let same = {
            let subdir_chars = crate::text::chars_of(rec.subdir.as_str());
            let sub_chars = crate::text::chars_of(sub);
            crate::platform::eq_chars(&subdir_chars, &sub_chars)
        };
        proof {
            assert(models_of(records@)[i as int] == records@[i as int]@);
        }
        if same {
            out.push(rec.duplicate());
        }
        i = i + 1;
        proof {
            let pre = rs.subrange(0, i as int);
            assert(pre.drop_last() =~= rs.subrange(0, i - 1));
            assert(pre.last() == rs[i - 1]);
            assert(models_of(out@) =~= spec_matching_subdir(pre, sub@));
        }
    }
    proof {
        assert(rs.subrange(0, rs.len() as int) =~= rs);
    }
    out
}

/// Select the solver pins for one platform: its own records first, then the
/// noarch records.
#[verifier::loop_isolation(false)]
pub fn platform_pins(records: &Vec<LockRecord>, p: Platform) -> (r: Vec<LockRecord>)
    ensures
        models_of(r@) == spec_platform_pins(models_of(records@), p),
{
    let mut own = matching_subdir(records, p.as_str());
    let noarch = matching_subdir(records, Platform::NoArch.as_str());
    let ghost own_models = models_of(own@);
    let mut i: usize = 0;
    while i < noarch.len()
        invariant
            i <= noarch@.len(),
            own@.len() == own_models.len() + i,
            forall|k: int| 0 <= k < own_models.len() ==> models_of(own@)[k] == own_models[k],
            forall|k: int|
                0 <= k < i ==> models_of(own@)[own_models.len() + k] == #[trigger] models_of(
                    noarch@,
                )[k],
        decreases noarch@.len() - i,
    {
        proof {
            assert(models_of(noarch@)[i as int] == noarch@[i as int]@);
        }
        let ghost pre_own = own@;
        own.push(noarch[i].duplicate());
        i = i + 1;
        proof {
            assert forall|k: int|
                0 <= k < pre_own.len() implies models_of(own@)[k] == models_of(pre_own)[k] by {
                assert(own@[k] == pre_own[k]);
            }
            assert(models_of(own@)[pre_own.len() as int] == own@[pre_own.len() as int]@);
        }
    }
    proof {
        let target = spec_platform_pins(models_of(records@), p);
        assert(target == own_models + models_of(noarch@));
        assert forall|k: int|
            0 <= k < models_of(own@).len() implies models_of(own@)[k] == target[k] by {
            if k < own_models.len() {
            } else {
                assert(models_of(own@)[own_models.len() + (k - own_models.len())] == models_of(
                    noarch@,
                )[k - own_models.len()]);
            }
        }
        assert(models_of(own@) =~= target);
    }
    own
}

/// The records the pipeline carries forward: on `Reuse` the locked records
/// themselves, unchanged; on `Resolve` the freshly solved ones. Reuse is
/// therefore deterministic: the result is exactly the lockfile's contents.
pub fn select_records(action: LockAction, locked: Vec<LockRecord>, solved: Vec<LockRecord>) -> (r:
    Vec<LockRecord>)
    requires
        action == LockAction::Reuse || action == LockAction::Resolve,
    ensures
        action == LockAction::Reuse ==> r@ == locked@,
        action == LockAction::Resolve ==> r@ == solved@,
{
    match action {
        LockAction::Reuse => locked,
        _ => solved,
    }
}

/// Lock reuse determinism: when the validator accepts the lockfile, a run in
/// `Auto` mode (and equally in `Locked` mode) decides `Reuse`, and the
/// pipeline's record list is the lockfile's own record list.
pub proof fn lemma_lock_reuse_determinism(
    rs: Seq<crate::records::RecordModel>,
    sms: Seq<crate::validate::SpecModel>,
    ts: Seq<Platform>,
)
    requires
        crate::validate::spec_lock_valid(rs, sms, ts),
    ensures
        spec_decide(LockMode::Auto, spec_lock_state(true, true)) == LockAction::Reuse,
        spec_decide(LockMode::Locked, spec_lock_state(true, true)) == LockAction::Reuse,
{
}

} // verus!
