//! The lock validator: given the records of an existing lockfile, the
//! manifest's dependency specs and the target platforms, decide whether the
//! lockfile still satisfies the manifest — every spec resolved, every
//! transitive non-virtual dependency satisfied per platform, and no
//! extraneous records.

use vstd::prelude::*;

verus! {

use crate::conda::{
    match_spec_accepts, match_spec_check, match_spec_name, match_spec_parses,
    parse_match_spec_name,
};
use crate::errors::{DistError, ErrorKind};
use crate::platform::{spec_platform_of, Platform};
use crate::records::{models_of, LockRecord, RecordModel};
use crate::text::chars_of;

/// A manifest dependency requirement: the raw match-spec string and the
/// normalized package name it constrains.
#[derive(Debug)]
pub struct SpecReq {
    pub raw: String,
    pub name: String,
}

/// The mathematical image of a requirement.
pub ghost struct SpecModel {
    pub raw: Seq<char>,
    pub name: Seq<char>,
}

impl SpecModel {
    /// The raw string parses strictly and its name part is this literal name.
    pub open spec fn wf(self) -> bool {
        &&& match_spec_parses(true, self.raw)
        &&& match_spec_name(true, self.raw) == Some(self.name)
    }
}

impl View for SpecReq {
    type V = SpecModel;

    open spec fn view(&self) -> SpecModel {
        SpecModel { raw: self.raw@, name: self.name@ }
    }
}

/// The models of a sequence of requirements.
pub open spec fn spec_models(s: Seq<SpecReq>) -> Seq<SpecModel> {
    s.map(|_i: int, r: SpecReq| r@)
}

impl SpecReq {
    /// Parse a raw match-spec string strictly; rejected when it does not
    /// parse or its name part is not a literal package name.
    pub fn new(raw: String) -> (r: Result<SpecReq, DistError>)
        ensures
            r is Ok <==> (match_spec_parses(true, raw@) && match_spec_name(true, raw@) is Some),
            r matches Ok(req) ==> req@.wf() && req.raw@ == raw@,
            r matches Err(e) ==> e.kind == ErrorKind::ManifestInvalid,
    {
        match parse_match_spec_name(raw.as_str(), true) {
            Ok(Some(name)) => Ok(SpecReq { raw, name }),
            Ok(None) => Err(
                DistError::new(
                    ErrorKind::ManifestInvalid,
                    String::from_str("dependency does not specify a literal package name"),
                ),
            ),
            Err(()) => Err(
                DistError::new(
                    ErrorKind::ManifestInvalid,
                    String::from_str("failed to parse dependency"),
                ),
            ),
        }
    }
}

/// A dependency string for a virtual package: it starts with `__`.
pub open spec fn spec_virtual_dep(d: Seq<char>) -> bool {
    d.len() >= 2 && d[0] == '_' && d[1] == '_'
}

/// Executable test for a virtual-package dependency string.
pub fn is_virtual_dep(d: &String) -> (r: bool)
    ensures
        r == spec_virtual_dep(d@),
{
    let cs = chars_of(d.as_str());
    cs.len() >= 2 && cs[0] == '_' && cs[1] == '_'
}

/// The record belongs to the working set of platform `p`: its subdir names
/// `p` itself or `noarch`.
pub open spec fn rec_on(rec: RecordModel, p: Platform) -> bool {
    spec_platform_of(rec.subdir) == Some(p) || spec_platform_of(rec.subdir) == Some(
        Platform::NoArch,
    )
}

/// Within the working set of `p`, package names are unique.
pub open spec fn names_unique_on(rs: Seq<RecordModel>, p: Platform) -> bool {
    forall|i: int, j: int|
        0 <= i < j < rs.len() && #[trigger] rec_on(rs[i], p) && #[trigger] rec_on(rs[j], p)
            ==> rs[i].name != rs[j].name
}

/// The dependency string parses leniently to a literal name, and a record in
/// the working set of `p` carries that name and is accepted by the spec.
pub open spec fn dep_ok(rs: Seq<RecordModel>, p: Platform, d: Seq<char>) -> bool {
    &&& match_spec_parses(false, d)
    &&& match_spec_name(false, d) is Some
    &&& exists|k: int|
        0 <= k < rs.len() && #[trigger] rec_on(rs[k], p) && rs[k].name == match_spec_name(
            false,
            d,
        )->Some_0 && match_spec_accepts(false, d, rs[k].name, rs[k].version, rs[k].build, rs[k].subdir)
}

/// Every non-virtual dependency of the record is satisfied in the working
/// set of `p`.
pub open spec fn deps_ok(rs: Seq<RecordModel>, p: Platform, rec: RecordModel) -> bool {
    forall|di: int|
        0 <= di < rec.depends.len() && !spec_virtual_dep(#[trigger] rec.depends[di]) ==> dep_ok(
            rs,
            p,
            rec.depends[di],
        )
}

/// A record in the working set of `p` carries the requirement's name and is
/// accepted by the requirement.
pub open spec fn spec_req_ok(rs: Seq<RecordModel>, p: Platform, sm: SpecModel) -> bool {
    exists|k: int|
        0 <= k < rs.len() && #[trigger] rec_on(rs[k], p) && rs[k].name == sm.name
            && match_spec_accepts(true, sm.raw, rs[k].name, rs[k].version, rs[k].build, rs[k].subdir)
}

/// A name is reachable in at most `n` dependency steps from the manifest
/// requirements, within the working set of `p`.
pub open spec fn reach_n(
    rs: Seq<RecordModel>,
    sms: Seq<SpecModel>,
    p: Platform,
    name: Seq<char>,
    n: nat,
) -> bool
    decreases n,
{
    if n == 0 {
        exists|si: int| 0 <= si < sms.len() && (#[trigger] sms[si]).name == name
    } else {
        reach_n(rs, sms, p, name, (n - 1) as nat) || exists|k: int, di: int|
            {
                &&& 0 <= k < rs.len()
                &&& #[trigger] rec_on(rs[k], p)
                &&& reach_n(rs, sms, p, rs[k].name, (n - 1) as nat)
                &&& 0 <= di < rs[k].depends.len()
                &&& !spec_virtual_dep(#[trigger] rs[k].depends[di])
                &&& match_spec_parses(false, rs[k].depends[di])
                &&& match_spec_name(false, rs[k].depends[di]) == Some(name)
            }
    }
}

/// A name is reachable from the manifest requirements by the dependency
/// closure within the working set of `p`.
pub open spec fn reachable(
    rs: Seq<RecordModel>,
    sms: Seq<SpecModel>,
    p: Platform,
    name: Seq<char>,
) -> bool {
    exists|n: nat| reach_n(rs, sms, p, name, n)
}

/// The lockfile satisfies the manifest on platform `p`: the working set is
/// non-empty with unique names, every requirement is resolved there, and
/// every reachable record has all its non-virtual dependencies satisfied.
pub open spec fn platform_valid(rs: Seq<RecordModel>, sms: Seq<SpecModel>, p: Platform) -> bool {
    &&& exists|ri: int| 0 <= ri < rs.len() && #[trigger] rec_on(rs[ri], p)
    &&& names_unique_on(rs, p)
    &&& forall|si: int| 0 <= si < sms.len() ==> spec_req_ok(rs, p, #[trigger] sms[si])
    &&& forall|ri: int|
        0 <= ri < rs.len() && #[trigger] rec_on(rs[ri], p) && reachable(rs, sms, p, rs[ri].name)
            ==> deps_ok(rs, p, rs[ri])
}

/// The lockfile satisfies the manifest: every subdir is recognized, no
/// target is `noarch`, every target platform is individually valid, and
/// every record is reachable from some requirement on some target platform.
pub open spec fn spec_lock_valid(
    rs: Seq<RecordModel>,
    sms: Seq<SpecModel>,
    ts: Seq<Platform>,
) -> bool {
    &&& forall|ri: int| 0 <= ri < rs.len() ==> spec_platform_of((#[trigger] rs[ri]).subdir) is Some
    &&& forall|pi: int| 0 <= pi < ts.len() ==> (#[trigger] ts[pi]) != Platform::NoArch
    &&& forall|pi: int| 0 <= pi < ts.len() ==> platform_valid(rs, sms, #[trigger] ts[pi])
    &&& forall|ri: int|
        0 <= ri < rs.len() ==> exists|pi: int|
            0 <= pi < ts.len() && rec_on(#[trigger] rs[ri], ts[pi]) && reachable(
                rs,
                sms,
                ts[pi],
                rs[ri].name,
            )
}

/// `v` holds index `t`.
pub open spec fn has_idx(v: Seq<usize>, t: int) -> bool {
    exists|k: int| 0 <= k < v.len() && v[k] == t
}

/// Index `t` stands in the visited list or in the work queue.
pub open spec fn in_sets(visited: Seq<usize>, queue: Seq<usize>, t: int) -> bool {
    has_idx(visited, t) || has_idx(queue, t)
}

/// Some listed record carries `name`.
pub open spec fn name_listed(
    rs: Seq<RecordModel>,
    visited: Seq<usize>,
    queue: Seq<usize>,
    name: Seq<char>,
) -> bool {
    exists|t: int| 0 <= t < rs.len() && #[trigger] in_sets(visited, queue, t) && rs[t].name == name
}

/// A listed name survives any growth of the two lists.
proof fn lemma_name_listed_mono(
    rs: Seq<RecordModel>,
    v1: Seq<usize>,
    q1: Seq<usize>,
    v2: Seq<usize>,
    q2: Seq<usize>,
    name: Seq<char>,
)
    requires
        name_listed(rs, v1, q1, name),
        forall|t2: int| #[trigger] in_sets(v1, q1, t2) ==> in_sets(v2, q2, t2),
    ensures
        name_listed(rs, v2, q2, name),
{
    let t = choose|t: int|
        0 <= t < rs.len() && #[trigger] in_sets(v1, q1, t) && rs[t].name == name;
    assert(in_sets(v2, q2, t));
}

/// Every non-virtual dependency of `rec` is satisfied, and the record
/// carrying the dependency's name stands in the visited list or the queue.
pub open spec fn deps_linked(
    rs: Seq<RecordModel>,
    p: Platform,
    visited: Seq<usize>,
    queue: Seq<usize>,
    rec: RecordModel,
) -> bool {
    forall|di: int|
        0 <= di < rec.depends.len() && !spec_virtual_dep(#[trigger] rec.depends[di]) ==> {
            &&& dep_ok(rs, p, rec.depends[di])
            &&& name_listed(rs, visited, queue, match_spec_name(false, rec.depends[di])->Some_0)
        }
}

/// Dependency links survive any growth of the visited list and the queue.
proof fn lemma_deps_linked_mono(
    rs: Seq<RecordModel>,
    p: Platform,
    v1: Seq<usize>,
    q1: Seq<usize>,
    v2: Seq<usize>,
    q2: Seq<usize>,
    rec: RecordModel,
)
    requires
        deps_linked(rs, p, v1, q1, rec),
        forall|t2: int| #[trigger] in_sets(v1, q1, t2) ==> in_sets(v2, q2, t2),
    ensures
        deps_linked(rs, p, v2, q2, rec),
{
    assert forall|di: int|
        0 <= di < rec.depends.len() && !spec_virtual_dep(#[trigger] rec.depends[di]) implies {
        &&& dep_ok(rs, p, rec.depends[di])
        &&& name_listed(rs, v2, q2, match_spec_name(false, rec.depends[di])->Some_0)
    } by {
        lemma_name_listed_mono(
            rs,
            v1,
            q1,
            v2,
            q2,
            match_spec_name(false, rec.depends[di])->Some_0,
        );
    }
}

/// Membership survives a push onto either list.
proof fn lemma_in_sets_push(visited: Seq<usize>, queue: Seq<usize>, x: usize)
    ensures
        forall|t2: int| #[trigger] in_sets(visited, queue, t2) ==> in_sets(visited, queue.push(x), t2),
        forall|t2: int| #[trigger] in_sets(visited, queue, t2) ==> in_sets(visited.push(x), queue, t2),
{
    assert forall|t2: int|
        #[trigger] in_sets(visited, queue, t2) implies in_sets(visited, queue.push(x), t2) by {
        if has_idx(queue, t2) {
            let k = choose|k: int| 0 <= k < queue.len() && queue[k] == t2;
            assert(queue.push(x)[k] == t2);
        }
    }
    assert forall|t2: int|
        #[trigger] in_sets(visited, queue, t2) implies in_sets(visited.push(x), queue, t2) by {
        if has_idx(visited, t2) {
            let k = choose|k: int| 0 <= k < visited.len() && visited[k] == t2;
            assert(visited.push(x)[k] == t2);
        }
    }
}

/// Membership survives removing the queue's last entry when that entry is
/// already in the visited list.
proof fn lemma_in_sets_pop(visited: Seq<usize>, queue: Seq<usize>)
    requires
        queue.len() > 0,
        has_idx(visited, queue.last() as int),
    ensures
        forall|t2: int|
            #[trigger] in_sets(visited, queue, t2) ==> in_sets(visited, queue.drop_last(), t2),
{
    assert forall|t2: int|
        #[trigger] in_sets(visited, queue, t2) implies in_sets(visited, queue.drop_last(), t2) by {
        if !has_idx(visited, t2) {
            let k = choose|k: int| 0 <= k < queue.len() && queue[k] == t2;
            if k < queue.len() - 1 {
                assert(queue.drop_last()[k] == t2);
            } else {
                assert(t2 == queue.last() as int);
            }
        }
    }
}

/// Membership survives moving the queue's last entry over to the visited
/// list.
proof fn lemma_in_sets_move_last(visited: Seq<usize>, oldq: Seq<usize>)
    requires
        oldq.len() > 0,
    ensures
        forall|t2: int|
            #[trigger] in_sets(visited, oldq, t2) ==> in_sets(
                visited.push(oldq.last()),
                oldq.drop_last(),
                t2,
            ),
{
    assert forall|t2: int|
        #[trigger] in_sets(visited, oldq, t2) implies in_sets(
        visited.push(oldq.last()),
        oldq.drop_last(),
        t2,
    ) by {
        if has_idx(visited, t2) {
            let k = choose|k: int| 0 <= k < visited.len() && visited[k] == t2;
            assert(visited.push(oldq.last())[k] == t2);
        } else {
            let k = choose|k: int| 0 <= k < oldq.len() && oldq[k] == t2;
            if k < oldq.len() - 1 {
                assert(oldq.drop_last()[k] == t2);
            } else {
                assert(visited.push(oldq.last())[visited.len() as int] == t2);
            }
        }
    }
}

/// Every name reachable in `nn` steps is the name of a visited record, when
/// the visited list contains the requirement seeds and is closed under
/// dependency links.
proof fn lemma_bfs_complete(
    rs: Seq<RecordModel>,
    sms: Seq<SpecModel>,
    p: Platform,
    visited: Seq<usize>,
    nn: nat,
    name: Seq<char>,
)
    requires
        names_unique_on(rs, p),
        forall|k: int|
            0 <= k < visited.len() ==> (#[trigger] visited[k] as int) < rs.len() && rec_on(
                rs[visited[k] as int],
                p,
            ),
        forall|s0: int|
            0 <= s0 < sms.len() ==> name_listed(
                rs,
                visited,
                Seq::<usize>::empty(),
                (#[trigger] sms[s0]).name,
            ),
        forall|k: int|
            0 <= k < visited.len() ==> deps_linked(
                rs,
                p,
                visited,
                Seq::<usize>::empty(),
                rs[#[trigger] visited[k] as int],
            ),
        reach_n(rs, sms, p, name, nn),
    ensures
        name_listed(rs, visited, Seq::<usize>::empty(), name),
    decreases nn,
{
    if nn == 0 {
        let s0 = choose|s0: int| 0 <= s0 < sms.len() && (#[trigger] sms[s0]).name == name;
        assert(name_listed(rs, visited, Seq::<usize>::empty(), sms[s0].name));
        let t = choose|t: int|
            0 <= t < rs.len() && #[trigger] in_sets(visited, Seq::<usize>::empty(), t)
                && rs[t].name == sms[s0].name;
        assert(has_idx(visited, t));
    } else {
        if reach_n(rs, sms, p, name, (nn - 1) as nat) {
            lemma_bfs_complete(rs, sms, p, visited, (nn - 1) as nat, name);
        } else {
            let (k, di) = choose|k: int, di: int|
                {
                    &&& 0 <= k < rs.len()
                    &&& #[trigger] rec_on(rs[k], p)
                    &&& reach_n(rs, sms, p, rs[k].name, (nn - 1) as nat)
                    &&& 0 <= di < rs[k].depends.len()
                    &&& !spec_virtual_dep(#[trigger] rs[k].depends[di])
                    &&& match_spec_parses(false, rs[k].depends[di])
                    &&& match_spec_name(false, rs[k].depends[di]) == Some(name)
                };
            lemma_bfs_complete(rs, sms, p, visited, (nn - 1) as nat, rs[k].name);
            let tk = choose|t: int|
                0 <= t < rs.len() && has_idx(visited, t) && rs[t].name == rs[k].name;
            let kk = choose|kk: int| 0 <= kk < visited.len() && visited[kk] == tk;
            assert(rec_on(rs[tk], p));
            if tk < k {
                assert(rs[tk].name != rs[k].name);
            } else if k < tk {
                assert(rs[k].name != rs[tk].name);
            }
            assert(tk == k);
            assert(deps_linked(rs, p, visited, Seq::<usize>::empty(), rs[k]));
            assert(name_listed(rs, visited, Seq::<usize>::empty(), match_spec_name(false, rs[k].depends[di])->Some_0));
            let t2 = choose|t2: int|
                0 <= t2 < rs.len() && #[trigger] in_sets(visited, Seq::<usize>::empty(), t2)
                    && rs[t2].name == match_spec_name(false, rs[k].depends[di])->Some_0;
            assert(rs[t2].name == name);
            assert(has_idx(visited, t2));
        }
    }
}

/// The number of `true` entries.
pub open spec fn count_true(s: Seq<bool>) -> int
    decreases s.len(),
{
    if s.len() == 0 {
        0
    } else {
        count_true(s.drop_last()) + if s.last() {
            1int
        } else {
            0int
        }
    }
}

proof fn lemma_count_true_bounds(s: Seq<bool>)
    ensures
        0 <= count_true(s) <= s.len(),
    decreases s.len(),
{
    if s.len() > 0 {
        lemma_count_true_bounds(s.drop_last());
    }
}

proof fn lemma_count_true_update(s: Seq<bool>, i: int)
    requires
        0 <= i < s.len(),
        !s[i],
    ensures
        count_true(s.update(i, true)) == count_true(s) + 1,
    decreases s.len(),
{
    let t = s.update(i, true);
    if i == s.len() - 1 {
        assert(t.drop_last() =~= s.drop_last());
    } else {
        assert(t.drop_last() =~= s.drop_last().update(i, true));
        lemma_count_true_update(s.drop_last(), i);
    }
}

/// The working-set membership test used while grouping.
fn subdir_platform(rec: &LockRecord) -> (r: Option<Platform>)
    ensures
        r == spec_platform_of(rec.subdir@),
{
    Platform::from_str(rec.subdir.as_str())
}

/// Every record of the working set of `p` whose index is below `i` is listed
/// in `rp`.
pub open spec fn rp_complete(
    rs: Seq<RecordModel>,
    rp: Seq<usize>,
    p: Platform,
    i: int,
) -> bool {
    forall|j: int| 0 <= j < i && #[trigger] rec_on(rs[j], p) ==> has_idx(rp, j)
}

/// Validate one target platform: the working set (records whose subdir is
/// the platform or noarch) must be non-empty with unique names; every
/// requirement must resolve there; and the dependency closure seeded by the
/// requirements must check out. Returns the indices of the visited records.
#[verifier::loop_isolation(false)]
#[verifier::rlimit(60)]
pub fn validate_platform(
    records: &Vec<LockRecord>,
    specs: &Vec<SpecReq>,
    p: Platform,
) -> (r: Result<Vec<usize>, DistError>)
    requires
        p != Platform::NoArch,
        forall|i: int| 0 <= i < records@.len() ==> (#[trigger] records@[i])@.wf(),
        forall|i: int| 0 <= i < specs@.len() ==> (#[trigger] specs@[i])@.wf(),
        forall|i: int|
            0 <= i < records@.len() ==> spec_platform_of((#[trigger] records@[i])@.subdir) is Some,
    ensures
        ({
            let rs = models_of(records@);
            let sms = spec_models(specs@);
            match r {
                Ok(visited) => {
                    &&& platform_valid(rs, sms, p)
                    &&& forall|k: int|
                        0 <= k < visited@.len() ==> {
                            &&& (#[trigger] visited@[k] as int) < rs.len()
                            &&& rec_on(rs[visited@[k] as int], p)
                            &&& reachable(rs, sms, p, rs[visited@[k] as int].name)
                        }
                    &&& forall|ri: int|
                        0 <= ri < rs.len() && #[trigger] rec_on(rs[ri], p) && reachable(
                            rs,
                            sms,
                            p,
                            rs[ri].name,
                        ) ==> has_idx(visited@, ri)
                },
                Err(e) => !platform_valid(rs, sms, p) && e.kind == ErrorKind::LockStale,
            }
        }),
{
    let ghost rs = models_of(records@);
    let ghost sms = spec_models(specs@);
    proof {
        assert forall|i: int| 0 <= i < rs.len() implies #[trigger] rs[i] == records@[i]@ by {}
        assert forall|i: int| 0 <= i < sms.len() implies #[trigger] sms[i] == specs@[i]@ by {}
    }
    let n = records.len();

    // Group: indices of records on this platform's working set.
    let mut rp: Vec<usize> = Vec::new();
    let mut i: usize = 0;
    while i < n
        invariant
            i <= n,
            forall|k: int| 0 <= k < rp@.len() ==> (#[trigger] rp@[k] as int) < i,
            forall|k1: int, k2: int| 0 <= k1 < k2 < rp@.len() ==> rp@[k1] < rp@[k2],
            forall|k: int| 0 <= k < rp@.len() ==> rec_on(rs[#[trigger] rp@[k] as int], p),
            rp_complete(rs, rp@, p, i as int),
        decreases n - i,
    {
        let rec = &records[i];
        let on_set = match subdir_platform(rec) {
            Some(pl) => pl == p || matches!(pl, Platform::NoArch),
            None => false,
        };
        proof {
            assert(on_set == rec_on(rs[i as int], p));
        }
        if on_set {
            let ghost old_rp = rp@;
            rp.push(i);
            proof {
                assert(rp@[old_rp.len() as int] == i);
                assert forall|j: int|
                    0 <= j < i + 1 && #[trigger] rec_on(rs[j], p) implies has_idx(rp@, j) by {
                    if j < i {
                        let k = choose|k: int| 0 <= k < old_rp.len() && old_rp[k] == j;
                        assert(rp@[k] == j);
                    } else {
                        assert(rp@[old_rp.len() as int] == j);
                    }
                }
            }
        }
        i = i + 1;
    }

    if rp.len() == 0 {
        proof {
            assert forall|ri: int| 0 <= ri < rs.len() implies !rec_on(rs[ri], p) by {
                if rec_on(rs[ri], p) {
                    assert(has_idx(rp@, ri));
                }
            }
        }
        return Err(DistError::new(
            ErrorKind::LockStale,
            String::from_str("lockfile does not contain any packages for the target platform"),
        ));
    }

    // Unique names within the working set.
    let m = rp.len();
    let mut a: usize = 0;
    while a < m
        invariant
            a <= m,
            m == rp@.len(),
            forall|x: int, y: int|
                0 <= x < y < m && x < a ==> rs[#[trigger] rp@[x] as int].name
                    != rs[#[trigger] rp@[y] as int].name,
        decreases m - a,
    {
        let mut b: usize = a + 1;
        while b < m
            invariant
                a < b <= m,
                forall|y: int|
                    a < y < b ==> rs[rp@[a as int] as int].name != rs[#[trigger] rp@[y] as int].name,
            decreases m - b,
        {
            let ra = rp[a];
            let rb = rp[b];
            if crate::records::eq_str(&records[ra].name, &records[rb].name) {
                proof {
                    assert(rec_on(rs[ra as int], p));
                    assert(rec_on(rs[rb as int], p));
                    assert(ra < rb);
                    assert(!names_unique_on(rs, p));
                }
                return Err(DistError::new(
                    ErrorKind::LockStale,
                    String::from_str("lockfile contains multiple entries for a package"),
                ));
            }
            b = b + 1;
        }
        a = a + 1;
    }
    proof {
        assert forall|x: int, y: int|
            0 <= x < y < rs.len() && #[trigger] rec_on(rs[x], p) && #[trigger] rec_on(rs[y], p)
            implies rs[x].name != rs[y].name by {
            assert(has_idx(rp@, x));
            assert(has_idx(rp@, y));
            let kx = choose|k: int| 0 <= k < rp@.len() && rp@[k] == x;
            let ky = choose|k: int| 0 <= k < rp@.len() && rp@[k] == y;
            if kx < ky {
            } else if ky < kx {
            } else {
                assert(x == y);
            }
        }
        assert(names_unique_on(rs, p));
    }

    // Seed the closure with the manifest requirements.
    let mut queue: Vec<usize> = Vec::new();
    let mut si: usize = 0;
    while si < specs.len()
        invariant
            si <= specs@.len(),
            forall|k: int|
                0 <= k < queue@.len() ==> {
                    &&& (#[trigger] queue@[k] as int) < n
                    &&& rec_on(rs[queue@[k] as int], p)
                    &&& reachable(rs, sms, p, rs[queue@[k] as int].name)
                },
            forall|s0: int|
                0 <= s0 < si ==> name_listed(
                    rs,
                    Seq::<usize>::empty(),
                    queue@,
                    (#[trigger] sms[s0]).name,
                ),
            forall|s0: int| 0 <= s0 < si ==> spec_req_ok(rs, p, #[trigger] sms[s0]),
        decreases specs@.len() - si,
    {
        let name = &specs[si].name;
        let mut k: usize = 0;
        let mut found = false;
        let mut found_ri: usize = 0;
        while k < m && !found
            invariant
                k <= m,
                !found ==> forall|k0: int| 0 <= k0 < k ==> rs[#[trigger] rp@[k0] as int].name
                    != name@,
                found ==> {
                    &&& (found_ri as int) < n
                    &&& rec_on(rs[found_ri as int], p)
                    &&& rs[found_ri as int].name == name@
                },
            decreases m - k + (if found { 0int } else { 1int }),
        {
            if crate::records::eq_str(&records[rp[k]].name, name) {
                found = true;
                found_ri = rp[k];
            } else {
                k = k + 1;
            }
        }
        let ri = if found {
            found_ri
        } else {
            {
                proof {
                    assert forall|k0: int|
                        0 <= k0 < rs.len() && #[trigger] rec_on(rs[k0], p) implies rs[k0].name
                        != sms[si as int].name by {
                        assert(has_idx(rp@, k0));
                        let kk = choose|kk: int| 0 <= kk < rp@.len() && rp@[kk] == k0;
                        assert(rs[rp@[kk] as int].name != name@);
                    }
                    assert(!spec_req_ok(rs, p, sms[si as int]));
                }
                return Err(DistError::new(
                    ErrorKind::LockStale,
                    String::from_str("lockfile is missing a package required by the manifest"),
                ));
            }
        };
        let rec = &records[ri];
        let ok = match_spec_check(
            specs[si].raw.as_str(),
            true,
            rec.name.as_str(),
            rec.version.as_str(),
            rec.build.as_str(),
            rec.subdir.as_str(),
        );
        if !ok {
            proof {
                assert forall|k0: int|
                    !(0 <= k0 < rs.len() && #[trigger] rec_on(rs[k0], p) && rs[k0].name
                        == sms[si as int].name && match_spec_accepts(
                        true,
                        sms[si as int].raw,
                        rs[k0].name,
                        rs[k0].version,
                        rs[k0].build,
                        rs[k0].subdir,
                    )) by {
                    if 0 <= k0 < rs.len() && rec_on(rs[k0], p) && rs[k0].name == sms[
                        si as int].name {
                        if k0 < ri {
                            assert(rs[k0].name != rs[ri as int].name);
                        } else if ri < k0 {
                            assert(rs[ri as int].name != rs[k0].name);
                        } else {
                            assert(!match_spec_accepts(
                                true,
                                sms[si as int].raw,
                                rs[k0].name,
                                rs[k0].version,
                                rs[k0].build,
                                rs[k0].subdir,
                            ));
                        }
                    }
                }
                assert(!spec_req_ok(rs, p, sms[si as int]));
            }
            return Err(DistError::new(
                ErrorKind::LockStale,
                String::from_str("a lockfile entry does not satisfy a manifest requirement"),
            ));
        }
        let ghost old_queue = queue@;
        queue.push(ri);
        proof {
            assert(sms[si as int] == specs@[si as int]@);
            assert(rs[ri as int].name == name@);
            assert(sms[si as int].name == name@);
            assert((si as int) < sms.len() && sms[si as int].name == rs[ri as int].name);
            assert(spec_req_ok(rs, p, sms[si as int]));
            assert(reach_n(rs, sms, p, rs[ri as int].name, 0));
            assert(reachable(rs, sms, p, rs[ri as int].name));
            lemma_in_sets_push(Seq::<usize>::empty(), old_queue, ri);
            assert forall|s0: int|
                0 <= s0 < si + 1 implies name_listed(
                rs,
                Seq::<usize>::empty(),
                queue@,
                (#[trigger] sms[s0]).name,
            ) by {
                if s0 < si {
                    lemma_name_listed_mono(
                        rs,
                        Seq::<usize>::empty(),
                        old_queue,
                        Seq::<usize>::empty(),
                        queue@,
                        sms[s0].name,
                    );
                } else {
                    assert(queue@[old_queue.len() as int] == ri);
                    assert(has_idx(queue@, ri as int));
                    assert(in_sets(Seq::<usize>::empty(), queue@, ri as int));
                }
            }
        }
        si = si + 1;
    }

    // Walk the dependency closure.
    let mut visited: Vec<usize> = Vec::new();
    let mut done: Vec<bool> = Vec::new();
    let mut d0: usize = 0;
    while d0 < n
        invariant
            d0 <= n,
            done@.len() == d0,
            forall|j: int| 0 <= j < d0 ==> !(#[trigger] done@[j]),
            count_true(done@) == 0,
        decreases n - d0,
    {
        let ghost old_done = done@;
        done.push(false);
        proof {
            assert(done@.drop_last() =~= old_done);
        }
        d0 = d0 + 1;
    }
    proof {
        assert(rs.len() == records@.len());
        assert forall|s0: int|
            0 <= s0 < sms.len() implies name_listed(
            rs,
            visited@,
            queue@,
            (#[trigger] sms[s0]).name,
        ) by {
            assert(name_listed(rs, Seq::<usize>::empty(), queue@, sms[s0].name));
            let t = choose|t: int|
                0 <= t < rs.len() && #[trigger] in_sets(Seq::<usize>::empty(), queue@, t)
                    && rs[t].name == sms[s0].name;
            assert(in_sets(visited@, queue@, t));
        }
    }

    while queue.len() > 0
        invariant
            done@.len() == n,
            forall|k: int|
                0 <= k < queue@.len() ==> {
                    &&& (#[trigger] queue@[k] as int) < n
                    &&& rec_on(rs[queue@[k] as int], p)
                    &&& reachable(rs, sms, p, rs[queue@[k] as int].name)
                },
            forall|k: int|
                0 <= k < visited@.len() ==> {
                    &&& (#[trigger] visited@[k] as int) < n
                    &&& rec_on(rs[visited@[k] as int], p)
                    &&& reachable(rs, sms, p, rs[visited@[k] as int].name)
                },
            forall|t: int| 0 <= t < n ==> ((#[trigger] done@[t]) <==> has_idx(visited@, t)),
            visited@.len() == count_true(done@),
            forall|k: int|
                0 <= k < visited@.len() ==> deps_linked(
                    rs,
                    p,
                    visited@,
                    queue@,
                    rs[#[trigger] visited@[k] as int],
                ),
            forall|s0: int|
                0 <= s0 < sms.len() ==> name_listed(rs, visited@, queue@, (#[trigger] sms[s0]).name),
        decreases n - count_true(done@), queue@.len(),
    {
        let t = queue[queue.len() - 1];
        let ghost old_queue = queue@;
        let _ = queue.pop();
        proof {
            assert(queue@ =~= old_queue.drop_last());
            assert(old_queue.last() == t);
            lemma_count_true_bounds(done@);
            assert forall|k: int| 0 <= k < queue@.len() implies {
                &&& (#[trigger] queue@[k] as int) < n
                &&& rec_on(rs[queue@[k] as int], p)
                &&& reachable(rs, sms, p, rs[queue@[k] as int].name)
            } by {
                assert(queue@[k] == old_queue[k]);
            }
        }
        if done[t] {
            proof {
                lemma_in_sets_pop(visited@, old_queue);
                assert forall|k: int|
                    0 <= k < visited@.len() implies deps_linked(
                    rs,
                    p,
                    visited@,
                    queue@,
                    rs[#[trigger] visited@[k] as int],
                ) by {
                    lemma_deps_linked_mono(
                        rs,
                        p,
                        visited@,
                        old_queue,
                        visited@,
                        queue@,
                        rs[visited@[k] as int],
                    );
                }
                assert forall|s0: int|
                    0 <= s0 < sms.len() implies name_listed(
                    rs,
                    visited@,
                    queue@,
                    (#[trigger] sms[s0]).name,
                ) by {
                    lemma_name_listed_mono(
                        rs,
                        visited@,
                        old_queue,
                        visited@,
                        queue@,
                        sms[s0].name,
                    );
                }
            }
            continue;
        }
        proof {
            lemma_in_sets_move_last(visited@, old_queue);
            assert forall|k: int|
                0 <= k < visited@.len() implies deps_linked(
                rs,
                p,
                visited@.push(t),
                queue@,
                rs[#[trigger] visited@[k] as int],
            ) by {
                lemma_deps_linked_mono(
                    rs,
                    p,
                    visited@,
                    old_queue,
                    visited@.push(t),
                    queue@,
                    rs[visited@[k] as int],
                );
            }
            assert forall|s0: int|
                0 <= s0 < sms.len() implies name_listed(
                rs,
                visited@.push(t),
                queue@,
                (#[trigger] sms[s0]).name,
            ) by {
                lemma_name_listed_mono(
                    rs,
                    visited@,
                    old_queue,
                    visited@.push(t),
                    queue@,
                    sms[s0].name,
                );
            }
        }
        // Check every dependency of the newly reached record.
        let rec = &records[t];
        let nd = rec.depends.len();
        let mut di: usize = 0;
        while di < nd
            invariant
                di <= nd,
                nd == rec.depends@.len(),
                forall|k: int|
                    0 <= k < queue@.len() ==> {
                        &&& (#[trigger] queue@[k] as int) < n
                        &&& rec_on(rs[queue@[k] as int], p)
                        &&& reachable(rs, sms, p, rs[queue@[k] as int].name)
                    },
                forall|k: int|
                    0 <= k < visited@.len() ==> deps_linked(
                        rs,
                        p,
                        visited@.push(t),
                        queue@,
                        rs[#[trigger] visited@[k] as int],
                    ),
                forall|s0: int|
                    0 <= s0 < sms.len() ==> name_listed(
                        rs,
                        visited@.push(t),
                        queue@,
                        (#[trigger] sms[s0]).name,
                    ),
                forall|dj: int|
                    0 <= dj < di && !spec_virtual_dep(#[trigger] rs[t as int].depends[dj]) ==> {
                        &&& dep_ok(rs, p, rs[t as int].depends[dj])
                        &&& name_listed(
                            rs,
                            visited@.push(t),
                            queue@,
                            match_spec_name(false, rs[t as int].depends[dj])->Some_0,
                        )
                    },
            decreases nd - di,
        {
            let d = &rec.depends[di];
            proof {
                assert(rs[t as int].depends[di as int] == d@);
            }
            if is_virtual_dep(d) {
                di = di + 1;
                continue;
            }
            let parsed = parse_match_spec_name(d.as_str(), false);
            let dep_name = match parsed {
                Ok(Some(dep_name)) => dep_name,
                Ok(None) => {
                    proof {
                        assert(!dep_ok(rs, p, rs[t as int].depends[di as int]));
                        assert(!deps_ok(rs, p, rs[t as int]));
                        assert(!platform_valid(rs, sms, p));
                    }
                    return Err(DistError::new(
                        ErrorKind::LockStale,
                        String::from_str("a lockfile dependency does not name a package"),
                    ));
                },
                Err(()) => {
                    proof {
                        assert(!dep_ok(rs, p, rs[t as int].depends[di as int]));
                        assert(!deps_ok(rs, p, rs[t as int]));
                        assert(!platform_valid(rs, sms, p));
                    }
                    return Err(DistError::new(
                        ErrorKind::LockStale,
                        String::from_str("failed to parse a dependency in the lockfile"),
                    ));
                },
            };
            let mut k: usize = 0;
            let mut found = false;
            let mut found_ri: usize = 0;
            while k < m && !found
                invariant
                    k <= m,
                    !found ==> forall|k0: int|
                        0 <= k0 < k ==> rs[#[trigger] rp@[k0] as int].name != dep_name@,
                    found ==> {
                        &&& (found_ri as int) < n
                        &&& rec_on(rs[found_ri as int], p)
                        &&& rs[found_ri as int].name == dep_name@
                    },
                decreases m - k + (if found {
                    0int
                } else {
                    1int
                }),
            {
                if crate::records::eq_str(&records[rp[k]].name, &dep_name) {
                    found = true;
                    found_ri = rp[k];
                } else {
                    k = k + 1;
                }
            }
            if !found {
                proof {
                    assert forall|k0: int|
                        0 <= k0 < rs.len() && #[trigger] rec_on(rs[k0], p) implies rs[k0].name
                        != dep_name@ by {
                        assert(has_idx(rp@, k0));
                        let kk = choose|kk: int| 0 <= kk < rp@.len() && rp@[kk] == k0;
                        assert(rs[rp@[kk] as int].name != dep_name@);
                    }
                    assert(!dep_ok(rs, p, rs[t as int].depends[di as int]));
                    assert(!deps_ok(rs, p, rs[t as int]));
                    assert(!platform_valid(rs, sms, p));
                }
                return Err(DistError::new(
                    ErrorKind::LockStale,
                    String::from_str("lockfile is missing a dependency of a locked package"),
                ));
            }
            let ri2 = found_ri;
            let rec2 = &records[ri2];
            let ok = match_spec_check(
                d.as_str(),
                false,
                rec2.name.as_str(),
                rec2.version.as_str(),
                rec2.build.as_str(),
                rec2.subdir.as_str(),
            );
            if !ok {
                proof {
                    let ghost dm = rs[t as int].depends[di as int];
                    assert forall|k0: int|
                        !(0 <= k0 < rs.len() && #[trigger] rec_on(rs[k0], p) && rs[k0].name
                            == match_spec_name(false, dm)->Some_0 && match_spec_accepts(
                            false,
                            dm,
                            rs[k0].name,
                            rs[k0].version,
                            rs[k0].build,
                            rs[k0].subdir,
                        )) by {
                        if 0 <= k0 < rs.len() && rec_on(rs[k0], p) && rs[k0].name
                            == match_spec_name(false, dm)->Some_0 {
                            if k0 < ri2 {
                                assert(rs[k0].name != rs[ri2 as int].name);
                            } else if ri2 < k0 {
                                assert(rs[ri2 as int].name != rs[k0].name);
                            }
                        }
                    }
                    assert(!dep_ok(rs, p, dm));
                    assert(!deps_ok(rs, p, rs[t as int]));
                    assert(!platform_valid(rs, sms, p));
                }
                return Err(DistError::new(
                    ErrorKind::LockStale,
                    String::from_str("a lockfile entry does not satisfy a locked dependency"),
                ));
            }
            let ghost pre_queue = queue@;
            queue.push(ri2);
            proof {
                // The pushed record is reachable: one more step from `t`.
                let n0 = choose|n0: nat| reach_n(rs, sms, p, rs[t as int].name, n0);
                assert(reach_n(rs, sms, p, rs[t as int].name, n0));
                assert(reach_n(rs, sms, p, rs[ri2 as int].name, n0 + 1)) by {
                    assert({
                        &&& 0 <= (t as int) && (t as int) < rs.len()
                        &&& rec_on(rs[t as int], p)
                        &&& reach_n(rs, sms, p, rs[t as int].name, n0)
                        &&& 0 <= (di as int) && (di as int) < rs[t as int].depends.len()
                        &&& !spec_virtual_dep(rs[t as int].depends[di as int])
                        &&& match_spec_parses(false, rs[t as int].depends[di as int])
                        &&& match_spec_name(false, rs[t as int].depends[di as int]) == Some(
                            rs[ri2 as int].name,
                        )
                    });
                }
                assert(reachable(rs, sms, p, rs[ri2 as int].name));
                assert(queue@ =~= pre_queue.push(ri2));
                assert forall|k2: int| 0 <= k2 < queue@.len() implies {
                    &&& (#[trigger] queue@[k2] as int) < n
                    &&& rec_on(rs[queue@[k2] as int], p)
                    &&& reachable(rs, sms, p, rs[queue@[k2] as int].name)
                } by {
                    if k2 < pre_queue.len() {
                        assert(queue@[k2] == pre_queue[k2]);
                    } else {
                        assert(queue@[k2] == ri2);
                    }
                }
                lemma_in_sets_push(visited@.push(t), pre_queue, ri2);
                assert forall|kk: int|
                    0 <= kk < visited@.len() implies deps_linked(
                    rs,
                    p,
                    visited@.push(t),
                    queue@,
                    rs[#[trigger] visited@[kk] as int],
                ) by {
                    lemma_deps_linked_mono(
                        rs,
                        p,
                        visited@.push(t),
                        pre_queue,
                        visited@.push(t),
                        queue@,
                        rs[visited@[kk] as int],
                    );
                }
                assert forall|s0: int|
                    0 <= s0 < sms.len() implies name_listed(
                    rs,
                    visited@.push(t),
                    queue@,
                    (#[trigger] sms[s0]).name,
                ) by {
                    lemma_name_listed_mono(
                        rs,
                        visited@.push(t),
                        pre_queue,
                        visited@.push(t),
                        queue@,
                        sms[s0].name,
                    );
                }
                assert forall|dj: int|
                    0 <= dj < di + 1 && !spec_virtual_dep(
                    #[trigger] rs[t as int].depends[dj]) implies {
                    &&& dep_ok(rs, p, rs[t as int].depends[dj])
                    &&& name_listed(
                        rs,
                        visited@.push(t),
                        queue@,
                        match_spec_name(false, rs[t as int].depends[dj])->Some_0,
                    )
                } by {
                    if dj < di {
                        lemma_name_listed_mono(
                            rs,
                            visited@.push(t),
                            pre_queue,
                            visited@.push(t),
                            queue@,
                            match_spec_name(false, rs[t as int].depends[dj])->Some_0,
                        );
                    } else {
                        assert(queue@[pre_queue.len() as int] == ri2);
                        assert(has_idx(queue@, ri2 as int));
                        assert(in_sets(visited@.push(t), queue@, ri2 as int));
                    }
                }
            }
            di = di + 1;
        }
        // Record the visit.
        let ghost old_visited = visited@;
        let ghost old_done = done@;
        visited.push(t);
        done[t] = true;
        proof {
            assert(visited@ =~= old_visited.push(t));
            assert(done@ =~= old_done.update(t as int, true));
            lemma_count_true_update(old_done, t as int);
            lemma_count_true_bounds(done@);
            assert(visited@[old_visited.len() as int] == t);
            assert(has_idx(visited@, t as int));
            assert forall|k: int| 0 <= k < visited@.len() implies {
                &&& (#[trigger] visited@[k] as int) < n
                &&& rec_on(rs[visited@[k] as int], p)
                &&& reachable(rs, sms, p, rs[visited@[k] as int].name)
            } by {
                if k < old_visited.len() {
                    assert(visited@[k] == old_visited[k]);
                } else {
                    assert(visited@[k] == t);
                }
            }
            assert forall|t2: int|
                0 <= t2 < n implies ((#[trigger] done@[t2]) <==> has_idx(visited@, t2)) by {
                if t2 == t as int {
                } else {
                    if old_done[t2] {
                        let k2 = choose|k2: int|
                            0 <= k2 < old_visited.len() && old_visited[k2] == t2;
                        assert(visited@[k2] == t2);
                    } else {
                        if has_idx(visited@, t2) {
                            let k2 = choose|k2: int|
                                0 <= k2 < visited@.len() && visited@[k2] == t2;
                            assert(k2 < old_visited.len());
                            assert(old_visited[k2] == t2);
                        }
                    }
                }
            }
            assert forall|k: int|
                0 <= k < visited@.len() implies deps_linked(
                rs,
                p,
                visited@,
                queue@,
                rs[#[trigger] visited@[k] as int],
            ) by {
                if k < old_visited.len() {
                    assert(deps_linked(rs, p, old_visited.push(t), queue@, rs[old_visited[k] as int]));
                    assert(rs[visited@[k] as int] == rs[old_visited[k] as int]);
                } else {
                    assert(visited@[k] == t);
                    assert forall|dj: int|
                        0 <= dj < rs[t as int].depends.len() && !spec_virtual_dep(
                        #[trigger] rs[t as int].depends[dj]) implies {
                        &&& dep_ok(rs, p, rs[t as int].depends[dj])
                        &&& exists|t2: int|
                            0 <= t2 < rs.len() && in_sets(visited@, queue@, t2) && rs[t2].name
                                == match_spec_name(false, rs[t as int].depends[dj])->Some_0
                    } by {
                        let t2 = choose|t2: int|
                            0 <= t2 < n && in_sets(old_visited.push(t), queue@, t2) && rs[t2].name
                                == match_spec_name(false, rs[t as int].depends[dj])->Some_0;
                        assert(in_sets(old_visited.push(t), queue@, t2));
                        assert(in_sets(visited@, queue@, t2));
                    }
                }
            }
            assert forall|s0: int|
                0 <= s0 < sms.len() implies exists|t2: int|
                0 <= t2 < n && in_sets(visited@, queue@, t2) && rs[t2].name == (
            #[trigger] sms[s0]).name by {
                let t2 = choose|t2: int|
                    0 <= t2 < n && in_sets(old_visited.push(t), queue@, t2) && rs[t2].name
                        == sms[s0].name;
                assert(in_sets(old_visited.push(t), queue@, t2));
                assert(in_sets(visited@, queue@, t2));
            }
        }
    }

    // The queue has drained: the visited list is closed under dependency
    // links and contains a record for every requirement.
    proof {
        assert(queue@.len() == 0);
        assert forall|k: int|
            0 <= k < visited@.len() implies deps_linked(
            rs,
            p,
            visited@,
            Seq::<usize>::empty(),
            rs[#[trigger] visited@[k] as int],
        ) by {
            lemma_deps_linked_mono(
                rs,
                p,
                visited@,
                queue@,
                visited@,
                Seq::<usize>::empty(),
                rs[visited@[k] as int],
            );
        }
        assert forall|s0: int|
            0 <= s0 < sms.len() implies name_listed(
            rs,
            visited@,
            Seq::<usize>::empty(),
            (#[trigger] sms[s0]).name,
        ) by {
            lemma_name_listed_mono(
                rs,
                visited@,
                queue@,
                visited@,
                Seq::<usize>::empty(),
                sms[s0].name,
            );
        }
        // Every reachable record of the working set is visited.
        assert forall|ri: int|
            0 <= ri < rs.len() && #[trigger] rec_on(rs[ri], p) && reachable(
            rs,
            sms,
            p,
            rs[ri].name,
        ) implies has_idx(visited@, ri) by {
            let nn = choose|nn: nat| reach_n(rs, sms, p, rs[ri].name, nn);
            lemma_bfs_complete(rs, sms, p, visited@, nn, rs[ri].name);
            let t = choose|t: int|
                0 <= t < rs.len() && #[trigger] in_sets(visited@, Seq::<usize>::empty(), t)
                    && rs[t].name == rs[ri].name;
            assert(has_idx(visited@, t));
            assert(rec_on(rs[t], p));
            if t < ri {
                assert(rs[t].name != rs[ri].name);
            } else if ri < t {
                assert(rs[ri].name != rs[t].name);
            }
            assert(t == ri);
        }
        // Visited records have their dependencies satisfied, so the platform
        // is valid.
        assert forall|ri: int|
            0 <= ri < rs.len() && #[trigger] rec_on(rs[ri], p) && reachable(
            rs,
            sms,
            p,
            rs[ri].name,
        ) implies deps_ok(rs, p, rs[ri]) by {
            assert(has_idx(visited@, ri));
            let k = choose|k: int| 0 <= k < visited@.len() && visited@[k] == ri;
            assert(deps_linked(rs, p, visited@, Seq::<usize>::empty(), rs[visited@[k] as int]));
        }
        assert(rec_on(rs[rp@[0] as int], p));
        assert(platform_valid(rs, sms, p));
    }
    Ok(visited)
}

/// Decide whether an existing lockfile still satisfies the manifest: every
/// target platform must validate on its own, and the union of the visited
/// dependency closures must cover every record — otherwise the lockfile
/// holds extraneous packages. `Ok` exactly when the lockfile is valid.
#[verifier::loop_isolation(false)]
#[verifier::rlimit(60)]
pub fn validate_lockfile(
    records: &Vec<LockRecord>,
    specs: &Vec<SpecReq>,
    targets: &Vec<Platform>,
) -> (r: Result<(), DistError>)
    requires
        forall|i: int| 0 <= i < records@.len() ==> (#[trigger] records@[i])@.wf(),
        forall|i: int| 0 <= i < specs@.len() ==> (#[trigger] specs@[i])@.wf(),
    ensures
        r is Ok <==> spec_lock_valid(models_of(records@), spec_models(specs@), targets@),
        r matches Err(e) ==> e.kind == ErrorKind::LockStale,
{
    let ghost rs = models_of(records@);
    let ghost sms = spec_models(specs@);
    proof {
        assert forall|i: int| 0 <= i < rs.len() implies #[trigger] rs[i] == records@[i]@ by {}
        assert forall|i: int| 0 <= i < sms.len() implies #[trigger] sms[i] == specs@[i]@ by {}
    }
    let n = records.len();

    // Every subdir must name a recognized platform.
    let mut i: usize = 0;
    while i < n
        invariant
            i <= n,
            forall|j: int| 0 <= j < i ==> spec_platform_of((#[trigger] rs[j]).subdir) is Some,
        decreases n - i,
    {
        if Platform::from_str(records[i].subdir.as_str()).is_none() {
            proof {
                assert(spec_platform_of(rs[i as int].subdir) is None);
            }
            return Err(DistError::new(
                ErrorKind::LockStale,
                String::from_str("a lockfile entry has an unrecognised subdir"),
            ));
        }
        i = i + 1;
    }
    proof {
        assert forall|ii: int|
            0 <= ii < records@.len() implies spec_platform_of(
            (#[trigger] records@[ii])@.subdir,
        ) is Some by {
            assert(rs[ii] == records@[ii]@);
            assert(spec_platform_of(rs[ii].subdir) is Some);
        }
    }

    // A `noarch` target cannot be validated on its own.
    let mut pi: usize = 0;
    while pi < targets.len()
        invariant
            pi <= targets@.len(),
            forall|j: int| 0 <= j < pi ==> (#[trigger] targets@[j]) != Platform::NoArch,
        decreases targets@.len() - pi,
    {
        if matches!(targets[pi], Platform::NoArch) {
            return Err(DistError::new(
                ErrorKind::LockStale,
                String::from_str("the noarch platform cannot be a validation target"),
            ));
        }
        pi = pi + 1;
    }

    // Validate each platform and pool the visited record indices.
    let mut covered: Vec<usize> = Vec::new();
    let mut pj: usize = 0;
    while pj < targets.len()
        invariant
            pj <= targets@.len(),
            forall|j: int| 0 <= j < pj ==> platform_valid(rs, sms, #[trigger] targets@[j]),
            forall|k: int|
                0 <= k < covered@.len() ==> {
                    &&& (#[trigger] covered@[k] as int) < n
                    &&& exists|j: int|
                        0 <= j < pj && rec_on(rs[covered@[k] as int], #[trigger] targets@[j])
                            && reachable(rs, sms, targets@[j], rs[covered@[k] as int].name)
                },
            forall|j: int, ri: int|
                0 <= j < pj && 0 <= ri < rs.len() && rec_on(#[trigger] rs[ri], #[trigger] targets@[j])
                    && reachable(rs, sms, targets@[j], rs[ri].name) ==> has_idx(covered@, ri),
        decreases targets@.len() - pj,
    {
        let p = targets[pj];
        let visited = match validate_platform(records, specs, p) {
            Ok(visited) => visited,
            Err(e) => {
                return Err(e);
            },
        };
        let ghost old_covered = covered@;
        let mut vi: usize = 0;
        while vi < visited.len()
            invariant
                vi <= visited@.len(),
                forall|k: int|
                    0 <= k < covered@.len() ==> {
                        &&& (#[trigger] covered@[k] as int) < n
                        &&& exists|j: int|
                            0 <= j < pj + 1 && rec_on(rs[covered@[k] as int], #[trigger] targets@[j])
                                && reachable(rs, sms, targets@[j], rs[covered@[k] as int].name)
                    },
                forall|t2: int| has_idx(old_covered, t2) ==> #[trigger] has_idx(covered@, t2),
                forall|k: int|
                    0 <= k < vi ==> #[trigger] has_idx(covered@, visited@[k] as int),
            decreases visited@.len() - vi,
        {
            let ghost pre = covered@;
            covered.push(visited[vi]);
            proof {
                assert(covered@[pre.len() as int] == visited@[vi as int]);
                assert forall|t2: int|
                    has_idx(old_covered, t2) implies #[trigger] has_idx(covered@, t2) by {
                    if has_idx(pre, t2) {
                        let k2 = choose|k2: int| 0 <= k2 < pre.len() && pre[k2] == t2;
                        assert(covered@[k2] == t2);
                    }
                }
                assert forall|k: int|
                    0 <= k < vi + 1 implies #[trigger] has_idx(covered@, visited@[k] as int) by {
                    if k < vi {
                        assert(has_idx(pre, visited@[k] as int));
                        let k2 = choose|k2: int|
                            0 <= k2 < pre.len() && pre[k2] == visited@[k] as int;
                        assert(covered@[k2] == visited@[k] as int);
                    } else {
                        assert(covered@[pre.len() as int] == visited@[k] as int);
                    }
                }
                assert(exists|j: int|
                    0 <= j < pj + 1 && rec_on(rs[visited@[vi as int] as int], #[trigger] targets@[j])
                        && reachable(rs, sms, targets@[j], rs[visited@[vi as int] as int].name));
            }
            vi = vi + 1;
        }
        proof {
            assert forall|j: int, ri: int|
                0 <= j < pj + 1 && 0 <= ri < rs.len() && rec_on(
                #[trigger] rs[ri],
                #[trigger] targets@[j],
            ) && reachable(rs, sms, targets@[j], rs[ri].name) implies has_idx(covered@, ri) by {
                if j < pj {
                    assert(has_idx(old_covered, ri));
                } else {
                    assert(has_idx(visited@, ri));
                    let k = choose|k: int| 0 <= k < visited@.len() && visited@[k] == ri;
                    assert(has_idx(covered@, visited@[k] as int));
                }
            }
        }
        pj = pj + 1;
    }

    // Every record must be covered by some platform's closure.
    let mut ri: usize = 0;
    while ri < n
        invariant
            ri <= n,
            forall|j: int|
                0 <= j < ri ==> exists|pi2: int|
                    0 <= pi2 < targets@.len() && rec_on(#[trigger] rs[j], targets@[pi2])
                        && reachable(rs, sms, targets@[pi2], rs[j].name),
        decreases n - ri,
    {
        let rec = &records[ri];
        let mut cj: usize = 0;
        let mut found = false;
        let mut found_t: usize = 0;
        while cj < covered.len() && !found
            invariant
                cj <= covered@.len(),
                !found ==> forall|k: int|
                    0 <= k < cj ==> rs[#[trigger] covered@[k] as int].lock_key()
                        != rs[ri as int].lock_key(),
                found ==> has_idx(covered@, found_t as int) && (found_t as int) < n
                    && rs[found_t as int].lock_key() == rs[ri as int].lock_key(),
            decreases covered@.len() - cj + (if found {
                0int
            } else {
                1int
            }),
        {
            let c = covered[cj];
            let same = crate::records::eq_str(&records[c].subdir, &rec.subdir)
                && crate::records::eq_str(&records[c].name, &rec.name);
            if same {
                found = true;
                found_t = c;
                proof {
                    assert(covered@[cj as int] == c);
                    assert(has_idx(covered@, c as int));
                }
            } else {
                cj = cj + 1;
            }
        }
        if !found {
            proof {
                assert forall|pi2: int|
                    !(0 <= pi2 < targets@.len() && rec_on(rs[ri as int], #[trigger] targets@[pi2])
                        && reachable(rs, sms, targets@[pi2], rs[ri as int].name)) by {
                    if 0 <= pi2 < targets@.len() && rec_on(rs[ri as int], targets@[pi2])
                        && reachable(rs, sms, targets@[pi2], rs[ri as int].name) {
                        assert(has_idx(covered@, ri as int));
                        let k = choose|k: int| 0 <= k < covered@.len() && covered@[k] == ri;
                        assert(rs[covered@[k] as int].lock_key() == rs[ri as int].lock_key());
                    }
                }
                assert(!spec_lock_valid(rs, sms, targets@));
            }
            return Err(DistError::new(
                ErrorKind::LockStale,
                String::from_str("lockfile contains packages unrelated to manifest dependencies"),
            ));
        }
        proof {
            let k = choose|k: int| 0 <= k < covered@.len() && covered@[k] == found_t;
            let j2 = choose|j2: int|
                0 <= j2 < targets@.len() && rec_on(rs[covered@[k] as int], #[trigger] targets@[j2])
                    && reachable(rs, sms, targets@[j2], rs[covered@[k] as int].name);
            assert(rs[found_t as int].subdir == rs[ri as int].subdir);
            assert(rs[found_t as int].name == rs[ri as int].name);
            assert(rec_on(rs[ri as int], targets@[j2]));
            assert(reachable(rs, sms, targets@[j2], rs[ri as int].name));
        }
        ri = ri + 1;
    }
    Ok(())
}

/// Validator soundness: when the validator accepts, every requirement is
/// resolved on every target platform, and every record has all of its
/// transitive non-virtual dependencies satisfied within the working set of
/// some target platform.
/// One platform's validity yields satisfied dependencies for one reachable
/// record.
proof fn lemma_platform_deps(rs: Seq<RecordModel>, sms: Seq<SpecModel>, p: Platform, ri: int)
    requires
        platform_valid(rs, sms, p),
        0 <= ri < rs.len(),
        rec_on(rs[ri], p),
        reachable(rs, sms, p, rs[ri].name),
    ensures
        deps_ok(rs, p, rs[ri]),
{
}

/// Validator soundness, per requirement: when the validator accepts, every
/// manifest requirement is resolved by a matching record on every target
/// platform.
pub proof fn lemma_validator_requirement(
    rs: Seq<RecordModel>,
    sms: Seq<SpecModel>,
    ts: Seq<Platform>,
    pi: int,
    si: int,
)
    requires
        spec_lock_valid(rs, sms, ts),
        0 <= pi < ts.len(),
        0 <= si < sms.len(),
    ensures
        spec_req_ok(rs, ts[pi], sms[si]),
{
    assert(platform_valid(rs, sms, ts[pi]));
}

/// Validator soundness, per record: when the validator accepts, every record
/// has all of its non-virtual dependencies satisfied within the working set
/// of some target platform on which it is reachable.
pub proof fn lemma_validator_soundness(
    rs: Seq<RecordModel>,
    sms: Seq<SpecModel>,
    ts: Seq<Platform>,
    ri: int,
)
    requires
        spec_lock_valid(rs, sms, ts),
        0 <= ri < rs.len(),
    ensures
        exists|pi: int|
            0 <= pi < ts.len() && rec_on(#[trigger] rs[ri], ts[pi]) && deps_ok(rs, ts[pi], rs[ri]),
{
    let pi = choose|pi: int|
        0 <= pi < ts.len() && rec_on(#[trigger] rs[ri], ts[pi]) && reachable(
            rs,
            sms,
            ts[pi],
            rs[ri].name,
        );
    assert(platform_valid(rs, sms, ts[pi]));
    lemma_platform_deps(rs, sms, ts[pi], ri);
    assert(0 <= pi < ts.len() && rec_on(rs[ri], ts[pi]) && deps_ok(rs, ts[pi], rs[ri]));
}

/// No extraneous lock entries: when the validator accepts, every record is
/// reachable from some manifest requirement by the dependency closure on
/// some target platform.
pub proof fn lemma_no_extraneous_records(
    rs: Seq<RecordModel>,
    sms: Seq<SpecModel>,
    ts: Seq<Platform>,
)
    requires
        spec_lock_valid(rs, sms, ts),
    ensures
        forall|ri: int|
            0 <= ri < rs.len() ==> exists|pi: int|
                0 <= pi < ts.len() && rec_on(#[trigger] rs[ri], ts[pi]) && reachable(
                    rs,
                    sms,
                    ts[pi],
                    rs[ri].name,
                ),
{
}

} // verus!
