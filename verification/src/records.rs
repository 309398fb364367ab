//! Resolved package records as the pipeline sees them: plain fields, keyed
//! by `(subdir, file_name)` for deduplication and by `(subdir, name)` for
//! lockfile bookkeeping.

use vstd::prelude::*;

verus! {

use crate::conda::{version_parses, version_ok};
use crate::names::{spec_normalized_name, spec_package_name_valid, normalize_package_name};
use crate::text::spec_to_lower;

/// The mathematical image of a record: every field as a sequence.
pub ghost struct RecordModel {
    pub name: Seq<char>,
    pub version: Seq<char>,
    pub build: Seq<char>,
    pub subdir: Seq<char>,
    pub file_name: Seq<char>,
    pub url: Seq<char>,
    pub sha256: Option<Seq<u8>>,
    pub depends: Seq<Seq<char>>,
}

impl RecordModel {
    /// The name is a valid conda name in normalized form and the version
    /// parses.
    pub open spec fn wf(self) -> bool {
        &&& spec_package_name_valid(self.name)
        &&& self.name == spec_normalized_name(self.name)
        &&& version_parses(self.version)
    }

    /// The deduplication key: subdir and file name.
    pub open spec fn file_key(self) -> (Seq<char>, Seq<char>) {
        (self.subdir, self.file_name)
    }

    /// The lock key: subdir and normalized name.
    pub open spec fn lock_key(self) -> (Seq<char>, Seq<char>) {
        (self.subdir, self.name)
    }
}

/// A fully resolved package record with plain-value fields. The name is held
/// in normalized (lowercase) form, and the version string is known to parse
/// as a conda version.
#[derive(Debug)]
pub struct LockRecord {
    pub name: String,
    pub version: String,
    pub build: String,
    pub subdir: String,
    pub file_name: String,
    pub url: String,
    pub sha256: Option<Vec<u8>>,
    pub depends: Vec<String>,
}

impl View for LockRecord {
    type V = RecordModel;

    open spec fn view(&self) -> RecordModel {
        RecordModel {
            name: self.name@,
            version: self.version@,
            build: self.build@,
            subdir: self.subdir@,
            file_name: self.file_name@,
            url: self.url@,
            sha256: match self.sha256 {
                Some(b) => Some(b@),
                None => None,
            },
            depends: Seq::new(self.depends@.len(), |i: int| self.depends@[i]@),
        }
    }
}

/// The models of a sequence of records.
pub open spec fn models_of(s: Seq<LockRecord>) -> Seq<RecordModel> {
    s.map(|_i: int, r: LockRecord| r@)
}

impl LockRecord {
    /// Build a record, normalizing the name and checking the version; `None`
    /// when the name holds an illegal character or the version does not
    /// parse.
    pub fn new(
        name: &str,
        version: String,
        build: String,
        subdir: String,
        file_name: String,
        url: String,
        sha256: Option<Vec<u8>>,
        depends: Vec<String>,
    ) -> (r: Option<LockRecord>)
        ensures
            r is Some <==> (spec_package_name_valid(name@) && version_parses(version@)),
            r matches Some(rec) ==> {
                &&& rec@.wf()
                &&& rec@.name == spec_normalized_name(name@)
                &&& rec.version == version
                &&& rec.build == build
                &&& rec.subdir == subdir
                &&& rec.file_name == file_name
                &&& rec.url == url
                &&& rec.sha256 == sha256
                &&& rec.depends == depends
            },
    {
        let normalized = match normalize_package_name(name) {
            Some(n) => n,
            None => {
                return None;
            },
        };
        if !version_ok(version.as_str()) {
            return None;
        }
        proof {
            lemma_normalize_idempotent(name@);
        }
        Some(
            LockRecord {
                name: normalized,
                version,
                build,
                subdir,
                file_name,
                url,
                sha256,
                depends,
            },
        )
    }

    /// A copy of this record with the same model.
    pub fn duplicate(&self) -> (r: LockRecord)
        ensures
            r@ == self@,
    {
        let r = LockRecord {
            name: self.name.clone(),
            version: self.version.clone(),
            build: self.build.clone(),
            subdir: self.subdir.clone(),
            file_name: self.file_name.clone(),
            url: self.url.clone(),
            sha256: copy_opt_bytes(&self.sha256),
            depends: copy_strings(&self.depends),
        };
        proof {
            assert(r@.depends =~= self@.depends);
        }
        r
    }
}

/// Normalizing a name twice changes nothing, and normalizing keeps validity.
pub proof fn lemma_normalize_idempotent(s: Seq<char>)
    ensures
        spec_normalized_name(spec_normalized_name(s)) == spec_normalized_name(s),
        spec_package_name_valid(s) ==> spec_package_name_valid(spec_normalized_name(s)),
{
    let n = spec_normalized_name(s);
    assert forall|i: int| 0 <= i < n.len() implies spec_normalized_name(n)[i] == n[i] by {
        let c = s[i];
        assert(n[i] == spec_to_lower(c)) by {
            assert(s.map(|_i: int, ch: char| spec_to_lower(ch))[i] == spec_to_lower(s[i]));
        }
        assert(spec_normalized_name(n)[i] == spec_to_lower(n[i])) by {
            assert(n.map(|_i: int, ch: char| spec_to_lower(ch))[i] == spec_to_lower(n[i]));
        }
    }
    assert(spec_normalized_name(n) =~= n);
    if spec_package_name_valid(s) {
        assert forall|i: int|
            0 <= i < n.len() implies crate::names::spec_package_name_char(#[trigger] n[i]) by {
            let c = s[i];
            assert(n[i] == spec_to_lower(c)) by {
                assert(s.map(|_i: int, ch: char| spec_to_lower(ch))[i] == spec_to_lower(s[i]));
            }
            assert(crate::names::spec_package_name_char(c));
            assert(n[i] == spec_to_lower(c));
        }
    }
}

/// Copy a vector of strings.
pub fn copy_strings(v: &Vec<String>) -> (r: Vec<String>)
    ensures
        r@ == v@,
{
    let mut out: Vec<String> = Vec::new();
    let mut i: usize = 0;
    while i < v.len()
        invariant
            i <= v@.len(),
            out@ == v@.subrange(0, i as int),
        decreases v@.len() - i,
    {
        out.push(v[i].clone());
        i = i + 1;
        proof {
            assert(out@ =~= v@.subrange(0, i as int));
        }
    }
    proof {
        assert(out@ =~= v@);
    }
    out
}

/// Copy an optional byte vector, preserving its contents.
pub fn copy_opt_bytes(v: &Option<Vec<u8>>) -> (r: Option<Vec<u8>>)
    ensures
        r is Some <==> v is Some,
        r matches Some(o) ==> v matches Some(b) && o@ == b@,
{
    match v {
        Some(bytes) => {
            let mut out: Vec<u8> = Vec::new();
            let mut i: usize = 0;
            while i < bytes.len()
                invariant
                    i <= bytes@.len(),
                    out@ == bytes@.subrange(0, i as int),
                decreases bytes@.len() - i,
            {
                out.push(bytes[i]);
                i = i + 1;
                proof {
                    assert(out@ =~= bytes@.subrange(0, i as int));
                }
            }
            proof {
                assert(out@ =~= bytes@);
            }
            Some(out)
        },
        None => None,
    }
}

/// The deduplicated sequence: each record whose `(subdir, file_name)` key was
/// not seen earlier is kept, in first-seen order.
pub open spec fn spec_dedup(s: Seq<RecordModel>) -> Seq<RecordModel>
    decreases s.len(),
{
    if s.len() == 0 {
        Seq::<RecordModel>::empty()
    } else {
        let prev = spec_dedup(s.drop_last());
        let rec = s.last();
        if exists|i: int| 0 <= i < s.len() - 1 && (#[trigger] s[i]).file_key() == rec.file_key() {
            prev
        } else {
            prev.push(rec)
        }
    }
}

/// Whether `s` holds a model with key `key` before index `end`.
pub open spec fn key_seen_before(s: Seq<RecordModel>, key: (Seq<char>, Seq<char>), end: int) -> bool {
    exists|i: int| 0 <= i < end && (#[trigger] s[i]).file_key() == key
}

/// Deduplicate records by `(subdir, file_name)`, keeping first-seen order.
#[verifier::loop_isolation(false)]
pub fn dedup_records(records: &Vec<LockRecord>) -> (r: Vec<LockRecord>)
    ensures
        models_of(r@) == spec_dedup(models_of(records@)),
{
    let ghost ms = models_of(records@);
    let mut out: Vec<LockRecord> = Vec::new();
    let mut i: usize = 0;
    while i < records.len()
        invariant
            i <= records@.len(),
            ms == models_of(records@),
            models_of(out@) == spec_dedup(ms.subrange(0, i as int)),
        decreases records@.len() - i,
    {
        let rec = &records[i];
        let ghost key = ms[i as int].file_key();
        let mut seen = false;
        let mut j: usize = 0;
        while j < i
            invariant
                j <= i < records@.len(),
                ms == models_of(records@),
                key == ms[i as int].file_key(),
                seen == key_seen_before(ms, key, j as int),
            decreases i - j,
        {
            let prior = &records[j];
            let same = eq_str(&prior.subdir, &rec.subdir) && eq_str(
                &prior.file_name,
                &rec.file_name,
            );
            proof {
                assert(models_of(records@)[j as int] == records@[j as int]@);
                assert(models_of(records@)[i as int] == records@[i as int]@);
                if same {
                    assert(ms[j as int].file_key() == key);
                    assert(key_seen_before(ms, key, j + 1));
                } else {
                    assert(ms[j as int].file_key() != key);
                    if !seen {
                        assert forall|w: int|
                            0 <= w < j + 1 implies (#[trigger] ms[w]).file_key() != key by {
                            if w < j {
                                assert(!key_seen_before(ms, key, j as int));
                            }
                        }
                    }
                }
            }
            seen = seen || same;
            j = j + 1;
        }
        if !seen {
            out.push(rec.duplicate());
        }
        i = i + 1;
        proof {
            let pre = ms.subrange(0, i as int);
            assert(pre.drop_last() =~= ms.subrange(0, i - 1));
            assert(pre.last() == ms[i - 1]);
            if seen {
                let w = choose|w: int| 0 <= w < i - 1 && (#[trigger] ms[w]).file_key() == key;
                assert(pre[w].file_key() == pre.last().file_key());
            } else {
                assert forall|w: int|
                    0 <= w < pre.len() - 1 implies (#[trigger] pre[w]).file_key()
                    != pre.last().file_key() by {
                    assert(ms[w].file_key() == pre[w].file_key());
                }
            }
            assert(models_of(out@) =~= spec_dedup(pre));
        }
    }
    proof {
        assert(ms.subrange(0, ms.len() as int) =~= ms);
    }
    out
}

/// Compare two strings for character equality.
pub fn eq_str(a: &String, b: &String) -> (r: bool)
    ensures
        r == (a@ == b@),
{
    a.eq(b)
}

} // verus!
