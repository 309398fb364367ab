//! The workspace: the per-project directory that holds the package cache
//! and build areas, and the path bookkeeping around the manifest.

use vstd::prelude::*;

verus! {

use crate::archive::{join_path, spec_joined};
use crate::text::{chars_of, collect_string, push_all, sub_chars};

/// The workspace root directory.
pub struct Workspace {
    pub root: String,
}

impl Workspace {
    /// A workspace rooted at the given directory.
    pub fn new(root: String) -> (r: Workspace)
        ensures
            r.root@ == root@,
    {
        Workspace { root }
    }

    /// The container build area.
    pub fn container_root(&self) -> (r: String)
        ensures
            r@ == spec_joined(self.root@, "container"@),
    {
        join_path(&self.root, &String::from_str("container"))
    }

    /// The shared package cache directory.
    pub fn package_cache_dir(&self) -> (r: String)
        ensures
            r@ == spec_joined(self.root@, "package-cache"@),
    {
        join_path(&self.root, &String::from_str("package-cache"))
    }

    /// The native packaging work area.
    pub fn native_packaging_dir(&self) -> (r: String)
        ensures
            r@ == spec_joined(self.root@, "native-packaging"@),
    {
        join_path(&self.root, &String::from_str("native-packaging"))
    }
}

/// The workspace root chosen for a run: an explicit absolute path as given;
/// an explicit relative path under the manifest directory; or the default
/// `.conda-dist` directory beside the manifest.
pub open spec fn spec_workspace_root(
    manifest_dir: Seq<char>,
    explicit: Option<Seq<char>>,
    explicit_absolute: bool,
) -> Seq<char> {
    match explicit {
        Some(p) => if explicit_absolute {
            p
        } else {
            spec_joined(manifest_dir, p)
        },
        None => spec_joined(manifest_dir, ".conda-dist"@),
    }
}

/// Resolve the workspace root; whether an explicit path is absolute is
/// observed by the caller.
pub fn resolve_workspace_root(
    manifest_dir: &String,
    explicit: Option<&String>,
    explicit_absolute: bool,
) -> (r: String)
    ensures
        r@ == spec_workspace_root(
            manifest_dir@,
            match explicit {
                Some(p) => Some(p@),
                None => None,
            },
            explicit_absolute,
        ),
{
    match explicit {
        Some(p) => {
            if explicit_absolute {
                p.clone()
            } else {
                join_path(manifest_dir, p)
            }
        },
        None => join_path(manifest_dir, &String::from_str(".conda-dist")),
    }
}

/// The position just after the last `/` of `s`, or zero.
pub open spec fn spec_component_start(s: Seq<char>) -> int
    decreases s.len(),
{
    if s.len() == 0 {
        0
    } else if s.last() == '/' {
        s.len() as int
    } else {
        spec_component_start(s.drop_last())
    }
}

/// The position of the last `.` strictly after `from`, if any.
pub open spec fn spec_last_dot_after(s: Seq<char>, from: int) -> Option<int>
    decreases s.len(),
{
    if s.len() <= from || s.len() == 0 {
        None
    } else if s.last() == '.' && s.len() - 1 > from {
        Some(s.len() - 1)
    } else {
        spec_last_dot_after(s.drop_last(), from)
    }
}

/// The lockfile path beside a manifest: the manifest path with its extension
/// replaced by `lock` — the final component's last dot starts the extension,
/// a leading dot does not.
pub open spec fn spec_lockfile_path(s: Seq<char>) -> Seq<char> {
    let comp = spec_component_start(s);
    match spec_last_dot_after(s, comp) {
        Some(d) => s.subrange(0, d) + ".lock"@,
        None => s + ".lock"@,
    }
}

/// Derive the workspace lockfile path from the manifest path.
#[verifier::loop_isolation(false)]
pub fn lockfile_path(manifest_path: &String) -> (r: String)
    ensures
        r@ == spec_lockfile_path(manifest_path@),
{
    let chars = chars_of(manifest_path.as_str());
    let n = chars.len();
    let mut comp: usize = 0;
    let mut i: usize = 0;
    while i < n
        invariant
            i <= n,
            n == chars@.len(),
            chars@ == manifest_path@,
            comp == spec_component_start(chars@.subrange(0, i as int)),
            comp <= i,
        decreases n - i,
    {
        proof {
            assert(chars@.subrange(0, i + 1).drop_last() =~= chars@.subrange(0, i as int));
            assert(chars@.subrange(0, i + 1).last() == chars@[i as int]);
        }
        if chars[i] == '/' {
            comp = i + 1;
        }
        i = i + 1;
    }
    proof {
        assert(chars@.subrange(0, n as int) =~= chars@);
    }
    let mut dot: usize = 0;
    let mut has_dot = false;
    let mut j: usize = 0;
    while j < n
        invariant
            j <= n,
            has_dot ==> (dot as int) < j && chars@[dot as int] == '.' && (dot as int) > comp,
            spec_last_dot_after(chars@.subrange(0, j as int), comp as int) == (if has_dot {
                Some(dot as int)
            } else {
                None::<int>
            }),
        decreases n - j,
    {
        proof {
            assert(chars@.subrange(0, j + 1).drop_last() =~= chars@.subrange(0, j as int));
            assert(chars@.subrange(0, j + 1).last() == chars@[j as int]);
        }
        if chars[j] == '.' && j > comp {
            dot = j;
            has_dot = true;
        }
        j = j + 1;
        proof {
            let cur = chars@.subrange(0, j as int);
            if cur.last() == '.' && cur.len() - 1 > comp {
            } else {
                assert(spec_last_dot_after(cur, comp as int) == spec_last_dot_after(
                    cur.drop_last(),
                    comp as int,
                ));
            }
        }
    }
    proof {
        assert(chars@.subrange(0, n as int) =~= chars@);
    }
    let mut out: Vec<char> = if has_dot {
        sub_chars(&chars, 0, dot)
    } else {
        let mut all: Vec<char> = Vec::new();
        push_all(&mut all, &chars);
        proof {
            assert(all@ =~= chars@);
        }
        all
    };
    let suffix = chars_of(".lock");
    push_all(&mut out, &suffix);
    proof {
        assert(out@ =~= spec_lockfile_path(manifest_path@));
    }
    collect_string(&out)
}

} // verus!
