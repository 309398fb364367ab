//! Container runtime selection: which engine a binary is, and which binary
//! a run uses.

use vstd::prelude::*;

verus! {

use crate::errors::{DistError, ErrorKind};
use crate::filters::{spec_first_occurrence, first_occurrence};
use crate::names::spec_normalized_name;
use crate::text::{chars_of, to_lower};

/// The supported container engines.
#[derive(Clone, Copy, Debug, PartialEq, Eq, Structural)]
pub enum RuntimeEngine {
    Docker,
    Podman,
}

/// A chosen container runtime: the binary path and the engine it is.
#[derive(Debug)]
pub struct RuntimeBinary {
    pub binary: String,
    pub engine: RuntimeEngine,
}

impl RuntimeBinary {
    /// Pair a binary path with its engine.
    pub fn new(binary: String, engine: RuntimeEngine) -> (r: RuntimeBinary)
        ensures
            r.binary@ == binary@,
            r.engine == engine,
    {
        RuntimeBinary { binary, engine }
    }

    /// The binary path.
    pub fn binary(&self) -> (r: &String)
        ensures
            r == self.binary,
    {
        &self.binary
    }

    /// The engine kind.
    pub fn engine(&self) -> (r: RuntimeEngine)
        ensures
            r == self.engine,
    {
        self.engine
    }
}

/// `needle` occurs somewhere in `hay`.
pub open spec fn spec_contains(hay: Seq<char>, needle: Seq<char>) -> bool {
    spec_first_occurrence(hay, needle, 0) is Some
}

/// The engine judged from a binary's lowercased file name: `docker` wins
/// over `podman`; anything else is unrecognized.
pub open spec fn spec_engine_of_name(file_name: Seq<char>) -> Option<RuntimeEngine> {
    let lower = spec_normalized_name(file_name);
    if spec_contains(lower, "docker"@) {
        Some(RuntimeEngine::Docker)
    } else if spec_contains(lower, "podman"@) {
        Some(RuntimeEngine::Podman)
    } else {
        None
    }
}

/// Judge the engine from a binary's file name.
pub fn detect_runtime_engine(file_name: &String) -> (r: Option<RuntimeEngine>)
    ensures
        r == spec_engine_of_name(file_name@),
{
    let chars = chars_of(file_name.as_str());
    let mut lower: Vec<char> = Vec::new();
    let mut i: usize = 0;
    while i < chars.len()
        invariant
            i <= chars@.len(),
            chars@ == file_name@,
            lower@ == spec_normalized_name(file_name@).subrange(0, i as int),
        decreases chars@.len() - i,
    {
        lower.push(to_lower(chars[i]));
        i = i + 1;
        proof {
            assert(lower@ =~= spec_normalized_name(file_name@).subrange(0, i as int));
        }
    }
    proof {
        assert(lower@ =~= spec_normalized_name(file_name@));
    }
    let docker: Vec<char> = vec!['d', 'o', 'c', 'k', 'e', 'r'];
    let podman: Vec<char> = vec!['p', 'o', 'd', 'm', 'a', 'n'];
    proof {
        reveal_strlit("docker");
        reveal_strlit("podman");
        assert(docker@ =~= "docker"@);
        assert(podman@ =~= "podman"@);
    }
    if first_occurrence(&lower, &docker, 0).is_some() {
        Some(RuntimeEngine::Docker)
    } else if first_occurrence(&lower, &podman, 0).is_some() {
        Some(RuntimeEngine::Podman)
    } else {
        None
    }
}

/// The runtime a run uses: an explicitly given binary must be recognizable
/// by its file name; otherwise a discovered docker binary wins, then a
/// discovered podman binary; with none available the run cannot proceed.
pub open spec fn spec_resolved_runtime(
    explicit_name: Option<Seq<char>>,
    docker_found: bool,
    podman_found: bool,
) -> Option<RuntimeEngine> {
    match explicit_name {
        Some(name) => spec_engine_of_name(name),
        None => if docker_found {
            Some(RuntimeEngine::Docker)
        } else if podman_found {
            Some(RuntimeEngine::Podman)
        } else {
            None
        },
    }
}

/// Choose the container runtime. `explicit` carries the requested binary
/// path and its file name; `docker` and `podman` carry the binaries found
/// on the search path, when any.
pub fn resolve_runtime(
    explicit: Option<(String, String)>,
    docker: Option<String>,
    podman: Option<String>,
) -> (r: Result<RuntimeBinary, DistError>)
    ensures
        r is Ok <==> spec_resolved_runtime(
            match explicit {
                Some(e) => Some(e.1@),
                None => None,
            },
            docker is Some,
            podman is Some,
        ) is Some,
        r matches Ok(rb) ==> Some(rb.engine) == spec_resolved_runtime(
            match explicit {
                Some(e) => Some(e.1@),
                None => None,
            },
            docker is Some,
            podman is Some,
        ),
        r matches Ok(rb) ==> (match explicit {
            Some(e) => rb.binary@ == e.0@,
            None => (if docker is Some {
                rb.binary@ == docker->Some_0@
            } else {
                podman is Some && rb.binary@ == podman->Some_0@
            }),
        }),
        r matches Err(e) ==> e.kind == ErrorKind::EngineMissing,
{
    match explicit {
        Some((path, file_name)) => {
            match detect_runtime_engine(&file_name) {
                Some(engine) => Ok(RuntimeBinary::new(path, engine)),
                None => Err(
                    DistError::new(
                        ErrorKind::EngineMissing,
                        String::from_str(
                            "unable to determine engine type; expected a docker or podman binary",
                        ),
                    ),
                ),
            }
        },
        None => {
            if let Some(path) = docker {
                return Ok(RuntimeBinary::new(path, RuntimeEngine::Docker));
            }
            if let Some(path) = podman {
                return Ok(RuntimeBinary::new(path, RuntimeEngine::Podman));
            }
            Err(
                DistError::new(
                    ErrorKind::EngineMissing,
                    String::from_str(
                        "no container engine found; install docker or podman, or supply a path",
                    ),
                ),
            )
        },
    }
}

/// The platform names joined by commas, in the order given.
pub open spec fn spec_platform_list(ps: Seq<crate::platform::Platform>) -> Seq<char>
    decreases ps.len(),
{
    if ps.len() == 0 {
        Seq::<char>::empty()
    } else if ps.len() == 1 {
        crate::platform::spec_platform_name(ps[0])
    } else {
        spec_platform_list(ps.drop_last()) + ", "@ + crate::platform::spec_platform_name(ps.last())
    }
}

/// Join the platform names with commas for display.
pub fn format_platform_list(platforms: &Vec<crate::platform::Platform>) -> (r: String)
    ensures
        r@ == spec_platform_list(platforms@),
{
    let mut out: Vec<char> = Vec::new();
    let mut i: usize = 0;
    while i < platforms.len()
        invariant
            i <= platforms@.len(),
            out@ == spec_platform_list(platforms@.subrange(0, i as int)),
        decreases platforms@.len() - i,
    {
        if i > 0 {
            out.push(',');
            out.push(' ');
        }
        let name = chars_of(platforms[i].as_str());
        crate::text::push_all(&mut out, &name);
        i = i + 1;
        proof {
            let cur = platforms@.subrange(0, i as int);
            assert(cur.drop_last() =~= platforms@.subrange(0, i - 1));
            assert(cur.last() == platforms@[i - 1]);
            reveal_strlit(", ");
            assert(out@ =~= spec_platform_list(cur));
        }
    }
    proof {
        assert(platforms@.subrange(0, platforms@.len() as int) =~= platforms@);
    }
    crate::text::collect_string(&out)
}

} // verus!
