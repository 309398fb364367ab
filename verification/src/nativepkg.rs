//! Native packaging decisions: the closed package-format sum, the install
//! prefix rule, and the virtual-package set a solve advertises for a target
//! platform — defaults merged with the manifest's per-platform overrides.

use vstd::prelude::*;

verus! {

use crate::conda::{version_ok, version_parses};
use crate::config::PlatformVirtualPackageConfig;
use crate::errors::{DistError, ErrorKind};
use crate::names::spec_trim_ws;
use crate::platform::{spec_is_linux, spec_is_osx, spec_is_windows, Platform};
use crate::names::trim_ws;
use crate::text::chars_of;

/// The native package formats that can be produced.
#[derive(Clone, Copy, Debug, PartialEq, Eq, Hash, Structural)]
pub enum PackageFormat {
    Rpm,
    Deb,
}

impl PackageFormat {
    /// The short lowercase label of this format.
    pub fn label(self) -> (r: &'static str)
        ensures
            self == PackageFormat::Rpm ==> r@ == "rpm"@,
            self == PackageFormat::Deb ==> r@ == "deb"@,
    {
        match self {
            PackageFormat::Rpm => "rpm",
            PackageFormat::Deb => "deb",
        }
    }
}

/// The install prefix of native package payloads: the configured container
/// prefix, or `/opt/` plus the environment name; it must be absolute.
pub open spec fn spec_install_prefix(
    configured: Option<Seq<char>>,
    env: Seq<char>,
) -> Seq<char> {
    match configured {
        Some(p) => p,
        None => "/opt/"@ + env,
    }
}

/// Resolve the install prefix used by native package payloads; a relative
/// prefix is rejected.
pub fn install_prefix(configured: Option<&String>, environment_name: &String) -> (r: Result<
    String,
    DistError,
>)
    ensures
        ({
            let p = spec_install_prefix(
                match configured {
                    Some(c) => Some(c@),
                    None => None,
                },
                environment_name@,
            );
            &&& (r is Ok <==> (p.len() > 0 && p[0] == '/'))
            &&& (r matches Ok(out) ==> out@ == p)
        }),
        r matches Err(e) ==> e.kind == ErrorKind::ManifestInvalid,
{
    let prefix = match configured {
        Some(p) => p.clone(),
        None => {
            let mut out = chars_of("/opt/");
            let tail = chars_of(environment_name.as_str());
            crate::text::push_all(&mut out, &tail);
            proof {
                assert(out@ =~= "/opt/"@ + environment_name@);
            }
            crate::text::collect_string(&out)
        },
    };
    let chars = chars_of(prefix.as_str());
    if chars.len() == 0 || chars[0] != '/' {
        return Err(DistError::new(
            ErrorKind::ManifestInvalid,
            String::from_str("the install prefix must be an absolute path"),
        ));
    }
    Ok(prefix)
}

/// The virtual-package set advertised to the solver for one platform, as
/// plain decisions: each entry is present or absent with a version string.
#[derive(Debug)]
pub struct VirtualPackageSet {
    /// `__unix` is advertised.
    pub unix: bool,
    /// `__linux` with this kernel version.
    pub linux: Option<String>,
    /// `__glibc`-style libc: family and version.
    pub libc: Option<(String, String)>,
    /// `__osx` with this version.
    pub osx: Option<String>,
    /// `__win`, optionally carrying a version.
    pub win: Option<Option<String>>,
    /// `__cuda` with this version.
    pub cuda: Option<String>,
}

/// The default kernel version advertised for Linux targets.
pub open spec fn spec_default_linux() -> Seq<char> {
    "5.4"@
}

/// The default glibc version advertised for Linux targets.
pub open spec fn spec_default_glibc() -> Seq<char> {
    "2.17"@
}

/// The default system version advertised for macOS targets.
pub open spec fn spec_default_osx() -> Seq<char> {
    "13.0"@
}

/// The default system version advertised for Windows targets.
pub open spec fn spec_default_windows() -> Seq<char> {
    "10"@
}

/// The `__linux` decision: on Linux the override or the default; elsewhere
/// an override still applies, matching how overrides force the package.
pub open spec fn spec_linux_decision(p: Platform, ov: Option<Seq<char>>) -> Option<Seq<char>> {
    match ov {
        Some(v) => Some(v),
        None => if spec_is_linux(p) {
            Some(spec_default_linux())
        } else {
            None
        },
    }
}

/// The `__osx` decision, analogous to the Linux one.
pub open spec fn spec_osx_decision(p: Platform, ov: Option<Seq<char>>) -> Option<Seq<char>> {
    match ov {
        Some(v) => Some(v),
        None => if spec_is_osx(p) {
            Some(spec_default_osx())
        } else {
            None
        },
    }
}

/// The `__win` decision: a blank override keeps the package but clears its
/// version; otherwise the override or the platform default applies.
pub open spec fn spec_win_decision(p: Platform, ov: Option<Seq<char>>) -> Option<
    Option<Seq<char>>,
> {
    match ov {
        Some(v) => if spec_trim_ws(v).len() == 0 {
            Some(None)
        } else {
            Some(Some(v))
        },
        None => if spec_is_windows(p) {
            Some(Some(spec_default_windows()))
        } else {
            None
        },
    }
}

/// The `__cuda` decision: only an override advertises it, and a blank
/// override clears it.
pub open spec fn spec_cuda_decision(ov: Option<Seq<char>>) -> Option<Seq<char>> {
    match ov {
        Some(v) => if spec_trim_ws(v).len() == 0 {
            None
        } else {
            Some(v)
        },
        None => None,
    }
}

/// The libc decision: on Linux the override or `glibc` at its default
/// version; an override forces it elsewhere too.
pub open spec fn spec_libc_decision(p: Platform, ov: Option<(Seq<char>, Seq<char>)>) -> Option<
    (Seq<char>, Seq<char>),
> {
    match ov {
        Some(fv) => Some(fv),
        None => if spec_is_linux(p) {
            Some(("glibc"@, spec_default_glibc()))
        } else {
            None
        },
    }
}

/// Concatenate two strings.
pub fn concat_str(a: &str, b: &str) -> (r: String)
    ensures
        r@ == a@ + b@,
{
    let mut out = chars_of(a);
    let tail = chars_of(b);
    crate::text::push_all(&mut out, &tail);
    proof {
        assert(out@ =~= a@ + b@);
    }
    crate::text::collect_string(&out)
}

/// The command line of one containerized package build: a removed-on-exit
/// run pinned to the platform, the packaging inputs bind-mounted read-only,
/// the identifiers and paths passed through the environment, and the build
/// script as the container command.
pub open spec fn spec_package_run_args(
    runtime_spec: Seq<char>,
    uid: int,
    gid: int,
    script_path: Seq<char>,
    prefix: Seq<char>,
    installer_path: Seq<char>,
    packaging_root: Seq<char>,
    plan_rel: Seq<char>,
    output_dir: Seq<char>,
    image: Seq<char>,
) -> Seq<Seq<char>> {
    seq![
        "run"@,
        "--rm"@,
        "--platform"@,
        runtime_spec,
        "--env"@,
        "PKG_UID="@ + crate::text::spec_decimal(uid),
        "--env"@,
        "PKG_GID="@ + crate::text::spec_decimal(gid),
        "--mount"@,
        "type=bind,src="@ + script_path + ",dst=/tmp/conda-dist-package.sh,ro"@,
        "--env"@,
        "PKG_PREFIX="@ + prefix,
        "--mount"@,
        "type=bind,src="@ + installer_path + ",dst=/tmp/conda-dist-installer,ro"@,
        "--env"@,
        "PKG_INSTALLER=/tmp/conda-dist-installer"@,
        "--mount"@,
        "type=bind,src="@ + packaging_root + ",dst=/tmp/conda-dist-packages"@,
        "--env"@,
        "PKG_PACKAGING_ROOT=/tmp/conda-dist-packages"@,
        "--env"@,
        "PKG_PACKAGE_PLAN="@ + plan_rel,
        "--mount"@,
        "type=bind,src="@ + output_dir + ",dst=/output"@,
        image,
        "/bin/bash"@,
        "/tmp/conda-dist-package.sh"@,
    ]
}

/// Assemble the engine arguments for one containerized package build.
pub fn package_run_args(
    runtime_spec: &String,
    uid: u64,
    gid: u64,
    script_path: &String,
    prefix: &String,
    installer_path: &String,
    packaging_root: &String,
    plan_rel: &String,
    output_dir: &String,
    image: &String,
) -> (r: Vec<String>)
    ensures
        crate::metadata::spec_views(r@) == spec_package_run_args(
            runtime_spec@,
            uid as int,
            gid as int,
            script_path@,
            prefix@,
            installer_path@,
            packaging_root@,
            plan_rel@,
            output_dir@,
            image@,
        ),
{
    let uid_text = crate::text::decimal_string(uid);
    let gid_text = crate::text::decimal_string(gid);
    let mut out: Vec<String> = Vec::new();
    out.push(String::from_str("run"));
    out.push(String::from_str("--rm"));
    out.push(String::from_str("--platform"));
    out.push(runtime_spec.clone());
    out.push(String::from_str("--env"));
    out.push(concat_str("PKG_UID=", uid_text.as_str()));
    out.push(String::from_str("--env"));
    out.push(concat_str("PKG_GID=", gid_text.as_str()));
    out.push(String::from_str("--mount"));
    let script_mount = concat_str("type=bind,src=", script_path.as_str());
    out.push(concat_str(script_mount.as_str(), ",dst=/tmp/conda-dist-package.sh,ro"));
    out.push(String::from_str("--env"));
    out.push(concat_str("PKG_PREFIX=", prefix.as_str()));
    out.push(String::from_str("--mount"));
    let installer_mount = concat_str("type=bind,src=", installer_path.as_str());
    out.push(concat_str(installer_mount.as_str(), ",dst=/tmp/conda-dist-installer,ro"));
    out.push(String::from_str("--env"));
    out.push(String::from_str("PKG_INSTALLER=/tmp/conda-dist-installer"));
    out.push(String::from_str("--mount"));
    let packaging_mount = concat_str("type=bind,src=", packaging_root.as_str());
    out.push(concat_str(packaging_mount.as_str(), ",dst=/tmp/conda-dist-packages"));
    out.push(String::from_str("--env"));
    out.push(String::from_str("PKG_PACKAGING_ROOT=/tmp/conda-dist-packages"));
    out.push(String::from_str("--env"));
    out.push(concat_str("PKG_PACKAGE_PLAN=", plan_rel.as_str()));
    out.push(String::from_str("--mount"));
    let output_mount = concat_str("type=bind,src=", output_dir.as_str());
    out.push(concat_str(output_mount.as_str(), ",dst=/output"));
    out.push(image.clone());
    out.push(String::from_str("/bin/bash"));
    out.push(String::from_str("/tmp/conda-dist-package.sh"));
    proof {
        assert(crate::metadata::spec_views(out@) =~= spec_package_run_args(
            runtime_spec@,
            uid as int,
            gid as int,
            script_path@,
            prefix@,
            installer_path@,
            packaging_root@,
            plan_rel@,
            output_dir@,
            image@,
        ));
    }
    out
}

/// The linux override value, when one is given.
pub open spec fn spec_linux_ov(overrides: Option<&PlatformVirtualPackageConfig>) -> Option<
    Seq<char>,
> {
    match overrides {
        Some(o) => match o.linux {
            Some(ref v) => Some(v@),
            None => None,
        },
        None => None,
    }
}

/// The osx override value, when one is given.
pub open spec fn spec_osx_ov(overrides: Option<&PlatformVirtualPackageConfig>) -> Option<
    Seq<char>,
> {
    match overrides {
        Some(o) => match o.osx {
            Some(ref v) => Some(v@),
            None => None,
        },
        None => None,
    }
}

/// The win override value, when one is given.
pub open spec fn spec_win_ov(overrides: Option<&PlatformVirtualPackageConfig>) -> Option<
    Seq<char>,
> {
    match overrides {
        Some(o) => match o.win {
            Some(ref v) => Some(v@),
            None => None,
        },
        None => None,
    }
}

/// The cuda override value, when one is given.
pub open spec fn spec_cuda_ov(overrides: Option<&PlatformVirtualPackageConfig>) -> Option<
    Seq<char>,
> {
    match overrides {
        Some(o) => match o.cuda {
            Some(ref v) => Some(v@),
            None => None,
        },
        None => None,
    }
}

/// The libc override pair, when one is given.
pub open spec fn spec_libc_ov(overrides: Option<&PlatformVirtualPackageConfig>) -> Option<
    (Seq<char>, Seq<char>),
> {
    match overrides {
        Some(o) => match o.libc {
            Some(ref l) => Some((l.family@, l.version@)),
            None => None,
        },
        None => None,
    }
}

/// Every version string the decisions advertise parses as a conda version.
pub open spec fn spec_vp_versions_parse(
    platform: Platform,
    overrides: Option<&PlatformVirtualPackageConfig>,
) -> bool {
    &&& (match spec_linux_decision(platform, spec_linux_ov(overrides)) {
        Some(v) => version_parses(v),
        None => true,
    })
    &&& (match spec_osx_decision(platform, spec_osx_ov(overrides)) {
        Some(v) => version_parses(v),
        None => true,
    })
    &&& (match spec_win_decision(platform, spec_win_ov(overrides)) {
        Some(Some(v)) => version_parses(v),
        _ => true,
    })
    &&& (match spec_cuda_decision(spec_cuda_ov(overrides)) {
        Some(v) => version_parses(v),
        None => true,
    })
    &&& (match spec_libc_decision(platform, spec_libc_ov(overrides)) {
        Some((f, v)) => version_parses(v),
        None => true,
    })
}

/// Build the virtual-package set for a target platform from the defaults
/// and the manifest's overrides: accepted exactly when every version the
/// decisions advertise parses as a conda version.
pub fn virtual_packages_for_platform(
    platform: Platform,
    overrides: Option<&PlatformVirtualPackageConfig>,
) -> (r: Result<VirtualPackageSet, DistError>)
    ensures
        r is Ok <==> spec_vp_versions_parse(platform, overrides),
        r matches Ok(set) ==> {
            let lov = match overrides {
                Some(o) => match o.linux {
                    Some(ref v) => Some(v@),
                    None => None,
                },
                None => None,
            };
            let oov = match overrides {
                Some(o) => match o.osx {
                    Some(ref v) => Some(v@),
                    None => None,
                },
                None => None,
            };
            let wov = match overrides {
                Some(o) => match o.win {
                    Some(ref v) => Some(v@),
                    None => None,
                },
                None => None,
            };
            let cov = match overrides {
                Some(o) => match o.cuda {
                    Some(ref v) => Some(v@),
                    None => None,
                },
                None => None,
            };
            let bov = match overrides {
                Some(o) => match o.libc {
                    Some(ref l) => Some((l.family@, l.version@)),
                    None => None,
                },
                None => None,
            };
            &&& set.unix == (spec_is_linux(platform) || spec_is_osx(platform))
            &&& (match set.linux {
                Some(ref v) => Some(v@) == spec_linux_decision(platform, lov) && version_parses(
                    v@,
                ),
                None => spec_linux_decision(platform, lov) is None,
            })
            &&& (match set.osx {
                Some(ref v) => Some(v@) == spec_osx_decision(platform, oov) && version_parses(v@),
                None => spec_osx_decision(platform, oov) is None,
            })
            &&& (match set.cuda {
                Some(ref v) => Some(v@) == spec_cuda_decision(cov) && version_parses(v@),
                None => spec_cuda_decision(cov) is None,
            })
            &&& (match set.libc {
                Some((ref f, ref v)) => Some((f@, v@)) == spec_libc_decision(platform, bov)
                    && version_parses(v@),
                None => spec_libc_decision(platform, bov) is None,
            })
            &&& (match set.win {
                Some(Some(ref v)) => Some(Some(v@)) == spec_win_decision(platform, wov)
                    && version_parses(v@),
                Some(None) => spec_win_decision(platform, wov) == Some(None::<Seq<char>>),
                None => spec_win_decision(platform, wov) is None,
            })
        },
        r matches Err(e) ==> e.kind == ErrorKind::ManifestInvalid,
{
    let unix = platform.is_unix();

    let linux_ov = match overrides {
        Some(o) => match &o.linux {
            Some(v) => Some(v.clone()),
            None => None,
        },
        None => None,
    };
    let linux = match linux_ov {
        Some(v) => Some(v),
        None => if platform.is_linux() {
            Some(String::from_str("5.4"))
        } else {
            None
        },
    };
    if let Some(v) = &linux {
        if !version_ok(v.as_str()) {
            return Err(DistError::new(
                ErrorKind::ManifestInvalid,
                String::from_str("failed to parse a virtual package version"),
            ));
        }
    }

    let osx_ov = match overrides {
        Some(o) => match &o.osx {
            Some(v) => Some(v.clone()),
            None => None,
        },
        None => None,
    };
    let osx = match osx_ov {
        Some(v) => Some(v),
        None => if platform.is_osx() {
            Some(String::from_str("13.0"))
        } else {
            None
        },
    };
    if let Some(v) = &osx {
        if !version_ok(v.as_str()) {
            return Err(DistError::new(
                ErrorKind::ManifestInvalid,
                String::from_str("failed to parse a virtual package version"),
            ));
        }
    }

    let win_ov = match overrides {
        Some(o) => match &o.win {
            Some(v) => Some(v.clone()),
            None => None,
        },
        None => None,
    };
    let win = match win_ov {
        Some(v) => {
            let t = trim_ws(&chars_of(v.as_str()));
            if t.len() == 0 {
                Some(None)
            } else {
                Some(Some(v))
            }
        },
        None => if platform.is_windows() {
            Some(Some(String::from_str("10")))
        } else {
            None
        },
    };
    if let Some(Some(v)) = &win {
        if !version_ok(v.as_str()) {
            return Err(DistError::new(
                ErrorKind::ManifestInvalid,
                String::from_str("failed to parse a virtual package version"),
            ));
        }
    }

    let cuda_ov = match overrides {
        Some(o) => match &o.cuda {
            Some(v) => Some(v.clone()),
            None => None,
        },
        None => None,
    };
    let cuda = match cuda_ov {
        Some(v) => {
            let t = trim_ws(&chars_of(v.as_str()));
            if t.len() == 0 {
                None
            } else {
                Some(v)
            }
        },
        None => None,
    };
    if let Some(v) = &cuda {
        if !version_ok(v.as_str()) {
            return Err(DistError::new(
                ErrorKind::ManifestInvalid,
                String::from_str("failed to parse a virtual package version"),
            ));
        }
    }

    let libc_ov = match overrides {
        Some(o) => match &o.libc {
            Some(l) => Some((l.family.clone(), l.version.clone())),
            None => None,
        },
        None => None,
    };
    let libc = match libc_ov {
        Some(fv) => Some(fv),
        None => if platform.is_linux() {
            Some((String::from_str("glibc"), String::from_str("2.17")))
        } else {
            None
        },
    };
    if let Some((_, v)) = &libc {
        if !version_ok(v.as_str()) {
            return Err(DistError::new(
                ErrorKind::ManifestInvalid,
                String::from_str("failed to parse a virtual package version"),
            ));
        }
    }

    Ok(VirtualPackageSet { unix, linux, libc, osx, win, cuda })
}

} // verus!
