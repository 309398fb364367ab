//! The closed set of target platforms: CPU/OS pairs plus the special
//! `noarch`, with their canonical subdir names, family predicates, and the
//! mappings used by container runtimes and native packaging.

use vstd::prelude::*;

verus! {

use crate::errors::{DistError, ErrorKind};
use crate::text::chars_of;

/// A CPU/OS pair, or `noarch`.
#[derive(Clone, Copy, Debug, PartialEq, Eq, Hash, Structural)]
pub enum Platform {
    NoArch,
    Linux32,
    Linux64,
    LinuxAarch64,
    LinuxArmV7l,
    LinuxPpc64le,
    LinuxS390X,
    LinuxRiscv64,
    Osx64,
    OsxArm64,
    Win32,
    Win64,
    WinArm64,
}

/// The canonical subdir name of a platform.
pub open spec fn spec_platform_name(p: Platform) -> Seq<char> {
    match p {
        Platform::NoArch => "noarch"@,
        Platform::Linux32 => "linux-32"@,
        Platform::Linux64 => "linux-64"@,
        Platform::LinuxAarch64 => "linux-aarch64"@,
        Platform::LinuxArmV7l => "linux-armv7l"@,
        Platform::LinuxPpc64le => "linux-ppc64le"@,
        Platform::LinuxS390X => "linux-s390x"@,
        Platform::LinuxRiscv64 => "linux-riscv64"@,
        Platform::Osx64 => "osx-64"@,
        Platform::OsxArm64 => "osx-arm64"@,
        Platform::Win32 => "win-32"@,
        Platform::Win64 => "win-64"@,
        Platform::WinArm64 => "win-arm64"@,
    }
}

/// The platform whose canonical name is `s`, if any.
pub open spec fn spec_platform_of(s: Seq<char>) -> Option<Platform> {
    if s == "noarch"@ {
        Some(Platform::NoArch)
    } else if s == "linux-32"@ {
        Some(Platform::Linux32)
    } else if s == "linux-64"@ {
        Some(Platform::Linux64)
    } else if s == "linux-aarch64"@ {
        Some(Platform::LinuxAarch64)
    } else if s == "linux-armv7l"@ {
        Some(Platform::LinuxArmV7l)
    } else if s == "linux-ppc64le"@ {
        Some(Platform::LinuxPpc64le)
    } else if s == "linux-s390x"@ {
        Some(Platform::LinuxS390X)
    } else if s == "linux-riscv64"@ {
        Some(Platform::LinuxRiscv64)
    } else if s == "osx-64"@ {
        Some(Platform::Osx64)
    } else if s == "osx-arm64"@ {
        Some(Platform::OsxArm64)
    } else if s == "win-32"@ {
        Some(Platform::Win32)
    } else if s == "win-64"@ {
        Some(Platform::Win64)
    } else if s == "win-arm64"@ {
        Some(Platform::WinArm64)
    } else {
        None
    }
}

/// Compare two character vectors.
pub fn eq_chars(a: &Vec<char>, b: &Vec<char>) -> (r: bool)
    ensures
        r == (a@ == b@),
{
    if a.len() != b.len() {
        return false;
    }
    let mut i: usize = 0;
    while i < a.len()
        invariant
            i <= a@.len(),
            a@.len() == b@.len(),
            forall|j: int| 0 <= j < i ==> a@[j] == b@[j],
        decreases a@.len() - i,
    {
        if a[i] != b[i] {
            return false;
        }
        i = i + 1;
    }
    proof {
        assert(a@ =~= b@);
    }
    true
}

/// Whether `s` equals the string literal's characters, comparing a character
/// vector against a revealed literal.
fn chars_match(s: &Vec<char>, lit: &str) -> (r: bool)
    ensures
        r == (s@ == lit@),
{
    let lit_chars = chars_of(lit);
    eq_chars(s, &lit_chars)
}

impl Platform {
    /// The canonical subdir name of this platform.
    pub fn as_str(&self) -> (r: &'static str)
        ensures
            r@ == spec_platform_name(*self),
    {
        match self {
            Platform::NoArch => "noarch",
            Platform::Linux32 => "linux-32",
            Platform::Linux64 => "linux-64",
            Platform::LinuxAarch64 => "linux-aarch64",
            Platform::LinuxArmV7l => "linux-armv7l",
            Platform::LinuxPpc64le => "linux-ppc64le",
            Platform::LinuxS390X => "linux-s390x",
            Platform::LinuxRiscv64 => "linux-riscv64",
            Platform::Osx64 => "osx-64",
            Platform::OsxArm64 => "osx-arm64",
            Platform::Win32 => "win-32",
            Platform::Win64 => "win-64",
            Platform::WinArm64 => "win-arm64",
        }
    }

    /// Parse a canonical subdir name.
    pub fn from_str(s: &str) -> (r: Option<Platform>)
        ensures
            r == spec_platform_of(s@),
    {
        let cs = chars_of(s);
        if chars_match(&cs, "noarch") {
            Some(Platform::NoArch)
        } else if chars_match(&cs, "linux-32") {
            Some(Platform::Linux32)
        } else if chars_match(&cs, "linux-64") {
            Some(Platform::Linux64)
        } else if chars_match(&cs, "linux-aarch64") {
            Some(Platform::LinuxAarch64)
        } else if chars_match(&cs, "linux-armv7l") {
            Some(Platform::LinuxArmV7l)
        } else if chars_match(&cs, "linux-ppc64le") {
            Some(Platform::LinuxPpc64le)
        } else if chars_match(&cs, "linux-s390x") {
            Some(Platform::LinuxS390X)
        } else if chars_match(&cs, "linux-riscv64") {
            Some(Platform::LinuxRiscv64)
        } else if chars_match(&cs, "osx-64") {
            Some(Platform::Osx64)
        } else if chars_match(&cs, "osx-arm64") {
            Some(Platform::OsxArm64)
        } else if chars_match(&cs, "win-32") {
            Some(Platform::Win32)
        } else if chars_match(&cs, "win-64") {
            Some(Platform::Win64)
        } else if chars_match(&cs, "win-arm64") {
            Some(Platform::WinArm64)
        } else {
            None
        }
    }

    /// Whether this is a Linux platform.
    pub fn is_linux(&self) -> (r: bool)
        ensures
            r == spec_is_linux(*self),
    {
        matches!(
            self,
            Platform::Linux32 | Platform::Linux64 | Platform::LinuxAarch64
                | Platform::LinuxArmV7l | Platform::LinuxPpc64le | Platform::LinuxS390X
                | Platform::LinuxRiscv64
        )
    }

    /// Whether this is a macOS platform.
    pub fn is_osx(&self) -> (r: bool)
        ensures
            r == spec_is_osx(*self),
    {
        matches!(self, Platform::Osx64 | Platform::OsxArm64)
    }

    /// Whether this is a Windows platform.
    pub fn is_windows(&self) -> (r: bool)
        ensures
            r == spec_is_windows(*self),
    {
        matches!(self, Platform::Win32 | Platform::Win64 | Platform::WinArm64)
    }

    /// Whether this is a Unix platform: Linux or macOS.
    pub fn is_unix(&self) -> (r: bool)
        ensures
            r == (spec_is_linux(*self) || spec_is_osx(*self)),
    {
        self.is_linux() || self.is_osx()
    }
}

/// The Linux platforms.
pub open spec fn spec_is_linux(p: Platform) -> bool {
    p == Platform::Linux32 || p == Platform::Linux64 || p == Platform::LinuxAarch64
        || p == Platform::LinuxArmV7l || p == Platform::LinuxPpc64le || p == Platform::LinuxS390X
        || p == Platform::LinuxRiscv64
}

/// The macOS platforms.
pub open spec fn spec_is_osx(p: Platform) -> bool {
    p == Platform::Osx64 || p == Platform::OsxArm64
}

/// The Windows platforms.
pub open spec fn spec_is_windows(p: Platform) -> bool {
    p == Platform::Win32 || p == Platform::Win64 || p == Platform::WinArm64
}

/// The container runtime spec of a Linux platform, as docker and podman name
/// them.
pub open spec fn spec_runtime_spec(p: Platform) -> Option<Seq<char>> {
    match p {
        Platform::Linux64 => Some("linux/amd64"@),
        Platform::LinuxAarch64 => Some("linux/arm64/v8"@),
        Platform::LinuxPpc64le => Some("linux/ppc64le"@),
        Platform::LinuxS390X => Some("linux/s390x"@),
        Platform::Linux32 => Some("linux/386"@),
        Platform::LinuxArmV7l => Some("linux/arm/v7"@),
        _ => None,
    }
}

/// Map a platform to the container runtime's platform string; platforms a
/// container runtime cannot execute are rejected.
pub fn platform_to_runtime_spec(platform: Platform) -> (r: Result<&'static str, DistError>)
    ensures
        r is Ok <==> spec_runtime_spec(platform) is Some,
        r matches Ok(s) ==> Some(s@) == spec_runtime_spec(platform),
        r matches Err(e) ==> e.kind == ErrorKind::ManifestInvalid,
{
    match platform {
        Platform::Linux64 => Ok("linux/amd64"),
        Platform::LinuxAarch64 => Ok("linux/arm64/v8"),
        Platform::LinuxPpc64le => Ok("linux/ppc64le"),
        Platform::LinuxS390X => Ok("linux/s390x"),
        Platform::Linux32 => Ok("linux/386"),
        Platform::LinuxArmV7l => Ok("linux/arm/v7"),
        _ => Err(
            DistError::new(
                ErrorKind::ManifestInvalid,
                String::from_str("unsupported platform for container runtime execution"),
            ),
        ),
    }
}

/// The RPM architecture name of a Linux or noarch platform.
pub open spec fn spec_rpm_arch(p: Platform) -> Seq<char> {
    match p {
        Platform::NoArch => "noarch"@,
        Platform::Linux64 => "x86_64"@,
        Platform::LinuxAarch64 => "aarch64"@,
        Platform::LinuxPpc64le => "ppc64le"@,
        Platform::LinuxS390X => "s390x"@,
        Platform::LinuxArmV7l => "armv7hl"@,
        Platform::Linux32 => "i686"@,
        _ => ""@,
    }
}

/// The DEB architecture name of a Linux or noarch platform.
pub open spec fn spec_deb_arch(p: Platform) -> Seq<char> {
    match p {
        Platform::NoArch => "all"@,
        Platform::Linux64 => "amd64"@,
        Platform::LinuxAarch64 => "arm64"@,
        Platform::LinuxPpc64le => "ppc64el"@,
        Platform::LinuxS390X => "s390x"@,
        Platform::LinuxArmV7l => "armhf"@,
        Platform::Linux32 => "i386"@,
        _ => ""@,
    }
}

/// Map a platform to the native package architecture string, RPM flavor for
/// `rpm` and DEB flavor otherwise. Only Linux platforms and noarch carry one.
pub fn arch(rpm: bool, platform: Platform) -> (r: &'static str)
    requires
        platform == Platform::NoArch || spec_is_linux(platform),
        platform != Platform::LinuxRiscv64,
    ensures
        rpm ==> r@ == spec_rpm_arch(platform),
        !rpm ==> r@ == spec_deb_arch(platform),
{
    if rpm {
        match platform {
            Platform::NoArch => "noarch",
            Platform::Linux64 => "x86_64",
            Platform::LinuxAarch64 => "aarch64",
            Platform::LinuxPpc64le => "ppc64le",
            Platform::LinuxS390X => "s390x",
            Platform::LinuxArmV7l => "armv7hl",
            _ => "i686",
        }
    } else {
        match platform {
            Platform::NoArch => "all",
            Platform::Linux64 => "amd64",
            Platform::LinuxAarch64 => "arm64",
            Platform::LinuxPpc64le => "ppc64el",
            Platform::LinuxS390X => "s390x",
            Platform::LinuxArmV7l => "armhf",
            _ => "i386",
        }
    }
}

/// `platforms` with `noarch` appended when absent.
pub open spec fn spec_augmented(ps: Seq<Platform>) -> Seq<Platform> {
    if ps.contains(Platform::NoArch) {
        ps
    } else {
        ps.push(Platform::NoArch)
    }
}

/// Append `noarch` to the solve set when it is not already present.
pub fn augment_with_noarch(platforms: &Vec<Platform>) -> (r: Vec<Platform>)
    ensures
        r@ == spec_augmented(platforms@),
{
    let mut out: Vec<Platform> = Vec::new();
    let mut has_noarch = false;
    let mut i: usize = 0;
    while i < platforms.len()
        invariant
            i <= platforms@.len(),
            out@ == platforms@.subrange(0, i as int),
            has_noarch == platforms@.subrange(0, i as int).contains(Platform::NoArch),
        decreases platforms@.len() - i,
    {
        let p = platforms[i];
        out.push(p);
        proof {
            assert(out@ =~= platforms@.subrange(0, i + 1));
            if p == Platform::NoArch {
                assert(platforms@.subrange(0, i + 1)[i as int] == Platform::NoArch);
            } else if platforms@.subrange(0, i as int).contains(Platform::NoArch) {
                let w = choose|w: int|
                    0 <= w < i && platforms@.subrange(0, i as int)[w] == Platform::NoArch;
                assert(platforms@.subrange(0, i + 1)[w] == Platform::NoArch);
            } else {
                assert forall|w: int|
                    0 <= w < i + 1 implies #[trigger] platforms@.subrange(0, i + 1)[w]
                    != Platform::NoArch by {
                    if w < i {
                        assert(platforms@.subrange(0, i as int)[w] != Platform::NoArch);
                    }
                }
            }
        }
        has_noarch = has_noarch || matches!(p, Platform::NoArch);
        i = i + 1;
    }
    proof {
        assert(platforms@.subrange(0, platforms@.len() as int) =~= platforms@);
        assert(out@ =~= platforms@);
    }
    if !has_noarch {
        out.push(Platform::NoArch);
    }
    out
}

/// Parse the manifest's platform list. An empty list defaults to the host
/// platform, which the caller observes; otherwise every entry must be a
/// recognized platform name.
pub fn resolve_target_platforms(raw: &Vec<String>, host: Platform) -> (r: Result<
    Vec<Platform>,
    DistError,
>)
    ensures
        r is Ok <==> (forall|i: int|
            0 <= i < raw@.len() ==> spec_platform_of(#[trigger] raw@[i]@) is Some),
        r matches Ok(ps) ==> (if raw@.len() == 0 {
            ps@ == seq![host]
        } else {
            &&& ps@.len() == raw@.len()
            &&& forall|i: int|
                0 <= i < raw@.len() ==> Some(#[trigger] ps@[i]) == spec_platform_of(raw@[i]@)
        }),
        r matches Err(e) ==> e.kind == ErrorKind::ManifestInvalid,
{
    if raw.len() == 0 {
        let mut out: Vec<Platform> = Vec::new();
        out.push(host);
        proof {
            assert(out@ =~= seq![host]);
        }
        return Ok(out);
    }
    let mut out: Vec<Platform> = Vec::new();
    let mut i: usize = 0;
    while i < raw.len()
        invariant
            i <= raw@.len(),
            out@.len() == i,
            forall|j: int| 0 <= j < i ==> spec_platform_of(#[trigger] raw@[j]@) is Some,
            forall|j: int| 0 <= j < i ==> Some(#[trigger] out@[j]) == spec_platform_of(raw@[j]@),
        decreases raw@.len() - i,
    {
        match Platform::from_str(raw[i].as_str()) {
            Some(p) => {
                out.push(p);
            },
            None => {
                return Err(DistError::new(
                    ErrorKind::ManifestInvalid,
                    String::from_str("failed to parse platform"),
                ));
            },
        }
        i = i + 1;
    }
    Ok(out)
}

} // verus!
