//! The manifest as the pipeline consumes it: identity, channels, target
//! platforms, the dependency map, and the optional metadata, container and
//! virtual-package tables, with the validation rules the manifest must pass.

use vstd::prelude::*;

verus! {

use crate::errors::{DistError, ErrorKind};
use crate::names::{spec_trim_ws, trim_ws};
use crate::text::{chars_of, collect_string, is_space, push_all, spec_is_ascii_char, spec_is_alnum};
use crate::validate::SpecReq;

/// A dependency map entry: a package name and its version constraint, where
/// an empty or `*` constraint means any version.
pub struct DependencySpec {
    pub entries: Vec<(String, String)>,
}

/// The manifest.
pub struct CondaDistConfig {
    pub name: String,
    pub author: String,
    pub version: String,
    pub channels: Vec<String>,
    pub platforms: Vec<String>,
    pub dependencies: DependencySpec,
    pub metadata: Option<crate::metadata::BundleMetadataConfig>,
    pub container: Option<ContainerConfig>,
    pub virtual_packages: Option<VirtualPackagesConfig>,
}

/// `c` may appear in a manifest name: a letter, a digit, `-`, `_` or `.`.
pub open spec fn spec_manifest_name_char(c: char) -> bool {
    spec_is_alnum(c) || c == '-' || c == '_' || c == '.'
}

/// The manifest name is acceptable: non-blank, and every character a letter,
/// digit, `-`, `_` or `.`.
pub open spec fn spec_name_ok(s: Seq<char>) -> bool {
    &&& spec_trim_ws(s).len() > 0
    &&& forall|i: int| 0 <= i < s.len() ==> spec_manifest_name_char(#[trigger] s[i])
}

/// The version is acceptable: non-blank ASCII without any whitespace.
pub open spec fn spec_version_ok(s: Seq<char>) -> bool {
    &&& spec_trim_ws(s).len() > 0
    &&& forall|i: int| 0 <= i < s.len() ==> !crate::text::spec_is_space(#[trigger] s[i])
    &&& forall|i: int| 0 <= i < s.len() ==> spec_is_ascii_char(#[trigger] s[i])
}

/// Every entry of the list is non-blank.
pub open spec fn spec_entries_non_blank(entries: Seq<String>) -> bool {
    forall|i: int| 0 <= i < entries.len() ==> spec_trim_ws((#[trigger] entries[i])@).len() > 0
}

/// The manifest passes validation: name, author and version acceptable, and
/// every listed channel and platform entry non-blank. The lists themselves
/// may be empty: an empty channel list falls back to the default channel and
/// an empty platform list to the host platform.
pub open spec fn spec_manifest_valid(c: CondaDistConfig) -> bool {
    &&& spec_name_ok(c.name@)
    &&& spec_trim_ws(c.author@).len() > 0
    &&& spec_version_ok(c.version@)
    &&& spec_entries_non_blank(c.channels@)
    &&& spec_entries_non_blank(c.platforms@)
}

fn entries_non_blank(entries: &Vec<String>) -> (r: bool)
    ensures
        r == spec_entries_non_blank(entries@),
{
    let mut i: usize = 0;
    while i < entries.len()
        invariant
            i <= entries@.len(),
            forall|j: int| 0 <= j < i ==> spec_trim_ws((#[trigger] entries@[j])@).len() > 0,
        decreases entries@.len() - i,
    {
        let chars = chars_of(entries[i].as_str());
        let trimmed = trim_ws(&chars);
        if trimmed.len() == 0 {
            return false;
        }
        i = i + 1;
    }
    true
}

impl CondaDistConfig {
    /// The environment name.
    pub fn name(&self) -> (r: &String)
        ensures
            r == self.name,
    {
        &self.name
    }

    /// The author string.
    pub fn author(&self) -> (r: &String)
        ensures
            r == self.author,
    {
        &self.author
    }

    /// The version string.
    pub fn version(&self) -> (r: &String)
        ensures
            r == self.version,
    {
        &self.version
    }

    /// The ordered channel list.
    pub fn channels(&self) -> (r: &Vec<String>)
        ensures
            r == self.channels,
    {
        &self.channels
    }

    /// The ordered target platform list.
    pub fn platforms(&self) -> (r: &Vec<String>)
        ensures
            r == self.platforms,
    {
        &self.platforms
    }

    /// The dependency map.
    pub fn dependencies(&self) -> (r: &DependencySpec)
        ensures
            r == self.dependencies,
    {
        &self.dependencies
    }

    /// The optional bundle metadata table.
    pub fn metadata(&self) -> (r: Option<&crate::metadata::BundleMetadataConfig>)
        ensures
            r is Some <==> self.metadata is Some,
            r matches Some(m) ==> self.metadata matches Some(sm) && m == sm,
    {
        self.metadata.as_ref()
    }

    /// The optional container table.
    pub fn container(&self) -> (r: Option<&ContainerConfig>)
        ensures
            r is Some <==> self.container is Some,
            r matches Some(m) ==> self.container matches Some(sm) && m == sm,
    {
        self.container.as_ref()
    }

    /// The optional virtual-package overrides.
    pub fn virtual_packages(&self) -> (r: Option<&VirtualPackagesConfig>)
        ensures
            r is Some <==> self.virtual_packages is Some,
            r matches Some(m) ==> self.virtual_packages matches Some(sm) && m == sm,
    {
        self.virtual_packages.as_ref()
    }

    /// Check the manifest's field rules: accepted exactly when the name is a
    /// non-blank string over letters, digits, `-`, `_` and `.`; the author
    /// is non-blank; the version is non-blank whitespace-free ASCII; and
    /// every channel and platform entry is non-blank. Empty lists are
    /// allowed: the pipeline supplies the defaults.
    pub fn validate(&self) -> (r: Result<(), DistError>)
        ensures
            r is Ok <==> spec_manifest_valid(*self),
            r matches Err(e) ==> e.kind == ErrorKind::ManifestInvalid,
    {
        let name_chars = chars_of(self.name.as_str());
        let name_trimmed = trim_ws(&name_chars);
        if name_trimmed.len() == 0 {
            return Err(DistError::new(
                ErrorKind::ManifestInvalid,
                String::from_str("manifest field 'name' must not be empty"),
            ));
        }
        let mut i: usize = 0;
        while i < name_chars.len()
            invariant
                i <= name_chars@.len(),
                name_chars@ == self.name@,
                forall|j: int| 0 <= j < i ==> spec_manifest_name_char(#[trigger] self.name@[j]),
            decreases name_chars@.len() - i,
        {
            let c = name_chars[i];
            if !(crate::text::is_alnum(c) || c == '-' || c == '_' || c == '.') {
                return Err(DistError::new(
                    ErrorKind::ManifestInvalid,
                    String::from_str(
                        "manifest field 'name' may only contain letters, digits, '-', '_', or '.'",
                    ),
                ));
            }
            i = i + 1;
        }
        let author_chars = chars_of(self.author.as_str());
        let author_trimmed = trim_ws(&author_chars);
        if author_trimmed.len() == 0 {
            return Err(DistError::new(
                ErrorKind::ManifestInvalid,
                String::from_str("manifest field 'author' must not be empty"),
            ));
        }
        let version_chars = chars_of(self.version.as_str());
        let version_trimmed = trim_ws(&version_chars);
        if version_trimmed.len() == 0 {
            return Err(DistError::new(
                ErrorKind::ManifestInvalid,
                String::from_str("manifest field 'version' must not be empty"),
            ));
        }
        let mut k: usize = 0;
        while k < version_chars.len()
            invariant
                k <= version_chars@.len(),
                version_chars@ == self.version@,
                forall|j: int|
                    0 <= j < k ==> !crate::text::spec_is_space(#[trigger] self.version@[j])
                        && spec_is_ascii_char(self.version@[j]),
            decreases version_chars@.len() - k,
        {
            let c = version_chars[k];
            if is_space(c) {
                return Err(DistError::new(
                    ErrorKind::ManifestInvalid,
                    String::from_str("manifest field 'version' must not contain whitespace"),
                ));
            }
            if !crate::text::is_ascii_char(c) {
                return Err(DistError::new(
                    ErrorKind::ManifestInvalid,
                    String::from_str("manifest field 'version' must contain only ASCII characters"),
                ));
            }
            k = k + 1;
        }
        if !entries_non_blank(&self.channels) {
            return Err(DistError::new(
                ErrorKind::ManifestInvalid,
                String::from_str("manifest 'channels' entries must not be empty"),
            ));
        }
        if !entries_non_blank(&self.platforms) {
            return Err(DistError::new(
                ErrorKind::ManifestInvalid,
                String::from_str("manifest 'platforms' entries must not be empty"),
            ));
        }
        Ok(())
    }
}

/// The match-spec string formatted from a dependency map entry: the bare
/// name when the constraint is blank or `*`, else the name, a space, and
/// the trimmed constraint.
pub open spec fn spec_formatted_dep(name: Seq<char>, constraint: Seq<char>) -> Seq<char> {
    let t = spec_trim_ws(constraint);
    if t.len() == 0 || t == "*"@ {
        name
    } else {
        name + seq![' '] + t
    }
}

/// Every formatted dependency entry parses strictly to a spec with a
/// literal package name.
pub open spec fn spec_deps_parse(entries: Seq<(String, String)>) -> bool {
    forall|i: int|
        0 <= i < entries.len() ==> {
            let raw = spec_formatted_dep((#[trigger] entries[i]).0@, entries[i].1@);
            &&& crate::conda::match_spec_parses(true, raw)
            &&& crate::conda::match_spec_name(true, raw) is Some
        }
}

impl DependencySpec {
    /// Format and strictly parse every dependency map entry into a
    /// requirement; accepted exactly when every formatted entry parses to a
    /// spec with a literal package name, and rejected otherwise.
    pub fn to_match_specs(&self) -> (r: Result<Vec<SpecReq>, DistError>)
        ensures
            r is Ok <==> spec_deps_parse(self.entries@),
            r matches Ok(reqs) ==> {
                &&& reqs@.len() == self.entries@.len()
                &&& forall|i: int|
                    0 <= i < reqs@.len() ==> {
                        &&& (#[trigger] reqs@[i])@.wf()
                        &&& reqs@[i].raw@ == spec_formatted_dep(
                            self.entries@[i].0@,
                            self.entries@[i].1@,
                        )
                    }
            },
            r matches Err(e) ==> e.kind == ErrorKind::ManifestInvalid,
    {
        let mut out: Vec<SpecReq> = Vec::new();
        let mut i: usize = 0;
        while i < self.entries.len()
            invariant
                i <= self.entries@.len(),
                out@.len() == i,
                forall|j: int|
                    0 <= j < i ==> {
                        &&& (#[trigger] out@[j])@.wf()
                        &&& out@[j].raw@ == spec_formatted_dep(
                            self.entries@[j].0@,
                            self.entries@[j].1@,
                        )
                    },
                forall|j: int|
                    0 <= j < i ==> {
                        let raw = spec_formatted_dep(
                            (#[trigger] self.entries@[j]).0@,
                            self.entries@[j].1@,
                        );
                        &&& crate::conda::match_spec_parses(true, raw)
                        &&& crate::conda::match_spec_name(true, raw) is Some
                    },
            decreases self.entries@.len() - i,
        {
            let name = &self.entries[i].0;
            let constraint = &self.entries[i].1;
            let constraint_chars = chars_of(constraint.as_str());
            let t = trim_ws(&constraint_chars);
            let star: Vec<char> = vec!['*'];
            proof {
                reveal_strlit("*");
                assert(star@ =~= "*"@);
            }
            let raw = if t.len() == 0 || crate::platform::eq_chars(&t, &star) {
                name.clone()
            } else {
                let mut chars = chars_of(name.as_str());
                chars.push(' ');
                push_all(&mut chars, &t);
                proof {
                    assert(chars@ =~= name@ + seq![' '] + spec_trim_ws(constraint@));
                }
                collect_string(&chars)
            };
            let ghost raw_view = raw@;
            match SpecReq::new(raw) {
                Ok(req) => {
                    out.push(req);
                },
                Err(e) => {
                    proof {
                        assert(!(crate::conda::match_spec_parses(true, raw_view)
                            && crate::conda::match_spec_name(true, raw_view) is Some));
                        assert(!spec_deps_parse(self.entries@));
                    }
                    return Err(e);
                },
            }
            i = i + 1;
        }
        Ok(out)
    }
}

/// The optional container table: the base image, the install prefix, and
/// the tag template.
pub struct ContainerConfig {
    pub base_image: String,
    pub prefix: Option<String>,
    pub tag_template: String,
}

impl ContainerConfig {
    /// The default base image reference.
    pub fn default_base_image() -> (r: String)
        ensures
            r@ == "gcr.io/distroless/base-debian12"@,
    {
        String::from_str("gcr.io/distroless/base-debian12")
    }

    /// The default tag template.
    pub fn default_tag_template() -> (r: String)
        ensures
            r@ == "{name}:{version}"@,
    {
        String::from_str("{name}:{version}")
    }
}

impl Default for ContainerConfig {
    /// The defaults used when the manifest holds no container table.
    fn default() -> (r: ContainerConfig)
        ensures
            r.base_image@ == "gcr.io/distroless/base-debian12"@,
            r.prefix is None,
            r.tag_template@ == "{name}:{version}"@,
    {
        ContainerConfig {
            base_image: ContainerConfig::default_base_image(),
            prefix: None,
            tag_template: ContainerConfig::default_tag_template(),
        }
    }
}

/// The libc override of a virtual-package table.
pub struct VirtualPackageLibcConfig {
    pub family: String,
    pub version: String,
}

/// The per-platform virtual-package overrides.
pub struct PlatformVirtualPackageConfig {
    pub linux: Option<String>,
    pub osx: Option<String>,
    pub win: Option<String>,
    pub libc: Option<VirtualPackageLibcConfig>,
    pub cuda: Option<String>,
}

/// The virtual-package override table: per-platform entries keyed by the
/// platform's subdir name, with an optional `default` entry.
pub struct VirtualPackagesConfig {
    pub platforms: Vec<(String, PlatformVirtualPackageConfig)>,
}

impl VirtualPackagesConfig {
    /// The override entry for a platform: its own entry when present, else
    /// the `default` entry, else none.
    #[verifier::loop_isolation(false)]
    pub fn for_platform(&self, platform: crate::platform::Platform) -> (r: Option<
        &PlatformVirtualPackageConfig,
    >)
        ensures
            r is None ==> (forall|i: int|
                0 <= i < self.platforms@.len() ==> (#[trigger] self.platforms@[i]).0@
                    != crate::platform::spec_platform_name(platform) && self.platforms@[i].0@
                    != "default"@),
    {
        let key = platform.as_str();
        let mut i: usize = 0;
        while i < self.platforms.len()
            invariant
                i <= self.platforms@.len(),
                forall|j: int|
                    0 <= j < i ==> (#[trigger] self.platforms@[j]).0@
                        != crate::platform::spec_platform_name(platform),
            decreases self.platforms@.len() - i,
        {
            let matches_key = {
                let a = chars_of(self.platforms[i].0.as_str());
                let b = chars_of(key);
                crate::platform::eq_chars(&a, &b)
            };
            if matches_key {
                return Some(&self.platforms[i].1);
            }
            i = i + 1;
        }
        let mut j: usize = 0;
        while j < self.platforms.len()
            invariant
                j <= self.platforms@.len(),
                forall|k: int|
                    0 <= k < self.platforms@.len() ==> (#[trigger] self.platforms@[k]).0@
                        != crate::platform::spec_platform_name(platform),
                forall|k: int| 0 <= k < j ==> (#[trigger] self.platforms@[k]).0@ != "default"@,
            decreases self.platforms@.len() - j,
        {
            let matches_key = {
                let a = chars_of(self.platforms[j].0.as_str());
                let b = chars_of("default");
                crate::platform::eq_chars(&a, &b)
            };
            if matches_key {
                return Some(&self.platforms[j].1);
            }
            j = j + 1;
        }
        None
    }
}

} // verus!
