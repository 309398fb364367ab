//! Platforms, manifest validation, pipeline decisions, installer selection,
//! runtime detection, workspace paths, and launcher-side bundle checks.

use conda_dist::bundle::{
    collect_bundle_records, resolve_bundle_root, resolve_environment, BundleEntry, BundleMetadata,
};
use conda_dist::config::{
    CondaDistConfig, ContainerConfig, DependencySpec, PlatformVirtualPackageConfig,
    VirtualPackagesConfig,
};
use conda_dist::errors::ErrorKind;
use conda_dist::installer::{
    installer_file_name, installer_output_spec, launcher_for_platform, parse_selection,
    resolve_installer_platforms, InstallerPlatformSelection,
};
use conda_dist::pipeline::{
    effective_channels, lockfile_channel_urls, platform_pins, require_dependencies, select_records,
};
use conda_dist::lockmode::LockAction;
use conda_dist::platform::{
    arch, augment_with_noarch, platform_to_runtime_spec, resolve_target_platforms, Platform,
};
use conda_dist::records::{dedup_records, LockRecord};
use conda_dist::runtime::{detect_runtime_engine, format_platform_list, resolve_runtime, RuntimeEngine};
use conda_dist::workspace::{lockfile_path, resolve_workspace_root, Workspace};

fn record(name: &str, subdir: &str, file_name: &str) -> LockRecord {
    LockRecord::new(
        name,
        "1.0".to_string(),
        "0".to_string(),
        subdir.to_string(),
        file_name.to_string(),
        "u".to_string(),
        None,
        Vec::new(),
    )
    .unwrap()
}

#[test]
fn platform_names_round_trip() {
    let all = vec![
        Platform::NoArch,
        Platform::Linux64,
        Platform::LinuxAarch64,
        Platform::OsxArm64,
        Platform::Win64,
    ];
    for p in all {
        assert_eq!(Platform::from_str(p.as_str()), Some(p));
    }
    assert_eq!(Platform::from_str("sparc-64"), None);
    assert!(Platform::Linux64.is_linux());
    assert!(Platform::OsxArm64.is_unix());
    assert!(Platform::Win32.is_windows());
    assert!(!Platform::NoArch.is_unix());
}

#[test]
fn runtime_specs_cover_linux_only() {
    assert_eq!(platform_to_runtime_spec(Platform::Linux64).unwrap(), "linux/amd64");
    assert_eq!(
        platform_to_runtime_spec(Platform::LinuxAarch64).unwrap(),
        "linux/arm64/v8"
    );
    assert!(platform_to_runtime_spec(Platform::Win64).is_err());
}

#[test]
fn native_arch_names() {
    assert_eq!(arch(true, Platform::Linux64), "x86_64");
    assert_eq!(arch(false, Platform::Linux64), "amd64");
    assert_eq!(arch(true, Platform::NoArch), "noarch");
    assert_eq!(arch(false, Platform::NoArch), "all");
    assert_eq!(arch(false, Platform::LinuxPpc64le), "ppc64el");
}

#[test]
fn noarch_is_appended_once() {
    let ps = vec![Platform::Linux64];
    assert_eq!(
        augment_with_noarch(&ps),
        vec![Platform::Linux64, Platform::NoArch]
    );
    let ps = vec![Platform::Linux64, Platform::NoArch];
    assert_eq!(augment_with_noarch(&ps), ps);
}

#[test]
fn target_platforms_parse_or_fail() {
    let ok = resolve_target_platforms(
        &vec!["linux-64".to_string(), "osx-arm64".to_string()],
        Platform::Linux64,
    )
    .unwrap();
    assert_eq!(ok, vec![Platform::Linux64, Platform::OsxArm64]);
    let err = resolve_target_platforms(&vec!["commodore".to_string()], Platform::Linux64)
        .unwrap_err();
    assert_eq!(err.kind(), ErrorKind::ManifestInvalid);
    let defaulted = resolve_target_platforms(&Vec::new(), Platform::OsxArm64).unwrap();
    assert_eq!(defaulted, vec![Platform::OsxArm64]);
}

fn manifest(name: &str, author: &str, version: &str) -> CondaDistConfig {
    CondaDistConfig {
        name: name.to_string(),
        author: author.to_string(),
        version: version.to_string(),
        channels: vec!["conda-forge".to_string()],
        platforms: vec!["linux-64".to_string()],
        dependencies: DependencySpec { entries: vec![("python".to_string(), String::new())] },
        metadata: None,
        container: None,
        virtual_packages: None,
    }
}

#[test]
fn manifest_validation_accepts_and_rejects() {
    assert!(manifest("tool-1.0", "Ada", "1.0").validate().is_ok());
    assert!(manifest("bad name", "Ada", "1.0").validate().is_err());
    assert!(manifest("tool", " ", "1.0").validate().is_err());
    assert!(manifest("tool", "Ada", "1 0").validate().is_err());
    let mut m = manifest("tool", "Ada", "1.0");
    m.channels = Vec::new();
    m.platforms = Vec::new();
    assert!(m.validate().is_ok());
    let mut m = manifest("tool", "Ada", "1.0");
    m.platforms = vec![" ".to_string()];
    assert!(m.validate().is_err());
    let mut m = manifest("tool", "Ada", "1.0");
    m.channels = vec![" ".to_string()];
    assert!(m.validate().is_err());
}

#[test]
fn container_defaults() {
    let c = ContainerConfig::default();
    assert_eq!(c.base_image, "gcr.io/distroless/base-debian12");
    assert_eq!(c.tag_template, "{name}:{version}");
    assert!(c.prefix.is_none());
}

#[test]
fn virtual_package_overrides_fall_back_to_default() {
    let entry = |linux: &str| PlatformVirtualPackageConfig {
        linux: Some(linux.to_string()),
        osx: None,
        win: None,
        libc: None,
        cuda: None,
    };
    let cfg = VirtualPackagesConfig {
        platforms: vec![
            ("linux-64".to_string(), entry("6.1")),
            ("default".to_string(), entry("5.4")),
        ],
    };
    assert_eq!(
        cfg.for_platform(Platform::Linux64).unwrap().linux.as_deref(),
        Some("6.1")
    );
    assert_eq!(
        cfg.for_platform(Platform::OsxArm64).unwrap().linux.as_deref(),
        Some("5.4")
    );
    let empty = VirtualPackagesConfig { platforms: Vec::new() };
    assert!(empty.for_platform(Platform::Linux64).is_none());
}

#[test]
fn channels_default_to_conda_forge() {
    assert_eq!(effective_channels(&Vec::new()), vec!["conda-forge"]);
    let given = vec!["bioconda".to_string()];
    assert_eq!(effective_channels(&given), given);
}

#[test]
fn lockfile_urls_lead_with_the_embedded_channel() {
    let urls = lockfile_channel_urls(&vec!["https://example.invalid/a".to_string()]);
    assert_eq!(urls, vec!["file:./", "https://example.invalid/a"]);
}

#[test]
fn platform_pins_take_own_then_noarch_records() {
    let records = vec![
        record("a", "linux-64", "a.conda"),
        record("b", "noarch", "b.conda"),
        record("c", "osx-arm64", "c.conda"),
        record("d", "linux-64", "d.conda"),
    ];
    let pins = platform_pins(&records, Platform::Linux64);
    let names: Vec<&str> = pins.iter().map(|r| r.name.as_str()).collect();
    assert_eq!(names, vec!["a", "d", "b"]);
}

#[test]
fn reuse_keeps_the_locked_records() {
    let locked = vec![record("a", "linux-64", "a.conda")];
    let solved = vec![record("z", "linux-64", "z.conda")];
    let picked = select_records(LockAction::Reuse, locked, solved);
    assert_eq!(picked[0].name, "a");
}

#[test]
fn dedup_keeps_first_seen_file_keys() {
    let records = vec![
        record("a", "linux-64", "same.conda"),
        record("b", "linux-64", "same.conda"),
        record("c", "noarch", "same.conda"),
    ];
    let unique = dedup_records(&records);
    let names: Vec<&str> = unique.iter().map(|r| r.name.as_str()).collect();
    assert_eq!(names, vec!["a", "c"]);
}

#[test]
fn selection_strings_parse() {
    assert_eq!(
        parse_selection(&"all".to_string()),
        Some(InstallerPlatformSelection::All)
    );
    assert_eq!(
        parse_selection(&" HOST ".to_string()),
        Some(InstallerPlatformSelection::Host)
    );
    assert_eq!(
        parse_selection(&"linux-64".to_string()),
        Some(InstallerPlatformSelection::Specific(Platform::Linux64))
    );
    assert_eq!(parse_selection(&"mystery".to_string()), None);
}

#[test]
fn installer_platform_selection_resolves() {
    let manifest = vec![Platform::Linux64, Platform::NoArch, Platform::OsxArm64, Platform::Linux64];
    let all = resolve_installer_platforms(
        InstallerPlatformSelection::All,
        &manifest,
        Platform::Linux64,
    )
    .unwrap();
    assert_eq!(all, vec![Platform::Linux64, Platform::OsxArm64]);
    let host = resolve_installer_platforms(
        InstallerPlatformSelection::Host,
        &manifest,
        Platform::OsxArm64,
    )
    .unwrap();
    assert_eq!(host, vec![Platform::OsxArm64]);
    assert!(resolve_installer_platforms(
        InstallerPlatformSelection::Host,
        &manifest,
        Platform::Win64,
    )
    .is_err());
    assert!(resolve_installer_platforms(
        InstallerPlatformSelection::Specific(Platform::NoArch),
        &manifest,
        Platform::Linux64,
    )
    .is_err());
    assert!(resolve_installer_platforms(
        InstallerPlatformSelection::All,
        &vec![Platform::NoArch],
        Platform::Linux64,
    )
    .is_err());
}

#[test]
fn output_paths_split_into_dir_and_prefix() {
    let (dir, prefix) = installer_output_spec(&"out/dir".to_string(), true, &"env".to_string());
    assert_eq!((dir.as_str(), prefix.as_str()), ("out/dir", "env"));
    let (dir, prefix) =
        installer_output_spec(&"out/my-tool".to_string(), false, &"env".to_string());
    assert_eq!((dir.as_str(), prefix.as_str()), ("out", "my-tool"));
    let (dir, prefix) = installer_output_spec(&"bare".to_string(), false, &"env".to_string());
    assert_eq!((dir.as_str(), prefix.as_str()), (".", "bare"));
    let (dir, prefix) = installer_output_spec(&"trailing/".to_string(), false, &"env".to_string());
    assert_eq!((dir.as_str(), prefix.as_str()), ("trailing", "env"));
}

#[test]
fn installer_names_carry_the_platform() {
    assert_eq!(
        installer_file_name(&"tool".to_string(), Platform::Linux64),
        "tool-linux-64"
    );
}

#[test]
fn launcher_table_lookup_is_by_subdir_name() {
    let table = vec![
        ("linux-64".to_string(), vec![1u8, 2]),
        ("osx-arm64".to_string(), vec![3u8]),
    ];
    assert_eq!(launcher_for_platform(&table, Platform::Linux64), Some(&vec![1u8, 2]));
    assert_eq!(launcher_for_platform(&table, Platform::Win64), None);
}

#[test]
fn engine_detection_reads_the_binary_name() {
    assert_eq!(
        detect_runtime_engine(&"docker".to_string()),
        Some(RuntimeEngine::Docker)
    );
    assert_eq!(
        detect_runtime_engine(&"My-Podman-Remote".to_string()),
        Some(RuntimeEngine::Podman)
    );
    assert_eq!(detect_runtime_engine(&"oci".to_string()), None);
}

#[test]
fn runtime_resolution_prefers_docker_then_podman() {
    let picked = resolve_runtime(None, Some("/u/docker".to_string()), Some("/u/podman".to_string()))
        .unwrap();
    assert_eq!(picked.engine(), RuntimeEngine::Docker);
    let picked = resolve_runtime(None, None, Some("/u/podman".to_string())).unwrap();
    assert_eq!(picked.engine(), RuntimeEngine::Podman);
    let err = resolve_runtime(None, None, None).unwrap_err();
    assert_eq!(err.kind(), ErrorKind::EngineMissing);
    let picked = resolve_runtime(
        Some(("/opt/podman".to_string(), "podman".to_string())),
        None,
        None,
    )
    .unwrap();
    assert_eq!(picked.binary(), "/opt/podman");
    assert_eq!(picked.engine(), RuntimeEngine::Podman);
}

#[test]
fn platform_lists_format_for_display() {
    assert_eq!(
        format_platform_list(&vec![Platform::Linux64, Platform::OsxArm64]),
        "linux-64, osx-arm64"
    );
    assert_eq!(format_platform_list(&Vec::new()), "");
}

#[test]
fn workspace_directories_hang_off_the_root() {
    let ws = Workspace::new("/work/.conda-dist".to_string());
    assert_eq!(ws.container_root(), "/work/.conda-dist/container");
    assert_eq!(ws.package_cache_dir(), "/work/.conda-dist/package-cache");
    assert_eq!(ws.native_packaging_dir(), "/work/.conda-dist/native-packaging");
}

#[test]
fn workspace_root_resolution() {
    assert_eq!(
        resolve_workspace_root(&"/proj".to_string(), None, false),
        "/proj/.conda-dist"
    );
    assert_eq!(
        resolve_workspace_root(&"/proj".to_string(), Some(&"/abs".to_string()), true),
        "/abs"
    );
    assert_eq!(
        resolve_workspace_root(&"/proj".to_string(), Some(&"rel".to_string()), false),
        "/proj/rel"
    );
}

#[test]
fn lockfile_paths_replace_the_extension() {
    assert_eq!(
        lockfile_path(&"a/b/conda-dist.toml".to_string()),
        "a/b/conda-dist.lock"
    );
    assert_eq!(lockfile_path(&"noext".to_string()), "noext.lock");
    assert_eq!(lockfile_path(&"dir.v1/file".to_string()), "dir.v1/file.lock");
}

fn entry(name: &str, platform: Platform, binary: bool, present: bool) -> BundleEntry {
    BundleEntry {
        record: record(name, platform.as_str(), &format!("{name}.conda")),
        platform,
        binary,
        present,
    }
}

#[test]
fn bundle_root_must_be_unique() {
    assert_eq!(resolve_bundle_root(vec!["env".to_string()]).unwrap(), "env");
    let err = resolve_bundle_root(Vec::new()).unwrap_err();
    assert_eq!(err.kind(), ErrorKind::PayloadInvalid);
    let err = resolve_bundle_root(vec!["a".to_string(), "b".to_string()]).unwrap_err();
    assert_eq!(err.kind(), ErrorKind::PayloadInvalid);
}

#[test]
fn bundle_records_select_target_and_noarch() {
    let entries = vec![
        entry("a", Platform::Linux64, true, true),
        entry("b", Platform::NoArch, true, true),
        entry("c", Platform::OsxArm64, true, false),
    ];
    let records = collect_bundle_records(entries, Platform::Linux64).unwrap();
    let names: Vec<&str> = records.iter().map(|r| r.name.as_str()).collect();
    assert_eq!(names, vec!["a", "b"]);
}

#[test]
fn bundle_rejects_source_missing_and_absent_platform() {
    let entries = vec![entry("a", Platform::Linux64, false, true)];
    let err = collect_bundle_records(entries, Platform::Linux64).unwrap_err();
    assert_eq!(err.kind(), ErrorKind::PayloadInvalid);

    let entries = vec![entry("a", Platform::Linux64, true, false)];
    let err = collect_bundle_records(entries, Platform::Linux64).unwrap_err();
    assert_eq!(err.kind(), ErrorKind::PayloadInvalid);

    let entries = vec![entry("b", Platform::NoArch, true, true)];
    let err = collect_bundle_records(entries, Platform::Linux64).unwrap_err();
    assert_eq!(err.kind(), ErrorKind::PayloadInvalid);
}

#[test]
fn bundle_metadata_fallback_uses_the_environment_name() {
    let meta = BundleMetadata::fallback(&"env".to_string());
    assert_eq!(meta.summary, "env");
    assert_eq!(meta.author, "unknown");
    assert!(meta.featured_packages.is_empty());
}

#[test]
fn environment_selection_follows_the_bundle_rules() {
    let names = vec!["default".to_string(), "extra".to_string()];
    assert_eq!(resolve_environment(&names, None).unwrap(), "default");
    let names = vec!["only".to_string()];
    assert_eq!(resolve_environment(&names, None).unwrap(), "only");
    assert_eq!(
        resolve_environment(&names, Some(&"only".to_string())).unwrap(),
        "only"
    );
    let err = resolve_environment(&names, Some(&"missing".to_string())).unwrap_err();
    assert_eq!(err.kind(), ErrorKind::PayloadInvalid);
    let err = resolve_environment(&Vec::new(), None).unwrap_err();
    assert_eq!(err.kind(), ErrorKind::PayloadInvalid);
    let names = vec!["a".to_string(), "b".to_string()];
    let err = resolve_environment(&names, None).unwrap_err();
    assert_eq!(err.kind(), ErrorKind::PayloadInvalid);
}

#[test]
fn an_empty_dependency_map_is_rejected() {
    let err = require_dependencies(&Vec::new()).unwrap_err();
    assert_eq!(err.kind(), ErrorKind::ManifestInvalid);
    let deps = DependencySpec { entries: vec![("python".to_string(), String::new())] };
    let specs = deps.to_match_specs().unwrap();
    assert!(require_dependencies(&specs).is_ok());
}
