//! The lock validator against real dependency specs, and the dependency
//! spec formatting of the manifest.

use conda_dist::config::DependencySpec;
use conda_dist::errors::ErrorKind;
use conda_dist::platform::Platform;
use conda_dist::records::LockRecord;
use conda_dist::validate::{validate_lockfile, SpecReq};

fn record(name: &str, version: &str, subdir: &str, depends: Vec<&str>) -> LockRecord {
    LockRecord::new(
        name,
        version.to_string(),
        "0".to_string(),
        subdir.to_string(),
        format!("{}-{}-0.conda", name, version),
        format!("https://example.invalid/{}", name),
        None,
        depends.into_iter().map(|d| d.to_string()).collect(),
    )
    .expect("record fields must be valid")
}

fn spec(raw: &str) -> SpecReq {
    SpecReq::new(raw.to_string()).expect("spec must parse")
}

#[test]
fn valid_lock_passes() {
    let records = vec![
        record("foo", "1.0", "linux-64", vec!["bar >=1", "__glibc >=2.17"]),
        record("bar", "1.5", "linux-64", vec![]),
        record("baz", "2.0", "noarch", vec![]),
        record("foo", "1.0", "osx-arm64", vec!["bar >=1"]),
        record("bar", "1.5", "osx-arm64", vec![]),
    ];
    let specs = vec![spec("foo"), spec("baz")];
    let targets = vec![Platform::Linux64, Platform::OsxArm64];
    assert!(validate_lockfile(&records, &specs, &targets).is_ok());
}

#[test]
fn missing_spec_package_is_stale() {
    let records = vec![record("bar", "1.5", "linux-64", vec![])];
    let specs = vec![spec("foo")];
    let targets = vec![Platform::Linux64];
    let err = validate_lockfile(&records, &specs, &targets).expect_err("foo is missing");
    assert_eq!(err.kind(), ErrorKind::LockStale);
}

#[test]
fn unsatisfied_spec_constraint_is_stale() {
    let records = vec![record("foo", "1.0", "linux-64", vec![])];
    let specs = vec![spec("foo >=2")];
    let targets = vec![Platform::Linux64];
    let err = validate_lockfile(&records, &specs, &targets).expect_err("constraint fails");
    assert_eq!(err.kind(), ErrorKind::LockStale);
}

#[test]
fn missing_dependency_is_stale() {
    let records = vec![record("foo", "1.0", "linux-64", vec!["bar"])];
    let specs = vec![spec("foo")];
    let targets = vec![Platform::Linux64];
    let err = validate_lockfile(&records, &specs, &targets).expect_err("bar is missing");
    assert_eq!(err.kind(), ErrorKind::LockStale);
}

#[test]
fn unsatisfied_dependency_constraint_is_stale() {
    let records = vec![
        record("foo", "1.0", "linux-64", vec!["bar >=2"]),
        record("bar", "1.5", "linux-64", vec![]),
    ];
    let specs = vec![spec("foo")];
    let targets = vec![Platform::Linux64];
    let err = validate_lockfile(&records, &specs, &targets).expect_err("bar too old");
    assert_eq!(err.kind(), ErrorKind::LockStale);
}

#[test]
fn extraneous_record_is_stale() {
    let records = vec![
        record("foo", "1.0", "linux-64", vec![]),
        record("orphan", "0.1", "linux-64", vec![]),
    ];
    let specs = vec![spec("foo")];
    let targets = vec![Platform::Linux64];
    let err = validate_lockfile(&records, &specs, &targets).expect_err("orphan is unrelated");
    assert_eq!(err.kind(), ErrorKind::LockStale);
    assert!(err.message().contains("unrelated"));
}

#[test]
fn empty_platform_set_is_stale() {
    let records = vec![record("foo", "1.0", "linux-64", vec![])];
    let specs = vec![spec("foo")];
    let targets = vec![Platform::Win64];
    let err = validate_lockfile(&records, &specs, &targets).expect_err("win-64 has no records");
    assert_eq!(err.kind(), ErrorKind::LockStale);
}

#[test]
fn duplicate_names_on_a_platform_are_stale() {
    let records = vec![
        record("foo", "1.0", "linux-64", vec![]),
        record("foo", "1.1", "noarch", vec![]),
    ];
    let specs = vec![spec("foo")];
    let targets = vec![Platform::Linux64];
    let err = validate_lockfile(&records, &specs, &targets).expect_err("foo appears twice");
    assert_eq!(err.kind(), ErrorKind::LockStale);
}

#[test]
fn virtual_dependencies_are_skipped() {
    let records = vec![record("foo", "1.0", "linux-64", vec!["__glibc >=2.17", "__cuda"])];
    let specs = vec![spec("foo")];
    let targets = vec![Platform::Linux64];
    assert!(validate_lockfile(&records, &specs, &targets).is_ok());
}

#[test]
fn noarch_records_satisfy_dependencies() {
    let records = vec![
        record("app", "0.3", "linux-64", vec!["helper"]),
        record("helper", "9", "noarch", vec![]),
    ];
    let specs = vec![spec("app")];
    let targets = vec![Platform::Linux64];
    assert!(validate_lockfile(&records, &specs, &targets).is_ok());
}

#[test]
fn record_rejects_invalid_fields() {
    assert!(LockRecord::new(
        "bad name!",
        "1.0".to_string(),
        "0".to_string(),
        "linux-64".to_string(),
        "f".to_string(),
        "u".to_string(),
        None,
        Vec::new(),
    )
    .is_none());
    assert!(LockRecord::new(
        "fine",
        "not a version at all !!!".to_string(),
        "0".to_string(),
        "linux-64".to_string(),
        "f".to_string(),
        "u".to_string(),
        None,
        Vec::new(),
    )
    .is_none());
}

#[test]
fn dependency_map_formats_match_specs() {
    let deps = DependencySpec {
        entries: vec![
            ("numpy".to_string(), ">=1.21".to_string()),
            ("python".to_string(), "*".to_string()),
            ("requests".to_string(), "  ".to_string()),
        ],
    };
    let reqs = deps.to_match_specs().expect("all entries parse");
    assert_eq!(reqs.len(), 3);
    assert_eq!(reqs[0].raw, "numpy >=1.21");
    assert_eq!(reqs[0].name, "numpy");
    assert_eq!(reqs[1].raw, "python");
    assert_eq!(reqs[2].raw, "requests");
}

#[test]
fn unparseable_dependency_is_a_manifest_error() {
    let deps = DependencySpec {
        entries: vec![("numpy".to_string(), ">=>bad".to_string())],
    };
    let err = deps.to_match_specs().expect_err("constraint is garbage");
    assert_eq!(err.kind(), ErrorKind::ManifestInvalid);
}
