//! The archive builder against real tar+gzip decoding, digest checks, and
//! bundle metadata derivation.

use std::io::Read;

use conda_dist::archive::{build_archive, plan_bundle_entries, TarEntry};
use conda_dist::cache::{cache_hit, check_download, compute_sha256};
use conda_dist::errors::ErrorKind;
use conda_dist::metadata::{base_summary, compose_description_parts, prepare_bundle_metadata};

fn file_entry(path: &str, mode: u32, data: &[u8]) -> TarEntry {
    TarEntry::file(path.to_string(), mode, data.to_vec())
}

fn dir_entry(path: &str, mode: u32) -> TarEntry {
    TarEntry::dir(path.to_string(), mode)
}

fn decode_names(bytes: &[u8]) -> Vec<String> {
    let decoder = flate2::read::GzDecoder::new(bytes);
    let mut archive = tar::Archive::new(decoder);
    archive
        .entries()
        .unwrap()
        .map(|e| e.unwrap().path().unwrap().to_string_lossy().into_owned())
        .collect()
}

#[test]
fn archive_holds_the_planned_entries() {
    let entries = vec![
        dir_entry("env", 0o755),
        file_entry("env/a.txt", 0o644, b"alpha"),
        file_entry("env/b.bin", 0o755, &[1, 2, 3]),
    ];
    let bytes = build_archive(&entries).expect("encoding succeeds");
    let names = decode_names(&bytes);
    assert_eq!(names, vec!["env", "env/a.txt", "env/b.bin"]);
    let decoder = flate2::read::GzDecoder::new(bytes.as_slice());
    let mut archive = tar::Archive::new(decoder);
    let mut contents = Vec::new();
    for entry in archive.entries().unwrap() {
        let mut entry = entry.unwrap();
        let mut data = Vec::new();
        entry.read_to_end(&mut data).unwrap();
        contents.push(data);
    }
    assert_eq!(contents[1], b"alpha");
    assert_eq!(contents[2], vec![1, 2, 3]);
}

#[test]
fn identical_inputs_give_bit_identical_archives() {
    let make = || {
        vec![
            dir_entry("env", 0o755),
            file_entry("env/data", 0o644, b"payload bytes"),
        ]
    };
    let first = build_archive(&make()).unwrap();
    let second = build_archive(&make()).unwrap();
    assert_eq!(first, second);
}

#[test]
fn bundle_plan_lays_out_the_canonical_entries() {
    let lockfile = b"locked: yes\n".to_vec();
    let top = vec![
        file_entry("conda-lock.yml", 0o644, b"stale copy"),
        file_entry("readme.txt", 0o644, b"hello"),
    ];
    let sub = vec![
        dir_entry("noarch", 0o755),
        file_entry("linux-64/pkg-1.0-0.conda", 0o644, &[9, 9]),
    ];
    let metadata = b"{}".to_vec();
    let launcher = b"stub".to_vec();
    let entries = plan_bundle_entries(
        &"env".to_string(),
        Some(&lockfile),
        &top,
        &sub,
        &metadata,
        &launcher,
    );
    let paths: Vec<&str> = entries.iter().map(|e| e.path.as_str()).collect();
    assert_eq!(
        paths,
        vec![
            "env",
            "env/conda-lock.yml",
            "env/readme.txt",
            "env/noarch",
            "env/linux-64/pkg-1.0-0.conda",
            "env/bundle-metadata.json",
            "env/installer",
        ]
    );
    assert!(entries[0].is_dir);
    assert_eq!(entries[1].data, lockfile);
    assert_eq!(entries[5].mode, 0o644);
    assert_eq!(entries[6].mode, 0o755);
    assert_eq!(entries[6].data, launcher);
}

#[test]
fn sha256_matches_the_known_test_vector() {
    let empty: Vec<u8> = Vec::new();
    let digest = compute_sha256(&empty);
    let expected: [u8; 32] = [
        0xe3, 0xb0, 0xc4, 0x42, 0x98, 0xfc, 0x1c, 0x14, 0x9a, 0xfb, 0xf4, 0xc8, 0x99, 0x6f, 0xb9,
        0x24, 0x27, 0xae, 0x41, 0xe4, 0x64, 0x9b, 0x93, 0x4c, 0xa4, 0x95, 0x99, 0x1b, 0x78, 0x52,
        0xb8, 0x55,
    ];
    assert_eq!(digest, expected.to_vec());
}

#[test]
fn cache_reuses_only_validated_bytes() {
    let bytes: Vec<u8> = b"package contents".to_vec();
    let digest = compute_sha256(&bytes);
    assert!(cache_hit(Some(&bytes), Some(&digest)));
    assert!(!cache_hit(None, Some(&digest)));
    assert!(!cache_hit(Some(&bytes), None));
    let other = compute_sha256(&b"different".to_vec());
    assert!(!cache_hit(Some(&bytes), Some(&other)));
}

#[test]
fn downloads_validate_against_the_record_digest() {
    let bytes: Vec<u8> = b"fetched".to_vec();
    let digest = compute_sha256(&bytes);
    assert!(check_download(&bytes, Some(&digest)).is_ok());
    assert!(check_download(&bytes, None).is_ok());
    let wrong = compute_sha256(&b"tampered".to_vec());
    let err = check_download(&bytes, Some(&wrong)).expect_err("digest mismatch");
    assert_eq!(err.kind(), ErrorKind::FetchFailed);
}

#[test]
fn featured_package_must_be_resolved() {
    let names = vec!["python".to_string()];
    let err = prepare_bundle_metadata(
        &"env".to_string(),
        None,
        None,
        None,
        &vec!["numpy".to_string()],
        &names,
        &"Ada".to_string(),
    )
    .expect_err("numpy is not in the resolved set");
    assert_eq!(err.kind(), ErrorKind::MetadataInvalid);
}

#[test]
fn featured_packages_normalize_and_deduplicate() {
    let names = vec!["numpy".to_string(), "python".to_string()];
    let prep = prepare_bundle_metadata(
        &"env".to_string(),
        Some("My Env".to_string()),
        Some("desc".to_string()),
        None,
        &vec!["NumPy".to_string(), "numpy".to_string()],
        &names,
        &" Ada Lovelace ".to_string(),
    )
    .expect("all featured packages resolve");
    assert_eq!(prep.manifest.summary, "My Env");
    assert_eq!(prep.manifest.author, "Ada Lovelace");
    assert_eq!(prep.manifest.featured_packages.len(), 1);
    assert_eq!(prep.manifest.featured_packages[0].name, "numpy");
}

#[test]
fn unparseable_featured_name_is_a_metadata_error() {
    let names = vec!["python".to_string()];
    let err = prepare_bundle_metadata(
        &"env".to_string(),
        None,
        None,
        None,
        &vec!["bad name".to_string()],
        &names,
        &"Ada".to_string(),
    )
    .expect_err("spaces are not allowed in package names");
    assert_eq!(err.kind(), ErrorKind::MetadataInvalid);
}

#[test]
fn summary_defaults_to_environment_name() {
    let prep = prepare_bundle_metadata(
        &"tools".to_string(),
        None,
        None,
        None,
        &Vec::new(),
        &Vec::new(),
        &"Ada".to_string(),
    )
    .unwrap();
    assert_eq!(prep.manifest.summary, "tools");
}

#[test]
fn description_parts_trim_and_label_release_notes() {
    let parts = compose_description_parts(
        Some(&" about this ".to_string()),
        Some(&"fixed things".to_string()),
    );
    assert_eq!(parts, vec!["about this", "Release notes:\nfixed things"]);
    let parts = compose_description_parts(Some(&"  ".to_string()), None);
    assert!(parts.is_empty());
}

#[test]
fn base_summary_falls_back_to_environment_name() {
    assert_eq!(base_summary(&"env".to_string(), &"  ".to_string()).unwrap(), "env");
    assert_eq!(
        base_summary(&"env".to_string(), &" a  summary ".to_string()).unwrap(),
        "a summary"
    );
}

#[test]
fn unstorable_paths_fail_the_archive_build() {
    let entries = vec![file_entry("/etc/absolute", 0o644, b"x")];
    let err = build_archive(&entries).expect_err("absolute paths are rejected by tar");
    assert_eq!(err.kind(), ErrorKind::StagingFailed);
}
