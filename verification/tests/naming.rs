//! String normalization: release strings, version markers, package and
//! label names, and count formatting.

use conda_dist::cache::{push_download_summary, DownloadSummary};
use conda_dist::errors::ErrorKind;
use conda_dist::filters::{native_version, normalize_deb_release, normalize_rpm_release};
use conda_dist::names::{
    derive_image_tag, normalize_package_name, package_author, sanitize_image_label,
    sanitize_native_name, sanitize_single_line, split_package_name,
};
use conda_dist::text::decimal_string;

#[test]
fn rpm_release_keeps_tilde_and_underscore() {
    assert_eq!(normalize_rpm_release("1!2.0-beta"), "1.2.0.beta");
    assert_eq!(normalize_rpm_release("b_1~pre+x"), "b_1~pre+x");
}

#[test]
fn deb_release_maps_underscores_and_trims_dots() {
    assert_eq!(normalize_deb_release("_build_7_"), "build.7");
    assert_eq!(normalize_deb_release("..."), "1");
}

#[test]
fn empty_release_becomes_one() {
    assert_eq!(normalize_rpm_release(""), "1");
    assert_eq!(normalize_deb_release("//"), "1");
}

#[test]
fn native_version_marks_dev_builds() {
    assert_eq!(native_version("1.2.0dev"), "1.2.0~~dev");
    assert_eq!(native_version("1.2.0.dev3"), "1.2.0.~~dev3");
}

#[test]
fn native_version_marks_prereleases() {
    assert_eq!(native_version("1.2.0-rc1"), "1.2.0~rc1");
    assert_eq!(native_version("2.0alpha1"), "2.0~alpha1");
    assert_eq!(native_version("3.1"), "3.1");
}

#[test]
fn native_name_lowercases_and_collapses() {
    assert_eq!(sanitize_native_name("My Lib++"), "my-lib++");
    assert_eq!(sanitize_native_name("--"), "pkg");
    assert_eq!(sanitize_native_name("!x"), "x");
    assert_eq!(sanitize_native_name(".x"), "pkg-.x");
}

#[test]
fn image_label_collapses_to_underscores() {
    assert_eq!(sanitize_image_label("ghcr.io/Foo-Bar"), "ghcr_io_foo_bar");
    assert_eq!(sanitize_image_label("//"), "image");
}

#[test]
fn split_package_name_prefixes_environment() {
    assert_eq!(split_package_name("env", "NumPy"), "env-numpy");
}

#[test]
fn single_line_collapses_whitespace() {
    assert_eq!(sanitize_single_line("  a   b\n c "), "a b c");
    assert_eq!(package_author("  Ada   Lovelace "), "Ada Lovelace");
}

#[test]
fn package_names_validate_and_normalize() {
    assert_eq!(normalize_package_name("NumPy").as_deref(), Some("numpy"));
    assert_eq!(normalize_package_name("a_b-c.d").as_deref(), Some("a_b-c.d"));
    assert!(normalize_package_name("has space").is_none());
    assert!(normalize_package_name("star*").is_none());
}

#[test]
fn image_tag_renders_from_template() {
    let tag = derive_image_tag("app", "1.0", "{name}:{version}").unwrap();
    assert_eq!(tag, "app:1.0");
    let tag = derive_image_tag("app", " 2.1 ", "  repo/{name}:{version}  ").unwrap();
    assert_eq!(tag, "repo/app:2.1");
}

#[test]
fn image_tag_rejects_bad_inputs() {
    let err = derive_image_tag("app", " ", "{name}").expect_err("blank version");
    assert_eq!(err.kind(), ErrorKind::ManifestInvalid);
    let err = derive_image_tag("app", "1.0", "x{unknown}").expect_err("stray placeholder");
    assert_eq!(err.kind(), ErrorKind::ManifestInvalid);
    let err = derive_image_tag("app", "1.0", " ").expect_err("blank template");
    assert_eq!(err.kind(), ErrorKind::ManifestInvalid);
}

#[test]
fn counts_format_in_decimal() {
    assert_eq!(decimal_string(0), "0");
    assert_eq!(decimal_string(7), "7");
    assert_eq!(decimal_string(1234), "1234");
    assert_eq!(decimal_string(1000000), "1000000");
}

#[test]
fn download_summary_messages() {
    let mut messages: Vec<String> = Vec::new();
    push_download_summary(
        &mut messages,
        &DownloadSummary { total_packages: 5, fetched_packages: 0 },
    );
    push_download_summary(
        &mut messages,
        &DownloadSummary { total_packages: 5, fetched_packages: 3 },
    );
    push_download_summary(
        &mut messages,
        &DownloadSummary { total_packages: 4, fetched_packages: 4 },
    );
    assert_eq!(messages[0], "No packages required downloading.");
    assert_eq!(messages[1], "Downloaded 3 packages (reused 2).");
    assert_eq!(messages[2], "Downloaded 4 packages.");
}
