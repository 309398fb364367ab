//! Native packaging decisions: format labels, the install prefix, and the
//! virtual-package set with its overrides.

use conda_dist::config::{PlatformVirtualPackageConfig, VirtualPackageLibcConfig};
use conda_dist::errors::ErrorKind;
use conda_dist::metadata::compose_description;
use conda_dist::nativepkg::{
    install_prefix, virtual_packages_for_platform, PackageFormat,
};
use conda_dist::platform::Platform;

#[test]
fn package_format_labels() {
    assert_eq!(PackageFormat::Rpm.label(), "rpm");
    assert_eq!(PackageFormat::Deb.label(), "deb");
}

#[test]
fn install_prefix_defaults_under_opt() {
    assert_eq!(install_prefix(None, &"env".to_string()).unwrap(), "/opt/env");
    assert_eq!(
        install_prefix(Some(&"/usr/lib/env".to_string()), &"env".to_string()).unwrap(),
        "/usr/lib/env"
    );
    let err = install_prefix(Some(&"relative/path".to_string()), &"env".to_string()).unwrap_err();
    assert_eq!(err.kind(), ErrorKind::ManifestInvalid);
}

fn no_overrides() -> PlatformVirtualPackageConfig {
    PlatformVirtualPackageConfig { linux: None, osx: None, win: None, libc: None, cuda: None }
}

#[test]
fn linux_defaults_advertise_kernel_and_glibc() {
    let set = virtual_packages_for_platform(Platform::Linux64, None).unwrap();
    assert!(set.unix);
    assert_eq!(set.linux.as_deref(), Some("5.4"));
    assert_eq!(
        set.libc,
        Some(("glibc".to_string(), "2.17".to_string()))
    );
    assert!(set.osx.is_none());
    assert!(set.win.is_none());
    assert!(set.cuda.is_none());
}

#[test]
fn windows_defaults_advertise_a_version() {
    let set = virtual_packages_for_platform(Platform::Win64, None).unwrap();
    assert!(!set.unix);
    assert_eq!(set.win, Some(Some("10".to_string())));
    assert!(set.linux.is_none());
}

#[test]
fn overrides_replace_the_defaults() {
    let mut ov = no_overrides();
    ov.linux = Some("6.1".to_string());
    ov.libc = Some(VirtualPackageLibcConfig {
        family: "musl".to_string(),
        version: "1.2".to_string(),
    });
    ov.cuda = Some("12.0".to_string());
    let set = virtual_packages_for_platform(Platform::Linux64, Some(&ov)).unwrap();
    assert_eq!(set.linux.as_deref(), Some("6.1"));
    assert_eq!(set.libc, Some(("musl".to_string(), "1.2".to_string())));
    assert_eq!(set.cuda.as_deref(), Some("12.0"));
}

#[test]
fn blank_overrides_clear_where_the_rules_say() {
    let mut ov = no_overrides();
    ov.win = Some(" ".to_string());
    ov.cuda = Some("".to_string());
    let set = virtual_packages_for_platform(Platform::Win64, Some(&ov)).unwrap();
    assert_eq!(set.win, Some(None));
    assert!(set.cuda.is_none());
}

#[test]
fn unparseable_override_version_is_rejected() {
    let mut ov = no_overrides();
    ov.cuda = Some("not a version !!!".to_string());
    let err = virtual_packages_for_platform(Platform::Linux64, Some(&ov)).unwrap_err();
    assert_eq!(err.kind(), ErrorKind::ManifestInvalid);
}

#[test]
fn descriptions_join_with_blank_lines() {
    let parts = vec!["first".to_string(), "second".to_string()];
    assert_eq!(compose_description(&parts), "first\n\nsecond");
    assert_eq!(compose_description(&Vec::new()), "");
}

#[test]
fn package_run_arguments_are_laid_out_exactly() {
    let args = conda_dist::nativepkg::package_run_args(
        &"linux/amd64".to_string(),
        1000,
        1000,
        &"/w/pkg.sh".to_string(),
        &"/opt/env".to_string(),
        &"/w/installer".to_string(),
        &"/w/packaging".to_string(),
        &"rpm/linux-64/img/package_plan.tsv".to_string(),
        &"/w/out".to_string(),
        &"rockylinux:9".to_string(),
    );
    assert_eq!(
        args,
        vec![
            "run",
            "--rm",
            "--platform",
            "linux/amd64",
            "--env",
            "PKG_UID=1000",
            "--env",
            "PKG_GID=1000",
            "--mount",
            "type=bind,src=/w/pkg.sh,dst=/tmp/conda-dist-package.sh,ro",
            "--env",
            "PKG_PREFIX=/opt/env",
            "--mount",
            "type=bind,src=/w/installer,dst=/tmp/conda-dist-installer,ro",
            "--env",
            "PKG_INSTALLER=/tmp/conda-dist-installer",
            "--mount",
            "type=bind,src=/w/packaging,dst=/tmp/conda-dist-packages",
            "--env",
            "PKG_PACKAGING_ROOT=/tmp/conda-dist-packages",
            "--env",
            "PKG_PACKAGE_PLAN=rpm/linux-64/img/package_plan.tsv",
            "--mount",
            "type=bind,src=/w/out,dst=/output",
            "rockylinux:9",
            "/bin/bash",
            "/tmp/conda-dist-package.sh",
        ]
    );
}
