//! The installer image format and the lock-mode decision table.

use conda_dist::errors::ErrorKind;
use conda_dist::image::{assemble_image, magic_bytes, parse_image, sub_bytes};
use conda_dist::lockmode::{decide, lock_mode_from_flags, LockAction, LockMode};

#[test]
fn image_round_trip_recovers_all_three_ranges() {
    let launcher: Vec<u8> = b"#!/bin/sh launcher stub".to_vec();
    let metadata: Vec<u8> = b"{\"summary\":\"demo\"}".to_vec();
    let payload: Vec<u8> = vec![0x1f, 0x8b, 8, 0, 1, 2, 3, 4, 5];
    let image = assemble_image(&launcher, &metadata, &payload);
    assert_eq!(
        image.len(),
        launcher.len() + metadata.len() + payload.len() + 16 + 10
    );
    let layout = parse_image(&image).expect("assembled image must parse");
    assert_eq!(layout.metadata_len, metadata.len());
    assert_eq!(layout.payload_len, payload.len());
    let got_launcher = sub_bytes(&image, 0, layout.metadata_start);
    let got_metadata = sub_bytes(&image, layout.metadata_start, layout.metadata_len);
    let got_payload = sub_bytes(&image, layout.payload_start, layout.payload_len);
    assert_eq!(got_launcher, launcher);
    assert_eq!(got_metadata, metadata);
    assert_eq!(got_payload, payload);
}

#[test]
fn image_with_zero_payload_length_is_corrupt() {
    let mut image: Vec<u8> = Vec::new();
    image.push(42);
    image.extend_from_slice(&1u64.to_le_bytes());
    image.extend_from_slice(&0u64.to_le_bytes());
    image.extend_from_slice(&magic_bytes());
    let err = parse_image(&image).expect_err("zero payload length must be rejected");
    assert_eq!(err.kind(), ErrorKind::ImageCorrupt);
    assert_eq!(err.message(), "installer payload is empty");
}

#[test]
fn image_with_wrong_magic_is_corrupt() {
    let launcher: Vec<u8> = vec![1, 2, 3];
    let metadata: Vec<u8> = vec![9];
    let payload: Vec<u8> = vec![7, 7];
    let mut image = assemble_image(&launcher, &metadata, &payload);
    let last = image.len() - 1;
    image[last] = b'?';
    let err = parse_image(&image).expect_err("bad magic must be rejected");
    assert_eq!(err.kind(), ErrorKind::ImageCorrupt);
}

#[test]
fn image_too_short_is_corrupt() {
    let image: Vec<u8> = vec![0; 25];
    let err = parse_image(&image).expect_err("short file must be rejected");
    assert_eq!(err.kind(), ErrorKind::ImageCorrupt);
}

#[test]
fn image_with_oversized_payload_length_is_corrupt() {
    let mut image: Vec<u8> = Vec::new();
    image.extend_from_slice(&1u64.to_le_bytes());
    image.extend_from_slice(&1000u64.to_le_bytes());
    image.extend_from_slice(&magic_bytes());
    let err = parse_image(&image).expect_err("overlong payload must be rejected");
    assert_eq!(err.kind(), ErrorKind::ImageCorrupt);
}

#[test]
fn conflicting_lock_flags_are_rejected_before_any_work() {
    let err = lock_mode_from_flags(true, true).expect_err("--locked with --unlock must fail");
    assert_eq!(err.kind(), ErrorKind::ManifestInvalid);
    assert_eq!(lock_mode_from_flags(false, false).unwrap(), LockMode::Auto);
    assert_eq!(lock_mode_from_flags(true, false).unwrap(), LockMode::Locked);
    assert_eq!(lock_mode_from_flags(false, true).unwrap(), LockMode::Unlock);
}

#[test]
fn locked_mode_without_lockfile_fails_missing() {
    assert_eq!(decide(LockMode::Locked, false, false), LockAction::FailMissing);
}

#[test]
fn locked_mode_with_stale_lockfile_fails_stale() {
    assert_eq!(decide(LockMode::Locked, true, false), LockAction::FailStale);
}

#[test]
fn auto_mode_with_stale_lockfile_resolves() {
    assert_eq!(decide(LockMode::Auto, true, false), LockAction::Resolve);
}

#[test]
fn valid_lockfile_is_reused_in_auto_and_locked_modes() {
    assert_eq!(decide(LockMode::Auto, true, true), LockAction::Reuse);
    assert_eq!(decide(LockMode::Locked, true, true), LockAction::Reuse);
}

#[test]
fn unlock_mode_always_resolves() {
    assert_eq!(decide(LockMode::Unlock, true, true), LockAction::Resolve);
    assert_eq!(decide(LockMode::Unlock, false, false), LockAction::Resolve);
}
