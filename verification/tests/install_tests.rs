use std::io::Write;

use terrawrap::cache::get_cache_path;
use terrawrap::cache::CacheStore;
use terrawrap::errors::TerraError;
use terrawrap::install::build_download_url;
use terrawrap::install::check_verification;
use terrawrap::install::get_platform_string;
use terrawrap::install::install;
use terrawrap::install::str_equal;
use terrawrap::install::InstallOutcome;

#[test]
fn platform_strings_cover_both_architectures() {
    assert_eq!(
        Ok("linux_amd64".to_string()),
        get_platform_string("linux", "x86_64")
    );
    assert_eq!(
        Ok("darwin_arm64".to_string()),
        get_platform_string("macos", "aarch64")
    );
    assert_eq!(
        Ok("windows_amd64".to_string()),
        get_platform_string("windows", "x86_64")
    );
    assert_eq!(
        Ok("linux_arm64".to_string()),
        get_platform_string("freebsd", "aarch64")
    );
}

#[test]
fn unsupported_architecture_is_fatal() {
    match get_platform_string("linux", "riscv64") {
        Err(TerraError::UnsupportedArchitecture(a)) => assert_eq!("riscv64", a),
        other => panic!("Expected UnsupportedArchitecture, got {:?}", other),
    }
}

#[test]
fn download_url_follows_the_release_template() {
    assert_eq!(
        "https://releases.hashicorp.com/terraform/1.9.0/terraform_1.9.0_darwin_arm64.zip",
        build_download_url("1.9.0", "darwin_arm64")
    );
}

#[test]
fn cache_path_prefers_home_and_falls_back_to_tmp() {
    assert_eq!(
        "/home/u/.cache/at/terraform",
        get_cache_path(Some("/home/u".to_string()))
    );
    assert_eq!("/tmp/.cache/at/terraform", get_cache_path(None));
}

#[test]
fn cache_key_is_the_version() {
    let store = CacheStore::new("/r".to_string());
    assert_eq!("/r/1.2.3", store.version_dir("1.2.3"));
    assert_eq!("/r/1.2.3/terraform", store.path_for("1.2.3"));
}

#[test]
fn string_comparison_is_exact() {
    assert!(str_equal("x86_64", "x86_64"));
    assert!(!str_equal("x86_64", "x86_65"));
    assert!(!str_equal("x86_64", "x86_6"));
}

/// Puts a stand-in binary at `version`'s canonical cache path by unpacking
/// an in-memory archive, the same way a real install lands on disk.
fn install_stand_in_binary(store: &CacheStore, version: &str) {
    let cursor = std::io::Cursor::new(Vec::new());
    let mut writer = zip::ZipWriter::new(cursor);
    writer
        .start_file("terraform", zip::write::SimpleFileOptions::default())
        .unwrap();
    writer.write_all(b"#!/bin/sh\n").unwrap();
    let cursor = writer.finish().unwrap();
    let mut archive = zip::ZipArchive::new(cursor).unwrap();
    archive.extract(store.version_dir(version)).unwrap();
}

#[test]
fn cache_hit_appears_after_install() {
    let dir = tempfile::tempdir().unwrap();
    let root = dir.path().to_str().unwrap().to_string();
    let store = CacheStore::new(root);
    assert!(!store.is_cached("1.2.3"));
    assert_eq!(None, store.locate("1.2.3"));
    install_stand_in_binary(&store, "1.2.3");
    assert!(store.is_cached("1.2.3"));
    assert_eq!(Some(store.path_for("1.2.3")), store.locate("1.2.3"));
    assert!(!store.is_cached("1.2.4"));
}

#[test]
fn repeat_provisioning_is_idempotent_without_refetch() {
    let dir = tempfile::tempdir().unwrap();
    let root = dir.path().to_str().unwrap().to_string();
    let store = CacheStore::new(root);
    install_stand_in_binary(&store, "1.9.0");
    // a cached version must be announced at once; any fetch attempt here
    // would fail loudly rather than succeed
    let first = install(&store, "1.9.0", "linux", "x86_64");
    let second = install(&store, "1.9.0", "linux", "x86_64");
    let expected = store.path_for("1.9.0");
    match first {
        Ok(InstallOutcome::AlreadyInstalled(p)) => assert_eq!(expected, p),
        other => panic!("Expected a cache hit, got {:?}", other),
    }
    match second {
        Ok(InstallOutcome::AlreadyInstalled(p)) => assert_eq!(expected, p),
        other => panic!("Expected a cache hit, got {:?}", other),
    }
}

#[test]
fn install_rejects_unknown_architecture_before_any_download() {
    let dir = tempfile::tempdir().unwrap();
    let store = CacheStore::new(dir.path().to_str().unwrap().to_string());
    match install(&store, "1.9.0", "linux", "mips") {
        Err(TerraError::UnsupportedArchitecture(a)) => assert_eq!("mips", a),
        other => panic!("Expected UnsupportedArchitecture, got {:?}", other),
    }
}

#[test]
fn verification_failure_keeps_the_output() {
    assert_eq!(Ok(()), check_verification(true, String::new()));
    match check_verification(false, "bad binary\n".to_string()) {
        Err(TerraError::VerificationFailed(o)) => assert_eq!("bad binary\n", o),
        other => panic!("Expected VerificationFailed, got {:?}", other),
    }
}
