use emulator_hub::digest::{checksum_matches, hex_digit_char, hex_lower_string, sha256_hex, sha256_hex_string};
use emulator_hub::update::{
    checksum_from_file, configured_repository, evaluate_release, finish_with_checksum_file,
    latest_release_endpoint, update_helper_paths, GithubAsset, GithubRelease, PendingChecksum,
    ReleaseDecision, SwapStep, UpdateError, UpdateSwap, SWAP_ATTEMPTS,
};
use emulator_hub::version::{is_newer_version, version_tuple};

const CURRENT: &str = "0.0.5-alpha1";

fn asset(name: &str, digest: Option<&str>) -> GithubAsset {
    GithubAsset {
        name: name.to_string(),
        browser_download_url: format!("https://github.com/o/r/releases/download/{name}"),
        digest: digest.map(|d| d.to_string()),
    }
}

fn release(tag: &str, assets: Vec<GithubAsset>) -> GithubRelease {
    GithubRelease {
        tag_name: tag.to_string(),
        body: "Notes".to_string(),
        draft: false,
        prerelease: false,
        assets,
    }
}

#[test]
fn version_tuples_parse_release_tags() {
    assert_eq!(version_tuple("0.0.5-alpha1"), Some((0, 0, 5, 0, false)));
    assert_eq!(version_tuple("v0.0.5"), Some((0, 0, 5, 0, true)));
    assert_eq!(version_tuple(" 0.0.4.2 "), Some((0, 0, 4, 2, true)));
    assert_eq!(version_tuple("1.2"), None);
    assert_eq!(version_tuple("1.x.3"), None);
    assert_eq!(version_tuple(""), None);
}

#[test]
fn stable_release_is_newer_than_its_prerelease() {
    let stable = version_tuple("0.0.5").unwrap();
    let alpha = version_tuple("0.0.5-alpha1").unwrap();
    assert!(is_newer_version(stable, alpha));
    assert!(!is_newer_version(alpha, stable));
    assert!(!is_newer_version(stable, stable));
    assert!(is_newer_version(version_tuple("0.0.5").unwrap(), version_tuple("0.0.4.2").unwrap()));
    assert!(is_newer_version(version_tuple("0.1.0").unwrap(), version_tuple("0.0.9.9").unwrap()));
}

#[test]
fn repository_placeholders_are_not_queried() {
    assert_eq!(configured_repository(Some("owner/emulator-hub")).as_deref(), Some("owner/emulator-hub"));
    assert_eq!(configured_repository(Some("")), None);
    assert_eq!(configured_repository(Some("OWNER/REPOSITORY")), None);
    assert_eq!(configured_repository(None), None);
    assert_eq!(
        latest_release_endpoint("owner/emulator-hub"),
        "https://api.github.com/repos/owner/emulator-hub/releases/latest"
    );
}

#[test]
fn drafts_and_prereleases_are_ignored() {
    let mut r = release("v0.1.0", vec![asset("EmulatorHub-v0.1.0-windows-x86_64.exe", Some("sha256:AB"))]);
    r.prerelease = true;
    assert!(matches!(evaluate_release(&r, CURRENT), Ok(ReleaseDecision::UpToDate)));
    r.prerelease = false;
    r.draft = true;
    assert!(matches!(evaluate_release(&r, CURRENT), Ok(ReleaseDecision::UpToDate)));
}

#[test]
fn older_or_equal_releases_are_up_to_date() {
    let r = release("0.0.5-alpha1", vec![]);
    assert!(matches!(evaluate_release(&r, CURRENT), Ok(ReleaseDecision::UpToDate)));
    let r = release("v0.0.4.2", vec![]);
    assert!(matches!(evaluate_release(&r, CURRENT), Ok(ReleaseDecision::UpToDate)));
}

#[test]
fn the_portable_executable_is_chosen_over_the_installer() {
    let r = release(
        "v0.0.5",
        vec![
            asset("EmulatorHub-v0.0.5-Setup.exe", Some("sha256:1111")),
            asset("EmulatorHub-v0.0.5-windows-x86_64.exe", Some("sha256:ABCDEF")),
        ],
    );
    match evaluate_release(&r, CURRENT) {
        Ok(ReleaseDecision::Ready(u)) => {
            assert_eq!(u.version, "v0.0.5");
            assert_eq!(
                u.download_url,
                "https://github.com/o/r/releases/download/EmulatorHub-v0.0.5-windows-x86_64.exe"
            );
            assert_eq!(u.checksum, "abcdef");
            assert_eq!(u.notes, "Notes");
        }
        _ => panic!("expected a ready update"),
    }
}

#[test]
fn any_windows_executable_is_accepted_when_the_expected_name_is_absent() {
    let r = release("v0.0.6", vec![asset("Hub-portable-windows-x86_64.exe", Some("FFEE"))]);
    match evaluate_release(&r, CURRENT) {
        Ok(ReleaseDecision::Ready(u)) => assert_eq!(u.checksum, "ffee"),
        _ => panic!("expected a ready update"),
    }
}

#[test]
fn a_checksum_asset_is_preferred_over_the_digest() {
    let r = release(
        "v0.0.6",
        vec![
            asset("EmulatorHub-v0.0.6-windows-x86_64.exe", Some("sha256:00")),
            asset("EmulatorHub-v0.0.6-windows-x86_64.exe.sha256", None),
        ],
    );
    match evaluate_release(&r, CURRENT) {
        Ok(ReleaseDecision::NeedsChecksumFile(p)) => {
            assert_eq!(
                p.checksum_url,
                "https://github.com/o/r/releases/download/EmulatorHub-v0.0.6-windows-x86_64.exe.sha256"
            );
            let u = finish_with_checksum_file(p, b"  ABC123  EmulatorHub.exe\n".to_vec())
                .ok()
                .unwrap();
            assert_eq!(u.checksum, "abc123");
            assert_eq!(u.version, "v0.0.6");
        }
        _ => panic!("expected a checksum file to read"),
    }
}

#[test]
fn release_errors_say_what_is_missing() {
    let r = release("v0.0.6", vec![asset("EmulatorHub-v0.0.6-Setup.exe", None)]);
    match evaluate_release(&r, CURRENT) {
        Err(e) => {
            assert!(matches!(e, UpdateError::NoWindowsExecutable));
            assert_eq!(e.message(), "The latest release has no Windows executable asset.");
        }
        _ => panic!("expected an error"),
    }
    let r = release("v0.0.6", vec![asset("EmulatorHub-v0.0.6-windows-x86_64.exe", None)]);
    match evaluate_release(&r, CURRENT) {
        Err(e) => assert_eq!(e.message(), "The latest release has no SHA-256 checksum."),
        _ => panic!("expected an error"),
    }
    let r = release("latest", vec![]);
    match evaluate_release(&r, CURRENT) {
        Err(e) => assert_eq!(e.message(), "Invalid release version: latest"),
        _ => panic!("expected an error"),
    }
    let r = release("v0.0.6", vec![]);
    match evaluate_release(&r, "dev") {
        Err(e) => assert_eq!(e.message(), "Invalid current version: dev"),
        _ => panic!("expected an error"),
    }
}

#[test]
fn checksum_files_give_their_first_word() {
    assert_eq!(checksum_from_file(b"DEADBEEF file.exe".to_vec()).ok().unwrap(), "deadbeef");
    match checksum_from_file(b" \n\t ".to_vec()) {
        Err(e) => {
            assert!(matches!(e, UpdateError::EmptyChecksumFile));
            assert_eq!(e.message(), "The release checksum file is empty.");
        }
        Ok(_) => panic!("expected an error"),
    }
    match checksum_from_file(vec![0xff, 0xfe]) {
        Err(UpdateError::ChecksumFileNotText(m)) => {
            assert_eq!(m, String::from_utf8(vec![0xff, 0xfe]).unwrap_err().to_string())
        }
        _ => panic!("expected an error"),
    }
}

#[test]
fn update_error_messages() {
    assert_eq!(
        UpdateError::NoRepository.message(),
        "This build has no GitHub repository configured for updates."
    );
    assert_eq!(
        UpdateError::ChecksumMismatch.message(),
        "Downloaded update failed SHA-256 verification."
    );
}

#[test]
fn sha256_digests_are_lower_case_hex() {
    let expected = "b94d27b9934d3e08a52e52d7da7dabfac484efe37a5380ee9088f7ace2efcde9";
    assert_eq!(sha256_hex_string(b"hello world"), expected);
    assert_eq!(sha256_hex(b"hello world").iter().collect::<String>(), expected);
    assert!(checksum_matches(b"hello world", expected));
    assert!(checksum_matches(b"hello world", &expected.to_uppercase()));
    assert!(!checksum_matches(b"hello world!", expected));
    assert_eq!(hex_lower_string(&[0x00, 0xab, 0x7f]).iter().collect::<String>(), "00ab7f");
    assert_eq!(hex_digit_char(11, true), 'B');
    assert_eq!(hex_digit_char(11, false), 'b');
}

#[test]
fn the_update_helper_needs_four_arguments() {
    let args: Vec<String> = ["hub.exe", "--apply-update", "C:/hub.exe", "C:/tmp/new.exe"]
        .iter()
        .map(|s| s.to_string())
        .collect();
    assert_eq!(
        update_helper_paths(&args),
        Ok(("C:/hub.exe".to_string(), "C:/tmp/new.exe".to_string()))
    );
    assert_eq!(
        update_helper_paths(&args[..3].to_vec()),
        Err("Invalid update helper arguments.".to_string())
    );
}

#[test]
fn the_update_helper_gives_up_after_its_attempts() {
    let mut swap = UpdateSwap::new();
    let mut retries = 0;
    loop {
        let (step, next) = swap.after_attempt(false);
        match step {
            SwapStep::Retry => {
                retries += 1;
                swap = next.unwrap();
            }
            SwapStep::TimedOut(m) => {
                assert_eq!(m, "Timed out waiting for Emulator Hub to exit.");
                assert!(next.is_none());
                break;
            }
            SwapStep::Install => panic!("nothing was moved"),
        }
    }
    assert_eq!(retries, SWAP_ATTEMPTS - 1);
    let (step, next) = UpdateSwap::new().after_attempt(true);
    assert!(matches!(step, SwapStep::Install));
    assert!(next.is_none());
}

#[test]
fn pending_checksum_keeps_the_release_details() {
    let p = PendingChecksum {
        version: "v1.0.0".to_string(),
        download_url: "https://x/y.exe".to_string(),
        notes: "n".to_string(),
        checksum_url: "https://x/y.exe.sha256".to_string(),
    };
    let u = finish_with_checksum_file(p, b"aa11".to_vec()).ok().unwrap();
    assert_eq!(u.download_url, "https://x/y.exe");
    assert_eq!(u.notes, "n");
    assert_eq!(u.checksum, "aa11");
}

#[test]
fn data_matches_its_own_checksum_in_either_case() {
    let data = b"EmulatorHub-v0.0.5-windows-x86_64.exe contents";
    let digest = sha256_hex_string(data);
    assert_eq!(digest.len(), 64);
    assert!(checksum_matches(data, &digest));
    assert!(checksum_matches(data, &digest.to_ascii_uppercase()));
}
