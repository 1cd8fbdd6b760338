use updater_core::download::DownloadHandle;
use updater_core::download::Progress;
use updater_core::download::ProgressQueue;
use updater_core::errors::UpdateError;
use updater_core::install::InstallState;
use updater_core::install::Installer;
use updater_core::manifest::Asset;
use updater_core::manifest::Release;
use updater_core::manifest::Update;
use updater_core::orchestrator::UpdateOrchestrator;
use updater_core::select::select;
use updater_core::signature::sign;
use updater_core::signature::verify;

fn asset(name: &str, url: &str, signature: Option<&str>) -> Asset {
    Asset {
        name: name.to_owned(),
        browser_download_url: url.to_owned(),
        signature: signature.map(|s| s.to_owned()),
    }
}

fn release(tag: &str, assets: Vec<Asset>) -> Release {
    Release {
        tag_name: tag.to_owned(),
        assets,
    }
}

const KEY: u64 = 0x1234_5678_9abc_def0;

#[test]
fn select_returns_first_platform_match() {
    let r = release(
        "1.1.0",
        vec![
            asset("app-linux-x64.bin", "https://example.invalid/a", None),
            asset("app-macos-arm64.bin", "https://example.invalid/b", None),
        ],
    );
    assert_eq!(select(&r, "linux-x64"), Ok(0));
    assert_eq!(select(&r, "macos-arm64"), Ok(1));
}

#[test]
fn select_is_deterministic_on_multiple_matches() {
    let r = release(
        "1.1.0",
        vec![
            asset("app-linux-x64.tar.gz", "https://example.invalid/a", None),
            asset("app-linux-x64.bin", "https://example.invalid/b", None),
        ],
    );
    assert_eq!(select(&r, "linux-x64"), Ok(0));
}

#[test]
fn select_fails_when_nothing_matches() {
    let r = release(
        "1.1.0",
        vec![
            asset("app-linux-x64.bin", "https://example.invalid/a", None),
            asset("app-macos-arm64.bin", "https://example.invalid/b", None),
        ],
    );
    assert_eq!(select(&r, "windows-x64"), Err(UpdateError::NoMatchingAsset));
}

#[test]
fn validate_rejects_missing_tag_and_empty_assets() {
    let no_tag = release("", vec![asset("a", "u", None)]);
    assert_eq!(no_tag.validate(), Err(UpdateError::ManifestParseError));
    let no_assets = release("1.0.0", vec![]);
    assert_eq!(no_assets.validate(), Err(UpdateError::ManifestParseError));
    let ok = release("1.0.0", vec![asset("a", "u", None)]);
    assert_eq!(ok.validate(), Ok(()));
}

#[test]
fn signature_round_trip() {
    let artifact: Vec<u8> = vec![1, 2, 3, 4, 5];
    let sig = sign(&artifact, KEY);
    assert_eq!(sig.len(), 16);
    assert_eq!(verify(&artifact, Some(sig.as_str()), KEY), Ok(()));
}

#[test]
fn signature_of_empty_artifact_is_hex_of_key() {
    // The digest of no bytes is the key itself.
    let sig = sign(&vec![], 5);
    assert_eq!(sig, "0000000000000005");
    let sig = sign(&vec![0], 0);
    // One zero byte absorbed into a zero key: (0 * 131 + 0 + 1) = 1.
    assert_eq!(sig, "0000000000000001");
}

#[test]
fn verify_fails_closed() {
    let artifact: Vec<u8> = vec![1, 2, 3];
    // Missing signature.
    assert_eq!(
        verify(&artifact, None, KEY),
        Err(UpdateError::SignatureInvalid)
    );
    // Malformed: wrong length.
    assert_eq!(
        verify(&artifact, Some("abc"), KEY),
        Err(UpdateError::SignatureInvalid)
    );
    // Malformed: uppercase digit is not accepted.
    assert_eq!(
        verify(&artifact, Some("000000000000000A"), KEY),
        Err(UpdateError::SignatureInvalid)
    );
    // Well-formed but wrong value.
    assert_eq!(
        verify(&artifact, Some("0000000000000000"), KEY),
        Err(UpdateError::SignatureInvalid)
    );
    // Signed under a different key.
    let other = sign(&artifact, KEY ^ 1);
    assert_eq!(
        verify(&artifact, Some(other.as_str()), KEY),
        Err(UpdateError::SignatureInvalid)
    );
}

#[test]
fn tampered_artifact_fails_verification() {
    let artifact: Vec<u8> = vec![10, 20, 30];
    let sig = sign(&artifact, KEY);
    let tampered: Vec<u8> = vec![10, 20, 31];
    assert_eq!(
        verify(&tampered, Some(sig.as_str()), KEY),
        Err(UpdateError::SignatureInvalid)
    );
}

#[test]
fn download_progress_accumulates_monotonically() {
    let mut h = DownloadHandle::begin("/tmp/artifact.part".to_owned(), Some(10));
    assert_eq!(h.bytes_written, 0);
    let p1 = h.on_chunk(4).unwrap();
    assert_eq!(p1.bytes_so_far, 4);
    assert_eq!(p1.total_bytes, Some(10));
    let p2 = h.on_chunk(6).unwrap();
    assert_eq!(p2.bytes_so_far, 10);
    assert!(p2.bytes_so_far >= p1.bytes_so_far);
    assert_eq!(h.finish(), Ok(10));
}

#[test]
fn download_chunk_beyond_total_is_refused() {
    let mut h = DownloadHandle::begin("/tmp/artifact.part".to_owned(), Some(5));
    let p = h.on_chunk(3).unwrap();
    assert_eq!(p.bytes_so_far, 3);
    match h.on_chunk(4) {
        Err(e) => assert_eq!(e, UpdateError::SizeMismatch),
        Ok(_) => panic!("a chunk beyond the announced total must be refused"),
    }
    assert_eq!(h.bytes_written, 3);
}

#[test]
fn download_interrupted_at_any_offset_orders_cleanup() {
    // Interrupt immediately.
    let h = DownloadHandle::begin("/tmp/a.part".to_owned(), Some(100));
    let c = h.abort();
    assert_eq!(c.delete_path, "/tmp/a.part");
    // Interrupt mid-transfer.
    let mut h = DownloadHandle::begin("/tmp/b.part".to_owned(), Some(100));
    h.on_chunk(42).unwrap();
    let c = h.abort();
    assert_eq!(c.delete_path, "/tmp/b.part");
    // Interrupt on a refused chunk (announced size exceeded).
    let mut h = DownloadHandle::begin("/tmp/c.part".to_owned(), Some(10));
    h.on_chunk(8).unwrap();
    assert!(matches!(h.on_chunk(5), Err(UpdateError::SizeMismatch)));
    let c = h.abort();
    assert_eq!(c.delete_path, "/tmp/c.part");
}

#[test]
fn download_size_mismatch_on_short_transfer() {
    let mut h = DownloadHandle::begin("/tmp/artifact.part".to_owned(), Some(10));
    h.on_chunk(4).unwrap();
    assert_eq!(h.finish(), Err(UpdateError::SizeMismatch));
}

#[test]
fn download_without_announced_total_finishes() {
    let mut h = DownloadHandle::begin("/tmp/artifact.part".to_owned(), None);
    h.on_chunk(7).unwrap();
    assert_eq!(h.finish(), Ok(7));
}

#[test]
fn progress_queue_drops_oldest_when_full() {
    let mut q = ProgressQueue::new(2);
    q.push(Progress { bytes_so_far: 1, total_bytes: None });
    q.push(Progress { bytes_so_far: 2, total_bytes: None });
    q.push(Progress { bytes_so_far: 3, total_bytes: None });
    assert_eq!(q.items.len(), 2);
    assert_eq!(q.pop().unwrap().bytes_so_far, 2);
    assert_eq!(q.pop().unwrap().bytes_so_far, 3);
    assert!(q.pop().is_none());
}

#[test]
fn unverified_artifact_never_reaches_staged() {
    let mut ins = Installer::new();
    let artifact: Vec<u8> = vec![1, 2, 3];
    let r = ins.stage(&artifact, Some("0000000000000000"), KEY);
    assert_eq!(r, Err(UpdateError::SignatureInvalid));
    assert_eq!(ins.state, InstallState::Idle);
    assert!(ins.record.is_none());
}

#[test]
fn installer_walks_idle_staged_installed() {
    let mut ins = Installer::new();
    let artifact: Vec<u8> = vec![9, 9, 9];
    let sig = sign(&artifact, KEY);
    assert_eq!(ins.stage(&artifact, Some(sig.as_str()), KEY), Ok(()));
    assert_eq!(ins.state, InstallState::Staged);
    assert_eq!(ins.install(true, "1.1.0", 1700000000), Ok(()));
    assert_eq!(ins.state, InstallState::Installed);
    assert_eq!(ins.record.as_ref().unwrap().version, "1.1.0");
    assert_eq!(ins.record.as_ref().unwrap().installed_at, 1700000000);
}

#[test]
fn retry_policy_is_once_and_only_for_transport_during_check() {
    assert!(UpdateError::NetworkError.retry_allowed(true, 0));
    assert!(!UpdateError::NetworkError.retry_allowed(true, 1));
    assert!(!UpdateError::NetworkError.retry_allowed(false, 0));
    assert!(!UpdateError::SignatureInvalid.retry_allowed(true, 0));
    assert!(!UpdateError::NoMatchingAsset.retry_allowed(true, 0));
}

#[test]
fn installer_rolls_back_on_rename_failure() {
    let mut ins = Installer::new();
    let artifact: Vec<u8> = vec![9, 9, 9];
    let sig = sign(&artifact, KEY);
    assert_eq!(ins.stage(&artifact, Some(sig.as_str()), KEY), Ok(()));
    assert_eq!(ins.install(false, "1.1.0", 1700000000), Err(UpdateError::DiskWriteError));
    assert_eq!(ins.state, InstallState::RolledBack);
    assert!(ins.record.is_none());
}

#[test]
fn check_reports_candidate_when_newer() {
    let orch = UpdateOrchestrator::new(KEY, "linux-x64".to_owned());
    let r = release(
        "1.1.0",
        vec![
            asset("app-linux-x64.bin", "https://example.invalid/a", None),
            asset("app-macos-arm64.bin", "https://example.invalid/b", None),
        ],
    );
    let c = orch.check("1.0.0", &r).unwrap().unwrap();
    assert_eq!(c.current_version, "1.0.0");
    assert_eq!(c.target_version, "1.1.0");
    assert_eq!(c.asset.name, "app-linux-x64.bin");
    assert_eq!(c.asset.browser_download_url, "https://example.invalid/a");
}

#[test]
fn check_reports_none_when_current_or_newer() {
    let orch = UpdateOrchestrator::new(KEY, "linux-x64".to_owned());
    let r = release(
        "1.1.0",
        vec![asset("app-linux-x64.bin", "https://example.invalid/a", None)],
    );
    assert!(orch.check("1.1.0", &r).unwrap().is_none());
    assert!(orch.check("2.0.0", &r).unwrap().is_none());
}

#[test]
fn check_propagates_component_errors_in_order() {
    let orch = UpdateOrchestrator::new(KEY, "linux-x64".to_owned());
    let bad_manifest = release("", vec![]);
    assert!(matches!(
        orch.check("1.0.0", &bad_manifest),
        Err(UpdateError::ManifestParseError)
    ));
    let no_match = release("1.1.0", vec![asset("app-win.exe", "u", None)]);
    assert!(matches!(
        orch.check("1.0.0", &no_match),
        Err(UpdateError::NoMatchingAsset)
    ));
    let ok_manifest = release(
        "1.1.0",
        vec![asset("app-linux-x64.bin", "u", None)],
    );
    assert!(matches!(
        orch.check("not-a-version", &ok_manifest),
        Err(UpdateError::InvalidVersion)
    ));
}

#[test]
fn second_concurrent_apply_is_refused() {
    let mut orch = UpdateOrchestrator::new(KEY, "linux-x64".to_owned());
    assert_eq!(orch.begin_apply(), Ok(()));
    assert_eq!(orch.begin_apply(), Err(UpdateError::UpdateInProgress));
}

#[test]
fn apply_round_trip_then_no_update() {
    let mut orch = UpdateOrchestrator::new(KEY, "linux-x64".to_owned());
    let artifact: Vec<u8> = vec![7, 7, 7, 7];
    let sig = sign(&artifact, KEY);
    assert_eq!(orch.begin_apply(), Ok(()));
    assert_eq!(orch.stage_downloaded(&artifact, Some(sig.as_str())), Ok(()));
    assert_eq!(orch.installer.state, InstallState::Staged);
    let r = orch.finish_install(true, "1.1.0", 1700000000);
    assert_eq!(r, Ok(()));
    assert_eq!(orch.installer.state, InstallState::Installed);
    assert_eq!(orch.installer.record.as_ref().unwrap().installed_at, 1700000000);
    let installed = orch.installer.record.as_ref().unwrap().version.clone();
    assert_eq!(installed, "1.1.0");
    // The slot is free again and a fresh apply could start.
    assert!(!orch.in_flight);
    // A subsequent check against the same feed reports no update.
    let feed = release(
        "1.1.0",
        vec![asset("app-linux-x64.bin", "https://example.invalid/a", None)],
    );
    assert!(orch.check(installed.as_str(), &feed).unwrap().is_none());
}

#[test]
fn apply_with_bad_signature_fails_closed() {
    let mut orch = UpdateOrchestrator::new(KEY, "linux-x64".to_owned());
    let artifact: Vec<u8> = vec![7, 7, 7, 7];
    assert_eq!(orch.begin_apply(), Ok(()));
    let r = orch.stage_downloaded(&artifact, Some("0000000000000bad"));
    assert_eq!(r, Err(UpdateError::SignatureInvalid));
    assert_eq!(orch.installer.state, InstallState::Idle);
    assert!(orch.installer.record.is_none());
    assert!(!orch.in_flight);
}

#[test]
fn apply_rolls_back_when_rename_fails() {
    let mut orch = UpdateOrchestrator::new(KEY, "linux-x64".to_owned());
    let artifact: Vec<u8> = vec![7, 7, 7, 7];
    let sig = sign(&artifact, KEY);
    assert_eq!(orch.begin_apply(), Ok(()));
    assert_eq!(orch.stage_downloaded(&artifact, Some(sig.as_str())), Ok(()));
    let r = orch.finish_install(false, "1.1.0", 1700000000);
    assert_eq!(r, Err(UpdateError::DiskWriteError));
    assert_eq!(orch.installer.state, InstallState::RolledBack);
    assert!(orch.installer.record.is_none());
    assert!(!orch.in_flight);
}

#[test]
fn cancellation_never_stages() {
    let mut orch = UpdateOrchestrator::new(KEY, "linux-x64".to_owned());
    assert_eq!(orch.begin_apply(), Ok(()));
    let e = orch.cancel_apply();
    assert_eq!(e, UpdateError::Cancelled);
    assert_eq!(orch.installer.state, InstallState::Idle);
    assert!(!orch.in_flight);
}

#[test]
fn transport_failure_is_forwarded_verbatim() {
    let mut orch = UpdateOrchestrator::new(KEY, "linux-x64".to_owned());
    assert_eq!(orch.begin_apply(), Ok(()));
    assert_eq!(
        orch.fail_apply(UpdateError::NetworkError),
        Err(UpdateError::NetworkError)
    );
    assert!(!orch.in_flight);
}

#[test]
fn error_descriptions_are_distinct() {
    assert_ne!(
        UpdateError::SignatureInvalid.describe(),
        UpdateError::NetworkError.describe()
    );
    assert!(!UpdateError::Cancelled.describe().is_empty());
}

#[test]
fn manual_fallback_carries_a_download_page() {
    let u = Update {
        download: "https://example.invalid/releases".to_owned(),
    };
    assert_eq!(u.download, "https://example.invalid/releases");
}
