use pinokio::browser_archive::{
    binary_path, check_status, detect_format, ensure_installed, extract_archive, install_key,
    make_world_readable, verify_hash, ArchiveFormat, Download, InstallError, InstallEvent,
    InstallStep, Installation, Progress, StagedEntry,
};

const URL: &str = "https://example.com/chrome.tar.gz";
const HELLO: &str = "b94d27b9934d3e08a52e52d7da7dabfac484efe37a5380ee9088f7ace2efcde9";

#[test]
fn paths_are_named_after_the_url() {
    assert_eq!(install_key(URL), "6d692200e90979b6");
    assert_eq!(install_key("https://example.com/chrome.zip"), "c296f8b3a4e59d66");
    assert_eq!(
        binary_path("/opt/browsers", URL),
        "/opt/browsers/6d692200e90979b6/chrome"
    );
    assert_eq!(binary_path("/srv/", URL), "/srv/6d692200e90979b6/chrome");
    assert_eq!(binary_path("", URL), "6d692200e90979b6/chrome");
}

#[test]
fn archives_stand_next_to_each_other() {
    let one = binary_path("/opt/browsers", URL);
    let other = binary_path("/opt/browsers", "https://example.com/chrome.zip");
    assert_ne!(one, other);
}

#[test]
fn progress_lines() {
    let mb = 1024 * 1024;
    let mut p = Progress::new(200 * mb);
    assert_eq!(p.record(19 * mb), None);
    assert_eq!(
        p.record(2 * mb).as_deref(),
        Some("[##------------------]  10% 21/200 MB")
    );
    assert_eq!(p.next_report, 20);
    assert_eq!(p.record(18 * mb), None);
    assert_eq!(
        p.record(71 * mb).as_deref(),
        Some("[###########---------]  55% 110/200 MB")
    );
    assert_eq!(p.next_report, 60);
    assert_eq!(
        p.record(90 * mb).as_deref(),
        Some("[####################] 100% 200/200 MB")
    );
    assert_eq!(p.next_report, 110);
    assert_eq!(p.record(0), None);
    assert_eq!(
        p.record(20 * mb).as_deref(),
        Some("[####################] 110% 220/200 MB")
    );
}

#[test]
fn unknown_size_reports_nothing() {
    let mut p = Progress::new(0);
    assert_eq!(p.record(1_000_000_000), None);
    assert_eq!(p.downloaded, 1_000_000_000);
}

#[test]
fn download_hashes_and_counts() {
    let mut d = Download::new(11);
    assert_eq!(
        d.receive(b"hello").as_deref(),
        Some("[#########-----------]  45% 0/0 MB")
    );
    assert_eq!(
        d.receive(b" world").as_deref(),
        Some("[####################] 100% 0/0 MB")
    );
    let hash = d.finish();
    assert_eq!(hash.len(), 64);
    assert_eq!(hash, HELLO);
}

#[test]
fn success_statuses() {
    assert!(check_status(200, "200 OK").is_ok());
    assert!(check_status(299, "299").is_ok());
    assert!(check_status(199, "199").is_err());
    match check_status(404, "404 Not Found") {
        Err(e) => assert_eq!(e.message(), "download failed: HTTP 404 Not Found"),
        Ok(()) => panic!(),
    }
}

#[test]
fn formats_by_magic() {
    assert!(matches!(detect_format(&[0x1f, 0x8b, 8, 0]), Ok(ArchiveFormat::TarGz)));
    assert!(matches!(detect_format(&[0x1f, 0x8b]), Ok(ArchiveFormat::TarGz)));
    assert!(matches!(detect_format(b"PK\x03\x04"), Ok(ArchiveFormat::Zip)));
    assert!(matches!(detect_format(b"PK\x05\x06"), Ok(ArchiveFormat::Zip)));
    for magic in [&b""[..], &b"PK\x03"[..], &b"PK\x07\x08"[..], &b"\x1f"[..], &b"<htm"[..]] {
        match detect_format(magic) {
            Err(e) => assert_eq!(
                e.message(),
                "archive extraction failed: unrecognized archive format, expected a .tar.gz or .zip file"
            ),
            Ok(_) => panic!(),
        }
    }
}

fn entry(path: &str, is_dir: bool, has_chrome: bool) -> StagedEntry {
    StagedEntry { path: path.to_string(), mode: 0o40700, is_dir, has_chrome }
}

#[test]
fn directory_with_the_executable() {
    let wrapped = vec![entry("/s/chrome-linux", true, true)];
    let dir = extract_archive("/s", 0o40750, true, &wrapped).unwrap_or_else(|e| panic!("{}", e.message()));
    assert_eq!(dir.path, "/s");
    assert_eq!(dir.mode, 0o40755);
    let dir = extract_archive("/s", 0o40750, false, &wrapped).unwrap_or_else(|e| panic!("{}", e.message()));
    assert_eq!(dir.path, "/s/chrome-linux");
    assert_eq!(dir.mode, 0o40755);
    let refused = [
        vec![],
        vec![entry("/s/a", false, false)],
        vec![entry("/s/a", true, false)],
        vec![entry("/s/a", true, true), entry("/s/b", true, false)],
    ];
    for entries in refused {
        match extract_archive("/s", 0o40755, false, &entries) {
            Err(e) => assert_eq!(
                e.message(),
                "archive extraction failed: no chrome executable found at the archive root or in its single top-level directory"
            ),
            Ok(_) => panic!(),
        }
    }
}

#[test]
fn permissions() {
    assert_eq!(make_world_readable(0o600, false), 0o644);
    assert_eq!(make_world_readable(0o700, false), 0o755);
    assert_eq!(make_world_readable(0o700, true), 0o755);
    assert_eq!(make_world_readable(0o100000, false), 0o100444);
    assert_eq!(make_world_readable(0, true), 0o555);
    for mode in 0..0o1000u32 {
        for is_dir in [false, true] {
            let once = make_world_readable(mode, is_dir);
            assert_eq!(once & mode, mode);
            assert_eq!(make_world_readable(once, is_dir), once);
        }
    }
}

#[test]
fn hashes_must_match() {
    assert!(verify_hash(&None, "x".to_string()).is_ok());
    assert!(verify_hash(&Some("x".to_string()), "x".to_string()).is_ok());
    match verify_hash(&Some("x".to_string()), "y".to_string()) {
        Err(e) => assert_eq!(e.message(), "archive checksum mismatch: expected x, got y"),
        Ok(()) => panic!(),
    }
}

fn start(expected: Option<&str>) -> Installation {
    ensure_installed("/opt/browsers", URL, expected, 42)
}

#[test]
fn temporaries_are_named_after_the_process() {
    let i = start(Some("aa"));
    assert_eq!(i.url, URL);
    assert_eq!(i.expected_sha256.as_deref(), Some("aa"));
    assert_eq!(i.binary, "/opt/browsers/6d692200e90979b6/chrome");
    assert_eq!(i.install_dir, "/opt/browsers/6d692200e90979b6");
    assert_eq!(i.archive_path, "/opt/browsers/.download-6d692200e90979b6-42.archive");
    assert_eq!(i.staging_dir, "/opt/browsers/.staging-6d692200e90979b6-42");
    assert!(matches!(i.step, InstallStep::Probe));
}

#[test]
fn installed_archive_is_not_fetched_again() {
    let i = start(None).install(InstallEvent::Present(true));
    assert!(matches!(i.step, InstallStep::Ended(Ok(()))));
}

fn downloading(expected: Option<&str>) -> Installation {
    let i = start(expected).install(InstallEvent::Present(false));
    assert!(matches!(i.step, InstallStep::CreateRoot));
    let i = i.install(InstallEvent::Completed);
    assert!(matches!(i.step, InstallStep::BuildClient));
    let i = i.install(InstallEvent::Completed);
    assert!(matches!(i.step, InstallStep::Download));
    i
}

#[test]
fn installation_runs_through() {
    for expected in [None, Some(HELLO)] {
        let i = downloading(expected).install(InstallEvent::Downloaded(HELLO.to_string()));
        assert!(matches!(i.step, InstallStep::Extract));
        let i = i.install(InstallEvent::Extracted("/d".to_string()));
        assert!(matches!(&i.step, InstallStep::Publish(d) if d == "/d"));
        let i = i.install(InstallEvent::Completed);
        assert!(matches!(i.step, InstallStep::CleanUp(Ok(()))));
        let i = i.install(InstallEvent::Completed);
        assert!(matches!(i.step, InstallStep::Ended(Ok(()))));
        let i = i.install(InstallEvent::Failed(InstallError::Io("late".to_string())));
        assert!(matches!(i.step, InstallStep::Ended(Ok(()))));
    }
}

#[test]
fn mismatch_aborts_and_cleans_up() {
    let i = downloading(Some("00")).install(InstallEvent::Downloaded(HELLO.to_string()));
    assert!(matches!(
        &i.step,
        InstallStep::CleanUp(Err(InstallError::Checksum { expected, actual }))
            if expected == "00" && actual == HELLO
    ));
    let i = i.install(InstallEvent::Extracted("/d".to_string()));
    assert!(matches!(i.step, InstallStep::CleanUp(Err(InstallError::Checksum { .. }))));
    let i = i.install(InstallEvent::Completed);
    assert!(matches!(i.step, InstallStep::Ended(Err(InstallError::Checksum { .. }))));
}

fn failed(why: &str) -> InstallEvent {
    InstallEvent::Failed(InstallError::Io(why.to_string()))
}

#[test]
fn failures_end_the_installation() {
    let i = start(None).install(InstallEvent::Present(false)).install(failed("root"));
    assert!(matches!(&i.step, InstallStep::Ended(Err(e)) if e.message() == "io error: root"));
    let i = downloading(None).install(failed("disk"));
    assert!(matches!(&i.step, InstallStep::CleanUp(Err(e)) if e.message() == "io error: disk"));
    let i = downloading(None)
        .install(InstallEvent::Downloaded(HELLO.to_string()))
        .install(failed("unpack"));
    assert!(matches!(&i.step, InstallStep::CleanUp(Err(_))));
}

#[test]
fn another_replica_may_have_been_first() {
    for present in [false, true] {
        let i = downloading(None)
            .install(InstallEvent::Downloaded(HELLO.to_string()))
            .install(InstallEvent::Extracted("/d".to_string()))
            .install(InstallEvent::NotMoved { present, error: "not empty".to_string() });
        match i.step {
            InstallStep::CleanUp(Ok(())) => assert!(present),
            InstallStep::CleanUp(Err(e)) => {
                assert!(!present);
                assert_eq!(e.message(), "io error: not empty");
            }
            _ => panic!(),
        }
    }
}
