use nohuman::errors::DownloadError;
use nohuman::install::{plan_install, verify_checksum, metadata_for_release, InstallPlan};
use nohuman::manifest::{DatabaseConfig, DatabaseRelease, DbSelection};
use nohuman::md5sum::StreamingHasher;
use nohuman::metadata::{parse_metadata, InstalledMetadata};
use nohuman::scan::{
    find_installed_database, installed_databases, latest_installed_database, DirEntryScan,
    RootScan,
};
use nohuman::MarkerProbe;

fn release(version: &str, added: &str) -> DatabaseRelease {
    DatabaseRelease {
        version: version.to_string(),
        url: format!("https://example.org/{version}.tar.gz"),
        md5: "6c60c417646084eac81fc23a85e9fbc2".to_string(),
        added: added.to_string(),
    }
}

fn config(default_version: Option<&str>, releases: Vec<DatabaseRelease>) -> DatabaseConfig {
    DatabaseConfig {
        default_version: default_version.map(|v| v.to_string()),
        databases: releases,
    }
}

fn entry(name: &str, metadata_text: Option<String>, direct: bool, nested: bool) -> DirEntryScan {
    DirEntryScan {
        name: name.to_string(),
        metadata_text,
        probe: MarkerProbe { direct, nested },
    }
}

fn empty_root(root: &str) -> RootScan {
    RootScan {
        root: root.to_string(),
        entries: Vec::new(),
        root_metadata_text: None,
        root_probe: MarkerProbe { direct: false, nested: false },
    }
}

#[test]
fn test_metadata_roundtrip() {
    let metadata = InstalledMetadata {
        version: "HPRC.r1".to_string(),
        added: "2024-01-01".to_string(),
    };
    let content = metadata.render();
    let parsed = parse_metadata(content.as_str()).unwrap();
    assert_eq!(parsed.version, metadata.version);
    assert_eq!(parsed.added, metadata.added);
}

#[test]
fn metadata_matches_the_on_disk_layout() {
    let metadata = InstalledMetadata {
        version: "HPRC.r1".to_string(),
        added: "2024-01-01".to_string(),
    };
    assert_eq!(
        metadata.render(),
        "version = \"HPRC.r1\"\nadded = \"2024-01-01\"\n".to_string()
    );
}

#[test]
fn malformed_metadata_is_rejected() {
    assert!(parse_metadata("").is_none());
    assert!(parse_metadata("version = \"a\"").is_none());
    assert!(parse_metadata("version = \"a\"\nadded = \"b\"").is_none());
    assert!(parse_metadata("added = \"b\"\nversion = \"a\"\n").is_none());
    assert!(parse_metadata("version = \"a\"\nadded = \"b\"\n").is_some());
}

#[test]
fn test_installed_databases_legacy() {
    let scan = RootScan {
        root: "db".to_string(),
        entries: Vec::new(),
        root_metadata_text: None,
        root_probe: MarkerProbe { direct: true, nested: false },
    };
    let installed = installed_databases(&scan);
    assert_eq!(installed.len(), 1);
    assert_eq!(installed[0].version, "legacy");
    assert_eq!(installed[0].path, "db");
    assert_eq!(installed[0].added, "1970-01-01");
}

#[test]
fn nested_markers_under_the_root_are_no_legacy_install() {
    // marker files only in root/db, no metadata anywhere: the legacy
    // fallback asks for markers directly in the root, so nothing is found
    let scan = RootScan {
        root: "db".to_string(),
        entries: Vec::new(),
        root_metadata_text: None,
        root_probe: MarkerProbe { direct: false, nested: true },
    };
    let installed = installed_databases(&scan);
    assert_eq!(installed.len(), 0);
}

#[test]
fn test_latest_installed_database() {
    let v1 = InstalledMetadata {
        version: "HPRC.r1".to_string(),
        added: "2023-01-01".to_string(),
    };
    let v2 = InstalledMetadata {
        version: "HPRC.r2".to_string(),
        added: "2024-01-01".to_string(),
    };
    let scan = RootScan {
        root: "db".to_string(),
        entries: vec![
            entry("HPRC.r1", Some(v1.render()), false, true),
            entry("HPRC.r2", Some(v2.render()), false, true),
        ],
        root_metadata_text: None,
        root_probe: MarkerProbe { direct: false, nested: false },
    };
    let latest = latest_installed_database(&scan).unwrap();
    assert_eq!(latest.version, "HPRC.r2");
}

#[test]
fn scanner_skips_unreadable_or_bare_directories() {
    let good = InstalledMetadata {
        version: "ok".to_string(),
        added: "2024-01-01".to_string(),
    };
    let scan = RootScan {
        root: "db".to_string(),
        entries: vec![
            entry("no-metadata", None, true, false),
            entry("bad-metadata", Some("not really toml".to_string()), true, false),
            entry("no-markers", Some(good.render()), false, false),
            entry("ok", Some(good.render()), true, false),
        ],
        root_metadata_text: None,
        root_probe: MarkerProbe { direct: false, nested: false },
    };
    let installed = installed_databases(&scan);
    assert_eq!(installed.len(), 1);
    assert_eq!(installed[0].version, "ok");
    assert_eq!(installed[0].path, "db/ok");
}

#[test]
fn installing_twice_downloads_once() {
    // first pass: an empty root wants a fresh install
    let rel = release("HPRC.r1", "2024-01-01");
    let before = empty_root("root");
    let plan = plan_install(&before, &rel, false);
    let target = match plan {
        InstallPlan::Fresh { target, wipe_first } => {
            assert!(!wipe_first);
            target
        }
        InstallPlan::AlreadyInstalled(_) => panic!("nothing is installed yet"),
    };
    assert_eq!(target, "root/HPRC.r1");

    // after the install wrote its metadata, the same release is a no-op
    let after = RootScan {
        root: "root".to_string(),
        entries: vec![entry(
            "HPRC.r1",
            Some(metadata_for_release(&rel).render()),
            true,
            false,
        )],
        root_metadata_text: None,
        root_probe: MarkerProbe { direct: false, nested: false },
    };
    let first = match plan_install(&after, &rel, true) {
        InstallPlan::AlreadyInstalled(db) => db,
        InstallPlan::Fresh { .. } => panic!("the install must be recognized"),
    };
    let second = match plan_install(&after, &rel, true) {
        InstallPlan::AlreadyInstalled(db) => db,
        InstallPlan::Fresh { .. } => panic!("the install must be recognized"),
    };
    assert_eq!(first.version, "HPRC.r1");
    assert_eq!(first.path, "root/HPRC.r1");
    assert_eq!(first.added, "2024-01-01");
    assert_eq!(second.version, first.version);
    assert_eq!(second.path, first.path);
    assert_eq!(second.added, first.added);
}

#[test]
fn checksum_mismatch_fails_and_leaves_nothing_behind() {
    let rel = release("HPRC.r1", "2024-01-01");
    let err = verify_checksum(rel.md5.as_str(), "0123456789abcdef0123456789abcdef");
    assert!(matches!(err, Err(DownloadError::Md5Mismatch)));
    // nothing was written, so the version stays undiscoverable
    let scan = empty_root("root");
    assert!(find_installed_database(&scan, "HPRC.r1").is_none());
    // the real digest is accepted
    assert!(verify_checksum(rel.md5.as_str(), "6c60c417646084eac81fc23a85e9fbc2").is_ok());
}

#[test]
fn resolve_all_on_empty_manifest_reports_no_databases() {
    let cfg = config(None, Vec::new());
    let result = cfg.resolve(&DbSelection::All);
    assert!(matches!(result, Err(DownloadError::NoDatabasesAvailable)));
}

#[test]
fn resolve_absent_version_reports_it() {
    let cfg = config(None, vec![release("HPRC.r1", "2024-01-01")]);
    let result = cfg.resolve(&DbSelection::Version("X".to_string()));
    match result {
        Err(DownloadError::UnknownDatabaseVersion(v)) => assert_eq!(v, "X"),
        other => panic!("unexpected result: {other:?}"),
    }
}

#[test]
fn resolve_all_returns_every_release_in_order() {
    let cfg = config(
        None,
        vec![release("a", "2022-01-01"), release("b", "2023-01-01"), release("c", "2021-01-01")],
    );
    let picked = cfg.resolve(&DbSelection::All).unwrap();
    let versions: Vec<&str> = picked.iter().map(|r| r.version.as_str()).collect();
    assert_eq!(versions, vec!["a", "b", "c"]);
}

#[test]
fn resolve_latest_prefers_the_default_version() {
    let cfg = config(
        Some("a"),
        vec![release("a", "2022-01-01"), release("b", "2023-01-01")],
    );
    let picked = cfg.resolve(&DbSelection::Latest).unwrap();
    assert_eq!(picked.len(), 1);
    assert_eq!(picked[0].version, "a");
}

#[test]
fn resolve_latest_falls_back_to_the_newest_date() {
    let cfg = config(
        None,
        vec![release("a", "2022-01-01"), release("b", "2023-06-15"), release("c", "2023-02-01")],
    );
    let picked = cfg.resolve(&DbSelection::Latest).unwrap();
    assert_eq!(picked.len(), 1);
    assert_eq!(picked[0].version, "b");
}

#[test]
fn resolve_latest_breaks_date_ties_by_manifest_order() {
    let cfg = config(
        None,
        vec![release("a", "2023-01-01"), release("b", "2023-01-01")],
    );
    let picked = cfg.resolve(&DbSelection::Latest).unwrap();
    assert_eq!(picked[0].version, "a");
}

#[test]
fn resolve_latest_with_absent_default_is_an_unknown_version() {
    let cfg = config(Some("gone"), vec![release("a", "2022-01-01")]);
    let result = cfg.resolve(&DbSelection::Latest);
    match result {
        Err(DownloadError::UnknownDatabaseVersion(v)) => assert_eq!(v, "gone"),
        other => panic!("unexpected result: {other:?}"),
    }
}

#[test]
fn find_release_is_an_exact_case_sensitive_match() {
    let cfg = config(None, vec![release("HPRC.r1", "2024-01-01")]);
    assert!(cfg.find_release("HPRC.r1").is_some());
    assert!(cfg.find_release("hprc.r1").is_none());
    assert!(cfg.find_release("HPRC").is_none());
}

#[test]
fn invalid_release_dates_fail_the_whole_manifest() {
    let cfg = config(
        None,
        vec![release("a", "2024-01-01"), release("b", "2024-13-01")],
    );
    match nohuman::manifest::validate_release_dates(&cfg) {
        Err(DownloadError::InvalidDate(d)) => assert_eq!(d, "2024-13-01"),
        other => panic!("unexpected result: {other:?}"),
    }
    let good = config(None, vec![release("a", "2024-01-01"), release("b", "1970-01-01")]);
    assert!(nohuman::manifest::validate_release_dates(&good).is_ok());
}

#[test]
fn streaming_digest_matches_the_known_vectors() {
    let mut hasher = StreamingHasher::new();
    hasher.update(b"a");
    hasher.update(b"bc");
    assert_eq!(hasher.finish_hex(), "900150983cd24fb0d6963f7d28e17f72".to_string());

    let empty = StreamingHasher::new();
    assert_eq!(empty.finish_hex(), "d41d8cd98f00b204e9800998ecf8427e".to_string());
}

#[test]
fn error_messages_match_the_reported_failures() {
    assert_eq!(
        DownloadError::Md5Mismatch.message(),
        "Tarball MD5 hash does not match the expected value".to_string()
    );
    assert_eq!(
        DownloadError::UnknownDatabaseVersion("X".to_string()).message(),
        "Database version 'X' not found in manifest".to_string()
    );
    assert_eq!(
        DownloadError::InvalidDate("soon".to_string()).message(),
        "Failed to parse database release date 'soon'".to_string()
    );
}
