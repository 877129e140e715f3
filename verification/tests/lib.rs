use nohuman::dates::{date_sort_key, is_valid_date, key_before, DateKey};
use nohuman::kraken::parse_kraken_stderr;
use nohuman::resolver::{resolve_database, ResolveError};
use nohuman::scan::{DirEntryScan, RootScan};
use nohuman::metadata::InstalledMetadata;
use nohuman::{validate_db_directory, CommandRunner, Config, MarkerProbe};

#[test]
fn test_new() {
    let command = CommandRunner::new("ls");
    assert_eq!(command.command, "ls");
}

#[test]
fn config_keeps_its_fields() {
    let config = Config::new("https://example.org/db.tar.gz", "6c60c417646084eac81fc23a85e9fbc2");
    assert_eq!(config.database_url, "https://example.org/db.tar.gz");
    assert_eq!(config.database_md5, "6c60c417646084eac81fc23a85e9fbc2");
}

#[test]
fn validate_db_directory_resolves_the_usable_path() {
    let direct = MarkerProbe { direct: true, nested: false };
    assert_eq!(validate_db_directory("db", &direct).unwrap(), "db".to_string());

    let nested = MarkerProbe { direct: false, nested: true };
    assert_eq!(validate_db_directory("db", &nested).unwrap(), "db/db".to_string());

    let neither = MarkerProbe { direct: false, nested: false };
    let err = validate_db_directory("db", &neither).unwrap_err();
    assert_eq!(
        err,
        "Required files (hash.k2d, opts.k2d, taxo.k2d) not found in db or its 'db' subdirectory"
    );
}

#[test]
fn parse_kraken_stderr_reads_the_three_counts() {
    let stderr = "Loading database information... done.\n\
        10,000 sequences (2.50 Mbp) processed in 0.5s (1200.0 Kseq/m, 300.00 Mbp/m).\n\
        9,123 sequences classified (91.23%)\n\
        877 sequences unclassified (8.77%)\n";
    let (total, classified, unclassified) = parse_kraken_stderr(stderr).unwrap();
    assert_eq!(total, 10000);
    assert_eq!(classified, 9123);
    assert_eq!(unclassified, 877);
}

#[test]
fn parse_kraken_stderr_without_counts_is_all_zero() {
    let (total, classified, unclassified) = parse_kraken_stderr("nothing to see\n").unwrap();
    assert_eq!(total, 0);
    assert_eq!(classified, 0);
    assert_eq!(unclassified, 0);
}

#[test]
fn parse_kraken_stderr_handles_crlf_line_endings() {
    let stderr = "500 sequences (0.1 Mbp) processed in 0.5s\r\n300 sequences classified (60.00%)\r\n200 sequences unclassified (40.00%)\r\n";
    let (total, classified, unclassified) = parse_kraken_stderr(stderr).unwrap();
    assert_eq!(total, 500);
    assert_eq!(classified, 300);
    assert_eq!(unclassified, 200);
}

#[test]
fn parse_kraken_stderr_rejects_a_comma_only_count() {
    let stderr = ",,, sequences classified (0.00%)\n";
    assert!(parse_kraken_stderr(stderr).is_err());
}

#[test]
fn parse_kraken_stderr_rejects_a_garbled_count() {
    let stderr = "ten sequences (2.50 Mbp) processed in 0.5s\n";
    assert!(parse_kraken_stderr(stderr).is_err());
}

#[test]
fn date_sort_keys_order_by_calendar_date() {
    let older = date_sort_key("2023-01-01");
    let newer = date_sort_key("2024-01-01");
    assert_eq!(older, DateKey { year: 2023, month: 1, day: 1 });
    assert!(key_before(&older, &newer));
    assert!(!key_before(&newer, &older));

    // a text that is no date sorts as the epoch
    let fallback = date_sort_key("not-a-date");
    assert_eq!(fallback, DateKey { year: 1970, month: 1, day: 1 });

    assert!(is_valid_date("2024-02-29"));
    assert!(!is_valid_date("2023-02-29"));
    assert!(!is_valid_date("2024-13-01"));
    assert!(!is_valid_date(""));
}

fn scan_with_one_install(root: &str) -> RootScan {
    let metadata = InstalledMetadata {
        version: "HPRC.r1".to_string(),
        added: "2024-01-01".to_string(),
    };
    RootScan {
        root: root.to_string(),
        entries: vec![DirEntryScan {
            name: "HPRC.r1".to_string(),
            metadata_text: Some(metadata.render()),
            probe: MarkerProbe { direct: false, nested: true },
        }],
        root_metadata_text: None,
        root_probe: MarkerProbe { direct: false, nested: false },
    }
}

#[test]
fn resolve_database_rejects_all_as_a_version() {
    let scan = scan_with_one_install("root");
    let result = resolve_database(&scan, Some("all"));
    assert!(matches!(result, Err(ResolveError::AllIsNotAVersion)));
}

#[test]
fn resolve_database_finds_a_requested_version() {
    let scan = scan_with_one_install("root");
    let resolved = resolve_database(&scan, Some("HPRC.r1")).unwrap();
    assert_eq!(resolved.version, Some("HPRC.r1".to_string()));
    assert_eq!(resolved.path, "root/HPRC.r1/db");
}

#[test]
fn resolve_database_rejects_a_version_that_is_not_installed() {
    let scan = scan_with_one_install("root");
    match resolve_database(&scan, Some("HPRC.r2")) {
        Err(ResolveError::VersionNotInstalled(v)) => assert_eq!(v, "HPRC.r2"),
        other => panic!("unexpected result: {other:?}"),
    }
}

#[test]
fn resolve_database_prefers_a_database_directly_under_the_root() {
    let mut scan = scan_with_one_install("root");
    scan.root_probe = MarkerProbe { direct: true, nested: false };
    let resolved = resolve_database(&scan, None).unwrap();
    assert_eq!(resolved.version, None);
    assert_eq!(resolved.path, "root");
}

#[test]
fn resolve_database_falls_back_to_the_newest_install() {
    let scan = scan_with_one_install("root");
    let resolved = resolve_database(&scan, None).unwrap();
    assert_eq!(resolved.version, Some("HPRC.r1".to_string()));
    assert_eq!(resolved.path, "root/HPRC.r1/db");
}

#[test]
fn resolve_database_with_nothing_installed_asks_for_a_download() {
    let scan = RootScan {
        root: "root".to_string(),
        entries: Vec::new(),
        root_metadata_text: None,
        root_probe: MarkerProbe { direct: false, nested: false },
    };
    let result = resolve_database(&scan, None);
    assert!(matches!(result, Err(ResolveError::NoDatabase)));
}
