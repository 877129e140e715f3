//! Planning and completing the installation of one release.
//!
//! The caller performs the downloads, deletions and extractions; every
//! decision along the way is made here, against a fresh scan of the install
//! root: whether a version is already present (in which case nothing is
//! downloaded and nothing on disk is touched), whether a stale target
//! directory must be wiped first, whether a downloaded tarball's checksum is
//! acceptable, and whether the extracted directory really holds a database.

use vstd::prelude::*;

use crate::errors::DownloadError;
use crate::manifest::DatabaseRelease;
use crate::metadata::{
    lemma_metadata_roundtrip, plain_field, spec_render_metadata, InstalledMetadata,
};
use crate::scan::{
    find_installed_database, inst_first_match, lemma_entry_pair_in_scan, spec_entry_pair,
    spec_installed, spec_join, InstalledDatabase, InstalledDbView, RootScan,
};
use crate::strutil::str_eq;
use crate::{spec_usable_db_path, validate_db_directory, MarkerProbe};

verus! {

/// What the installer is to do for one release, decided from a fresh scan.
pub enum InstallPlan {
    /// The version is already installed: hand back the existing entry, with
    /// no download and no change on disk.
    AlreadyInstalled(InstalledDatabase),
    /// Download and extract into the target directory. Where `wipe_first`
    /// is set, the target exists without being a recognized install and is
    /// to be deleted first: self-healing of a previous partial failure, not
    /// loss of a good install.
    Fresh { target: String, wipe_first: bool },
}

/// Decides what installing `release` means against the scanned root:
/// already-installed versions are returned unchanged, anything else is
/// installed fresh into `root/version`, wiping a stale directory of that
/// name first. `target_exists` reports whether `root/version` is on disk.
pub fn plan_install(scan: &RootScan, release: &DatabaseRelease, target_exists: bool) -> (r:
    InstallPlan)
    ensures
        match r {
            InstallPlan::AlreadyInstalled(db) => exists|i: int|
                #[trigger] inst_first_match(spec_installed(*scan), release.version@, i) && db@
                    == spec_installed(*scan)[i],
            InstallPlan::Fresh { target, wipe_first } => {
                &&& forall|i: int|
                    0 <= i < spec_installed(*scan).len() ==> (#[trigger] spec_installed(
                        *scan,
                    )[i]).version != release.version@
                &&& target@ == spec_join(scan.root@, release.version@)
                &&& wipe_first == target_exists
            },
        },
{
    match find_installed_database(scan, release.version.as_str()) {
        Some(db) => InstallPlan::AlreadyInstalled(db),
        None => InstallPlan::Fresh {
            target: crate::scan::join_path(scan.root.as_str(), release.version.as_str()),
            wipe_first: target_exists,
        },
    }
}

/// Compares the streamed digest of the downloaded tarball against the
/// declared checksum: the download is accepted exactly when they are equal,
/// and nothing is extracted from a rejected one.
pub fn verify_checksum(expected: &str, computed: &str) -> (r: Result<(), DownloadError>)
    ensures
        r is Ok <==> computed@ == expected@,
        r matches Err(e) ==> e is Md5Mismatch,
{
    if str_eq(computed, expected) {
        Ok(())
    } else {
        Err(DownloadError::Md5Mismatch)
    }
}

/// The metadata document recorded for a freshly installed release: the
/// release's own version and added date, unchanged.
pub fn metadata_for_release(release: &DatabaseRelease) -> (m: InstalledMetadata)
    ensures
        m.version@ == release.version@,
        m.added@ == release.added@,
{
    InstalledMetadata { version: release.version.clone(), added: release.added.clone() }
}

/// The post-extraction check: the target directory must now hold a usable
/// database, directly or in its `db` subdirectory. Where it does not, the
/// installation failed even though bytes were written; the directory is
/// left in place for diagnosis.
pub fn finish_install(release: &DatabaseRelease, target: &str, probe: &MarkerProbe) -> (r: Result<
    InstalledDatabase,
    DownloadError,
>)
    ensures
        match r {
            Ok(db) => (spec_usable_db_path(target@, *probe) is Some) && db@ == (InstalledDbView {
                version: release.version@,
                path: target@,
                added: release.added@,
            }),
            Err(e) => (spec_usable_db_path(target@, *probe) is None) && e is ExtractionFailed,
        },
{
    match validate_db_directory(target, probe) {
        Ok(_) => Ok(
            InstalledDatabase {
                version: release.version.clone(),
                path: target.to_owned(),
                added: release.added.clone(),
            },
        ),
        Err(_) => Err(DownloadError::ExtractionFailed),
    }
}

/// Idempotency: a release installed by the book — a subdirectory named
/// after its version, holding the rendered metadata document and the marker
/// files — is found by the scanner as exactly that release's install. By
/// [`plan_install`]'s contract, planning the same release again therefore
/// returns an existing entry and touches nothing.
pub proof fn lemma_scan_finds_written_install(scan: RootScan, release: DatabaseRelease, i: int)
    requires
        0 <= i < scan.entries@.len(),
        scan.entries@[i].name@ == release.version@,
        scan.entries@[i].metadata_text matches Some(t) && t@ == spec_render_metadata(
            release.version@,
            release.added@,
        ),
        scan.entries@[i].probe.direct || scan.entries@[i].probe.nested,
        plain_field(release.version@),
        plain_field(release.added@),
    ensures
        exists|k: int|
            0 <= k < spec_installed(scan).len() && #[trigger] spec_installed(scan)[k]
                == (InstalledDbView {
                version: release.version@,
                path: spec_join(scan.root@, release.version@),
                added: release.added@,
            }),
{
    let e = scan.entries@[i];
    lemma_metadata_roundtrip(release.version@, release.added@);
    let view = InstalledDbView {
        version: release.version@,
        path: spec_join(scan.root@, release.version@),
        added: release.added@,
    };
    let u = if e.probe.direct {
        spec_join(scan.root@, e.name@)
    } else {
        spec_join(scan.root@, e.name@) + "/db"@
    };
    assert(spec_entry_pair(scan.root@, e) == Some((view, u)));
    lemma_entry_pair_in_scan(scan.root@, scan.entries@, i, (view, u));
    let base = crate::scan::spec_entry_pairs(scan.root@, scan.entries@);
    let k = choose|k: int| 0 <= k < base.len() && #[trigger] base[k] == (view, u);
    assert(crate::scan::spec_scan_pairs(scan)[k] == (view, u));
    assert(spec_installed(scan)[k] == view);
}

} // verus!
