//! Scanning an install root for the databases already on disk.
//!
//! The caller walks the filesystem and records, for the root and for each of
//! its immediate subdirectories, the text of the metadata file (where one
//! could be read) and where the marker files were found. Everything after
//! that observation is decided here: which subdirectories count as installed
//! databases, the legacy fallback for a flat pre-versioning install, and the
//! find-by-version and latest-by-date queries.

use vstd::prelude::*;

use crate::dates::{date_sort_key, key_before, key_le, key_lt, spec_sort_key};
use crate::metadata::{parse_metadata, spec_parse_metadata};
use crate::strutil::str_eq;
use crate::{spec_usable_db_path, validate_db_directory, MarkerProbe};

verus! {

/// What a look at one immediate subdirectory of the install root found.
#[derive(Debug)]
pub struct DirEntryScan {
    /// The subdirectory's name.
    pub name: String,
    /// The contents of its metadata file; `None` when the file is absent or
    /// could not be read.
    pub metadata_text: Option<String>,
    /// Where its marker files were found.
    pub probe: MarkerProbe,
}

/// What a look at the install root found: its immediate subdirectories, and
/// the root's own metadata file and marker files for the legacy fallback.
#[derive(Debug)]
pub struct RootScan {
    /// The root directory's path.
    pub root: String,
    /// Its immediate subdirectories, in the order they were listed.
    pub entries: Vec<DirEntryScan>,
    /// The contents of a metadata file directly in the root, if readable.
    pub root_metadata_text: Option<String>,
    /// Where marker files stand relative to the root itself.
    pub root_probe: MarkerProbe,
}

/// One database found installed on disk: a view derived by scanning, not a
/// source of truth.
#[derive(Debug)]
pub struct InstalledDatabase {
    pub version: String,
    pub path: String,
    pub added: String,
}

impl Clone for InstalledDatabase {
    /// A clone carries exactly the same three fields.
    fn clone(&self) -> (r: Self)
        ensures
            r == *self,
    {
        InstalledDatabase {
            version: self.version.clone(),
            path: self.path.clone(),
            added: self.added.clone(),
        }
    }
}

/// The mathematical shadow of an [`InstalledDatabase`].
#[verifier::ext_equal]
pub struct InstalledDbView {
    pub version: Seq<char>,
    pub path: Seq<char>,
    pub added: Seq<char>,
}

impl View for InstalledDatabase {
    type V = InstalledDbView;

    open spec fn view(&self) -> InstalledDbView {
        InstalledDbView { version: self.version@, path: self.path@, added: self.added@ }
    }
}

/// A root path and a child name joined into the child's path.
pub open spec fn spec_join(root: Seq<char>, name: Seq<char>) -> Seq<char> {
    root + "/"@ + name
}

/// Joins a root path and a child name.
pub fn join_path(root: &str, name: &str) -> (r: String)
    ensures
        r@ == spec_join(root@, name@),
{
    let mut r = root.to_owned();
    r.append("/");
    r.append(name);
    r
}

/// The database one subdirectory contributes, with the usable path inside
/// it: present exactly when its metadata parses and its marker files are
/// found, directly or nested.
pub open spec fn spec_entry_pair(root: Seq<char>, e: DirEntryScan) -> Option<
    (InstalledDbView, Seq<char>),
> {
    match e.metadata_text {
        Some(t) => match spec_parse_metadata(t@) {
            Some(p) => match spec_usable_db_path(spec_join(root, e.name@), e.probe) {
                Some(u) => Some(
                    (
                        InstalledDbView {
                            version: p.0,
                            path: spec_join(root, e.name@),
                            added: p.1,
                        },
                        u,
                    ),
                ),
                None => None,
            },
            None => None,
        },
        None => None,
    }
}

/// The databases a list of subdirectories contributes, in scan order, each
/// with its usable path.
pub open spec fn spec_entry_pairs(root: Seq<char>, es: Seq<DirEntryScan>) -> Seq<
    (InstalledDbView, Seq<char>),
>
    decreases es.len(),
{
    if es.len() == 0 {
        Seq::empty()
    } else {
        let rest = spec_entry_pairs(root, es.drop_last());
        match spec_entry_pair(root, es.last()) {
            Some(d) => rest.push(d),
            None => rest,
        }
    }
}

/// Whether the root's own metadata file is absent or unreadable, half of
/// the legacy-install condition.
pub open spec fn spec_root_metadata_missing(scan: RootScan) -> bool {
    match scan.root_metadata_text {
        Some(t) => spec_parse_metadata(t@) is None,
        None => true,
    }
}

/// Everything a scan of the root finds, in order: the versioned entries,
/// then one synthetic `legacy` entry when the root itself — not a
/// subdirectory — holds the marker files directly and no metadata document.
pub open spec fn spec_scan_pairs(scan: RootScan) -> Seq<(InstalledDbView, Seq<char>)> {
    let base = spec_entry_pairs(scan.root@, scan.entries@);
    if scan.root_probe.direct && spec_root_metadata_missing(scan) {
        base.push(
            (
                InstalledDbView { version: "legacy"@, path: scan.root@, added: "1970-01-01"@ },
                scan.root@,
            ),
        )
    } else {
        base
    }
}

/// Every database the scan reports comes from some subdirectory's pair.
pub proof fn lemma_entry_pairs_accounted(root: Seq<char>, es: Seq<DirEntryScan>, k: int)
    requires
        0 <= k < spec_entry_pairs(root, es).len(),
    ensures
        exists|i: int|
            0 <= i < es.len() && spec_entry_pair(root, #[trigger] es[i]) == Some(
                spec_entry_pairs(root, es)[k],
            ),
    decreases es.len(),
{
    if es.len() > 0 {
        let rest = spec_entry_pairs(root, es.drop_last());
        match spec_entry_pair(root, es.last()) {
            Some(d) => {
                if k < rest.len() {
                    lemma_entry_pairs_accounted(root, es.drop_last(), k);
                    let i = choose|i: int|
                        0 <= i < es.drop_last().len() && spec_entry_pair(
                            root,
                            #[trigger] es.drop_last()[i],
                        ) == Some(rest[k]);
                    assert(es[i] == es.drop_last()[i]);
                    assert(spec_entry_pairs(root, es)[k] == rest[k]);
                } else {
                    assert(spec_entry_pairs(root, es)[k] == d);
                    assert(es[es.len() - 1] == es.last());
                }
            },
            None => {
                lemma_entry_pairs_accounted(root, es.drop_last(), k);
                let i = choose|i: int|
                    0 <= i < es.drop_last().len() && spec_entry_pair(
                        root,
                        #[trigger] es.drop_last()[i],
                    ) == Some(rest[k]);
                assert(es[i] == es.drop_last()[i]);
            },
        }
    }
}

/// The scanner invents nothing: a version that no subdirectory's metadata
/// document names, other than `legacy`, is not discoverable. In particular,
/// an installation that failed before its metadata was written — a checksum
/// mismatch among them — leaves its release undiscoverable.
pub proof fn lemma_unwritten_version_not_found(scan: RootScan, v: Seq<char>)
    requires
        forall|i: int|
            0 <= i < scan.entries@.len() ==> match (#[trigger] scan.entries@[i]).metadata_text {
                Some(t) => match spec_parse_metadata(t@) {
                    Some(p) => p.0 != v,
                    None => true,
                },
                None => true,
            },
        v != "legacy"@,
    ensures
        !inst_has_version(spec_installed(scan), v),
{
    let pairs = spec_scan_pairs(scan);
    let base = spec_entry_pairs(scan.root@, scan.entries@);
    assert forall|k: int|
        0 <= k < spec_installed(scan).len() implies (#[trigger] spec_installed(scan)[k]).version
        != v by {
        assert(spec_installed(scan)[k] == pairs[k].0);
        if k < base.len() {
            assert(pairs[k] == base[k]);
            lemma_entry_pairs_accounted(scan.root@, scan.entries@, k);
            let i = choose|i: int|
                0 <= i < scan.entries@.len() && spec_entry_pair(
                    scan.root@,
                    #[trigger] scan.entries@[i],
                ) == Some(base[k]);
            assert(match scan.entries@[i].metadata_text {
                Some(t) => match spec_parse_metadata(t@) {
                    Some(p) => p.0 != v,
                    None => true,
                },
                None => true,
            });
        } else {
            assert(pairs[k].0.version == "legacy"@);
        }
    }
}

/// The legacy guarantee: a root that itself holds the marker files
/// directly and no metadata document — a flat, pre-versioning install — is
/// found as exactly one entry, named `legacy` and dated at the epoch, so
/// that it stays usable and sorts as the oldest install.
pub proof fn lemma_legacy_root_is_scanned(scan: RootScan)
    requires
        scan.root_probe.direct,
        spec_root_metadata_missing(scan),
        spec_entry_pairs(scan.root@, scan.entries@).len() == 0,
    ensures
        spec_installed(scan).len() == 1,
        spec_installed(scan)[0].version == "legacy"@,
        spec_installed(scan)[0].path == scan.root@,
        spec_installed(scan)[0].added == "1970-01-01"@,
{
}

/// The databases a scan finds, without their usable paths.
pub open spec fn spec_installed(scan: RootScan) -> Seq<InstalledDbView> {
    spec_scan_pairs(scan).map_values(|p: (InstalledDbView, Seq<char>)| p.0)
}

/// The views of a vector of scan results.
pub open spec fn views_of(s: Seq<InstalledDatabase>) -> Seq<InstalledDbView> {
    s.map_values(|d: InstalledDatabase| d@)
}

/// The views of a vector of scan results paired with their usable paths.
pub open spec fn pairs_views(s: Seq<(InstalledDatabase, String)>) -> Seq<
    (InstalledDbView, Seq<char>),
> {
    s.map_values(|p: (InstalledDatabase, String)| (p.0@, p.1@))
}

/// A subdirectory that contributes a database is never dropped: its pair
/// occurs in the scan of the whole entry list.
pub proof fn lemma_entry_pair_in_scan(
    root: Seq<char>,
    es: Seq<DirEntryScan>,
    i: int,
    d: (InstalledDbView, Seq<char>),
)
    requires
        0 <= i < es.len(),
        spec_entry_pair(root, es[i]) == Some(d),
    ensures
        exists|k: int|
            0 <= k < spec_entry_pairs(root, es).len() && #[trigger] spec_entry_pairs(root, es)[k]
                == d,
    decreases es.len(),
{
    if i == es.len() - 1 {
        assert(es.last() == es[i]);
        let pairs = spec_entry_pairs(root, es);
        assert(pairs[pairs.len() - 1] == d);
    } else {
        assert(es.drop_last()[i] == es[i]);
        lemma_entry_pair_in_scan(root, es.drop_last(), i, d);
        let rest = spec_entry_pairs(root, es.drop_last());
        let k = choose|k: int| 0 <= k < rest.len() && #[trigger] rest[k] == d;
        assert(spec_entry_pairs(root, es)[k] == d);
    }
}

/// The full scan: every installed database in order, paired with the usable
/// path that the marker-file contract resolves for it. Never fails;
/// subdirectories without readable metadata or marker files are skipped.
pub fn scan_pairs(scan: &RootScan) -> (r: Vec<(InstalledDatabase, String)>)
    ensures
        pairs_views(r@) == spec_scan_pairs(*scan),
{
    let mut out: Vec<(InstalledDatabase, String)> = Vec::new();
    let mut i: usize = 0;
    while i < scan.entries.len()
        invariant
            i <= scan.entries@.len(),
            pairs_views(out@) == spec_entry_pairs(scan.root@, scan.entries@.subrange(0, i as int)),
        decreases scan.entries@.len() - i,
    {
        let ghost pre = scan.entries@.subrange(0, i as int);
        let ghost post = scan.entries@.subrange(0, i as int + 1);
        proof {
            assert(post.drop_last() =~= pre);
            assert(post.last() == scan.entries@[i as int]);
        }
        let e = &scan.entries[i];
        match &e.metadata_text {
            Some(t) => {
                match parse_metadata(t.as_str()) {
                    Some(m) => {
                        let install_path = join_path(scan.root.as_str(), e.name.as_str());
                        match validate_db_directory(install_path.as_str(), &e.probe) {
                            Ok(usable) => {
                                let db = InstalledDatabase {
                                    version: m.version,
                                    path: install_path,
                                    added: m.added,
                                };
                                out.push((db, usable));
                                proof {
                                    assert(pairs_views(out@) =~= spec_entry_pairs(
                                        scan.root@,
                                        post,
                                    ));
                                }
                            },
                            Err(_) => {
                                proof {
                                    assert(pairs_views(out@) =~= spec_entry_pairs(
                                        scan.root@,
                                        post,
                                    ));
                                }
                            },
                        }
                    },
                    None => {
                        proof {
                            assert(pairs_views(out@) =~= spec_entry_pairs(scan.root@, post));
                        }
                    },
                }
            },
            None => {
                proof {
                    assert(pairs_views(out@) =~= spec_entry_pairs(scan.root@, post));
                }
            },
        }
        i += 1;
    }
    proof {
        assert(scan.entries@.subrange(0, scan.entries@.len() as int) =~= scan.entries@);
    }
    let root_metadata_missing = match &scan.root_metadata_text {
        Some(t) => parse_metadata(t.as_str()).is_none(),
        None => true,
    };
    if scan.root_probe.direct && root_metadata_missing {
        let db = InstalledDatabase {
            version: "legacy".to_owned(),
            path: scan.root.clone(),
            added: "1970-01-01".to_owned(),
        };
        let usable = scan.root.clone();
        out.push((db, usable));
        proof {
            assert(pairs_views(out@) =~= spec_scan_pairs(*scan));
        }
    }
    proof {
        assert(pairs_views(out@) =~= spec_scan_pairs(*scan));
    }
    out
}

/// The databases installed under the scanned root, in scan order, the
/// legacy entry last.
pub fn installed_databases(scan: &RootScan) -> (r: Vec<InstalledDatabase>)
    ensures
        views_of(r@) == spec_installed(*scan),
{
    let pairs = scan_pairs(scan);
    let mut out: Vec<InstalledDatabase> = Vec::new();
    let mut i: usize = 0;
    while i < pairs.len()
        invariant
            i <= pairs@.len(),
            pairs_views(pairs@) == spec_scan_pairs(*scan),
            out@.len() == i,
            forall|j: int| 0 <= j < i ==> (#[trigger] out@[j])@ == spec_installed(*scan)[j],
        decreases pairs@.len() - i,
    {
        out.push(pairs[i].0.clone());
        i += 1;
    }
    proof {
        assert(views_of(out@) =~= spec_installed(*scan));
    }
    out
}

/// True when some installed database carries the version `v`.
pub open spec fn inst_has_version(ds: Seq<InstalledDbView>, v: Seq<char>) -> bool {
    exists|i: int| 0 <= i < ds.len() && (#[trigger] ds[i]).version == v
}

/// The first installed database with the given version stands at index `i`.
pub open spec fn inst_first_match(ds: Seq<InstalledDbView>, v: Seq<char>, i: int) -> bool {
    &&& 0 <= i < ds.len()
    &&& ds[i].version == v
    &&& forall|j: int| 0 <= j < i ==> (#[trigger] ds[j]).version != v
}

/// Where an installed database's added date sorts.
pub open spec fn inst_key(d: InstalledDbView) -> (int, int, int) {
    spec_sort_key(d.added)
}

/// The installed database at index `i` postdates every earlier entry and is
/// postdated by none.
pub open spec fn inst_first_latest(ds: Seq<InstalledDbView>, i: int) -> bool {
    &&& 0 <= i < ds.len()
    &&& forall|j: int| 0 <= j < ds.len() ==> key_le(inst_key(#[trigger] ds[j]), inst_key(ds[i]))
    &&& forall|j: int| 0 <= j < i ==> key_lt(inst_key(#[trigger] ds[j]), inst_key(ds[i]))
}

/// The first installed database carrying exactly the given version, if any.
pub fn find_installed_database(scan: &RootScan, version: &str) -> (r: Option<InstalledDatabase>)
    ensures
        match r {
            Some(db) => exists|i: int|
                #[trigger] inst_first_match(spec_installed(*scan), version@, i) && db@
                    == spec_installed(*scan)[i],
            None => forall|i: int|
                0 <= i < spec_installed(*scan).len() ==> (#[trigger] spec_installed(
                    *scan,
                )[i]).version != version@,
        },
{
    let all = installed_databases(scan);
    let mut i: usize = 0;
    while i < all.len()
        invariant
            i <= all@.len(),
            views_of(all@) == spec_installed(*scan),
            forall|j: int|
                0 <= j < i ==> (#[trigger] spec_installed(*scan)[j]).version != version@,
        decreases all@.len() - i,
    {
        if str_eq(all[i].version.as_str(), version) {
            proof {
                assert(inst_first_match(spec_installed(*scan), version@, i as int));
            }
            return Some(all[i].clone());
        }
        i += 1;
    }
    None
}

/// The installed database with the greatest added date — texts that do not
/// parse as dates, the legacy entry among them, sort as the epoch — or
/// `None` when nothing is installed. Ties go to the entry scanned first.
pub fn latest_installed_database(scan: &RootScan) -> (r: Option<InstalledDatabase>)
    ensures
        match r {
            Some(db) => exists|i: int|
                #[trigger] inst_first_latest(spec_installed(*scan), i) && db@ == spec_installed(
                    *scan,
                )[i],
            None => spec_installed(*scan).len() == 0,
        },
{
    let all = installed_databases(scan);
    if all.len() == 0 {
        return None;
    }
    let mut best: usize = 0;
    let mut best_key = date_sort_key(all[0].added.as_str());
    let mut i: usize = 1;
    while i < all.len()
        invariant
            0 < all@.len(),
            best < i <= all@.len(),
            views_of(all@) == spec_installed(*scan),
            best_key@ == inst_key(spec_installed(*scan)[best as int]),
            forall|j: int|
                0 <= j < i ==> key_le(inst_key(#[trigger] spec_installed(*scan)[j]), best_key@),
            forall|j: int|
                0 <= j < best ==> key_lt(inst_key(#[trigger] spec_installed(*scan)[j]), best_key@),
        decreases all@.len() - i,
    {
        let k = date_sort_key(all[i].added.as_str());
        if key_before(&best_key, &k) {
            best = i;
            best_key = k;
        }
        i += 1;
    }
    proof {
        assert(inst_first_latest(spec_installed(*scan), best as int));
    }
    Some(all[best].clone())
}

} // verus!
