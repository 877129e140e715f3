//! Answering "which database do I run against?" at invocation time.
//!
//! The caller either asks for a version by name or leaves the choice open.
//! A named version must already be installed. With no name, a database
//! directly under the root wins, then the newest installed version; with
//! nothing installed at all, the caller is told to download first.

use vstd::prelude::*;

use crate::dates::{date_sort_key, key_before, key_le, key_lt};
use crate::scan::{
    inst_first_latest, inst_first_match, inst_has_version, inst_key, pairs_views, scan_pairs,
    spec_installed, spec_scan_pairs, RootScan,
};
use crate::strutil::str_eq;
use crate::{spec_usable_db_path, validate_db_directory};

verus! {

/// The database the caller is to run against: the usable path, and the
/// installed version it belongs to where one is known.
#[derive(Debug)]
pub struct ResolvedDatabase {
    pub path: String,
    pub version: Option<String>,
}

/// Why no database could be resolved.
#[derive(Debug)]
pub enum ResolveError {
    /// `all` names every version at download time, not a runnable one.
    AllIsNotAVersion,
    /// The named version is not installed under the root.
    VersionNotInstalled(String),
    /// Nothing usable is installed under the root.
    NoDatabase,
}

/// The text shown to a user for each resolution failure.
pub open spec fn spec_resolve_message(e: ResolveError) -> Seq<char> {
    match e {
        ResolveError::AllIsNotAVersion =>
            "Cannot run with `--db-version all`. Use `--download --db-version all` to download every database."@,
        ResolveError::VersionNotInstalled(v) => "Database version '"@ + v@
            + "' is not installed. Run `nohuman --download --db-version "@ + v@
            + "` to download it."@,
        ResolveError::NoDatabase => "Database does not exist. Run `nohuman --download` to fetch one."@,
    }
}

impl ResolveError {
    /// A readable description of the failure.
    pub fn message(&self) -> (r: String)
        ensures
            r@ == spec_resolve_message(*self),
    {
        match self {
            ResolveError::AllIsNotAVersion =>
                "Cannot run with `--db-version all`. Use `--download --db-version all` to download every database.".to_owned(),
            ResolveError::VersionNotInstalled(v) => {
                let mut r = String::from_str("Database version '");
                r.append(v.as_str());
                r.append("' is not installed. Run `nohuman --download --db-version ");
                r.append(v.as_str());
                r.append("` to download it.");
                r
            },
            ResolveError::NoDatabase =>
                "Database does not exist. Run `nohuman --download` to fetch one.".to_owned(),
        }
    }
}

/// Picks the database to run against. A requested version must be
/// installed, and resolves to its usable path. With no request, a database
/// directly under the root wins; else the newest installed version, its
/// date read from its metadata; else nothing can be resolved.
pub fn resolve_database(scan: &RootScan, requested: Option<&str>) -> (r: Result<
    ResolvedDatabase,
    ResolveError,
>)
    ensures
        match requested {
            Some(v) => if v@ == "all"@ {
                r matches Err(e) && e is AllIsNotAVersion
            } else if inst_has_version(spec_installed(*scan), v@) {
                r matches Ok(res) && exists|i: int|
                    #[trigger] inst_first_match(spec_installed(*scan), v@, i) && (res.version
                        matches Some(ver) && ver@ == spec_installed(*scan)[i].version && res.path@
                        == spec_scan_pairs(*scan)[i].1)
            } else {
                r matches Err(e) && e matches ResolveError::VersionNotInstalled(x) && x@ == v@
            },
            None => match spec_usable_db_path(scan.root@, scan.root_probe) {
                Some(u) => r matches Ok(res) && res.path@ == u && res.version is None,
                None => if spec_installed(*scan).len() > 0 {
                    r matches Ok(res) && exists|i: int|
                        #[trigger] inst_first_latest(spec_installed(*scan), i) && (res.version
                            matches Some(ver) && ver@ == spec_installed(*scan)[i].version
                            && res.path@ == spec_scan_pairs(*scan)[i].1)
                } else {
                    r matches Err(e) && e is NoDatabase
                },
            },
        },
{
    match requested {
        Some(v) => {
            if str_eq(v, "all") {
                return Err(ResolveError::AllIsNotAVersion);
            }
            let pairs = scan_pairs(scan);
            let mut i: usize = 0;
            while i < pairs.len()
                invariant
                    i <= pairs@.len(),
                    requested matches Some(req) && req@ == v@,
                    v@ != "all"@,
                    pairs_views(pairs@) == spec_scan_pairs(*scan),
                    forall|j: int|
                        0 <= j < i ==> (#[trigger] spec_installed(*scan)[j]).version != v@,
                decreases pairs@.len() - i,
            {
                if str_eq(pairs[i].0.version.as_str(), v) {
                    proof {
                        assert(pairs_views(pairs@)[i as int] == (
                            pairs@[i as int].0@,
                            pairs@[i as int].1@,
                        ));
                        assert(spec_installed(*scan)[i as int] == spec_scan_pairs(
                            *scan,
                        )[i as int].0);
                        assert(inst_first_match(spec_installed(*scan), v@, i as int));
                    }
                    return Ok(
                        ResolvedDatabase {
                            path: pairs[i].1.clone(),
                            version: Some(pairs[i].0.version.clone()),
                        },
                    );
                }
                i += 1;
            }
            Err(ResolveError::VersionNotInstalled(v.to_owned()))
        },
        None => {
            match validate_db_directory(scan.root.as_str(), &scan.root_probe) {
                Ok(p) => Ok(ResolvedDatabase { path: p, version: None }),
                Err(_) => {
                    let pairs = scan_pairs(scan);
                    if pairs.len() == 0 {
                        return Err(ResolveError::NoDatabase);
                    }
                    let mut best: usize = 0;
                    let mut best_key = date_sort_key(pairs[0].0.added.as_str());
                    let mut i: usize = 1;
                    while i < pairs.len()
                        invariant
                            0 < pairs@.len(),
                            best < i <= pairs@.len(),
                            pairs_views(pairs@) == spec_scan_pairs(*scan),
                            best_key@ == inst_key(spec_installed(*scan)[best as int]),
                            forall|j: int|
                                0 <= j < i ==> key_le(
                                    inst_key(#[trigger] spec_installed(*scan)[j]),
                                    best_key@,
                                ),
                            forall|j: int|
                                0 <= j < best ==> key_lt(
                                    inst_key(#[trigger] spec_installed(*scan)[j]),
                                    best_key@,
                                ),
                        decreases pairs@.len() - i,
                    {
                        let k = date_sort_key(pairs[i].0.added.as_str());
                        if key_before(&best_key, &k) {
                            best = i;
                            best_key = k;
                        }
                        i += 1;
                    }
                    proof {
                        assert(inst_first_latest(spec_installed(*scan), best as int));
                    }
                    Ok(
                        ResolvedDatabase {
                            path: pairs[best].1.clone(),
                            version: Some(pairs[best].0.version.clone()),
                        },
                    )
                },
            }
        },
    }
}

} // verus!
