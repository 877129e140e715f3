//! The remote release manifest and the selection of releases from it.
//!
//! A manifest names an optional default version and an ordered list of
//! releases. A policy — latest, a specific version, or all — picks which
//! releases to install. "Latest" follows the default version where one is
//! set; otherwise it takes the release with the greatest added date, the
//! first such release in manifest order when dates tie.

use vstd::prelude::*;

use crate::dates::{date_of, date_sort_key, key_before, key_le, key_lt, spec_sort_key};
use crate::errors::DownloadError;
use crate::strutil::str_eq;

verus! {

/// One downloadable database release named by the manifest.
#[derive(Debug)]
pub struct DatabaseRelease {
    pub version: String,
    pub url: String,
    pub md5: String,
    pub added: String,
}

impl Clone for DatabaseRelease {
    /// A clone carries exactly the same four fields.
    fn clone(&self) -> (r: Self)
        ensures
            r == *self,
    {
        DatabaseRelease {
            version: self.version.clone(),
            url: self.url.clone(),
            md5: self.md5.clone(),
            added: self.added.clone(),
        }
    }
}

/// Where a release's added date sorts.
pub open spec fn rel_key(r: DatabaseRelease) -> (int, int, int) {
    spec_sort_key(r.added@)
}

/// True when some release in `rs` carries the version `v`.
pub open spec fn has_version(rs: Seq<DatabaseRelease>, v: Seq<char>) -> bool {
    exists|i: int| 0 <= i < rs.len() && (#[trigger] rs[i]).version@ == v
}

/// The first release in `rs` whose version is `v` stands at index `i`.
pub open spec fn is_first_match(rs: Seq<DatabaseRelease>, v: Seq<char>, i: int) -> bool {
    &&& 0 <= i < rs.len()
    &&& rs[i].version@ == v
    &&& forall|j: int| 0 <= j < i ==> (#[trigger] rs[j]).version@ != v
}

/// The release at index `i` postdates every earlier release and is
/// postdated by none: the first release with the greatest added date.
pub open spec fn is_first_latest(rs: Seq<DatabaseRelease>, i: int) -> bool {
    &&& 0 <= i < rs.len()
    &&& forall|j: int| 0 <= j < rs.len() ==> key_le(rel_key(#[trigger] rs[j]), rel_key(rs[i]))
    &&& forall|j: int| 0 <= j < i ==> key_lt(rel_key(#[trigger] rs[j]), rel_key(rs[i]))
}

/// Which releases a caller asks for.
#[derive(Debug)]
pub enum DbSelection {
    /// The default version, or the newest release where none is set.
    Latest,
    /// One exact version.
    Version(String),
    /// Every release, in manifest order.
    All,
}

/// The remote manifest: an optional default version and the releases.
#[derive(Debug)]
pub struct DatabaseConfig {
    pub default_version: Option<String>,
    pub databases: Vec<DatabaseRelease>,
}

impl DatabaseConfig {
    /// The first release carrying exactly the given version, if any.
    pub fn find_release(&self, version: &str) -> (r: Option<&DatabaseRelease>)
        ensures
            match r {
                Some(rel) => exists|i: int|
                    #[trigger] is_first_match(self.databases@, version@, i) && *rel
                        == self.databases@[i],
                None => !has_version(self.databases@, version@),
            },
    {
        let mut i: usize = 0;
        while i < self.databases.len()
            invariant
                i <= self.databases@.len(),
                forall|j: int| 0 <= j < i ==> (#[trigger] self.databases@[j]).version@ != version@,
            decreases self.databases@.len() - i,
        {
            if str_eq(self.databases[i].version.as_str(), version) {
                proof {
                    assert(is_first_match(self.databases@, version@, i as int));
                }
                return Some(&self.databases[i]);
            }
            i += 1;
        }
        None
    }

    /// The release the "latest" policy names: the default version's first
    /// match where a default is set — absent its version, `None` — else the
    /// first release with the greatest added date, `None` only when the
    /// manifest has no releases.
    pub fn latest_release(&self) -> (r: Option<&DatabaseRelease>)
        ensures
            match r {
                Some(rel) => match self.default_version {
                    Some(d) => exists|i: int|
                        #[trigger] is_first_match(self.databases@, d@, i) && *rel
                            == self.databases@[i],
                    None => exists|i: int|
                        #[trigger] is_first_latest(self.databases@, i) && *rel
                            == self.databases@[i],
                },
                None => match self.default_version {
                    Some(d) => !has_version(self.databases@, d@),
                    None => self.databases@.len() == 0,
                },
            },
    {
        match &self.default_version {
            Some(d) => self.find_release(d.as_str()),
            None => {
                if self.databases.len() == 0 {
                    return None;
                }
                let mut best: usize = 0;
                let mut best_key = date_sort_key(self.databases[0].added.as_str());
                let mut i: usize = 1;
                while i < self.databases.len()
                    invariant
                        0 < self.databases@.len(),
                        best < i <= self.databases@.len(),
                        best_key@ == rel_key(self.databases@[best as int]),
                        forall|j: int|
                            0 <= j < i ==> key_le(rel_key(#[trigger] self.databases@[j]), best_key@),
                        forall|j: int|
                            0 <= j < best ==> key_lt(
                                rel_key(#[trigger] self.databases@[j]),
                                best_key@,
                            ),
                    decreases self.databases@.len() - i,
                {
                    let k = date_sort_key(self.databases[i].added.as_str());
                    if key_before(&best_key, &k) {
                        best = i;
                        best_key = k;
                    }
                    i += 1;
                }
                proof {
                    assert(is_first_latest(self.databases@, best as int));
                }
                Some(&self.databases[best])
            },
        }
    }

    /// The releases the given policy selects from this manifest, in the
    /// order they are to be installed. A manifest with no releases fails
    /// with `NoDatabasesAvailable` whatever the policy; a version that no
    /// release carries — asked for directly, or named as the default — fails
    /// with `UnknownDatabaseVersion`.
    pub fn resolve(&self, selection: &DbSelection) -> (r: Result<
        Vec<DatabaseRelease>,
        DownloadError,
    >)
        ensures
            self.databases@.len() == 0 ==> (r matches Err(e) && e is NoDatabasesAvailable),
            self.databases@.len() > 0 ==> match selection {
                DbSelection::All => r matches Ok(v) && v@ == self.databases@,
                DbSelection::Version(ver) => {
                    if has_version(self.databases@, ver@) {
                        r matches Ok(v) && v@.len() == 1 && exists|i: int|
                            #[trigger] is_first_match(self.databases@, ver@, i) && v@[0]
                                == self.databases@[i]
                    } else {
                        r matches Err(e) && e matches DownloadError::UnknownDatabaseVersion(x)
                            && x@ == ver@
                    }
                },
                DbSelection::Latest => match self.default_version {
                    Some(d) => if has_version(self.databases@, d@) {
                        r matches Ok(v) && v@.len() == 1 && exists|i: int|
                            #[trigger] is_first_match(self.databases@, d@, i) && v@[0]
                                == self.databases@[i]
                    } else {
                        r matches Err(e) && e matches DownloadError::UnknownDatabaseVersion(x)
                            && x@ == d@
                    },
                    None => r matches Ok(v) && v@.len() == 1 && exists|i: int|
                        #[trigger] is_first_latest(self.databases@, i) && v@[0]
                            == self.databases@[i],
                },
            },
    {
        if self.databases.len() == 0 {
            return Err(DownloadError::NoDatabasesAvailable);
        }
        match selection {
            DbSelection::All => {
                let mut v: Vec<DatabaseRelease> = Vec::new();
                let mut i: usize = 0;
                while i < self.databases.len()
                    invariant
                        i <= self.databases@.len(),
                        v@.len() == i,
                        forall|j: int| 0 <= j < i ==> v@[j] == self.databases@[j],
                    decreases self.databases@.len() - i,
                {
                    v.push(self.databases[i].clone());
                    i += 1;
                }
                proof {
                    assert(v@ =~= self.databases@);
                }
                Ok(v)
            },
            DbSelection::Version(ver) => match self.find_release(ver.as_str()) {
                Some(rel) => {
                    let mut v: Vec<DatabaseRelease> = Vec::new();
                    v.push(rel.clone());
                    Ok(v)
                },
                None => Err(DownloadError::UnknownDatabaseVersion(ver.clone())),
            },
            DbSelection::Latest => match self.latest_release() {
                Some(rel) => {
                    let mut v: Vec<DatabaseRelease> = Vec::new();
                    v.push(rel.clone());
                    Ok(v)
                },
                None => {
                    match &self.default_version {
                        Some(d) => Err(DownloadError::UnknownDatabaseVersion(d.clone())),
                        None => {
                            // latest_release returns an entry whenever the
                            // manifest is non-empty and no default is set
                            proof {
                                assert(false);
                            }
                            Err(DownloadError::NoDatabasesAvailable)
                        },
                    }
                },
            },
        }
    }
}

/// Checks every release's added field names a real calendar date; the first
/// that does not fails the whole manifest, naming the offending text.
pub fn validate_release_dates(config: &DatabaseConfig) -> (r: Result<(), DownloadError>)
    ensures
        match r {
            Ok(_) => forall|i: int|
                0 <= i < config.databases@.len() ==> date_of(
                    (#[trigger] config.databases@[i]).added@,
                ) is Some,
            Err(e) => {
                &&& e matches DownloadError::InvalidDate(d)
                &&& exists|i: int|
                    {
                        &&& 0 <= i < config.databases@.len()
                        &&& date_of((#[trigger] config.databases@[i]).added@) is None
                        &&& d@ == config.databases@[i].added@
                        &&& forall|j: int|
                            0 <= j < i ==> date_of(
                                (#[trigger] config.databases@[j]).added@,
                            ) is Some
                    }
            },
        },
{
    let mut i: usize = 0;
    while i < config.databases.len()
        invariant
            i <= config.databases@.len(),
            forall|j: int|
                0 <= j < i ==> date_of((#[trigger] config.databases@[j]).added@) is Some,
        decreases config.databases@.len() - i,
    {
        if !crate::dates::is_valid_date(config.databases[i].added.as_str()) {
            return Err(DownloadError::InvalidDate(config.databases[i].added.clone()));
        }
        i += 1;
    }
    Ok(())
}

} // verus!
