//! Management of versioned reference databases for a sequence classifier.
//!
//! The crate resolves a remote release manifest against a local install root,
//! plans checksum-verified, idempotent installations, and answers queries
//! about the databases already on disk. All filesystem and network traffic is
//! left to the caller: the functions here work on plain values (manifest
//! entries, scanned directory listings, downloaded byte counts and digests)
//! and state exactly what they decide.

pub mod compression;
pub mod dates;
pub mod errors;
pub mod install;
pub mod kraken;
pub mod manifest;
pub mod md5sum;
pub mod metadata;
pub mod resolver;
pub mod scan;
pub mod strutil;

use vstd::prelude::*;

verus! {

/// Location and checksum of a single database tarball.
pub struct Config {
    pub database_url: String,
    pub database_md5: String,
}

impl Config {
    pub fn new(database_url: &str, database_md5: &str) -> (c: Self)
        ensures
            c.database_url@ == database_url@,
            c.database_md5@ == database_md5@,
    {
        Self {
            database_url: database_url.to_owned(),
            database_md5: database_md5.to_owned(),
        }
    }
}

/// An external command the caller may invoke; this crate only records its name.
pub struct CommandRunner {
    pub command: String,
}

impl CommandRunner {
    pub fn new(command: &str) -> (c: Self)
        ensures
            c.command@ == command@,
    {
        Self { command: command.to_owned() }
    }
}

/// What a look at one directory found of the classifier's marker files
/// (`hash.k2d`, `opts.k2d`, `taxo.k2d`): whether all of them stand directly
/// in the directory, and whether all of them stand in its `db` subdirectory.
#[derive(Debug, Clone, Copy, PartialEq, Eq, Structural)]
pub struct MarkerProbe {
    pub direct: bool,
    pub nested: bool,
}

/// The path a usable database lives at inside a candidate directory: the
/// directory itself when the marker files stand directly in it, else its
/// `db` subdirectory when they stand there, and no path otherwise.
pub open spec fn spec_usable_db_path(path: Seq<char>, probe: MarkerProbe) -> Option<Seq<char>> {
    if probe.direct {
        Some(path)
    } else if probe.nested {
        Some(path + "/db"@)
    } else {
        None
    }
}

/// The text surfaced when a directory holds no usable database: it names
/// the required files and the directory that lacks them.
pub open spec fn spec_missing_markers_message(path: Seq<char>) -> Seq<char> {
    "Required files (hash.k2d, opts.k2d, taxo.k2d) not found in "@ + path
        + " or its 'db' subdirectory"@
}

/// Checks that a directory holds a usable database, by the probe a caller
/// took of it, and resolves the path the database actually lives at. The
/// installer's post-extraction check and the scanner both go through this
/// one function, so the marker-file contract cannot drift between them.
pub fn validate_db_directory(path: &str, probe: &MarkerProbe) -> (r: Result<String, String>)
    ensures
        match r {
            Ok(p) => spec_usable_db_path(path@, *probe) == Some(p@),
            Err(m) => spec_usable_db_path(path@, *probe) is None && m@
                == spec_missing_markers_message(path@),
        },
{
    if probe.direct {
        Ok(path.to_owned())
    } else if probe.nested {
        let mut p = path.to_owned();
        p.append("/db");
        Ok(p)
    } else {
        let mut m = String::from_str("Required files (hash.k2d, opts.k2d, taxo.k2d) not found in ");
        m.append(path);
        m.append(" or its 'db' subdirectory");
        proof {
            assert(m@ =~= spec_missing_markers_message(path@));
        }
        Err(m)
    }
}

} // verus!
