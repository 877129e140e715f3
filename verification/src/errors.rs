//! The failures that manifest handling and installation can report.

use vstd::prelude::*;

verus! {

/// Why fetching, resolving or installing a database failed.
#[derive(Debug)]
pub enum DownloadError {
    /// The tarball could not be downloaded.
    DownloadFailed,
    /// The downloaded tarball does not hash to the declared checksum.
    Md5Mismatch,
    /// The tarball could not be extracted, or the extracted directory does
    /// not hold a usable database.
    ExtractionFailed,
    /// The manifest could not be downloaded.
    ConfigDownloadFailed,
    /// The manifest text does not follow the expected schema.
    ConfigParseFailed,
    /// The metadata document at the named place could not be read.
    MetadataParseFailed(String),
    /// The named version occurs in no manifest release.
    UnknownDatabaseVersion(String),
    /// The manifest defines no releases at all.
    NoDatabasesAvailable,
    /// A release's `added` field does not name a calendar date.
    InvalidDate(String),
    /// The checksum of the downloaded tarball could not be computed.
    Md5Error,
}

/// The text shown to a user for each failure.
pub open spec fn spec_message(e: DownloadError) -> Seq<char> {
    match e {
        DownloadError::DownloadFailed => "Failed to download the tarball"@,
        DownloadError::Md5Mismatch => "Tarball MD5 hash does not match the expected value"@,
        DownloadError::ExtractionFailed => "Failed to extract the tarball"@,
        DownloadError::ConfigDownloadFailed => "Failed to download the config file"@,
        DownloadError::ConfigParseFailed => "Failed to parse the config file"@,
        DownloadError::MetadataParseFailed(p) => "Failed to parse metadata for database "@ + p@,
        DownloadError::UnknownDatabaseVersion(v) => "Database version '"@ + v@
            + "' not found in manifest"@,
        DownloadError::NoDatabasesAvailable => "No databases are defined in the manifest"@,
        DownloadError::InvalidDate(d) => "Failed to parse database release date '"@ + d@ + "'"@,
        DownloadError::Md5Error => "Failed to compute MD5 hash"@,
    }
}

impl DownloadError {
    /// A readable description of the failure.
    pub fn message(&self) -> (r: String)
        ensures
            r@ == spec_message(*self),
    {
        match self {
            DownloadError::DownloadFailed => "Failed to download the tarball".to_owned(),
            DownloadError::Md5Mismatch => "Tarball MD5 hash does not match the expected value"
                .to_owned(),
            DownloadError::ExtractionFailed => "Failed to extract the tarball".to_owned(),
            DownloadError::ConfigDownloadFailed => "Failed to download the config file".to_owned(),
            DownloadError::ConfigParseFailed => "Failed to parse the config file".to_owned(),
            DownloadError::MetadataParseFailed(p) => {
                let mut r = String::from_str("Failed to parse metadata for database ");
                r.append(p.as_str());
                r
            },
            DownloadError::UnknownDatabaseVersion(v) => {
                let mut r = String::from_str("Database version '");
                r.append(v.as_str());
                r.append("' not found in manifest");
                r
            },
            DownloadError::NoDatabasesAvailable => "No databases are defined in the manifest"
                .to_owned(),
            DownloadError::InvalidDate(d) => {
                let mut r = String::from_str("Failed to parse database release date '");
                r.append(d.as_str());
                r.append("'");
                r
            },
            DownloadError::Md5Error => "Failed to compute MD5 hash".to_owned(),
        }
    }
}

} // verus!
