//! The output compression formats the tool can write, and how a format is
//! chosen: from a one-letter code, from a file's magic number, or from a
//! path's extension.
//!
//! The encoders themselves are external collaborators; this module holds
//! the format type and every decision about it.

use vstd::prelude::*;

use crate::strutil::str_eq;

verus! {

/// A supported output compression format.
#[derive(Debug, PartialEq, Eq, Structural, Copy, Clone)]
pub enum CompressionFormat {
    Bzip2,
    Gzip,
    Uncompressed,
    Xz,
    Zstd,
}

impl Default for CompressionFormat {
    /// Output is uncompressed unless something chooses otherwise.
    fn default() -> (r: Self)
        ensures
            r is Uncompressed,
    {
        CompressionFormat::Uncompressed
    }
}

/// The case-folded form of a text, as str::to_lowercase computes it.
pub uninterp spec fn lower_of(s: Seq<char>) -> Seq<char>;

/// Relies on str::to_lowercase: the result depends on the characters alone.
#[verifier::external_body]
fn lowercase(s: &str) -> (r: String)
    ensures
        r@ == lower_of(s@),
{
    s.to_lowercase()
}

/// The format a one-letter code names, after case folding: b, g, x, z or u.
pub open spec fn spec_code_format(t: Seq<char>) -> Option<CompressionFormat> {
    if t == "b"@ {
        Some(CompressionFormat::Bzip2)
    } else if t == "g"@ {
        Some(CompressionFormat::Gzip)
    } else if t == "x"@ {
        Some(CompressionFormat::Xz)
    } else if t == "z"@ {
        Some(CompressionFormat::Zstd)
    } else if t == "u"@ {
        Some(CompressionFormat::Uncompressed)
    } else {
        None
    }
}

/// The extension text each format writes; also its display form.
pub open spec fn spec_ext_str(f: CompressionFormat) -> Seq<char> {
    match f {
        CompressionFormat::Bzip2 => "bz2"@,
        CompressionFormat::Gzip => "gz"@,
        CompressionFormat::Uncompressed => ""@,
        CompressionFormat::Xz => "xz"@,
        CompressionFormat::Zstd => "zst"@,
    }
}

/// The format the magic number at the start of a file names: gzip, bzip2,
/// zstd and xz each begin with a fixed byte prefix; anything else counts as
/// uncompressed.
pub open spec fn spec_detect(bytes: Seq<u8>) -> CompressionFormat {
    if bytes.len() >= 2 && bytes[0] == 0x1f && bytes[1] == 0x8b {
        CompressionFormat::Gzip
    } else if bytes.len() >= 2 && bytes[0] == 0x42 && bytes[1] == 0x5a {
        CompressionFormat::Bzip2
    } else if bytes.len() >= 4 && bytes[0] == 0x28 && bytes[1] == 0xb5 && bytes[2] == 0x2f
        && bytes[3] == 0xfd {
        CompressionFormat::Zstd
    } else if bytes.len() >= 5 && bytes[0] == 0xfd && bytes[1] == 0x37 && bytes[2] == 0x7a
        && bytes[3] == 0x58 && bytes[4] == 0x5a {
        CompressionFormat::Xz
    } else {
        CompressionFormat::Uncompressed
    }
}

/// Detects a format from the first bytes of a file — the caller hands in
/// the five bytes at the start, or fewer when the file is shorter.
pub fn detect_format(bytes: &[u8]) -> (r: CompressionFormat)
    ensures
        r == spec_detect(bytes@),
{
    if bytes.len() >= 2 && bytes[0] == 0x1f && bytes[1] == 0x8b {
        CompressionFormat::Gzip
    } else if bytes.len() >= 2 && bytes[0] == 0x42 && bytes[1] == 0x5a {
        CompressionFormat::Bzip2
    } else if bytes.len() >= 4 && bytes[0] == 0x28 && bytes[1] == 0xb5 && bytes[2] == 0x2f
        && bytes[3] == 0xfd {
        CompressionFormat::Zstd
    } else if bytes.len() >= 5 && bytes[0] == 0xfd && bytes[1] == 0x37 && bytes[2] == 0x7a
        && bytes[3] == 0x58 && bytes[4] == 0x5a {
        CompressionFormat::Xz
    } else {
        CompressionFormat::Uncompressed
    }
}

/// Where a path's extension starts: one past the last dot of its file
/// name, scanning backward until a path separator ends the name — `None`
/// when the name has no dot, or only a leading one.
pub open spec fn spec_ext_dot(p: Seq<char>, i: int) -> Option<int>
    decreases i,
{
    if i <= 0 {
        None
    } else if p[i - 1] == '/' {
        None
    } else if p[i - 1] == '.' {
        if i >= 2 && p[i - 2] != '/' {
            Some(i)
        } else {
            None
        }
    } else {
        spec_ext_dot(p, i - 1)
    }
}

/// A path's extension: the file name's characters after its last dot.
pub open spec fn spec_extension(p: Seq<char>) -> Option<Seq<char>> {
    match spec_ext_dot(p, p.len() as int) {
        Some(i) => Some(p.subrange(i, p.len() as int)),
        None => None,
    }
}

/// The format an extension text names.
pub open spec fn spec_format_for_ext(e: Seq<char>) -> CompressionFormat {
    if e == "bz2"@ {
        CompressionFormat::Bzip2
    } else if e == "gz"@ {
        CompressionFormat::Gzip
    } else if e == "xz"@ {
        CompressionFormat::Xz
    } else if e == "zst"@ || e == "zstd"@ {
        CompressionFormat::Zstd
    } else {
        CompressionFormat::Uncompressed
    }
}

/// The format a path's extension names; uncompressed when it has none.
pub open spec fn spec_path_format(p: Seq<char>) -> CompressionFormat {
    match spec_extension(p) {
        Some(e) => spec_format_for_ext(e),
        None => CompressionFormat::Uncompressed,
    }
}

impl CompressionFormat {
    /// The format an already case-folded code names: exactly b, g, x, z or
    /// u, and nothing else.
    pub fn format_for_code(folded: &str) -> (r: Option<Self>)
        ensures
            r == spec_code_format(folded@),
    {
        if str_eq(folded, "b") {
            Some(CompressionFormat::Bzip2)
        } else if str_eq(folded, "g") {
            Some(CompressionFormat::Gzip)
        } else if str_eq(folded, "x") {
            Some(CompressionFormat::Xz)
        } else if str_eq(folded, "z") {
            Some(CompressionFormat::Zstd)
        } else if str_eq(folded, "u") {
            Some(CompressionFormat::Uncompressed)
        } else {
            None
        }
    }

    /// The format a one-letter code names, case-insensitively: b, g, x, z,
    /// or u for uncompressed. Anything else is rejected with a message.
    pub fn from_code(s: &str) -> (r: Result<Self, String>)
        ensures
            match r {
                Ok(f) => spec_code_format(lower_of(s@)) == Some(f),
                Err(_) => spec_code_format(lower_of(s@)) is None,
            },
    {
        let low = lowercase(s);
        match Self::format_for_code(low.as_str()) {
            Some(f) => Ok(f),
            None => {
                let mut m = String::from_str("Invalid compression format: ");
                m.append(s);
                Err(m)
            },
        }
    }

    /// The format a file's first bytes name; reads from a byte slice the
    /// caller took from the start of the file.
    pub fn from_reader(magic: &[u8]) -> (r: Result<Self, String>)
        ensures
            r matches Ok(f) && f == spec_detect(magic@),
    {
        Ok(detect_format(magic))
    }

    /// The format a path's extension names: bz2, gz, xz, zst or zstd;
    /// uncompressed for any other extension or none.
    pub fn from_path(path: &str) -> (r: Result<Self, String>)
        ensures
            r matches Ok(f) && f == spec_path_format(path@),
    {
        let n = path.unicode_len();
        let mut i: usize = n;
        while i > 0
            invariant
                i <= n,
                n == path@.len(),
                spec_ext_dot(path@, n as int) == spec_ext_dot(path@, i as int),
            decreases i,
        {
            let c = path.get_char(i - 1);
            if c == '/' {
                return Ok(CompressionFormat::Uncompressed);
            }
            if c == '.' {
                if i >= 2 && path.get_char(i - 2) != '/' {
                    let e = path.substring_char(i, n);
                    if str_eq(e, "bz2") {
                        return Ok(CompressionFormat::Bzip2);
                    } else if str_eq(e, "gz") {
                        return Ok(CompressionFormat::Gzip);
                    } else if str_eq(e, "xz") {
                        return Ok(CompressionFormat::Xz);
                    } else if str_eq(e, "zst") || str_eq(e, "zstd") {
                        return Ok(CompressionFormat::Zstd);
                    } else {
                        return Ok(CompressionFormat::Uncompressed);
                    }
                } else {
                    return Ok(CompressionFormat::Uncompressed);
                }
            }
            i -= 1;
        }
        Ok(CompressionFormat::Uncompressed)
    }

    /// Whether this format compresses at all.
    pub fn is_compressed(&self) -> (r: bool)
        ensures
            r == !(*self is Uncompressed),
    {
        match self {
            CompressionFormat::Uncompressed => false,
            _ => true,
        }
    }

    /// The extension text this format writes; also its display form.
    pub fn extension(&self) -> (r: String)
        ensures
            r@ == spec_ext_str(*self),
    {
        match self {
            CompressionFormat::Bzip2 => "bz2".to_owned(),
            CompressionFormat::Gzip => "gz".to_owned(),
            CompressionFormat::Uncompressed => "".to_owned(),
            CompressionFormat::Xz => "xz".to_owned(),
            CompressionFormat::Zstd => "zst".to_owned(),
        }
    }

    /// Appends this format's extension to a path: `path.ext` for a
    /// compressing format, the path unchanged for uncompressed output.
    pub fn add_extension(&self, path: &str) -> (r: String)
        ensures
            *self is Uncompressed ==> r@ == path@,
            !(*self is Uncompressed) ==> r@ == path@ + "."@ + spec_ext_str(*self),
    {
        if !self.is_compressed() {
            return path.to_owned();
        }
        let mut r = path.to_owned();
        r.append(".");
        let e = self.extension();
        r.append(e.as_str());
        r
    }
}

impl std::str::FromStr for CompressionFormat {
    type Err = String;

    /// Parses a one-letter format code, case-insensitively.
    fn from_str(s: &str) -> Result<Self, String> {
        CompressionFormat::from_code(s)
    }
}

} // verus!
