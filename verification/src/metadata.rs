//! The per-install metadata document: a small structured-text file written
//! into each installed version's directory, holding the version name and the
//! date the release was added.
//!
//! The format is fixed down to the byte: two lines, `version = "..."` then
//! `added = "..."` in that order, one space on each side of the `=`, each
//! line ended by a line break. Field values are carried verbatim, so a
//! value may not contain a quote or a line break. Rendering and parsing are
//! verified against the same specification, and
//! [`lemma_metadata_roundtrip`] proves that parsing a rendered document
//! gives the fields back unchanged.
//!
//! The parser accepts exactly this layout and nothing wider: a document
//! with the keys in the other order, other spacing, comments or escapes is
//! treated the same as an unreadable file. The scanner then skips that
//! directory, and the next install of its version wipes and rewrites it.
//! Every document this crate writes — and every one written by a structured
//! text serializer for the same two plain string fields in this field order
//! — parses back; only hand-edited files can fall outside the layout.

use vstd::prelude::*;

use crate::strutil::{is_stop_char, scan_to_stop, starts_with_at};

verus! {

/// What is recorded about one installed database version.
#[derive(Debug)]
pub struct InstalledMetadata {
    pub version: String,
    pub added: String,
}

/// A field value the metadata format can carry verbatim: no quote and no
/// line break.
pub open spec fn plain_field(s: Seq<char>) -> bool {
    forall|i: int| 0 <= i < s.len() ==> !is_stop_char(s[i])
}

/// The exact text of a metadata document with the given field values.
pub open spec fn spec_render_metadata(v: Seq<char>, a: Seq<char>) -> Seq<char> {
    "version = \""@ + v + "\"\nadded = \""@ + a + "\"\n"@
}

/// True when `s` is the metadata document holding fields `p`.
pub open spec fn is_metadata_text_for(s: Seq<char>, p: (Seq<char>, Seq<char>)) -> bool {
    &&& plain_field(p.0)
    &&& plain_field(p.1)
    &&& s == spec_render_metadata(p.0, p.1)
}

/// The field values a text holds when read as a metadata document: the
/// version and the added date, or `None` when the text is anything other
/// than the exact rendered layout.
pub open spec fn spec_parse_metadata(s: Seq<char>) -> Option<(Seq<char>, Seq<char>)> {
    if exists|p: (Seq<char>, Seq<char>)| is_metadata_text_for(s, p) {
        Some(choose|p: (Seq<char>, Seq<char>)| is_metadata_text_for(s, p))
    } else {
        None
    }
}

/// Everything the document layout fixes about the text of a rendered
/// metadata document: its length, its fixed framing, and where each field's
/// characters sit.
proof fn lemma_render_structure(v: Seq<char>, a: Seq<char>)
    ensures
        spec_render_metadata(v, a).len() == 24 + v.len() + a.len(),
        spec_render_metadata(v, a).subrange(0, 11) == "version = \""@,
        forall|k: int|
            11 <= k < 11 + v.len() ==> #[trigger] spec_render_metadata(v, a)[k] == v[k - 11],
        spec_render_metadata(v, a)[11 + v.len() as int] == '"',
        spec_render_metadata(v, a).subrange(12 + v.len() as int, 22 + v.len() as int)
            == "\nadded = \""@,
        forall|k: int|
            22 + v.len() <= k < 22 + v.len() + a.len() ==> #[trigger] spec_render_metadata(v, a)[k]
                == a[k - 22 - v.len()],
        spec_render_metadata(v, a)[22 + v.len() as int + a.len() as int] == '"',
        spec_render_metadata(v, a)[23 + v.len() as int + a.len() as int] == '\n',
{
    reveal_strlit("version = \"");
    reveal_strlit("\"\nadded = \"");
    reveal_strlit("\nadded = \"");
    reveal_strlit("\"\n");
    let p0 = "version = \""@;
    let m0 = "\"\nadded = \""@;
    let s0 = "\"\n"@;
    let pv = p0 + v;
    let pvm = pv + m0;
    let pvma = pvm + a;
    let s = pvma + s0;
    assert(spec_render_metadata(v, a) == s);
    assert(s.len() == 24 + v.len() + a.len());
    assert forall|i: int| 0 <= i < 11 implies s[i] == p0[i] by {
        assert(s[i] == pvma[i]);
        assert(pvma[i] == pvm[i]);
        assert(pvm[i] == pv[i]);
        assert(pv[i] == p0[i]);
    }
    assert(s.subrange(0, 11) =~= p0);
    assert forall|k: int| 11 <= k < 11 + v.len() implies #[trigger] s[k] == v[k - 11] by {
        assert(s[k] == pvma[k]);
        assert(pvma[k] == pvm[k]);
        assert(pvm[k] == pv[k]);
        assert(pv[k] == v[k - 11]);
    }
    assert forall|j: int| 0 <= j < 11 implies s[11 + v.len() as int + j] == m0[j] by {
        let k = 11 + v.len() as int + j;
        assert(s[k] == pvma[k]);
        assert(pvma[k] == pvm[k]);
        assert(pvm[k] == m0[j]);
    }
    assert(s[11 + v.len() as int] == m0[0]);
    assert(s.subrange(12 + v.len() as int, 22 + v.len() as int) =~= "\nadded = \""@) by {
        assert forall|j: int|
            0 <= j < 10 implies s.subrange(12 + v.len() as int, 22 + v.len() as int)[j]
            == "\nadded = \""@[j] by {
            assert(s[12 + v.len() as int + j] == m0[j + 1]);
        }
    }
    assert forall|k: int| 22 + v.len() <= k < 22 + v.len() + a.len() implies #[trigger] s[k] == a[k
        - 22 - v.len()] by {
        assert(s[k] == pvma[k]);
        assert(pvma[k] == a[k - 22 - v.len()]);
    }
    assert(s[22 + v.len() as int + a.len() as int] == s0[0]);
    assert(s[23 + v.len() as int + a.len() as int] == s0[1]);
}

/// Two metadata documents with the same text hold the same fields.
proof fn lemma_render_injective(v1: Seq<char>, a1: Seq<char>, v2: Seq<char>, a2: Seq<char>)
    requires
        plain_field(v1),
        plain_field(a1),
        plain_field(v2),
        plain_field(a2),
        spec_render_metadata(v1, a1) == spec_render_metadata(v2, a2),
    ensures
        v1 == v2,
        a1 == a2,
{
    lemma_render_structure(v1, a1);
    lemma_render_structure(v2, a2);
    let s = spec_render_metadata(v1, a1);
    if v1.len() < v2.len() {
        assert(s[11 + v1.len() as int] == '"');
        assert(s[11 + v1.len() as int] == v2[v1.len() as int]);
        assert(false);
    }
    if v2.len() < v1.len() {
        assert(s[11 + v2.len() as int] == '"');
        assert(s[11 + v2.len() as int] == v1[v2.len() as int]);
        assert(false);
    }
    assert(v1 =~= v2) by {
        assert forall|i: int| 0 <= i < v1.len() implies v1[i] == v2[i] by {
            assert(s[11 + i] == v1[i]);
            assert(s[11 + i] == v2[i]);
        }
    }
    assert(a1.len() == a2.len());
    assert(a1 =~= a2) by {
        assert forall|i: int| 0 <= i < a1.len() implies a1[i] == a2[i] by {
            assert(s[22 + v1.len() as int + i] == a1[i]);
            assert(s[22 + v2.len() as int + i] == a2[i]);
        }
    }
}

/// Round trip: a rendered metadata document parses back to exactly the
/// fields it was rendered from.
pub proof fn lemma_metadata_roundtrip(v: Seq<char>, a: Seq<char>)
    requires
        plain_field(v),
        plain_field(a),
    ensures
        spec_parse_metadata(spec_render_metadata(v, a)) == Some((v, a)),
{
    let s = spec_render_metadata(v, a);
    assert(is_metadata_text_for(s, (v, a)));
    let p = choose|p: (Seq<char>, Seq<char>)| is_metadata_text_for(s, p);
    lemma_render_injective(p.0, p.1, v, a);
}

impl InstalledMetadata {
    /// The text of the metadata document for these fields.
    pub fn render(&self) -> (r: String)
        ensures
            r@ == spec_render_metadata(self.version@, self.added@),
    {
        let mut r = String::from_str("version = \"");
        r.append(self.version.as_str());
        r.append("\"\nadded = \"");
        r.append(self.added.as_str());
        r.append("\"\n");
        proof {
            assert(r@ =~= spec_render_metadata(self.version@, self.added@));
        }
        r
    }
}

/// From a refutation of every candidate pair of fields, concludes that the
/// text parses to nothing.
proof fn lemma_parse_none(s: Seq<char>)
    requires
        forall|p: (Seq<char>, Seq<char>)| !is_metadata_text_for(s, p),
    ensures
        spec_parse_metadata(s) is None,
{
}

/// In a well-formed document, the first stop character at or after index 11
/// is the quote closing the version field.
proof fn lemma_q1_position(p: (Seq<char>, Seq<char>), s: Seq<char>, q1: int)
    requires
        is_metadata_text_for(s, p),
        11 <= q1 < s.len(),
        is_stop_char(s[q1]),
        forall|i: int| 11 <= i < q1 ==> !is_stop_char(s[i]),
    ensures
        q1 == 11 + p.0.len(),
        s[q1] == '"',
{
    lemma_render_structure(p.0, p.1);
    if q1 < 11 + p.0.len() {
        assert(s[q1] == p.0[q1 - 11]);
        assert(false);
    }
    if q1 > 11 + p.0.len() {
        assert(is_stop_char(s[11 + p.0.len() as int]));
        assert(false);
    }
}

/// In a well-formed document, the first stop character at or after the added
/// field's start is the quote closing it.
proof fn lemma_q2_position(p: (Seq<char>, Seq<char>), s: Seq<char>, q2: int)
    requires
        is_metadata_text_for(s, p),
        22 + p.0.len() <= q2 < s.len(),
        is_stop_char(s[q2]),
        forall|i: int| 22 + p.0.len() <= i < q2 ==> !is_stop_char(s[i]),
    ensures
        q2 == 22 + p.0.len() + p.1.len(),
        s[q2] == '"',
{
    lemma_render_structure(p.0, p.1);
    if q2 < 22 + p.0.len() + p.1.len() {
        assert(s[q2] == p.1[q2 - 22 - p.0.len()]);
        assert(false);
    }
    if q2 > 22 + p.0.len() + p.1.len() {
        assert(is_stop_char(s[22 + p.0.len() as int + p.1.len() as int]));
        assert(false);
    }
}

/// Reads a metadata document back into its fields. Returns `None` exactly
/// when the text is not the rendering of any pair of plain field values —
/// reordered keys or different spacing included, as the module doc states.
pub fn parse_metadata(s: &str) -> (r: Option<InstalledMetadata>)
    ensures
        match r {
            Some(m) => spec_parse_metadata(s@) == Some((m.version@, m.added@)),
            None => spec_parse_metadata(s@) is None,
        },
{
    proof {
        reveal_strlit("version = \"");
        reveal_strlit("\nadded = \"");
    }
    let n = s.unicode_len();
    if !starts_with_at(s, "version = \"", 0) {
        proof {
            assert forall|p: (Seq<char>, Seq<char>)| !is_metadata_text_for(s@, p) by {
                if is_metadata_text_for(s@, p) {
                    lemma_render_structure(p.0, p.1);
                    assert(false);
                }
            }
            lemma_parse_none(s@);
        }
        return None;
    }
    let q1 = match scan_to_stop(s, 11) {
        Some(q) => q,
        None => {
            proof {
                assert forall|p: (Seq<char>, Seq<char>)| !is_metadata_text_for(s@, p) by {
                    if is_metadata_text_for(s@, p) {
                        lemma_render_structure(p.0, p.1);
                        assert(is_stop_char(s@[11 + p.0.len() as int]));
                        assert(false);
                    }
                }
                lemma_parse_none(s@);
            }
            return None;
        },
    };
    let c1 = s.get_char(q1);
    if c1 != '"' {
        proof {
            assert forall|p: (Seq<char>, Seq<char>)| !is_metadata_text_for(s@, p) by {
                if is_metadata_text_for(s@, p) {
                    lemma_q1_position(p, s@, q1 as int);
                    assert(false);
                }
            }
            lemma_parse_none(s@);
        }
        return None;
    }
    if !starts_with_at(s, "\nadded = \"", q1 + 1) {
        proof {
            assert forall|p: (Seq<char>, Seq<char>)| !is_metadata_text_for(s@, p) by {
                if is_metadata_text_for(s@, p) {
                    lemma_q1_position(p, s@, q1 as int);
                    lemma_render_structure(p.0, p.1);
                    assert(s@.subrange(12 + p.0.len() as int, 22 + p.0.len() as int)
                        == "\nadded = \""@);
                    assert(false);
                }
            }
            lemma_parse_none(s@);
        }
        return None;
    }
    let a_start = q1 + 11;
    let q2 = match scan_to_stop(s, a_start) {
        Some(q) => q,
        None => {
            proof {
                assert forall|p: (Seq<char>, Seq<char>)| !is_metadata_text_for(s@, p) by {
                    if is_metadata_text_for(s@, p) {
                        lemma_q1_position(p, s@, q1 as int);
                        lemma_render_structure(p.0, p.1);
                        assert(is_stop_char(s@[22 + p.0.len() as int + p.1.len() as int]));
                        assert(false);
                    }
                }
                lemma_parse_none(s@);
            }
            return None;
        },
    };
    let c2 = s.get_char(q2);
    if c2 != '"' {
        proof {
            assert forall|p: (Seq<char>, Seq<char>)| !is_metadata_text_for(s@, p) by {
                if is_metadata_text_for(s@, p) {
                    lemma_q1_position(p, s@, q1 as int);
                    lemma_q2_position(p, s@, q2 as int);
                    assert(false);
                }
            }
            lemma_parse_none(s@);
        }
        return None;
    }
    if n - q2 != 2 {
        proof {
            assert forall|p: (Seq<char>, Seq<char>)| !is_metadata_text_for(s@, p) by {
                if is_metadata_text_for(s@, p) {
                    lemma_q1_position(p, s@, q1 as int);
                    lemma_q2_position(p, s@, q2 as int);
                    lemma_render_structure(p.0, p.1);
                    assert(false);
                }
            }
            lemma_parse_none(s@);
        }
        return None;
    }
    if s.get_char(q2 + 1) != '\n' {
        proof {
            assert forall|p: (Seq<char>, Seq<char>)| !is_metadata_text_for(s@, p) by {
                if is_metadata_text_for(s@, p) {
                    lemma_q1_position(p, s@, q1 as int);
                    lemma_q2_position(p, s@, q2 as int);
                    lemma_render_structure(p.0, p.1);
                    assert(s@[23 + p.0.len() as int + p.1.len() as int] == '\n');
                    assert(false);
                }
            }
            lemma_parse_none(s@);
        }
        return None;
    }
    let version = s.substring_char(11, q1).to_owned();
    let added = s.substring_char(a_start, q2).to_owned();
    proof {
        let v = s@.subrange(11, q1 as int);
        let a = s@.subrange(a_start as int, q2 as int);
        assert forall|i: int| 0 <= i < v.len() implies !is_stop_char(v[i]) by {
            assert(v[i] == s@[11 + i]);
        }
        assert forall|i: int| 0 <= i < a.len() implies !is_stop_char(a[i]) by {
            assert(a[i] == s@[a_start + i]);
        }
        lemma_render_structure(v, a);
        let r_text = spec_render_metadata(v, a);
        assert(s@ =~= r_text) by {
            assert(r_text.len() == s@.len());
            assert forall|i: int| 0 <= i < s@.len() implies s@[i] == r_text[i] by {
                if i < 11 {
                    assert(r_text.subrange(0, 11)[i] == r_text[i]);
                    assert(s@.subrange(0, 11)[i] == s@[i]);
                } else if i < q1 {
                    assert(r_text[i] == v[i - 11]);
                    assert(v[i - 11] == s@[i]);
                } else if i == q1 {
                    assert(r_text[11 + v.len() as int] == '"');
                } else if i < q1 + 11 {
                    assert(r_text.subrange(12 + v.len() as int, 22 + v.len() as int)[i - q1 - 1]
                        == r_text[i]);
                    assert(s@.subrange(q1 as int + 1, q1 as int + 11)[i - q1 - 1] == s@[i]);
                } else if i < q2 {
                    assert(r_text[i] == a[i - 22 - v.len()]);
                    assert(a[i - a_start] == s@[i]);
                } else if i == q2 {
                    assert(r_text[22 + v.len() as int + a.len() as int] == '"');
                } else {
                    assert(r_text[23 + v.len() as int + a.len() as int] == '\n');
                }
            }
        }
        assert(is_metadata_text_for(s@, (v, a)));
        let p = choose|p: (Seq<char>, Seq<char>)| is_metadata_text_for(s@, p);
        lemma_render_injective(p.0, p.1, v, a);
    }
    Some(InstalledMetadata { version, added })
}

} // verus!
