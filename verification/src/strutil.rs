//! Small verified helpers for character-level work on `&str`.

use vstd::prelude::*;

verus! {

/// True when `a` and `b` hold the same characters.
pub fn str_eq(a: &str, b: &str) -> (r: bool)
    ensures
        r == (a@ == b@),
{
    let an = a.unicode_len();
    let bn = b.unicode_len();
    if an != bn {
        return false;
    }
    let mut i: usize = 0;
    while i < an
        invariant
            an == a@.len(),
            an == b@.len(),
            0 <= i <= an,
            forall|j: int| 0 <= j < i ==> a@[j] == b@[j],
        decreases an - i,
    {
        if a.get_char(i) != b.get_char(i) {
            return false;
        }
        i += 1;
    }
    proof {
        assert(a@ =~= b@);
    }
    true
}

/// True when the characters of `pat` occur in `s` starting at index `at`.
pub fn starts_with_at(s: &str, pat: &str, at: usize) -> (r: bool)
    ensures
        r == (at + pat@.len() <= s@.len() && s@.subrange(
            at as int,
            at as int + pat@.len() as int,
        ) == pat@),
{
    let sn = s.unicode_len();
    let pn = pat.unicode_len();
    if at > sn || pn > sn - at {
        return false;
    }
    let mut j: usize = 0;
    while j < pn
        invariant
            sn == s@.len(),
            pn == pat@.len(),
            at + pn <= sn,
            0 <= j <= pn,
            forall|k: int| 0 <= k < j ==> s@[at + k] == pat@[k],
        decreases pn - j,
    {
        if s.get_char(at + j) != pat.get_char(j) {
            proof {
                assert(s@.subrange(at as int, at as int + pat@.len() as int)[j as int] == s@[at
                    + j]);
            }
            return false;
        }
        j += 1;
    }
    proof {
        assert(s@.subrange(at as int, at as int + pat@.len() as int) =~= pat@);
    }
    true
}

/// True when `pat` occurs somewhere in `s`.
pub open spec fn spec_contains(s: Seq<char>, pat: Seq<char>) -> bool {
    exists|k: int|
        0 <= k <= s.len() - pat.len() && #[trigger] s.subrange(k, k + pat.len() as int) == pat
}

/// Whether the characters of `pat` occur anywhere in `s`.
pub fn str_contains(s: &str, pat: &str) -> (r: bool)
    ensures
        r == spec_contains(s@, pat@),
{
    let n = s.unicode_len();
    let pn = pat.unicode_len();
    if pn > n {
        return false;
    }
    if pn == 0 {
        proof {
            assert(s@.subrange(0, 0 + pat@.len() as int) =~= pat@);
        }
        return true;
    }
    let mut k: usize = 0;
    while k <= n - pn
        invariant
            1 <= pn <= n,
            n == s@.len(),
            pn == pat@.len(),
            k <= n - pn + 1,
            forall|j: int|
                0 <= j < k ==> #[trigger] s@.subrange(j, j + pat@.len() as int) != pat@,
        decreases n - pn - k + 1,
    {
        if starts_with_at(s, pat, k) {
            return true;
        }
        k += 1;
    }
    false
}

/// A line's trailing carriage return is part of the line ending, not of the
/// line.
pub open spec fn spec_strip_cr(l: Seq<char>) -> Seq<char> {
    if l.len() > 0 && l.last() == '\r' {
        l.drop_last()
    } else {
        l
    }
}

/// Index of the first line feed in `s`, if any.
pub open spec fn spec_first_nl(s: Seq<char>) -> Option<int>
    decreases s.len(),
{
    if s.len() == 0 {
        None
    } else if s[0] == '\n' {
        Some(0)
    } else {
        match spec_first_nl(s.drop_first()) {
            Some(q) => Some(q + 1),
            None => None,
        }
    }
}

/// The first line feed is a line feed, and nothing before it is one.
pub proof fn lemma_first_nl(s: Seq<char>)
    ensures
        match spec_first_nl(s) {
            Some(q) => 0 <= q < s.len() && s[q] == '\n' && (forall|j: int|
                0 <= j < q ==> s[j] != '\n'),
            None => forall|j: int| 0 <= j < s.len() ==> s[j] != '\n',
        },
    decreases s.len(),
{
    if s.len() > 0 && s[0] != '\n' {
        lemma_first_nl(s.drop_first());
        match spec_first_nl(s.drop_first()) {
            Some(q) => {
                assert forall|j: int| 0 <= j < q + 1 implies s[j] != '\n' by {
                    if j > 0 {
                        assert(s.drop_first()[j - 1] != '\n');
                    }
                }
            },
            None => {
                assert forall|j: int| 0 <= j < s.len() implies s[j] != '\n' by {
                    if j > 0 {
                        assert(s.drop_first()[j - 1] != '\n');
                    }
                }
            },
        }
    }
}

/// The lines of a text, split at line feeds, each stripped of a carriage
/// return that preceded its line feed; a final line ending is optional.
pub open spec fn spec_lines(s: Seq<char>) -> Seq<Seq<char>>
    decreases s.len(),
{
    if s.len() == 0 {
        Seq::empty()
    } else {
        match spec_first_nl(s) {
            Some(q) => if 0 <= q < s.len() {
                seq![spec_strip_cr(s.subrange(0, q))] + spec_lines(
                    s.subrange(q + 1, s.len() as int),
                )
            } else {
                seq![s]
            },
            None => seq![s],
        }
    }
}

/// The views of a vector of lines.
pub open spec fn line_views(s: Seq<String>) -> Seq<Seq<char>> {
    s.map_values(|l: String| l@)
}

/// Splits a text into its lines, as [`spec_lines`] describes them.
pub fn split_lines(s: &str) -> (r: Vec<String>)
    ensures
        line_views(r@) == spec_lines(s@),
{
    let n = s.unicode_len();
    let mut out: Vec<String> = Vec::new();
    let mut start: usize = 0;
    let mut i: usize = 0;
    proof {
        assert(s@.subrange(0, n as int) =~= s@);
        assert(line_views(out@) + spec_lines(s@) =~= spec_lines(s@));
    }
    while i < n
        invariant
            start <= i <= n,
            n == s@.len(),
            spec_lines(s@) == line_views(out@) + spec_lines(s@.subrange(start as int, n as int)),
            forall|j: int| start <= j < i ==> s@[j] != '\n',
        decreases n - i,
    {
        if s.get_char(i) == '\n' {
            let end = if i > start && s.get_char(i - 1) == '\r' {
                i - 1
            } else {
                i
            };
            let line = s.substring_char(start, end).to_owned();
            proof {
                let suf = s@.subrange(start as int, n as int);
                lemma_first_nl(suf);
                assert(suf[i - start] == '\n');
                match spec_first_nl(suf) {
                    Some(q) => {
                        if q < i - start {
                            assert(s@[start + q] == '\n');
                            assert(false);
                        }
                        if q > i - start {
                            assert(suf[i - start] != '\n');
                            assert(false);
                        }
                        assert(suf.subrange(0, q) =~= s@.subrange(start as int, i as int));
                        assert(suf.subrange(q + 1, suf.len() as int) =~= s@.subrange(
                            i as int + 1,
                            n as int,
                        ));
                        if i > start && s@[i - 1] == '\r' {
                            assert(spec_strip_cr(s@.subrange(start as int, i as int)) =~= s@
                                .subrange(start as int, i as int - 1));
                        }
                        assert(line@ =~= spec_strip_cr(suf.subrange(0, q)));
                    },
                    None => {
                        assert(false);
                    },
                }
            }
            out.push(line);
            proof {
                assert(line_views(out@) =~= line_views(out@.drop_last()).push(line@));
                assert(spec_lines(s@) =~= line_views(out@) + spec_lines(
                    s@.subrange(i as int + 1, n as int),
                ));
            }
            start = i + 1;
        }
        i += 1;
    }
    if start < n {
        let line = s.substring_char(start, n).to_owned();
        proof {
            let suf = s@.subrange(start as int, n as int);
            lemma_first_nl(suf);
            match spec_first_nl(suf) {
                Some(q) => {
                    assert(s@[start + q] == '\n');
                    assert(false);
                },
                None => {},
            }
            assert(line@ =~= suf);
        }
        out.push(line);
        proof {
            assert(line_views(out@) =~= line_views(out@.drop_last()).push(line@));
            assert(spec_lines(s@) =~= line_views(out@));
        }
    } else {
        proof {
            assert(s@.subrange(start as int, n as int).len() == 0);
            assert(spec_lines(s@) =~= line_views(out@));
        }
    }
    out
}

/// A character that ends a quoted value in the metadata format: a closing
/// quote or a line break.
pub open spec fn is_stop_char(c: char) -> bool {
    c == '"' || c == '\n'
}

/// Index of the first stop character at or after `from`, if any.
pub fn scan_to_stop(s: &str, from: usize) -> (r: Option<usize>)
    requires
        from <= s@.len(),
    ensures
        match r {
            Some(q) => from <= q < s@.len() && is_stop_char(s@[q as int]) && (forall|i: int|
                from <= i < q ==> !is_stop_char(s@[i])),
            None => forall|i: int| from <= i < s@.len() ==> !is_stop_char(s@[i]),
        },
{
    let n = s.unicode_len();
    let mut i: usize = from;
    while i < n
        invariant
            n == s@.len(),
            from <= i <= n,
            forall|k: int| from <= k < i ==> !is_stop_char(s@[k]),
        decreases n - i,
    {
        let c = s.get_char(i);
        if c == '"' || c == '\n' {
            return Some(i);
        }
        i += 1;
    }
    None
}

} // verus!
