//! Reading the classifier's progress report from its standard error.
//!
//! The classifier prints, among other lines, how many sequences it
//! processed, classified and left unclassified. Each such line starts with a
//! count that may carry thousands separators. The last line of each kind
//! wins; a count that does not parse fails the whole read, and a report
//! without such lines leaves the counts at zero.

use vstd::prelude::*;

use crate::strutil::{spec_contains, spec_lines, split_lines, str_contains, line_views};

verus! {

/// A blank character that separates the count from the rest of its line:
/// the characters of the Unicode white-space class.
pub open spec fn is_space(c: char) -> bool {
    ||| c == ' '
    ||| (9 <= c as int <= 13)
    ||| c as int == 0x85
    ||| c as int == 0xa0
    ||| c as int == 0x1680
    ||| (0x2000 <= c as int <= 0x200a)
    ||| c as int == 0x2028
    ||| c as int == 0x2029
    ||| c as int == 0x202f
    ||| c as int == 0x205f
    ||| c as int == 0x3000
}

/// Whether a character is white space, by the Unicode white-space class.
pub fn is_space_char(c: char) -> (r: bool)
    ensures
        r == is_space(c),
{
    let u = c as u32;
    u == 0x20 || (9 <= u && u <= 13) || u == 0x85 || u == 0xa0 || u == 0x1680 || (0x2000 <= u && u
        <= 0x200a) || u == 0x2028 || u == 0x2029 || u == 0x202f || u == 0x205f || u == 0x3000
}

/// A text with its leading white space removed.
pub open spec fn spec_after_spaces(l: Seq<char>) -> Seq<char>
    decreases l.len(),
{
    if l.len() == 0 {
        l
    } else if is_space(l[0]) {
        spec_after_spaces(l.drop_first())
    } else {
        l
    }
}

/// The leading run of non-space characters of a text.
pub open spec fn spec_take_word(l: Seq<char>) -> Seq<char>
    decreases l.len(),
{
    if l.len() == 0 {
        l
    } else if is_space(l[0]) {
        Seq::empty()
    } else {
        seq![l[0]] + spec_take_word(l.drop_first())
    }
}

/// The first white-space-separated word of a line, or `0` for a line
/// without one — a blank line then reads as a count of zero.
pub open spec fn spec_first_token(l: Seq<char>) -> Seq<char> {
    if spec_take_word(spec_after_spaces(l)).len() == 0 {
        "0"@
    } else {
        spec_take_word(spec_after_spaces(l))
    }
}

/// The number a token names once its comma separators are dropped: the
/// accumulated value of its digits, or `None` at any other character or
/// when no digit occurs at all.
pub open spec fn spec_tok_val(t: Seq<char>, acc: int, seen: bool) -> Option<int>
    decreases t.len(),
{
    if t.len() == 0 {
        if seen {
            Some(acc)
        } else {
            None
        }
    } else if t[0] == ',' {
        spec_tok_val(t.drop_first(), acc, seen)
    } else if '0' <= t[0] <= '9' {
        spec_tok_val(t.drop_first(), acc * 10 + (t[0] as int - '0' as int), true)
    } else {
        None
    }
}

/// The count a token names, where it fits the machine word.
pub open spec fn spec_parse_count(t: Seq<char>) -> Option<int> {
    match spec_tok_val(t, 0, false) {
        Some(v) => if v <= usize::MAX as int {
            Some(v)
        } else {
            None
        },
        None => None,
    }
}

/// The accumulated value only grows as digits are taken in.
proof fn lemma_tok_val_monotone(t: Seq<char>, acc: int, seen: bool)
    requires
        acc >= 0,
    ensures
        spec_tok_val(t, acc, seen) matches Some(v) ==> v >= acc,
    decreases t.len(),
{
    if t.len() > 0 {
        if t[0] == ',' {
            lemma_tok_val_monotone(t.drop_first(), acc, seen);
        } else if '0' <= t[0] <= '9' {
            lemma_tok_val_monotone(t.drop_first(), acc * 10 + (t[0] as int - '0' as int), true);
        }
    }
}

/// Reads the count at the front of one report line: the first word of the
/// line, commas dropped, as a number.
pub fn parse_count_token(line: &str) -> (r: Result<usize, String>)
    ensures
        match r {
            Ok(v) => spec_parse_count(spec_first_token(line@)) == Some(v as int),
            Err(_) => spec_parse_count(spec_first_token(line@)) is None,
        },
{
    let n = line.unicode_len();
    let mut ts: usize = 0;
    proof {
        assert(line@.subrange(0, n as int) =~= line@);
    }
    while ts < n && is_space_char(line.get_char(ts))
        invariant
            ts <= n,
            n == line@.len(),
            spec_after_spaces(line@) == spec_after_spaces(line@.subrange(ts as int, n as int)),
        decreases n - ts,
    {
        proof {
            assert(line@.subrange(ts as int, n as int).drop_first() =~= line@.subrange(
                ts as int + 1,
                n as int,
            ));
        }
        ts += 1;
    }
    proof {
        assert(line@.subrange(0, n as int) =~= line@);
    }
    if ts == n {
        // no word on the line: the count reads as zero
        proof {
            assert(line@.subrange(n as int, n as int).len() == 0);
            assert(spec_first_token(line@) == "0"@);
            reveal_strlit("0");
            assert(spec_tok_val("0"@, 0, false) == spec_tok_val("0"@.drop_first(), 0, true));
            assert("0"@.drop_first().len() == 0);
        }
        return Ok(0);
    }
    let mut te: usize = ts;
    while te < n && !is_space_char(line.get_char(te))
        invariant
            ts <= te <= n,
            n == line@.len(),
            spec_after_spaces(line@) == line@.subrange(ts as int, n as int),
            !is_space(line@[ts as int]),
            spec_take_word(line@.subrange(ts as int, n as int)) =~= line@.subrange(
                ts as int,
                te as int,
            ) + spec_take_word(line@.subrange(te as int, n as int)),
        decreases n - te,
    {
        proof {
            assert(line@.subrange(te as int, n as int).drop_first() =~= line@.subrange(
                te as int + 1,
                n as int,
            ));
            assert(spec_take_word(line@.subrange(te as int, n as int)) =~= seq![
                line@[te as int],
            ] + spec_take_word(line@.subrange(te as int + 1, n as int)));
            assert(line@.subrange(ts as int, te as int).push(line@[te as int]) =~= line@.subrange(
                ts as int,
                te as int + 1,
            ));
        }
        te += 1;
    }
    proof {
        if te < n {
            assert(spec_take_word(line@.subrange(te as int, n as int)) =~= Seq::<char>::empty());
        } else {
            assert(line@.subrange(te as int, n as int).len() == 0);
        }
        assert(spec_take_word(spec_after_spaces(line@)) =~= line@.subrange(ts as int, te as int));
        assert(line@.subrange(ts as int, te as int).len() > 0);
    }
    let ghost tok = spec_first_token(line@);
    proof {
        assert(tok == line@.subrange(ts as int, te as int));
    }
    let mut acc: usize = 0;
    let mut seen: bool = false;
    let mut i: usize = ts;
    while i < te
        invariant
            ts <= i <= te <= n,
            n == line@.len(),
            tok == spec_first_token(line@),
            tok == line@.subrange(ts as int, te as int),
            spec_tok_val(tok, 0, false) == spec_tok_val(
                line@.subrange(i as int, te as int),
                acc as int,
                seen,
            ),
        decreases te - i,
    {
        let c = line.get_char(i);
        let u = c as u32;
        proof {
            assert(line@.subrange(i as int, te as int)[0] == line@[i as int]);
            assert(line@.subrange(i as int, te as int).drop_first() =~= line@.subrange(
                i as int + 1,
                te as int,
            ));
        }
        if u == 0x2c {
            // a comma separator is dropped
        } else if 0x30 <= u && u <= 0x39 {
            let d = (u - 0x30) as usize;
            if acc > (usize::MAX - d) / 10 {
                proof {
                    let rest2 = line@.subrange(i as int + 1, te as int);
                    assert(spec_tok_val(tok, 0, false) == spec_tok_val(
                        rest2,
                        acc as int * 10 + d as int,
                        true,
                    ));
                    lemma_tok_val_monotone(rest2, acc as int * 10 + d as int, true);
                    assert(acc as int * 10 + d as int > usize::MAX as int);
                    assert(spec_parse_count(tok) is None);
                }
                return Err("Failed to parse a sequence count".to_owned());
            }
            acc = acc * 10 + d;
            seen = true;
        } else {
            proof {
                assert(spec_tok_val(line@.subrange(i as int, te as int), acc as int, seen)
                    is None);
                assert(spec_parse_count(tok) is None);
            }
            return Err("Failed to parse a sequence count".to_owned());
        }
        i += 1;
    }
    proof {
        assert(line@.subrange(te as int, te as int).len() == 0);
    }
    if !seen {
        proof {
            assert(spec_parse_count(tok) is None);
        }
        return Err("Failed to parse a sequence count".to_owned());
    }
    Ok(acc)
}

/// The counts a whole report names: for each line holding `processed`,
/// `sequences classified` or `sequences unclassified`, its leading count
/// replaces the total, classified or unclassified count; a count that does
/// not read as a number spoils the whole report.
pub open spec fn spec_kraken_counts(lines: Seq<Seq<char>>, acc: (int, int, int)) -> Option<
    (int, int, int),
>
    decreases lines.len(),
{
    if lines.len() == 0 {
        Some(acc)
    } else {
        let l = lines[0];
        let rest = lines.drop_first();
        if spec_contains(l, "processed"@) {
            match spec_parse_count(spec_first_token(l)) {
                Some(v) => spec_kraken_counts(rest, (v, acc.1, acc.2)),
                None => None,
            }
        } else if spec_contains(l, "sequences classified"@) {
            match spec_parse_count(spec_first_token(l)) {
                Some(v) => spec_kraken_counts(rest, (acc.0, v, acc.2)),
                None => None,
            }
        } else if spec_contains(l, "sequences unclassified"@) {
            match spec_parse_count(spec_first_token(l)) {
                Some(v) => spec_kraken_counts(rest, (acc.0, acc.1, v)),
                None => None,
            }
        } else {
            spec_kraken_counts(rest, acc)
        }
    }
}

/// Reads the total, classified and unclassified sequence counts out of the
/// classifier's standard error.
pub fn parse_kraken_stderr(stderr: &str) -> (r: Result<(usize, usize, usize), String>)
    ensures
        match r {
            Ok(t) => spec_kraken_counts(spec_lines(stderr@), (0, 0, 0)) == Some(
                (t.0 as int, t.1 as int, t.2 as int),
            ),
            Err(_) => spec_kraken_counts(spec_lines(stderr@), (0, 0, 0)) is None,
        },
{
    let lines = split_lines(stderr);
    let mut total: usize = 0;
    let mut classified: usize = 0;
    let mut unclassified: usize = 0;
    let mut i: usize = 0;
    proof {
        assert(line_views(lines@).subrange(0, lines@.len() as int) =~= line_views(lines@));
    }
    while i < lines.len()
        invariant
            i <= lines@.len(),
            line_views(lines@) == spec_lines(stderr@),
            spec_kraken_counts(spec_lines(stderr@), (0, 0, 0)) == spec_kraken_counts(
                line_views(lines@).subrange(i as int, lines@.len() as int),
                (total as int, classified as int, unclassified as int),
            ),
        decreases lines@.len() - i,
    {
        let ghost rest = line_views(lines@).subrange(i as int, lines@.len() as int);
        proof {
            assert(rest[0] == lines@[i as int]@);
            assert(rest.drop_first() =~= line_views(lines@).subrange(
                i as int + 1,
                lines@.len() as int,
            ));
        }
        let line = &lines[i];
        if str_contains(line.as_str(), "processed") {
            match parse_count_token(line.as_str()) {
                Ok(v) => {
                    total = v;
                },
                Err(e) => {
                    return Err(e);
                },
            }
        } else if str_contains(line.as_str(), "sequences classified") {
            match parse_count_token(line.as_str()) {
                Ok(v) => {
                    classified = v;
                },
                Err(e) => {
                    return Err(e);
                },
            }
        } else if str_contains(line.as_str(), "sequences unclassified") {
            match parse_count_token(line.as_str()) {
                Ok(v) => {
                    unclassified = v;
                },
                Err(e) => {
                    return Err(e);
                },
            }
        }
        i += 1;
    }
    proof {
        assert(line_views(lines@).subrange(
            lines@.len() as int,
            lines@.len() as int,
        ).len() == 0);
    }
    Ok((total, classified, unclassified))
}

} // verus!
