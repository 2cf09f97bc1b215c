//! Turning the table text into the ordered code table.

use vstd::prelude::*;
use crate::lines::{is_ws, is_ws_char, line_tokens, spec_lines, split_lines, tokens};
use crate::ordered::{map_entries, table_append, table_entries_vec, table_new};
use crate::table::{
    is_comment, is_section_header, is_skipped, lemma_parse_lines_none, lemma_parse_lines_wf,
    malformed_at, name_prefix, parse_line, parse_lines, spec_parse, strip_name_prefix,
    table_insert, wf_table,
};

verus! {

/// A malformed data line: it is neither skipped nor carries the three
/// tokens a declaration needs. `line` is its index among the input's
/// lines. Generation aborts on it.
#[derive(Clone, Copy, Debug, PartialEq, Eq, Structural)]
pub struct ParseError {
    pub line: usize,
}

/// Whether a line of the table text is ignored.
pub fn line_skipped(l: &str) -> (r: bool)
    ensures
        r == is_skipped(l@),
{
    let n = l.unicode_len();
    if n > 0 && l.get_char(0) == '#' {
        return true;
    }
    if n >= 7 && l.get_char(0) == 'S' && l.get_char(1) == 'e' && l.get_char(2) == 'c'
        && l.get_char(3) == 't' && l.get_char(4) == 'i' && l.get_char(5) == 'o'
        && l.get_char(6) == 'n' {
        return true;
    }
    let mut i: usize = 0;
    while i < n
        invariant
            i <= n,
            n == l@.len(),
            !is_comment(l@),
            !is_section_header(l@),
            forall|k: int| 0 <= k < i ==> is_ws_char(l@[k]),
        decreases n - i,
    {
        if !is_ws(l.get_char(i)) {
            return false;
        }
        i += 1;
    }
    true
}

/// The symbolic name of a raw name token: the token without its
/// `ERRCODE_` prefix, or the token itself where the prefix is absent.
pub fn strip_name(t: &str) -> (r: String)
    ensures
        r@ == strip_name_prefix(t@),
{
    let n = t.unicode_len();
    if n >= 8 && t.get_char(0) == 'E' && t.get_char(1) == 'R' && t.get_char(2) == 'R'
        && t.get_char(3) == 'C' && t.get_char(4) == 'O' && t.get_char(5) == 'D'
        && t.get_char(6) == 'E' && t.get_char(7) == '_' {
        proof {
            assert(t@.take(8) =~= name_prefix());
        }
        t.substring_char(8, n).to_owned()
    } else {
        proof {
            if t@.len() >= 8 && t@.take(8) == name_prefix() {
                assert(t@[0] == t@.take(8)[0]);
                assert(t@[1] == t@.take(8)[1]);
                assert(t@[2] == t@.take(8)[2]);
                assert(t@[3] == t@.take(8)[3]);
                assert(t@[4] == t@.take(8)[4]);
                assert(t@[5] == t@.take(8)[5]);
                assert(t@[6] == t@.take(8)[6]);
                assert(t@[7] == t@.take(8)[7]);
                assert(false);
            }
        }
        t.to_owned()
    }
}

/// Parses the table text into the ordered code table.
///
/// On success the map holds, in first-seen order, each code of the text
/// with all its names in declaration order. The first malformed line —
/// one neither skipped nor holding at least three tokens — aborts the
/// parse and is reported by its index.
pub fn parse_codes(s: &str) -> (r: Result<
    linked_hash_map::LinkedHashMap<String, Vec<String>>,
    ParseError,
>)
    ensures
        match r {
            Result::Ok(m) => spec_parse(s@) == Some(map_entries(m)) && wf_table(map_entries(m)),
            Result::Err(e) => spec_parse(s@) is None && malformed_at(s@, e.line as int),
        },
{
    let lines = split_lines(s);
    let ghost ls = spec_lines(s@);
    let mut m = table_new();
    let mut k: usize = 0;
    proof {
        assert(ls.take(0) =~= Seq::<Seq<char>>::empty());
    }
    while k < lines.len()
        invariant
            k <= lines.len(),
            lines.deep_view() == ls,
            ls == spec_lines(s@),
            parse_lines(ls.take(k as int)) == Some(map_entries(m)),
        decreases lines.len() - k,
    {
        let ghost t = map_entries(m);
        let ghost l = ls[k as int];
        proof {
            assert(l == lines@[k as int]@);
            assert(ls.take(k + 1).drop_last() =~= ls.take(k as int));
            assert(ls.take(k + 1).last() == l);
        }
        if !line_skipped(lines[k].as_str()) {
            let tks = line_tokens(lines[k].as_str());
            proof {
                assert(tokens(l) == tks.deep_view());
            }
            if tks.len() < 3 {
                proof {
                    assert(parse_line(t, l) is None);
                    assert(parse_lines(ls.take(k + 1)) is None);
                    lemma_parse_lines_none(ls, k + 1);
                    assert(ls.take(ls.len() as int) =~= ls);
                }
                return Result::Err(ParseError { line: k });
            }
            let name = strip_name(tks[2].as_str());
            proof {
                assert(tks@[0]@ == tokens(l)[0]);
                assert(tks@[2]@ == tokens(l)[2]);
            }
            table_append(&mut m, &tks[0], name);
            proof {
                assert(map_entries(m) == table_insert(t, tokens(l)[0], strip_name_prefix(
                    tokens(l)[2],
                )));
                assert(parse_line(t, l) == Some(map_entries(m)));
            }
        } else {
            proof {
                assert(parse_line(t, l) == Some(map_entries(m)));
            }
        }
        k += 1;
        proof {
            assert(parse_lines(ls.take(k as int)) == Some(map_entries(m)));
        }
    }
    proof {
        assert(ls.take(k as int) =~= ls);
        lemma_parse_lines_wf(ls);
    }
    Result::Ok(m)
}

/// Parses the table text and hands the table out as a vector of
/// code/name-list pairs: each code of the text once, in first-seen
/// order, with all its names in declaration order.
pub fn parse_entries(s: &str) -> (r: Result<Vec<(String, Vec<String>)>, ParseError>)
    ensures
        match r {
            Result::Ok(v) => spec_parse(s@) == Some(v.deep_view()) && wf_table(v.deep_view()),
            Result::Err(e) => spec_parse(s@) is None && malformed_at(s@, e.line as int),
        },
{
    match parse_codes(s) {
        Result::Ok(m) => Result::Ok(table_entries_vec(&m)),
        Result::Err(e) => Result::Err(e),
    }
}

} // verus!
