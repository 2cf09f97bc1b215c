//! The ordered code table: an ordered mapping from code string to the
//! symbolic names that share the code, together with the rules that turn
//! the table text into it.

use vstd::prelude::*;
use crate::lines::{is_ws_char, spec_lines, tokens};

verus! {

/// The mathematical view of the table: code/name-list pairs in
/// first-seen code order.
pub type TableView = Seq<(Seq<char>, Seq<Seq<char>>)>;

/// Index of the first entry of `t` whose code is `code`, or `-1` if the
/// code occurs nowhere.
pub open spec fn index_of_code(t: TableView, code: Seq<char>) -> int
    decreases t.len(),
{
    if t.len() == 0 {
        -1
    } else if t[0].0 == code {
        0
    } else if index_of_code(t.drop_first(), code) == -1 {
        -1
    } else {
        1 + index_of_code(t.drop_first(), code)
    }
}

pub proof fn lemma_index_of_code(t: TableView, code: Seq<char>)
    ensures
        index_of_code(t, code) == -1 ==> forall|i: int| 0 <= i < t.len() ==> t[i].0 != code,
        index_of_code(t, code) != -1 ==> 0 <= index_of_code(t, code) < t.len()
            && t[index_of_code(t, code)].0 == code,
    decreases t.len(),
{
    if t.len() == 0 {
    } else if t[0].0 == code {
    } else {
        lemma_index_of_code(t.drop_first(), code);
        if index_of_code(t, code) == -1 {
            assert forall|i: int| 0 <= i < t.len() implies t[i].0 != code by {
                if i > 0 {
                    assert(t.drop_first()[i - 1].0 != code);
                }
            }
        } else {
            assert(t[index_of_code(t, code)] == t.drop_first()[index_of_code(t, code) - 1]);
        }
    }
}

/// Registering a name under a code: the name is appended to the existing
/// entry of that code, or a new entry is appended to the table.
pub open spec fn table_insert(t: TableView, code: Seq<char>, name: Seq<char>) -> TableView {
    let i = index_of_code(t, code);
    if i == -1 {
        t.push((code, seq![name]))
    } else {
        t.update(i, (t[i].0, t[i].1.push(name)))
    }
}

/// A line of the table text is ignored when it opens a comment, opens a
/// section header, or holds nothing but whitespace.
pub open spec fn is_comment(l: Seq<char>) -> bool {
    l.len() > 0 && l[0] == '#'
}

pub open spec fn is_section_header(l: Seq<char>) -> bool {
    l.len() >= 7 && l[0] == 'S' && l[1] == 'e' && l[2] == 'c' && l[3] == 't' && l[4] == 'i'
        && l[5] == 'o' && l[6] == 'n'
}

pub open spec fn is_blank(l: Seq<char>) -> bool {
    forall|i: int| 0 <= i < l.len() ==> is_ws_char(l[i])
}

pub open spec fn is_skipped(l: Seq<char>) -> bool {
    is_comment(l) || is_section_header(l) || is_blank(l)
}

/// The prefix that a raw name token loses.
pub open spec fn name_prefix() -> Seq<char> {
    seq!['E', 'R', 'R', 'C', 'O', 'D', 'E', '_']
}

/// The symbolic name a raw token yields: the token without its
/// `ERRCODE_` prefix, or the token itself if the prefix is absent.
pub open spec fn strip_name_prefix(t: Seq<char>) -> Seq<char> {
    if t.len() >= 8 && t.take(8) == name_prefix() {
        t.skip(8)
    } else {
        t
    }
}

/// The effect of one line on the table: a skipped line leaves it as it
/// is; a data line with fewer than three tokens is malformed (`None`);
/// any other line registers its third token's name under its first
/// token's code.
pub open spec fn parse_line(t: TableView, l: Seq<char>) -> Option<TableView> {
    if is_skipped(l) {
        Some(t)
    } else {
        let tk = tokens(l);
        if tk.len() < 3 {
            None
        } else {
            Some(table_insert(t, tk[0], strip_name_prefix(tk[2])))
        }
    }
}

/// The table that a sequence of lines yields, or `None` as soon as any
/// line is malformed.
pub open spec fn parse_lines(ls: Seq<Seq<char>>) -> Option<TableView>
    decreases ls.len(),
{
    if ls.len() == 0 {
        Some(Seq::empty())
    } else {
        match parse_lines(ls.drop_last()) {
            Option::None => Option::None,
            Option::Some(t) => parse_line(t, ls.last()),
        }
    }
}

/// The table that the whole table text yields.
pub open spec fn spec_parse(s: Seq<char>) -> Option<TableView> {
    parse_lines(spec_lines(s))
}

/// Line `k` of the table text is the first malformed one: every line
/// before it parses, and it is neither skipped nor carries the three
/// tokens a declaration needs.
pub open spec fn malformed_at(s: Seq<char>, k: int) -> bool {
    &&& 0 <= k < spec_lines(s).len()
    &&& parse_lines(spec_lines(s).take(k)) is Some
    &&& !is_skipped(spec_lines(s)[k])
    &&& tokens(spec_lines(s)[k]).len() < 3
}

/// A malformed line poisons every longer prefix of the input.
pub proof fn lemma_parse_lines_none(ls: Seq<Seq<char>>, k: int)
    requires
        0 <= k <= ls.len(),
        parse_lines(ls.take(k)) is None,
    ensures
        parse_lines(ls) is None,
    decreases ls.len() - k,
{
    if k < ls.len() {
        assert(ls.take(k + 1).drop_last() =~= ls.take(k));
        lemma_parse_lines_none(ls, k + 1);
    } else {
        assert(ls.take(k) =~= ls);
    }
}

/// Well-formedness of a table: codes are pairwise distinct and every
/// entry carries at least one name.
pub open spec fn wf_table(t: TableView) -> bool {
    (forall|i: int, j: int| 0 <= i < j < t.len() ==> t[i].0 != t[j].0)
        && (forall|i: int| 0 <= i < t.len() ==> t[i].1.len() >= 1)
}

pub proof fn lemma_table_insert_wf(t: TableView, code: Seq<char>, name: Seq<char>)
    requires
        wf_table(t),
    ensures
        wf_table(table_insert(t, code, name)),
{
    lemma_index_of_code(t, code);
    let r = table_insert(t, code, name);
    if index_of_code(t, code) == -1 {
        assert forall|i: int, j: int| 0 <= i < j < r.len() implies r[i].0 != r[j].0 by {
            if j == r.len() - 1 {
                assert(t[i].0 != code);
            }
        }
    }
}

/// Every table that parsing yields is well-formed.
pub proof fn lemma_parse_lines_wf(ls: Seq<Seq<char>>)
    ensures
        parse_lines(ls) matches Some(t) ==> wf_table(t),
    decreases ls.len(),
{
    if ls.len() == 0 {
        assert(wf_table(Seq::empty()));
    } else {
        lemma_parse_lines_wf(ls.drop_last());
        if let Option::Some(t) = parse_lines(ls.drop_last()) {
            let l = ls.last();
            if !is_skipped(l) && tokens(l).len() >= 3 {
                lemma_table_insert_wf(t, tokens(l)[0], strip_name_prefix(tokens(l)[2]));
            }
        }
    }
}

} // verus!
