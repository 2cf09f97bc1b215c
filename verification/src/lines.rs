//! Splitting the table text into lines and lines into
//! whitespace-separated tokens.

use vstd::prelude::*;

verus! {

/// The ASCII whitespace characters that separate tokens and that a blank
/// line may consist of.
pub open spec fn is_ws_char(c: char) -> bool {
    c == ' ' || c == '\t' || c == '\r' || c == '\n' || c == '\x0b' || c == '\x0c'
}

/// Executable test for `is_ws_char`.
pub fn is_ws(c: char) -> (r: bool)
    ensures
        r == is_ws_char(c),
{
    c == ' ' || c == '\t' || c == '\r' || c == '\n' || c == '\x0b' || c == '\x0c'
}

/// Index of the first newline in `s`, or `s.len()` if there is none.
pub open spec fn find_newline(s: Seq<char>) -> int
    decreases s.len(),
{
    if s.len() == 0 {
        0
    } else if s[0] == '\n' {
        0
    } else {
        1 + find_newline(s.drop_first())
    }
}

pub proof fn lemma_find_newline(s: Seq<char>)
    ensures
        0 <= find_newline(s) <= s.len(),
        find_newline(s) < s.len() ==> s[find_newline(s)] == '\n',
        forall|j: int| 0 <= j < find_newline(s) ==> s[j] != '\n',
    decreases s.len(),
{
    if s.len() == 0 {
    } else if s[0] == '\n' {
    } else {
        lemma_find_newline(s.drop_first());
        assert forall|j: int| 0 <= j < find_newline(s) implies s[j] != '\n' by {
            if j > 0 {
                assert(s.drop_first()[j - 1] != '\n');
            }
        }
    }
}

/// A line loses one trailing carriage return, mirroring how `str::lines`
/// treats a `\r\n` ending.
pub open spec fn chop_cr(l: Seq<char>) -> Seq<char> {
    if l.len() > 0 && l[l.len() - 1] == '\r' {
        l.drop_last()
    } else {
        l
    }
}

/// The lines of `s`: segments between newlines, each segment before a
/// newline losing one trailing carriage return; a final empty segment
/// (after a trailing newline) does not count.
pub open spec fn spec_lines(s: Seq<char>) -> Seq<Seq<char>>
    decreases s.len(),
    via spec_lines_dec
{
    if s.len() == 0 {
        Seq::empty()
    } else {
        let i = find_newline(s);
        if i == s.len() {
            seq![s]
        } else {
            seq![chop_cr(s.take(i))] + spec_lines(s.skip(i + 1))
        }
    }
}

#[via_fn]
proof fn spec_lines_dec(s: Seq<char>) {
    lemma_find_newline(s);
}

/// Index of the first whitespace character in `s`, or `s.len()` if there
/// is none.
pub open spec fn find_ws(s: Seq<char>) -> int
    decreases s.len(),
{
    if s.len() == 0 {
        0
    } else if is_ws_char(s[0]) {
        0
    } else {
        1 + find_ws(s.drop_first())
    }
}

pub proof fn lemma_find_ws(s: Seq<char>)
    ensures
        0 <= find_ws(s) <= s.len(),
        find_ws(s) < s.len() ==> is_ws_char(s[find_ws(s)]),
        forall|j: int| 0 <= j < find_ws(s) ==> !is_ws_char(s[j]),
    decreases s.len(),
{
    if s.len() == 0 {
    } else if is_ws_char(s[0]) {
    } else {
        lemma_find_ws(s.drop_first());
        assert forall|j: int| 0 <= j < find_ws(s) implies !is_ws_char(s[j]) by {
            if j > 0 {
                assert(!is_ws_char(s.drop_first()[j - 1]));
            }
        }
    }
}

/// The maximal runs of non-whitespace characters of `l`, in order.
pub open spec fn tokens(l: Seq<char>) -> Seq<Seq<char>>
    decreases l.len(),
    via tokens_dec
{
    if l.len() == 0 {
        Seq::empty()
    } else if is_ws_char(l[0]) {
        tokens(l.drop_first())
    } else {
        let i = find_ws(l);
        seq![l.take(i)] + tokens(l.skip(i))
    }
}

#[via_fn]
proof fn tokens_dec(l: Seq<char>) {
    lemma_find_ws(l);
    if l.len() > 0 && !is_ws_char(l[0]) {
        assert(find_ws(l) == 1 + find_ws(l.drop_first()));
    }
}

/// Splits the table text into its lines, as `spec_lines` describes them.
pub fn split_lines(s: &str) -> (r: Vec<String>)
    ensures
        r.deep_view() == spec_lines(s@),
{
    let n = s.unicode_len();
    let mut r: Vec<String> = Vec::new();
    let mut pos: usize = 0;
    proof {
        assert(s@.skip(0) =~= s@);
        assert(r.deep_view() =~= Seq::<Seq<char>>::empty());
    }
    while pos < n
        invariant
            pos <= n,
            n == s@.len(),
            spec_lines(s@) == r.deep_view() + spec_lines(s@.skip(pos as int)),
        decreases n - pos,
    {
        let ghost rest = s@.skip(pos as int);
        let mut j: usize = pos;
        while j < n && s.get_char(j) != '\n'
            invariant
                pos <= j <= n,
                n == s@.len(),
                forall|k: int| pos <= k < j ==> s@[k] != '\n',
            decreases n - j,
        {
            j += 1;
        }
        proof {
            lemma_find_newline(rest);
            assert forall|k: int| 0 <= k < j - pos implies rest[k] != '\n' by {
                assert(s@[pos + k] != '\n');
            }
            if find_newline(rest) < j - pos {
                assert(rest[find_newline(rest)] != '\n');
                assert(false);
            }
            if find_newline(rest) > j - pos {
                if j < n {
                    assert(rest[j - pos] == s@[j as int]);
                    assert(false);
                }
            }
            assert(find_newline(rest) == j - pos);
        }
        if j < n {
            let end: usize = if j > pos && s.get_char(j - 1) == '\r' {
                j - 1
            } else {
                j
            };
            let line = s.substring_char(pos, end).to_owned();
            proof {
                assert(rest.take(j - pos) =~= s@.subrange(pos as int, j as int));
                assert(chop_cr(rest.take(j - pos)) =~= s@.subrange(pos as int, end as int));
                assert(rest.skip(j - pos + 1) =~= s@.skip(j + 1));
                assert(spec_lines(rest) == seq![line@] + spec_lines(s@.skip(j + 1)));
            }
            r.push(line);
            pos = j + 1;
            proof {
                assert(r.deep_view() =~= r.deep_view().drop_last() + seq![line@]);
                assert(spec_lines(s@) == r.deep_view() + spec_lines(s@.skip(pos as int)));
            }
        } else {
            let line = s.substring_char(pos, n).to_owned();
            proof {
                assert(rest =~= s@.subrange(pos as int, n as int));
                assert(spec_lines(rest) == seq![rest]);
            }
            r.push(line);
            pos = n;
            proof {
                assert(s@.skip(n as int) =~= Seq::<char>::empty());
                assert(r.deep_view() =~= r.deep_view().drop_last() + seq![line@]);
                assert(spec_lines(s@) == r.deep_view() + spec_lines(s@.skip(pos as int)));
            }
        }
    }
    proof {
        assert(s@.skip(n as int) =~= Seq::<char>::empty());
        assert(r.deep_view() =~= r.deep_view() + spec_lines(s@.skip(n as int)));
    }
    r
}

/// Splits one line into its whitespace-separated tokens.
pub fn line_tokens(l: &str) -> (r: Vec<String>)
    ensures
        r.deep_view() == tokens(l@),
{
    let n = l.unicode_len();
    let mut r: Vec<String> = Vec::new();
    let mut pos: usize = 0;
    proof {
        assert(l@.skip(0) =~= l@);
        assert(r.deep_view() =~= Seq::<Seq<char>>::empty());
    }
    while pos < n
        invariant
            pos <= n,
            n == l@.len(),
            tokens(l@) == r.deep_view() + tokens(l@.skip(pos as int)),
        decreases n - pos,
    {
        let ghost rest = l@.skip(pos as int);
        if is_ws(l.get_char(pos)) {
            proof {
                assert(rest[0] == l@[pos as int]);
                assert(rest.drop_first() =~= l@.skip(pos + 1));
                assert(tokens(rest) == tokens(l@.skip(pos + 1)));
            }
            pos += 1;
        } else {
            let mut j: usize = pos + 1;
            while j < n && !is_ws(l.get_char(j))
                invariant
                    pos < j <= n,
                    n == l@.len(),
                    forall|k: int| pos <= k < j ==> !is_ws_char(l@[k]),
                decreases n - j,
            {
                j += 1;
            }
            let tok = l.substring_char(pos, j).to_owned();
            proof {
                lemma_find_ws(rest);
                assert forall|k: int| 0 <= k < j - pos implies !is_ws_char(rest[k]) by {
                    assert(!is_ws_char(l@[pos + k]));
                }
                if find_ws(rest) < j - pos {
                    assert(!is_ws_char(rest[find_ws(rest)]));
                    assert(false);
                }
                if find_ws(rest) > j - pos {
                    if j < n {
                        assert(rest[j - pos] == l@[j as int]);
                        assert(false);
                    }
                }
                assert(find_ws(rest) == j - pos);
                assert(rest.take(j - pos) =~= l@.subrange(pos as int, j as int));
                assert(rest.skip(j - pos) =~= l@.skip(j as int));
                assert(tokens(rest) == seq![tok@] + tokens(l@.skip(j as int)));
            }
            r.push(tok);
            pos = j;
            proof {
                assert(r.deep_view() =~= r.deep_view().drop_last() + seq![tok@]);
                assert(tokens(l@) == r.deep_view() + tokens(l@.skip(pos as int)));
            }
        }
    }
    proof {
        assert(l@.skip(n as int) =~= Seq::<char>::empty());
        assert(r.deep_view() =~= r.deep_view() + tokens(l@.skip(n as int)));
    }
    r
}

} // verus!
