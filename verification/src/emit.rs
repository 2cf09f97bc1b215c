//! Printing the generated source: the wrapper type, one constant per
//! symbolic name, and the static lookup table.

use vstd::prelude::*;
use crate::lines::spec_lines;
use crate::parse::{parse_entries, ParseError};
use crate::phfmap::{builder_build, builder_entries, builder_entry, builder_new, phf_map_source};
use crate::table::{lemma_parse_lines_wf, malformed_at, spec_parse, wf_table, TableView};

verus! {

/// The fixed leading text: a note that the file is written by the
/// generator, the wrapper type, and its two operations. The constants are
/// printed into the still-open `impl` block that it ends with.
pub const TYPE_TEXT: &'static str = "// Autogenerated file - DO NOT EDIT
use phf;
use std::borrow::Cow;

/// A SQLSTATE error code
#[derive(PartialEq, Eq, Clone, Debug)]
pub struct SqlState(Cow<'static, str>);

impl SqlState {
    /// Creates a `SqlState` from its error code.
    pub fn from_code(s: &str) -> SqlState {
        match SQLSTATE_MAP.get(s) {
            Some(state) => state.clone(),
            None => SqlState(Cow::Owned(s.to_string())),
        }
    }

    /// Returns the error code corresponding to the `SqlState`.
    pub fn code(&self) -> &str {
        &self.0
    }
";

/// The fixed text between the constants and the lookup table.
pub const MAP_PREFIX_TEXT: &'static str = "
#[cfg_attr(rustfmt, rustfmt_skip)]
static SQLSTATE_MAP: phf::Map<&'static str, SqlState> = ";

pub open spec fn type_text() -> Seq<char> {
    TYPE_TEXT@
}

pub open spec fn map_prefix_text() -> Seq<char> {
    MAP_PREFIX_TEXT@
}

/// The declaration of one constant: named after the symbolic name,
/// holding the code verbatim, annotated with the raw code value.
pub open spec fn const_text(code: Seq<char>, name: Seq<char>) -> Seq<char> {
    "\n    /// "@ + code + "\n    pub const "@ + name
        + ": SqlState = SqlState(Cow::Borrowed(\""@ + code + "\"));\n"@
}

/// The constants of one table entry, in the names' parse order.
pub open spec fn names_text(code: Seq<char>, names: Seq<Seq<char>>) -> Seq<char>
    decreases names.len(),
{
    if names.len() == 0 {
        Seq::empty()
    } else {
        names_text(code, names.drop_last()) + const_text(code, names.last())
    }
}

/// The constants of the whole table, in table order.
pub open spec fn consts_text(t: TableView) -> Seq<char>
    decreases t.len(),
{
    if t.len() == 0 {
        Seq::empty()
    } else {
        consts_text(t.drop_last()) + names_text(t.last().0, t.last().1)
    }
}

/// The lookup table's entries: one per table entry, keyed by the code,
/// valued at the constant of the code's first name.
pub open spec fn lookup_entries(t: TableView) -> Seq<(Seq<char>, Seq<char>)> {
    Seq::new(t.len(), |i: int| (t[i].0, "SqlState::"@ + t[i].1[0]))
}

/// The whole generated source for a parsed table.
pub open spec fn output_text(t: TableView) -> Seq<char> {
    type_text() + consts_text(t) + "}"@ + map_prefix_text()
        + phf_map_source(lookup_entries(t)) + ";\n"@
}

/// What the generator prints for a given table text, or `None` where the
/// text is malformed.
pub open spec fn spec_generate(s: Seq<char>) -> Option<Seq<char>> {
    match spec_parse(s) {
        Option::Some(t) => Option::Some(output_text(t)),
        Option::None => Option::None,
    }
}

/// Appends the wrapper type's declaration.
fn make_type(out: &mut String)
    ensures
        final(out)@ == old(out)@ + type_text(),
{
    out.append(TYPE_TEXT);
}

/// Appends one constant declaration per symbolic name, in table order and
/// name parse order, then closes the type's `impl` block.
fn make_consts(out: &mut String, entries: &Vec<(String, Vec<String>)>)
    ensures
        final(out)@ == old(out)@ + consts_text(entries.deep_view()) + "}"@,
{
    let ghost base = out@;
    let ghost dv = entries.deep_view();
    let mut i: usize = 0;
    proof {
        assert(dv.take(0) =~= Seq::<(Seq<char>, Seq<Seq<char>>)>::empty());
        assert(out@ =~= base + consts_text(dv.take(0)));
    }
    while i < entries.len()
        invariant
            i <= entries.len(),
            dv == entries.deep_view(),
            out@ == base + consts_text(dv.take(i as int)),
        decreases entries.len() - i,
    {
        let code: &String = &entries[i].0;
        let names: &Vec<String> = &entries[i].1;
        let ghost c = dv[i as int].0;
        let ghost ndv = dv[i as int].1;
        proof {
            assert(code@ == c);
            assert(names.deep_view() == ndv);
        }
        let ghost mid = out@;
        let mut j: usize = 0;
        proof {
            assert(ndv.take(0) =~= Seq::<Seq<char>>::empty());
            assert(out@ =~= mid + names_text(c, ndv.take(0)));
        }
        while j < names.len()
            invariant
                j <= names.len(),
                names.deep_view() == ndv,
                code@ == c,
                out@ == mid + names_text(c, ndv.take(j as int)),
            decreases names.len() - j,
        {
            let name: &String = &names[j];
            proof {
                assert(name@ == ndv[j as int]);
            }
            out.append("\n    /// ");
            out.append(code.as_str());
            out.append("\n    pub const ");
            out.append(name.as_str());
            out.append(": SqlState = SqlState(Cow::Borrowed(\"");
            out.append(code.as_str());
            out.append("\"));\n");
            proof {
                assert(ndv.take(j + 1).drop_last() =~= ndv.take(j as int));
                assert(ndv.take(j + 1).last() == ndv[j as int]);
                assert(out@ =~= mid + names_text(c, ndv.take(j + 1)));
            }
            j += 1;
        }
        proof {
            assert(ndv.take(ndv.len() as int) =~= ndv);
            assert(dv.take(i + 1).drop_last() =~= dv.take(i as int));
            assert(dv.take(i + 1).last() == dv[i as int]);
            assert(out@ =~= base + consts_text(dv.take(i + 1)));
        }
        i += 1;
    }
    proof {
        assert(dv.take(dv.len() as int) =~= dv);
    }
    out.append("}");
}

/// Appends the lookup table: builds the perfect-hash map of one entry per
/// distinct code and prints it as a single static declaration.
fn make_map(out: &mut String, entries: &Vec<(String, Vec<String>)>)
    requires
        wf_table(entries.deep_view()),
    ensures
        final(out)@ == old(out)@ + map_prefix_text()
            + phf_map_source(lookup_entries(entries.deep_view())) + ";\n"@,
{
    let ghost dv = entries.deep_view();
    out.append(MAP_PREFIX_TEXT);
    let mut b = builder_new();
    let mut i: usize = 0;
    proof {
        assert(lookup_entries(dv).take(0) =~= Seq::<(Seq<char>, Seq<char>)>::empty());
    }
    while i < entries.len()
        invariant
            i <= entries.len(),
            dv == entries.deep_view(),
            wf_table(dv),
            builder_entries(b) == lookup_entries(dv).take(i as int),
        decreases entries.len() - i,
    {
        let names: &Vec<String> = &entries[i].1;
        proof {
            assert(dv[i as int].1.len() >= 1);
            assert(names.deep_view() == dv[i as int].1);
        }
        let mut value = String::new();
        value.append("SqlState::");
        value.append(names[0].as_str());
        proof {
            assert(value@ =~= "SqlState::"@ + dv[i as int].1[0]);
        }
        builder_entry(&mut b, &entries[i].0, &value);
        proof {
            assert(lookup_entries(dv).take(i + 1) =~= lookup_entries(dv).take(i as int).push(
                lookup_entries(dv)[i as int],
            ));
            assert(builder_entries(b) =~= lookup_entries(dv).take(i + 1));
        }
        i += 1;
    }
    proof {
        assert(builder_entries(b) =~= lookup_entries(dv));
    }
    let map_src = builder_build(&b);
    out.append(map_src.as_str());
    out.append(";\n");
}

/// Runs the generator on the table text.
///
/// On success the result is the whole generated source: the wrapper type,
/// then one constant per symbolic name in table order, then the lookup
/// table with exactly one entry per distinct code, valued at the code's
/// first-declared name. The first malformed line aborts generation.
pub fn generate(s: &str) -> (r: Result<String, ParseError>)
    ensures
        match r {
            Result::Ok(out) => spec_generate(s@) == Some(out@),
            Result::Err(e) => spec_generate(s@) is None && malformed_at(s@, e.line as int),
        },
{
    let entries = match parse_entries(s) {
        Result::Ok(v) => v,
        Result::Err(e) => {
            return Result::Err(e);
        },
    };
    let ghost t = entries.deep_view();
    let mut out = String::new();
    make_type(&mut out);
    make_consts(&mut out, &entries);
    make_map(&mut out, &entries);
    proof {
        assert(out@ =~= output_text(t));
    }
    Result::Ok(out)
}

/// The lookup table holds exactly one entry per distinct code of the
/// parsed table, not one per name: its entry count equals the table's,
/// and the table's codes are pairwise distinct.
pub proof fn lemma_one_lookup_entry_per_code(s: Seq<char>, t: TableView)
    requires
        spec_parse(s) == Some(t),
    ensures
        lookup_entries(t).len() == t.len(),
        forall|i: int, j: int| 0 <= i < j < t.len() ==> t[i].0 != t[j].0,
{
    lemma_parse_lines_wf(spec_lines(s));
}

/// Generation is deterministic: what is printed is a function of the
/// table text alone, so re-running the generator on unchanged input
/// reproduces the output byte for byte.
pub proof fn lemma_generate_deterministic(s1: Seq<char>, s2: Seq<char>)
    requires
        s1 == s2,
    ensures
        spec_generate(s1) == spec_generate(s2),
{
}

} // verus!

