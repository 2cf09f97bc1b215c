//! The wrapper type that the generated source declares, together with the
//! generated lookup table's shape, as verified operations: `from_code`
//! never fails and round-trips the code, and equality is value equality
//! of the underlying code strings.

use vstd::prelude::*;
use vstd::std_specs::cmp::PartialEqSpec;

verus! {

/// A SQLSTATE error code.
///
/// An instance holds its code string verbatim; unknown codes are
/// representable, not rejected, so the type stays forward-compatible
/// with codes introduced after the table was generated.
#[derive(Debug)]
pub struct SqlState {
    code: String,
}

impl View for SqlState {
    type V = Seq<char>;

    closed spec fn view(&self) -> Seq<char> {
        self.code@
    }
}

impl SqlState {
    /// The constant declared for one symbolic name of `code`: its
    /// underlying string is the code itself.
    pub fn new(code: &str) -> (r: SqlState)
        ensures
            r@ == code@,
    {
        SqlState { code: code.to_owned() }
    }

    /// Returns the error code corresponding to the `SqlState`.
    pub fn code(&self) -> (r: &str)
        ensures
            r@ == self@,
    {
        self.code.as_str()
    }
}

impl Clone for SqlState {
    /// Cloning keeps the code.
    fn clone(&self) -> (r: Self)
        ensures
            r@ == self@,
    {
        SqlState { code: self.code.clone() }
    }
}

impl PartialEq for SqlState {
    /// Two instances are equal exactly when their codes are: value
    /// equality, not identity.
    fn eq(&self, other: &SqlState) -> bool {
        self.code == other.code
    }
}

impl Eq for SqlState {
}

impl vstd::std_specs::cmp::PartialEqSpecImpl for SqlState {
    open spec fn obeys_eq_spec() -> bool {
        true
    }

    open spec fn eq_spec(&self, other: &SqlState) -> bool {
        self@ == other@
    }
}

/// A well-formed lookup table: each value is the canonical constant of
/// its key, so its underlying string is the key itself.
pub open spec fn wf_lookup(table: Seq<(String, SqlState)>) -> bool {
    forall|i: int| 0 <= i < table.len() ==> table[i].1@ == table[i].0@
}

/// The lookup table the generated source holds, one canonical constant
/// per distinct code: the constant of the code's first-declared name,
/// whose underlying string is the code itself.
pub fn build_lookup(entries: &Vec<(String, Vec<String>)>) -> (r: Vec<(String, SqlState)>)
    ensures
        r@.len() == entries.deep_view().len(),
        forall|i: int| 0 <= i < r@.len() ==> r@[i].0@ == entries.deep_view()[i].0,
        wf_lookup(r@),
{
    let ghost dv = entries.deep_view();
    let mut r: Vec<(String, SqlState)> = Vec::new();
    let mut i: usize = 0;
    while i < entries.len()
        invariant
            i <= entries.len(),
            dv == entries.deep_view(),
            r@.len() == i,
            forall|k: int| 0 <= k < i ==> r@[k].0@ == dv[k].0,
            wf_lookup(r@),
        decreases entries.len() - i,
    {
        let code: &String = &entries[i].0;
        proof {
            assert(code@ == dv[i as int].0);
        }
        let state = SqlState::new(code.as_str());
        r.push((code.clone(), state));
        i += 1;
    }
    r
}

/// `from_code`, as the generated source defines it over the lookup
/// table: the canonical preregistered instance where the string is a
/// known code, otherwise a fresh instance holding the string verbatim.
/// It never fails, and in both cases the instance's code is the given
/// string, so reading the code back yields it unchanged.
pub fn from_code(table: &Vec<(String, SqlState)>, s: &str) -> (r: SqlState)
    requires
        wf_lookup(table@),
    ensures
        r@ == s@,
{
    let key = s.to_owned();
    let mut i: usize = 0;
    while i < table.len()
        invariant
            i <= table@.len(),
            key@ == s@,
            wf_lookup(table@),
        decreases table@.len() - i,
    {
        if table[i].0 == key {
            return table[i].1.clone();
        }
        i += 1;
    }
    SqlState { code: key }
}

/// Value equality of the wrapper type is equality of the underlying
/// codes. In particular the constants generated for two names that share
/// one code compare equal to each other and to `from_code` of that code,
/// and an instance built from a code outside the table compares equal to
/// a table-derived constant only where the codes coincide.
pub proof fn lemma_eq_is_code_eq(a: &SqlState, b: &SqlState)
    ensures
        a.eq_spec(b) <==> a@ == b@,
{
}

/// The constants generated for two symbolic names that share one code —
/// both hold that code, as `SqlState::new` ensures — compare equal to
/// each other and to what `from_code` returns for that code.
pub proof fn lemma_alias_constants_equal(c1: &SqlState, c2: &SqlState, f: &SqlState, code: Seq<char>)
    requires
        c1@ == code,
        c2@ == code,
        f@ == code,
    ensures
        c1.eq_spec(c2),
        c1.eq_spec(f),
        c2.eq_spec(f),
{
}

} // verus!
