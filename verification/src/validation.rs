//! Field-level validation: the constraint vocabulary, the structured
//! failure type that validation returns, and the URL well-formedness check.
//!
//! Validation is a pure, synchronous check. Each request type lists, as a
//! spec function, the exact sequence of violations its fields hold; its
//! `validate` method returns `Ok` exactly when that sequence is empty and
//! otherwise returns every violation, not just the first.

use vstd::prelude::*;
use vstd::string::StrSliceExecFns;

verus! {

/// The constraint a field violated.
#[derive(Clone, Copy, Debug, PartialEq, Eq, Structural)]
pub enum Constraint {
    /// The character count fell below the stated minimum.
    LengthMin(u64),
    /// The character count rose above the stated maximum.
    LengthMax(u64),
    /// The number fell below the stated minimum.
    RangeMin(i64),
    /// The number rose above the stated maximum.
    RangeMax(i64),
    /// The string does not parse as a well-formed URL.
    Url,
    /// The string is not one of the fixed vocabulary of accepted tokens.
    Vocabulary,
    /// The list must hold at least one element.
    EmptyList,
}

/// One violation: the offending field's name and the constraint it broke.
#[derive(Clone, Copy, Debug)]
pub struct ValidationIssue {
    pub field: &'static str,
    pub constraint: Constraint,
}

impl View for ValidationIssue {
    type V = (Seq<char>, Constraint);

    open spec fn view(&self) -> (Seq<char>, Constraint) {
        (self.field@, self.constraint)
    }
}

/// The views of a sequence of violations.
pub open spec fn issue_views(s: Seq<ValidationIssue>) -> Seq<(Seq<char>, Constraint)> {
    s.map_values(|i: ValidationIssue| i@)
}

/// A validation failure: every violation found, in field order.
#[derive(Clone, Debug)]
pub struct ValidationErrors {
    pub issues: Vec<ValidationIssue>,
}

impl View for ValidationErrors {
    type V = Seq<(Seq<char>, Constraint)>;

    open spec fn view(&self) -> Seq<(Seq<char>, Constraint)> {
        issue_views(self.issues@)
    }
}

/// The violations a Boolean check contributes: one when it fails, none
/// when it holds.
pub open spec fn violation_when(
    failed: bool,
    field: Seq<char>,
    constraint: Constraint,
) -> Seq<(Seq<char>, Constraint)> {
    if failed {
        seq![(field, constraint)]
    } else {
        Seq::empty()
    }
}

/// Whether the string is a well-formed URL. The shape of that set takes the
/// full URL grammar to state, so it is only named here; it depends on the
/// characters alone.
pub uninterp spec fn is_wellformed_url(s: Seq<char>) -> bool;

/// Relies on validator::validate_url, which accepts exactly the strings
/// that url::Url::parse accepts: a deterministic check of the characters.
#[verifier::external_body]
pub(crate) fn check_url(s: &str) -> (r: bool)
    ensures
        r == is_wellformed_url(s@),
{
    validator::validate_url(s)
}

/// The number of characters in the string (its length on the wire contract's
/// terms, which counts characters, not bytes).
pub(crate) fn char_len(s: &String) -> (n: usize)
    ensures
        n == s@.len(),
{
    s.as_str().unicode_len()
}

/// The empty sequence is the unit of concatenation.
pub proof fn lemma_concat_empty<A>(s: Seq<A>)
    ensures
        s + Seq::<A>::empty() == s,
        Seq::<A>::empty() + s == s,
{
    assert(s + Seq::<A>::empty() =~= s);
    assert(Seq::<A>::empty() + s =~= s);
}

/// Concatenation groups freely: two parts.
pub proof fn lemma_concat_assoc2<A>(v: Seq<A>, p1: Seq<A>, p2: Seq<A>)
    ensures
        v + p1 + p2 == v + (p1 + p2),
{
    assert(v + p1 + p2 =~= v + (p1 + p2));
}

/// Concatenation groups freely: six parts.
pub proof fn lemma_concat_assoc6<A>(
    v: Seq<A>,
    p1: Seq<A>,
    p2: Seq<A>,
    p3: Seq<A>,
    p4: Seq<A>,
    p5: Seq<A>,
    p6: Seq<A>,
)
    ensures
        v + p1 + p2 + p3 + p4 + p5 + p6 == v + (p1 + p2 + p3 + p4 + p5 + p6),
{
    assert(v + p1 + p2 + p3 + p4 + p5 + p6 =~= v + (p1 + p2 + p3 + p4 + p5 + p6));
}

/// Concatenation groups freely: three parts.
pub proof fn lemma_concat_assoc3<A>(v: Seq<A>, p1: Seq<A>, p2: Seq<A>, p3: Seq<A>)
    ensures
        v + p1 + p2 + p3 == v + (p1 + p2 + p3),
{
    assert(v + p1 + p2 + p3 =~= v + (p1 + p2 + p3));
}

/// Concatenation groups freely: five parts.
pub proof fn lemma_concat_assoc5<A>(
    v: Seq<A>,
    p1: Seq<A>,
    p2: Seq<A>,
    p3: Seq<A>,
    p4: Seq<A>,
    p5: Seq<A>,
)
    ensures
        v + p1 + p2 + p3 + p4 + p5 == v + (p1 + p2 + p3 + p4 + p5),
{
    assert(v + p1 + p2 + p3 + p4 + p5 =~= v + (p1 + p2 + p3 + p4 + p5));
}

/// Concatenation groups freely: nine parts.
pub proof fn lemma_concat_assoc9<A>(
    v: Seq<A>,
    p1: Seq<A>,
    p2: Seq<A>,
    p3: Seq<A>,
    p4: Seq<A>,
    p5: Seq<A>,
    p6: Seq<A>,
    p7: Seq<A>,
    p8: Seq<A>,
    p9: Seq<A>,
)
    ensures
        v + p1 + p2 + p3 + p4 + p5 + p6 + p7 + p8 + p9 == v + (p1 + p2 + p3 + p4 + p5 + p6 + p7
            + p8 + p9),
{
    assert(v + p1 + p2 + p3 + p4 + p5 + p6 + p7 + p8 + p9 =~= v + (p1 + p2 + p3 + p4 + p5 + p6
        + p7 + p8 + p9));
}

/// An element lies in a concatenation exactly when it lies in one of the
/// parts.
pub proof fn lemma_contains_concat<A>(x: Seq<A>, y: Seq<A>, e: A)
    ensures
        (x + y).contains(e) <==> x.contains(e) || y.contains(e),
{
    if x.contains(e) {
        let i = choose|i: int| 0 <= i < x.len() && x[i] == e;
        assert((x + y)[i] == e);
    }
    if y.contains(e) {
        let i = choose|i: int| 0 <= i < y.len() && y[i] == e;
        assert((x + y)[x.len() + i] == e);
    }
    if (x + y).contains(e) {
        let i = choose|i: int| 0 <= i < (x + y).len() && (x + y)[i] == e;
        if i < x.len() {
            assert(x[i] == e);
        } else {
            assert(y[i - x.len()] == e);
        }
    }
}

/// Appends one violation to the list.
pub(crate) fn push_issue(out: &mut Vec<ValidationIssue>, issue: ValidationIssue)
    ensures
        issue_views(final (out)@) == issue_views(old(out)@) + seq![issue@],
{
    out.push(issue);
    proof {
        assert(issue_views(out@) =~= issue_views(old(out)@) + seq![issue@]);
    }
}

/// Whether the string equals the given vocabulary token.
pub(crate) fn eq_token(s: &String, token: &str) -> (r: bool)
    ensures
        r == (s@ == token@),
{
    let t: String = token.to_owned();
    *s == t
}

/// Whether two string slices hold the same characters.
pub(crate) fn str_eq(a: &str, b: &str) -> (r: bool)
    ensures
        r == (a@ == b@),
{
    let x: String = a.to_owned();
    let y: String = b.to_owned();
    x == y
}

} // verus!
