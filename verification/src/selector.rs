//! The member selector of a directive: a list of names to keep, or a list
//! of names to leave out, and how a selector is laid over a type-level base.

use vstd::prelude::*;
use crate::cursor::{extract_idents, group_left, group_taken, idents_of, take_ident_group};
use crate::error::{Error, SpecError};
use crate::text::{clone_strings, contains_text};
use crate::token::{SpecToken, Token};

verus! {

/// Which members a derived type keeps.
#[derive(Debug, PartialEq, Eq)]
pub enum FieldsArg {
    /// The members to keep: a whitelist.
    Fields(Vec<String>),
    /// The members to leave out: a blacklist. The empty one keeps all.
    Omit(Vec<String>),
}

/// The mathematical value of a [`FieldsArg`].
pub ghost enum SpecFieldsArg {
    Fields(Seq<Seq<char>>),
    Omit(Seq<Seq<char>>),
}

impl DeepView for FieldsArg {
    type V = SpecFieldsArg;

    open spec fn deep_view(&self) -> SpecFieldsArg {
        match self {
            FieldsArg::Fields(names) => SpecFieldsArg::Fields(names.deep_view()),
            FieldsArg::Omit(names) => SpecFieldsArg::Omit(names.deep_view()),
        }
    }
}

/// The names of `a` that `b` does not hold, in the order of `a`.
pub open spec fn minus(a: Seq<Seq<char>>, b: Seq<Seq<char>>) -> Seq<Seq<char>> {
    a.filter(|x: Seq<char>| !b.contains(x))
}

/// A name is in `minus(a, b)` exactly if it is in `a` and not in `b`.
pub proof fn lemma_minus(a: Seq<Seq<char>>, b: Seq<Seq<char>>, x: Seq<char>)
    ensures
        minus(a, b).contains(x) <==> a.contains(x) && !b.contains(x),
    decreases a.len(),
{
    reveal(Seq::filter);
    if a.len() > 0 {
        let head = a.drop_last();
        lemma_minus(head, b, x);
    }
}

impl SpecFieldsArg {
    /// Whether the selector keeps the member `name`.
    pub open spec fn predicate(self, name: Seq<char>) -> bool {
        match self {
            SpecFieldsArg::Fields(names) => names.contains(name),
            SpecFieldsArg::Omit(names) => !names.contains(name),
        }
    }

    /// Whether this is the selector that a directive has when it gives none.
    pub open spec fn is_default(self) -> bool {
        self == SpecFieldsArg::Omit(Seq::empty())
    }

    /// The selector `self` of a directive laid over the type-level `base`.
    /// Where both are whitelists, the names of `base` come last and a name
    /// of both stands where `base` has it.
    pub open spec fn merge(self, base: SpecFieldsArg) -> SpecFieldsArg {
        match (self, base) {
            (SpecFieldsArg::Fields(l), SpecFieldsArg::Fields(b)) => SpecFieldsArg::Fields(
                minus(l, b) + b,
            ),
            (SpecFieldsArg::Fields(l), SpecFieldsArg::Omit(b)) => SpecFieldsArg::Fields(
                minus(l, b),
            ),
            (SpecFieldsArg::Omit(l), SpecFieldsArg::Fields(b)) => SpecFieldsArg::Fields(
                minus(b, l),
            ),
            (SpecFieldsArg::Omit(l), SpecFieldsArg::Omit(b)) => SpecFieldsArg::Omit(
                b + minus(l, b),
            ),
        }
    }
}

/// Which members a merged selector keeps: of two whitelists, those of
/// either; of a whitelist and a blacklist, those of the whitelist that the
/// blacklist does not name; of two blacklists, those that neither names.
pub proof fn lemma_merge_predicate(local: SpecFieldsArg, base: SpecFieldsArg, name: Seq<char>)
    ensures
        local.merge(base).predicate(name) == match (local, base) {
            (SpecFieldsArg::Fields(_), SpecFieldsArg::Fields(_)) => local.predicate(name)
                || base.predicate(name),
            _ => local.predicate(name) && base.predicate(name),
        },
{
    match (local, base) {
        (SpecFieldsArg::Fields(l), SpecFieldsArg::Fields(b)) => {
            lemma_minus(l, b, name);
            lemma_concat_contains(minus(l, b), b, name);
        },
        (SpecFieldsArg::Fields(l), SpecFieldsArg::Omit(b)) => {
            lemma_minus(l, b, name);
        },
        (SpecFieldsArg::Omit(l), SpecFieldsArg::Fields(b)) => {
            lemma_minus(b, l, name);
        },
        (SpecFieldsArg::Omit(l), SpecFieldsArg::Omit(b)) => {
            lemma_minus(l, b, name);
            lemma_concat_contains(b, minus(l, b), name);
        },
    }
}

/// A name is in a concatenation exactly if it is in one of the two parts.
proof fn lemma_concat_contains(a: Seq<Seq<char>>, b: Seq<Seq<char>>, x: Seq<char>)
    ensures
        (a + b).contains(x) <==> a.contains(x) || b.contains(x),
{
    if a.contains(x) {
        let i = choose|i: int| 0 <= i < a.len() && a[i] == x;
        assert((a + b)[i] == x);
    }
    if b.contains(x) {
        let i = choose|i: int| 0 <= i < b.len() && b[i] == x;
        assert((a + b)[a.len() + i] == x);
    }
}

/// Two empty blacklists merge into the empty blacklist.
pub proof fn lemma_merge_defaults()
    ensures
        SpecFieldsArg::Omit(Seq::empty()).merge(SpecFieldsArg::Omit(Seq::empty()))
            == SpecFieldsArg::Omit(Seq::empty()),
{
    reveal(Seq::filter);
}

/// A whitelist of `a` and `b` over a base that leaves out `a` keeps `b` alone.
pub proof fn lemma_merge_whitelist_over_blacklist(a: Seq<char>, b: Seq<char>)
    requires
        a != b,
    ensures
        SpecFieldsArg::Fields(seq![a, b]).merge(SpecFieldsArg::Omit(seq![a]))
            == SpecFieldsArg::Fields(seq![b]),
{
    lemma_minus_pair(a, b);
}

/// A blacklist of `a` over a base that keeps `a` and `b` keeps `b` alone.
pub proof fn lemma_merge_blacklist_over_whitelist(a: Seq<char>, b: Seq<char>)
    requires
        a != b,
    ensures
        SpecFieldsArg::Omit(seq![a]).merge(SpecFieldsArg::Fields(seq![a, b]))
            == SpecFieldsArg::Fields(seq![b]),
{
    lemma_minus_pair(a, b);
}

proof fn lemma_minus_pair(a: Seq<char>, b: Seq<char>)
    requires
        a != b,
    ensures
        minus(seq![a, b], seq![a]) == seq![b],
{
    reveal_with_fuel(Seq::filter, 3);
    assert(seq![a][0] == a);
}

/// The names of `a` that `b` does not hold, in the order of `a`.
fn names_minus(a: &Vec<String>, b: &Vec<String>) -> (r: Vec<String>)
    ensures
        r.deep_view() == minus(a.deep_view(), b.deep_view()),
{
    let ghost all = a.deep_view();
    let ghost other = b.deep_view();
    let ghost keep = |x: Seq<char>| !other.contains(x);
    let mut out: Vec<String> = Vec::new();
    let mut i: usize = 0;
    proof {
        reveal(Seq::filter);
    }
    while i < a.len()
        invariant
            i <= a.len(),
            all == a.deep_view(),
            other == b.deep_view(),
            keep == (|x: Seq<char>| !other.contains(x)),
            out.deep_view() == all.subrange(0, i as int).filter(keep),
        decreases a.len() - i,
    {
        proof {
            reveal(Seq::filter);
            assert(all.subrange(0, i + 1).drop_last() =~= all.subrange(0, i as int));
        }
        if !contains_text(b, &a[i]) {
            out.push(a[i].clone());
        }
        i += 1;
    }
    assert(all.subrange(0, i as int) =~= all);
    out
}

/// The names of `a`, then those of `b`.
fn names_concat(a: Vec<String>, b: Vec<String>) -> (r: Vec<String>)
    ensures
        r.deep_view() == a.deep_view() + b.deep_view(),
{
    let mut out = a;
    let mut rest = b;
    out.append(&mut rest);
    out
}

impl FieldsArg {
    /// Reads the selector of a directive out of `args`: `fields(...)` or
    /// `omit(...)`. With neither, the selector that keeps all; with both, an
    /// error.
    pub fn parse(args: &mut Vec<Token>) -> (r: Result<FieldsArg, Error>)
        ensures
            final(args).deep_view() == selector_left(old(args).deep_view()),
            match selector_parsed(old(args).deep_view()) {
                Ok((value, rest)) => r matches Ok(v) && v.deep_view() == value && final(
                    args
                ).deep_view() == rest,
                Err(e) => r matches Err(x) && x.deep_view() == e,
            },
    {
        let field_arg = match take_ident_group("fields", args) {
            Ok(v) => v,
            Err(e) => {
                return Err(e);
            },
        };
        let omit_arg = match take_ident_group("omit", args) {
            Ok(v) => v,
            Err(e) => {
                return Err(e);
            },
        };
        match (field_arg, omit_arg) {
            (Some(g), None) => match extract_idents(&g) {
                Ok(names) => Ok(FieldsArg::Fields(names)),
                Err(e) => Err(e),
            },
            (None, Some(g)) => match extract_idents(&g) {
                Ok(names) => Ok(FieldsArg::Omit(names)),
                Err(e) => Err(e),
            },
            (None, None) => Ok(FieldsArg::default()),
            (Some(_), Some(_)) => Err(Error::ConflictingSelector),
        }
    }

    /// Whether this is the selector that a directive has when it gives none:
    /// the empty blacklist.
    pub fn is_default(&self) -> (r: bool)
        ensures
            r == self.deep_view().is_default(),
    {
        match self {
            FieldsArg::Omit(names) => {
                proof {
                    assert(names.deep_view().len() == names.len());
                    if names.len() == 0 {
                        assert(names.deep_view() =~= Seq::<Seq<char>>::empty());
                    }
                }
                names.len() == 0
            },
            _ => false,
        }
    }

    /// Whether the selector keeps the member `field`.
    pub fn predicate(&self, field: &String) -> (r: bool)
        ensures
            r == self.deep_view().predicate(field@),
    {
        match self {
            FieldsArg::Fields(names) => contains_text(names, field),
            FieldsArg::Omit(names) => !contains_text(names, field),
        }
    }

    /// This selector laid over the type-level `base`.
    pub fn merge(&self, base: &FieldsArg) -> (r: FieldsArg)
        ensures
            r.deep_view() == self.deep_view().merge(base.deep_view()),
    {
        match (self, base) {
            (FieldsArg::Fields(l), FieldsArg::Fields(b)) => FieldsArg::Fields(
                names_concat(names_minus(l, b), clone_strings(b)),
            ),
            (FieldsArg::Fields(l), FieldsArg::Omit(b)) => FieldsArg::Fields(names_minus(l, b)),
            (FieldsArg::Omit(l), FieldsArg::Fields(b)) => FieldsArg::Fields(names_minus(b, l)),
            (FieldsArg::Omit(l), FieldsArg::Omit(b)) => FieldsArg::Omit(
                names_concat(clone_strings(b), names_minus(l, b)),
            ),
        }
    }
}

impl Clone for FieldsArg {
    fn clone(&self) -> (r: Self)
        ensures
            r.deep_view() == self.deep_view(),
    {
        match self {
            FieldsArg::Fields(names) => FieldsArg::Fields(clone_strings(names)),
            FieldsArg::Omit(names) => FieldsArg::Omit(clone_strings(names)),
        }
    }
}

impl Default for FieldsArg {
    fn default() -> (r: Self)
        ensures
            r.deep_view().is_default(),
    {
        let names: Vec<String> = Vec::new();
        assert(names.deep_view() =~= Seq::<Seq<char>>::empty());
        FieldsArg::Omit(names)
    }
}

/// What `FieldsArg::parse` leaves of `args`, whether it fails or not: it
/// takes `fields(...)`, then `omit(...)`, as far as each is well formed.
pub open spec fn selector_left(args: Seq<SpecToken>) -> Seq<SpecToken> {
    match group_taken(args, "fields"@) {
        Err(_) => args,
        Ok((_, rest)) => group_left(rest, "omit"@),
    }
}

/// What `FieldsArg::parse` makes of `args`: the selector, and what is left
/// of `args`.
pub open spec fn selector_parsed(args: Seq<SpecToken>) -> Result<
    (SpecFieldsArg, Seq<SpecToken>),
    SpecError,
> {
    match group_taken(args, "fields"@) {
        Err(e) => Err(e),
        Ok((fields, rest)) => match group_taken(rest, "omit"@) {
            Err(e) => Err(e),
            Ok((omit, rest)) => match (fields, omit) {
                (Some(g), None) => match idents_of(g) {
                    Ok(names) => Ok((SpecFieldsArg::Fields(names), rest)),
                    Err(e) => Err(e),
                },
                (None, Some(g)) => match idents_of(g) {
                    Ok(names) => Ok((SpecFieldsArg::Omit(names), rest)),
                    Err(e) => Err(e),
                },
                (None, None) => Ok((SpecFieldsArg::Omit(Seq::empty()), rest)),
                (Some(_), Some(_)) => Err(SpecError::ConflictingSelector),
            },
        },
    }
}

} // verus!
