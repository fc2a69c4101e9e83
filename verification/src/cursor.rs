//! Taking named arguments out of a directive's token sequence.
//!
//! The arguments of a directive come in any order. Each `take_` function
//! looks for one of them by name and removes what it found, so that what is
//! left over at the end is what no one knew.

use vstd::prelude::*;
use crate::error::{malformed, Error, Expected, SpecError};
use crate::text::same_text;
use crate::token::{
    clone_token, is_comma, is_equals, lemma_group_view, render, render_token, render_token_into,
    render_tokens, SpecToken, Token,
};

verus! {

/// The index of the first token of `args` that is the identifier `name`, or
/// `args.len()` where none is.
pub open spec fn position(args: Seq<SpecToken>, name: Seq<char>) -> int
    decreases args.len(),
{
    if args.len() == 0 {
        0
    } else if args[0] == SpecToken::Ident(name) {
        0
    } else {
        1 + position(args.drop_first(), name)
    }
}

/// `position` is the least index that holds the identifier.
pub proof fn lemma_position(args: Seq<SpecToken>, name: Seq<char>)
    ensures
        0 <= position(args, name) <= args.len(),
        position(args, name) < args.len() ==> args[position(args, name)] == SpecToken::Ident(
            name,
        ),
        forall|k: int| 0 <= k < position(args, name) ==> args[k] != SpecToken::Ident(name),
    decreases args.len(),
{
    if args.len() > 0 && args[0] != SpecToken::Ident(name) {
        let tail = args.drop_first();
        lemma_position(tail, name);
        assert forall|k: int| 0 <= k < position(args, name) implies args[k] != SpecToken::Ident(
            name,
        ) by {
            if k > 0 {
                assert(args[k] == tail[k - 1]);
            }
        }
    }
}

/// An index that holds the identifier, with none before it, is the `position`.
pub proof fn lemma_position_unique(args: Seq<SpecToken>, name: Seq<char>, i: int)
    requires
        0 <= i <= args.len(),
        i < args.len() ==> args[i] == SpecToken::Ident(name),
        forall|k: int| 0 <= k < i ==> args[k] != SpecToken::Ident(name),
    ensures
        position(args, name) == i,
{
    lemma_position(args, name);
}

/// `args` without the `n` tokens from index `i` on and without the comma
/// that followed them, if one did.
pub open spec fn without(args: Seq<SpecToken>, i: int, n: int) -> Seq<SpecToken> {
    let rest = args.subrange(0, i) + args.subrange(i + n, args.len() as int);
    if i < rest.len() && is_comma(rest[i]) {
        rest.remove(i)
    } else {
        rest
    }
}

/// What `take_ident_group` does on `args`: the tokens inside the group that
/// follows the first `name`, and what is left of `args`.
pub open spec fn group_taken(args: Seq<SpecToken>, name: Seq<char>) -> Result<
    (Option<Seq<SpecToken>>, Seq<SpecToken>),
    SpecError,
> {
    let i = position(args, name);
    if i >= args.len() {
        Ok((None, args))
    } else if i + 1 < args.len() && args[i + 1] is Group {
        Ok((Some(args[i + 1]->Group_1), without(args, i, 2)))
    } else {
        Err(malformed(name, Expected::Group))
    }
}

/// The token that stands as the value of the first `name` in `args`, where
/// `name`, an equals sign and a token follow each other.
pub open spec fn value_of(args: Seq<SpecToken>, name: Seq<char>) -> Option<SpecToken> {
    let i = position(args, name);
    if i + 2 < args.len() && is_equals(args[i + 1]) {
        Some(args[i + 2])
    } else {
        None
    }
}

/// What `take_ident_ident` does on `args`.
pub open spec fn ident_taken(args: Seq<SpecToken>, name: Seq<char>) -> Result<
    (Option<Seq<char>>, Seq<SpecToken>),
    SpecError,
> {
    let i = position(args, name);
    if i >= args.len() {
        Ok((None, args))
    } else {
        match value_of(args, name) {
            Some(SpecToken::Ident(v)) => Ok((Some(v), without(args, i, 3))),
            _ => Err(malformed(name, Expected::Identifier)),
        }
    }
}

/// What `take_ident_literal` does on `args`.
pub open spec fn literal_taken(args: Seq<SpecToken>, name: Seq<char>) -> Result<
    (Option<Seq<char>>, Seq<SpecToken>),
    SpecError,
> {
    let i = position(args, name);
    if i >= args.len() {
        Ok((None, args))
    } else {
        match value_of(args, name) {
            Some(SpecToken::Literal(v)) => Ok((Some(v), without(args, i, 3))),
            _ => Err(malformed(name, Expected::Literal)),
        }
    }
}

/// What `take_ident_bool` does on `args`.
pub open spec fn bool_taken(args: Seq<SpecToken>, name: Seq<char>) -> Result<
    (Option<bool>, Seq<SpecToken>),
    SpecError,
> {
    let i = position(args, name);
    if i >= args.len() {
        Ok((None, args))
    } else {
        match value_of(args, name) {
            Some(SpecToken::Ident(v)) => if v == "true"@ {
                Ok((Some(true), without(args, i, 3)))
            } else if v == "false"@ {
                Ok((Some(false), without(args, i, 3)))
            } else {
                Err(malformed(name, Expected::Bool))
            },
            _ => Err(malformed(name, Expected::Bool)),
        }
    }
}

/// What `take_ident_group` leaves of `args`.
pub open spec fn group_left(args: Seq<SpecToken>, name: Seq<char>) -> Seq<SpecToken> {
    match group_taken(args, name) {
        Ok((_, rest)) => rest,
        Err(_) => args,
    }
}

/// What `take_ident_ident` leaves of `args`.
pub open spec fn ident_left(args: Seq<SpecToken>, name: Seq<char>) -> Seq<SpecToken> {
    match ident_taken(args, name) {
        Ok((_, rest)) => rest,
        Err(_) => args,
    }
}

/// What `take_ident_literal` leaves of `args`.
pub open spec fn literal_left(args: Seq<SpecToken>, name: Seq<char>) -> Seq<SpecToken> {
    match literal_taken(args, name) {
        Ok((_, rest)) => rest,
        Err(_) => args,
    }
}

/// What `take_ident_bool` leaves of `args`.
pub open spec fn bool_left(args: Seq<SpecToken>, name: Seq<char>) -> Seq<SpecToken> {
    match bool_taken(args, name) {
        Ok((_, rest)) => rest,
        Err(_) => args,
    }
}

/// The index of the first token of `args` that is the identifier `name`.
pub fn find_ident(args: &Vec<Token>, name: &String) -> (i: usize)
    ensures
        i == position(args.deep_view(), name@),
        i <= args.len(),
{
    let mut i: usize = 0;
    while i < args.len()
        invariant
            i <= args.len(),
            forall|k: int| 0 <= k < i ==> args.deep_view()[k] != SpecToken::Ident(name@),
        decreases args.len() - i,
    {
        if args[i].is_ident(name) {
            proof {
                lemma_position_unique(args.deep_view(), name@, i as int);
            }
            return i;
        }
        i += 1;
    }
    proof {
        lemma_position_unique(args.deep_view(), name@, i as int);
    }
    i
}

/// Takes the token at index `i` out of `args`.
fn remove_token(args: &mut Vec<Token>, i: usize) -> (t: Token)
    requires
        i < old(args).len(),
    ensures
        t.deep_view() == old(args).deep_view()[i as int],
        final(args).deep_view() == old(args).deep_view().remove(i as int),
        final(args).len() == old(args).len() - 1,
{
    let t = args.remove(i);
    t
}

/// Removes the comma at index `i` of `args`, if one stands there.
fn remove_comma(args: &mut Vec<Token>, i: usize)
    ensures
        final(args).deep_view() == (if i < old(args).len() && is_comma(
            old(args).deep_view()[i as int],
        ) {
            old(args).deep_view().remove(i as int)
        } else {
            old(args).deep_view()
        }),
{
    if i < args.len() && args[i].is_punct(',') {
        let _ = remove_token(args, i);
    }
}

/// Takes the argument `name(...)` out of `args` and returns the tokens inside
/// the brackets. `None`, and `args` as they were, where no token is the
/// identifier `name`; an error where the first such token has no group behind it.
pub fn take_ident_group(name: &str, args: &mut Vec<Token>) -> (r: Result<Option<Vec<Token>>, Error>)
    ensures
        match group_taken(old(args).deep_view(), name@) {
            Ok((value, rest)) => {
                &&& r matches Ok(v) && v.deep_view() == value
                &&& final(args).deep_view() == rest
            },
            Err(e) => {
                &&& r matches Err(x) && x.deep_view() == e
                &&& final(args).deep_view() == old(args).deep_view()
            },
        },
{
    let key = String::from_str(name);
    let i = find_ident(args, &key);
    if i >= args.len() {
        return Ok(None);
    }
    if i + 1 < args.len() {
        if let Token::Group(_, _) = &args[i + 1] {
            let _ = remove_token(args, i);
            let group = remove_token(args, i);
            remove_comma(args, i);
            match group {
                Token::Group(d, inner) => {
                    proof {
                        lemma_group_view(d, inner);
                    }
                    return Ok(Some(inner));
                },
                _ => {
                    assert(false);
                    return Ok(None);
                },
            }
        }
    }
    Err(Error::MalformedArgument { name: key, expected: Expected::Group })
}

/// Whether `name`, an equals sign and one more token stand at index `i`.
fn has_value(args: &Vec<Token>, i: usize) -> (r: bool)
    requires
        i < args.len(),
    ensures
        r == (i + 2 < args.len() && is_equals(args.deep_view()[i + 1])),
{
    args.len() - i > 2 && args[i + 1].is_punct('=')
}

/// Takes the three tokens of `name = value` at index `i`, and the comma
/// behind them, out of `args`; returns the value.
fn remove_value(args: &mut Vec<Token>, i: usize) -> (t: Token)
    requires
        i + 2 < old(args).len(),
    ensures
        t.deep_view() == old(args).deep_view()[i + 2],
        final(args).deep_view() == without(old(args).deep_view(), i as int, 3),
{
    let _ = remove_token(args, i);
    let _ = remove_token(args, i);
    let value = remove_token(args, i);
    remove_comma(args, i);
    value
}

/// Takes the argument `name = Identifier` out of `args` and returns the
/// identifier. `None`, and `args` as they were, where no token is the
/// identifier `name`; an error where the first such token is not followed by
/// an equals sign and an identifier.
pub fn take_ident_ident(name: &str, args: &mut Vec<Token>) -> (r: Result<Option<String>, Error>)
    ensures
        match ident_taken(old(args).deep_view(), name@) {
            Ok((value, rest)) => {
                &&& r matches Ok(v) && v.deep_view() == value
                &&& final(args).deep_view() == rest
            },
            Err(e) => {
                &&& r matches Err(x) && x.deep_view() == e
                &&& final(args).deep_view() == old(args).deep_view()
            },
        },
{
    let key = String::from_str(name);
    let i = find_ident(args, &key);
    if i >= args.len() {
        return Ok(None);
    }
    if has_value(args, i) {
        if let Token::Ident(_) = &args[i + 2] {
            match remove_value(args, i) {
                Token::Ident(v) => {
                    return Ok(Some(v));
                },
                _ => {
                    assert(false);
                    return Ok(None);
                },
            }
        }
    }
    Err(Error::MalformedArgument { name: key, expected: Expected::Identifier })
}

/// Takes the argument `name = literal` out of `args` and returns the
/// literal's source text. `None`, and `args` as they were, where no token is
/// the identifier `name`; an error where the first such token is not
/// followed by an equals sign and a literal.
pub fn take_ident_literal(name: &str, args: &mut Vec<Token>) -> (r: Result<Option<String>, Error>)
    ensures
        match literal_taken(old(args).deep_view(), name@) {
            Ok((value, rest)) => {
                &&& r matches Ok(v) && v.deep_view() == value
                &&& final(args).deep_view() == rest
            },
            Err(e) => {
                &&& r matches Err(x) && x.deep_view() == e
                &&& final(args).deep_view() == old(args).deep_view()
            },
        },
{
    let key = String::from_str(name);
    let i = find_ident(args, &key);
    if i >= args.len() {
        return Ok(None);
    }
    if has_value(args, i) {
        if let Token::Literal(_) = &args[i + 2] {
            match remove_value(args, i) {
                Token::Literal(v) => {
                    return Ok(Some(v));
                },
                _ => {
                    assert(false);
                    return Ok(None);
                },
            }
        }
    }
    Err(Error::MalformedArgument { name: key, expected: Expected::Literal })
}

/// Takes the argument `name = true` or `name = false` out of `args` and
/// returns the value. `None`, and `args` as they were, where no token is the
/// identifier `name`; an error where the first such token is not followed by
/// an equals sign and one of the two words.
pub fn take_ident_bool(name: &str, args: &mut Vec<Token>) -> (r: Result<Option<bool>, Error>)
    ensures
        match bool_taken(old(args).deep_view(), name@) {
            Ok((value, rest)) => {
                &&& r == Ok::<Option<bool>, Error>(value)
                &&& final(args).deep_view() == rest
            },
            Err(e) => {
                &&& r matches Err(x) && x.deep_view() == e
                &&& final(args).deep_view() == old(args).deep_view()
            },
        },
{
    let key = String::from_str(name);
    let i = find_ident(args, &key);
    if i >= args.len() {
        return Ok(None);
    }
    if has_value(args, i) {
        let value = match &args[i + 2] {
            Token::Ident(v) => if same_text(v, "true") {
                Some(true)
            } else if same_text(v, "false") {
                Some(false)
            } else {
                None
            },
            _ => None,
        };
        if value.is_some() {
            let _ = remove_value(args, i);
            return Ok(value);
        }
    }
    Err(Error::MalformedArgument { name: key, expected: Expected::Bool })
}

/// The member names that a selector group lists: its identifiers in order,
/// commas passed over. Any other token is an error, which bears that
/// token's text.
pub open spec fn idents_of(ts: Seq<SpecToken>) -> Result<Seq<Seq<char>>, SpecError>
    decreases ts.len(),
{
    if ts.len() == 0 {
        Ok(Seq::empty())
    } else {
        match idents_of(ts.drop_last()) {
            Err(e) => Err(e),
            Ok(names) => match ts.last() {
                SpecToken::Ident(s) => Ok(names.push(s)),
                t => if is_comma(t) {
                    Ok(names)
                } else {
                    Err(malformed(render_token(t), Expected::MemberName))
                },
            },
        }
    }
}

/// Reads the tokens inside a selector group as a list of member names.
pub fn extract_idents(group: &Vec<Token>) -> (r: Result<Vec<String>, Error>)
    ensures
        match idents_of(group.deep_view()) {
            Ok(names) => r matches Ok(v) && v.deep_view() == names,
            Err(e) => r matches Err(x) && x.deep_view() == e,
        },
{
    let ghost all = group.deep_view();
    let mut names: Vec<String> = Vec::new();
    let mut i: usize = 0;
    assert(names.deep_view() =~= Seq::<Seq<char>>::empty());
    while i < group.len()
        invariant
            i <= group.len(),
            all == group.deep_view(),
            idents_of(all.subrange(0, i as int)) == Ok::<Seq<Seq<char>>, SpecError>(
                names.deep_view(),
            ),
        decreases group.len() - i,
    {
        let ghost upto = all.subrange(0, i + 1);
        let ghost found = names.deep_view();
        proof {
            assert(upto.drop_last() =~= all.subrange(0, i as int));
        }
        match &group[i] {
            Token::Ident(s) => {
                names.push(s.clone());
                assert(names.deep_view() =~= found.push(s@));
            },
            t => {
                if !t.is_punct(',') {
                    let mut text = String::new();
                    render_token_into(t, &mut text);
                    proof {
                        lemma_idents_of_prefix(all, i + 1);
                    }
                    return Err(
                        Error::MalformedArgument { name: text, expected: Expected::MemberName },
                    );
                }
            },
        }
        i += 1;
    }
    assert(all.subrange(0, i as int) =~= all);
    Ok(names)
}

/// A failure on a prefix of `ts` is the failure on `ts`.
proof fn lemma_idents_of_prefix(ts: Seq<SpecToken>, n: int)
    requires
        0 <= n <= ts.len(),
        idents_of(ts.subrange(0, n)) is Err,
    ensures
        idents_of(ts) == idents_of(ts.subrange(0, n)),
    decreases ts.len() - n,
{
    if n < ts.len() {
        assert(ts.subrange(0, n + 1).drop_last() =~= ts.subrange(0, n));
        lemma_idents_of_prefix(ts, n + 1);
    } else {
        assert(ts.subrange(0, n) =~= ts);
    }
}

/// The first identifier among `args` that `names` does not hold.
pub open spec fn first_unknown(args: Seq<SpecToken>, names: Seq<Seq<char>>) -> Option<Seq<char>>
    decreases args.len(),
{
    if args.len() == 0 {
        None
    } else {
        match args[0] {
            SpecToken::Ident(s) => if names.contains(s) {
                first_unknown(args.drop_first(), names)
            } else {
                Some(s)
            },
            _ => first_unknown(args.drop_first(), names),
        }
    }
}

/// Whether `s` is one of `names`.
fn is_known(names: &Vec<&str>, s: &String) -> (r: bool)
    ensures
        r == names.deep_view().contains(s@),
{
    let mut i: usize = 0;
    while i < names.len()
        invariant
            i <= names.len(),
            forall|k: int| 0 <= k < i ==> names.deep_view()[k] != s@,
        decreases names.len() - i,
    {
        if same_text(s, names[i]) {
            assert(names.deep_view()[i as int] == s@);
            return true;
        }
        i += 1;
    }
    false
}

/// The strings of `names`, each as an owned string.
fn owned_names(names: &Vec<&str>) -> (r: Vec<String>)
    ensures
        r.deep_view() == names.deep_view(),
{
    let mut out: Vec<String> = Vec::new();
    let mut i: usize = 0;
    while i < names.len()
        invariant
            i <= names.len(),
            out.len() == i,
            forall|k: int| 0 <= k < i ==> out@[k]@ == names@[k]@,
        decreases names.len() - i,
    {
        out.push(String::from_str(names[i]));
        i += 1;
    }
    out
}

/// Fails on the first identifier that is left in `args` and is not one of
/// `names`, the known arguments; the error names it and lists `names`.
pub fn abort_unexpected_args(names: Vec<&str>, args: &Vec<Token>) -> (r: Result<(), Error>)
    ensures
        match first_unknown(args.deep_view(), names.deep_view()) {
            None => r is Ok,
            Some(s) => r matches Err(e) && e.deep_view() == (SpecError::UnknownArgument {
                name: s,
                allowed: names.deep_view(),
            }),
        },
{
    let ghost all = args.deep_view();
    let mut i: usize = 0;
    assert(all.subrange(0, all.len() as int) =~= all);
    while i < args.len()
        invariant
            i <= args.len(),
            all == args.deep_view(),
            first_unknown(all, names.deep_view()) == first_unknown(
                all.subrange(i as int, all.len() as int),
                names.deep_view(),
            ),
        decreases args.len() - i,
    {
        proof {
            let tail = all.subrange(i as int, all.len() as int);
            assert(tail.drop_first() =~= all.subrange(i + 1, all.len() as int));
        }
        match &args[i] {
            Token::Ident(s) => {
                if !is_known(&names, s) {
                    let allowed = owned_names(&names);
                    return Err(Error::UnknownArgument { name: s.clone(), allowed });
                }
            },
            _ => {},
        }
        i += 1;
    }
    Ok(())
}

/// The index of the first comma of `ts` at or behind `from`, or `ts.len()`.
pub open spec fn next_comma(ts: Seq<SpecToken>, from: int) -> int
    decreases ts.len() - from,
{
    if from < 0 || from >= ts.len() {
        ts.len() as int
    } else if is_comma(ts[from]) {
        from
    } else {
        next_comma(ts, from + 1)
    }
}

/// The runs of tokens between the commas of `ts`, from index `from` on, up
/// to the first empty run: a comma at the start or two commas in a row end
/// the list.
pub open spec fn runs(ts: Seq<SpecToken>, from: int) -> Seq<Seq<SpecToken>>
    decreases ts.len() - from,
{
    if from < 0 || from >= ts.len() {
        Seq::empty()
    } else {
        let end = next_comma(ts, from);
        if end <= from || end > ts.len() {
            Seq::empty()
        } else if end == ts.len() {
            seq![ts.subrange(from, end)]
        } else {
            seq![ts.subrange(from, end)] + runs(ts, end + 1)
        }
    }
}

/// A stretch without commas does not move the next comma.
proof fn lemma_next_comma(ts: Seq<SpecToken>, from: int, i: int)
    requires
        0 <= from <= i <= ts.len(),
        forall|k: int| from <= k < i ==> !is_comma(ts[k]),
    ensures
        next_comma(ts, from) == next_comma(ts, i),
        i < ts.len() && is_comma(ts[i]) ==> next_comma(ts, from) == i,
        i == ts.len() ==> next_comma(ts, from) == ts.len(),
    decreases i - from,
{
    if from < i {
        lemma_next_comma(ts, from + 1, i);
    }
}

/// Splits the tokens inside a group at its commas: the runs between them, up
/// to the first empty one.
pub fn split_paths(inner: &Vec<Token>) -> (r: Vec<Vec<Token>>)
    ensures
        r.deep_view() == runs(inner.deep_view(), 0),
{
    let ghost all = inner.deep_view();
    let mut done: Vec<Vec<Token>> = Vec::new();
    let mut current: Vec<Token> = Vec::new();
    let mut i: usize = 0;
    let ghost mut start: int = 0;
    while i < inner.len()
        invariant
            i <= inner.len(),
            all == inner.deep_view(),
            0 <= start <= i,
            current.deep_view() == all.subrange(start, i as int),
            forall|k: int| start <= k < i ==> !is_comma(all[k]),
            runs(all, 0) == done.deep_view() + runs(all, start),
        decreases inner.len() - i,
    {
        if inner[i].is_punct(',') {
            proof {
                assert(current.deep_view().len() == current.len());
                lemma_next_comma(all, start, i as int);
            }
            if current.len() == 0 {
                return done;
            }
            done.push(current);
            current = Vec::new();
            proof {
                start = i + 1;
            }
        } else {
            let ghost before = current.deep_view();
            current.push(clone_token(&inner[i]));
            assert(current.deep_view() =~= before.push(all[i as int]));
        }
        i += 1;
    }
    proof {
        lemma_next_comma(all, start, i as int);
    }
    if current.len() > 0 {
        done.push(current);
    }
    done
}

/// Whether `syn` reads the text as one path of Rust, such as `Debug` or
/// `core::fmt::Debug`.
pub uninterp spec fn syn_path(text: Seq<char>) -> bool;

/// `syn::parse_str::<syn::Path>`: whether the whole of `text` parses as one
/// path. Nothing is claimed of which texts do; the answer is a function of
/// the text.
#[verifier::external_body]
fn parses_as_path(text: &str) -> (r: bool)
    ensures
        r == syn_path(text@),
{
    syn::parse_str::<syn::Path>(text).is_ok()
}

/// Whether each run of `rs`, written out, is a path.
pub open spec fn all_paths(rs: Seq<Seq<SpecToken>>) -> bool {
    forall|k: int| 0 <= k < rs.len() ==> syn_path(render(#[trigger] rs[k]))
}

/// Whether each of `runs`, written out, is a path.
pub fn check_paths(runs: &Vec<Vec<Token>>) -> (r: bool)
    ensures
        r == all_paths(runs.deep_view()),
{
    let mut i: usize = 0;
    while i < runs.len()
        invariant
            i <= runs.len(),
            forall|k: int| 0 <= k < i ==> syn_path(render(#[trigger] runs.deep_view()[k])),
        decreases runs.len() - i,
    {
        let text = render_tokens(&runs[i]);
        if !parses_as_path(text.as_str()) {
            assert(!syn_path(render(runs.deep_view()[i as int])));
            return false;
        }
        i += 1;
    }
    true
}

/// What a list of paths comes to, given its runs and whether all of them are
/// paths: the runs themselves; nothing where there is no run; an error on
/// behalf of the argument `name` where one is no path.
pub open spec fn paths_concluded(name: Seq<char>, rs: Seq<Seq<SpecToken>>, accepted: bool)
    -> Result<Option<Seq<Seq<SpecToken>>>, SpecError> {
    if !accepted {
        Err(malformed(name, Expected::Path))
    } else if rs.len() == 0 {
        Ok(None)
    } else {
        Ok(Some(rs))
    }
}

/// Concludes a list of paths from its runs and the verdict on them.
pub fn conclude_paths(name: &str, runs: Vec<Vec<Token>>, accepted: bool) -> (r: Result<
    Option<Vec<Vec<Token>>>,
    Error,
>)
    ensures
        match paths_concluded(name@, runs.deep_view(), accepted) {
            Ok(value) => r matches Ok(v) && v.deep_view() == value,
            Err(e) => r matches Err(x) && x.deep_view() == e,
        },
{
    if !accepted {
        Err(Error::MalformedArgument { name: String::from_str(name), expected: Expected::Path })
    } else if runs.len() == 0 {
        Ok(None)
    } else {
        Ok(Some(runs))
    }
}

/// What `take_path_group` does on `args`: the outcome, and what is left of
/// `args` (on a malformed path the group is gone all the same).
pub open spec fn paths_taken(args: Seq<SpecToken>, name: Seq<char>) -> (
    Result<Option<Seq<Seq<SpecToken>>>, SpecError>,
    Seq<SpecToken>,
) {
    match group_taken(args, name) {
        Err(e) => (Err(e), args),
        Ok((None, rest)) => (Ok(None), rest),
        Ok((Some(inner), rest)) => (
            paths_concluded(name, runs(inner, 0), all_paths(runs(inner, 0))),
            rest,
        ),
    }
}

/// Takes the argument `name(path, path, ...)` out of `args` and returns the
/// paths, each as its tokens. `None` where `name` does not occur and where
/// the group lists no path; an error where `name` has no group behind it or
/// an entry is no path.
pub fn take_path_group(name: &str, args: &mut Vec<Token>) -> (r: Result<
    Option<Vec<Vec<Token>>>,
    Error,
>)
    ensures
        final(args).deep_view() == paths_taken(old(args).deep_view(), name@).1,
        match paths_taken(old(args).deep_view(), name@).0 {
            Ok(value) => r matches Ok(v) && v.deep_view() == value,
            Err(e) => r matches Err(x) && x.deep_view() == e,
        },
{
    match take_ident_group(name, args) {
        Err(e) => Err(e),
        Ok(None) => Ok(None),
        Ok(Some(inner)) => {
            let runs = split_paths(&inner);
            let accepted = check_paths(&runs);
            conclude_paths(name, runs, accepted)
        },
    }
}

} // verus!
