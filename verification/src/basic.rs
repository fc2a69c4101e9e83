//! The basic generators. They read a fixed set of arguments, know no
//! type-level block, and take the annotations of the derived type from the
//! caller. A copy of a declaration under another name is among them.

use vstd::prelude::*;
use crate::args::{behind_name, directive_args, directive_tokens, leftover};
use crate::cursor::{
    abort_unexpected_args, bool_left, bool_taken, extract_idents, find_ident, group_left,
    group_taken, idents_of, take_ident_bool, take_ident_group,
};
use crate::decl::{
    is_attribute, selected, AttrStyle, Attribute, Declaration, Field, Members, SpecAttribute,
    SpecDeclaration, SpecField, SpecMembers,
};
use crate::error::{malformed, Error, Expected, SpecError};
use crate::patch::{
    extract_type_from_option, flags_at, impl_from_derived, impl_merge, impl_struct_fields,
    merge_steps, from_steps, option_argument, patch_field, FieldFlag, PatchField, PatchModel,
    PatchStep, SpecFieldFlag, SpecPatchField, SpecPatchModel, SpecPatchStep,
};
use crate::policy::{AttrTest, AttributesWith, Capabilities, OptionType};
use crate::text::contains_text;
use crate::token::{lemma_group_view, SpecToken, Token};
use crate::view::{
    field_copies, Conversions, Mapping, SpecConversions, SpecMapping, SpecViewMember,
    SpecViewModel, ViewMember, ViewModel,
};

verus! {

/// What `get_ident_group` finds in `args`: the tokens inside the group
/// that follows the first `name`.
pub open spec fn group_found(args: Seq<SpecToken>, name: Seq<char>) -> Result<
    Option<Seq<SpecToken>>,
    SpecError,
> {
    match group_taken(args, name) {
        Ok((value, _)) => Ok(value),
        Err(e) => Err(e),
    }
}

/// Looks the argument `name(...)` up in `args` and returns the tokens
/// inside the brackets; `args` stay as they are. `None` where no token is
/// the identifier `name`; an error where the first such token has no group
/// behind it.
pub fn get_ident_group<'a>(name: &str, args: &'a Vec<Token>) -> (r: Result<
    Option<&'a Vec<Token>>,
    Error,
>)
    ensures
        match group_found(args.deep_view(), name@) {
            Ok(value) => r matches Ok(v) && v.deep_view() == value,
            Err(e) => r matches Err(x) && x.deep_view() == e,
        },
{
    let key = String::from_str(name);
    let i = find_ident(args, &key);
    if i >= args.len() {
        return Ok(None);
    }
    if i + 1 < args.len() {
        if let Token::Group(d, inner) = &args[i + 1] {
            proof {
                lemma_group_view(*d, *inner);
            }
            return Ok(Some(inner));
        }
    }
    Err(Error::MalformedArgument { name: key, expected: Expected::Group })
}

/// The names that the argument `name(...)` of `args` lists.
pub open spec fn listed(args: Seq<SpecToken>, name: Seq<char>) -> Result<
    Option<Seq<Seq<char>>>,
    SpecError,
> {
    match group_found(args, name) {
        Err(e) => Err(e),
        Ok(None) => Ok(None),
        Ok(Some(group)) => match idents_of(group) {
            Ok(names) => Ok(Some(names)),
            Err(e) => Err(e),
        },
    }
}

/// The names that the argument `name(...)` of `args` lists.
fn list_of(name: &str, args: &Vec<Token>) -> (r: Result<Option<Vec<String>>, Error>)
    ensures
        match listed(args.deep_view(), name@) {
            Ok(value) => r matches Ok(v) && v.deep_view() == value,
            Err(e) => r matches Err(x) && x.deep_view() == e,
        },
{
    match get_ident_group(name, args) {
        Err(e) => Err(e),
        Ok(None) => Ok(None),
        Ok(Some(group)) => match extract_idents(group) {
            Ok(names) => Ok(Some(names)),
            Err(e) => Err(e),
        },
    }
}

/// What `parse_fields` makes of `args`: the names that `fields(...)`
/// lists; the argument has to be there.
pub open spec fn fields_parsed(args: Seq<SpecToken>) -> Result<Seq<Seq<char>>, SpecError> {
    match listed(args, "fields"@) {
        Err(e) => Err(e),
        Ok(None) => Err(malformed("fields"@, Expected::Group)),
        Ok(Some(names)) => Ok(names),
    }
}

/// The names of the members that a view is to keep: what `fields(...)`
/// lists. Without that argument, an error.
pub fn parse_fields(args: &Vec<Token>) -> (r: Result<Vec<String>, Error>)
    ensures
        match fields_parsed(args.deep_view()) {
            Ok(value) => r matches Ok(v) && v.deep_view() == value,
            Err(e) => r matches Err(x) && x.deep_view() == e,
        },
{
    match list_of("fields", args) {
        Err(e) => Err(e),
        Ok(None) => Err(
            Error::MalformedArgument {
                name: String::from_str("fields"),
                expected: Expected::Group,
            },
        ),
        Ok(Some(names)) => Ok(names),
    }
}

/// What `parse_derives` makes of `args`: the names that `derive(...)`
/// lists, none without the argument.
pub open spec fn derives_parsed(args: Seq<SpecToken>) -> Result<Seq<Seq<char>>, SpecError> {
    match listed(args, "derive"@) {
        Err(e) => Err(e),
        Ok(None) => Ok(Seq::empty()),
        Ok(Some(names)) => Ok(names),
    }
}

/// The names that a derived type is to derive: what `derive(...)` lists,
/// and none without that argument.
pub fn parse_derives(args: &Vec<Token>) -> (r: Result<Vec<String>, Error>)
    ensures
        match derives_parsed(args.deep_view()) {
            Ok(value) => r matches Ok(v) && v.deep_view() == value,
            Err(e) => r matches Err(x) && x.deep_view() == e,
        },
{
    match list_of("derive", args) {
        Err(e) => Err(e),
        Ok(None) => {
            let none: Vec<String> = Vec::new();
            Ok(none)
        },
        Ok(Some(names)) => Ok(names),
    }
}

/// What `parse_omit` makes of `args`: the names that `omit(...)` lists,
/// and what is left of `args`; the argument has to be there.
pub open spec fn omit_parsed(args: Seq<SpecToken>) -> Result<
    (Seq<Seq<char>>, Seq<SpecToken>),
    SpecError,
> {
    match group_taken(args, "omit"@) {
        Err(e) => Err(e),
        Ok((None, _)) => Err(malformed("omit"@, Expected::Group)),
        Ok((Some(group), rest)) => match idents_of(group) {
            Ok(names) => Ok((names, rest)),
            Err(e) => Err(e),
        },
    }
}

/// Takes the names of the members that a patch is to leave out: what
/// `omit(...)` lists. Without that argument, an error.
pub fn parse_omit(args: &mut Vec<Token>) -> (r: Result<Vec<String>, Error>)
    ensures
        final(args).deep_view() == group_left(old(args).deep_view(), "omit"@),
        match omit_parsed(old(args).deep_view()) {
            Ok((value, rest)) => r matches Ok(v) && v.deep_view() == value && final(
                args
            ).deep_view() == rest,
            Err(e) => r matches Err(x) && x.deep_view() == e,
        },
{
    match take_ident_group("omit", args) {
        Err(e) => Err(e),
        Ok(None) => Err(
            Error::MalformedArgument { name: String::from_str("omit"), expected: Expected::Group },
        ),
        Ok(Some(group)) => extract_idents(&group),
    }
}

/// What `parse_default_derives` makes of `args`.
pub open spec fn default_derives_parsed(args: Seq<SpecToken>) -> Result<
    (bool, Seq<SpecToken>),
    SpecError,
> {
    match bool_taken(args, "default_derives"@) {
        Err(e) => Err(e),
        Ok((Some(b), rest)) => Ok((b, rest)),
        Ok((None, rest)) => Ok((false, rest)),
    }
}

/// Takes the argument `default_derives = true` or `= false` out of `args`;
/// without it, `false`.
pub fn parse_default_derives(args: &mut Vec<Token>) -> (r: Result<bool, Error>)
    ensures
        final(args).deep_view() == bool_left(old(args).deep_view(), "default_derives"@),
        match default_derives_parsed(old(args).deep_view()) {
            Ok((value, rest)) => r == Ok::<bool, Error>(value) && final(args).deep_view() == rest,
            Err(e) => r matches Err(x) && x.deep_view() == e,
        },
{
    match take_ident_bool("default_derives", args) {
        Err(e) => Err(e),
        Ok(Some(b)) => Ok(b),
        Ok(None) => Ok(false),
    }
}

/// Whether one of `attrs` is the annotation `#[name(value)]`: its path is
/// the one identifier `name` and its list the one identifier `value`.
pub open spec fn is_marked(attrs: Seq<SpecAttribute>, name: Seq<char>, value: Seq<char>) -> bool {
    exists|i: int|
        0 <= i < attrs.len() && (#[trigger] attrs[i]).is_exactly(name) && attrs[i].style
            == AttrStyle::List && attrs[i].tokens == seq![SpecToken::Ident(value)]
}

/// Whether one of `attrs` is the annotation `#[name(value)]`.
pub fn has_attribute(attrs: &Vec<Attribute>, name: &str, value: &str) -> (r: bool)
    ensures
        r == is_marked(attrs.deep_view(), name@, value@),
{
    let key = String::from_str(value);
    let mut i: usize = 0;
    while i < attrs.len()
        invariant
            i <= attrs.len(),
            key@ == value@,
            forall|k: int|
                0 <= k < i ==> !((#[trigger] attrs.deep_view()[k]).is_exactly(name@)
                    && attrs.deep_view()[k].style == AttrStyle::List && attrs.deep_view()[k].tokens
                    == seq![SpecToken::Ident(value@)]),
        decreases attrs.len() - i,
    {
        let attr = &attrs[i];
        let is_list = match attr.style {
            AttrStyle::List => true,
            _ => false,
        };
        if attr.is_exactly(name) && is_list && attr.tokens.len() == 1 && attr.tokens[0].is_ident(
            &key,
        ) {
            proof {
                let a = attrs.deep_view()[i as int];
                assert(a.tokens =~= seq![SpecToken::Ident(value@)]);
            }
            return true;
        }
        proof {
            let a = attrs.deep_view()[i as int];
            if a.tokens == seq![SpecToken::Ident(value@)] {
                assert(a.tokens.len() == 1);
                assert(a.tokens[0] == SpecToken::Ident(value@));
            }
        }
        i += 1;
    }
    false
}

/// The name of the derived type: the first token of the directive.
pub open spec fn directive_name(attr: SpecAttribute) -> Option<Seq<char>> {
    let tokens = directive_tokens(attr);
    if tokens.len() > 0 && tokens[0] is Ident {
        Some(tokens[0]->Ident_0)
    } else {
        None
    }
}

/// The name of the derived type and the arguments of the directive, whole.
fn name_and_tokens(attr: &Attribute) -> (r: Result<(String, Vec<Token>), Error>)
    ensures
        match directive_name(attr.deep_view()) {
            Some(name) => r matches Ok(v) && v.0@ == name && v.1.deep_view() == directive_tokens(
                attr.deep_view(),
            ),
            None => r matches Err(e) && e.deep_view() == SpecError::MissingRequiredName,
        },
{
    let tokens = directive_args(attr);
    if tokens.len() == 0 {
        return Err(Error::MissingRequiredName);
    }
    let name = match &tokens[0] {
        Token::Ident(v) => v.clone(),
        _ => {
            return Err(Error::MissingRequiredName);
        },
    };
    Ok((name, tokens))
}

/// The arguments behind the name: what follows the first two tokens.
fn tokens_behind_name(tokens: Vec<Token>) -> (r: Vec<Token>)
    ensures
        r.deep_view() == behind_name(tokens.deep_view()),
{
    let mut tokens = tokens;
    let args = if tokens.len() < 3 {
        Vec::new()
    } else {
        tokens.split_off(2)
    };
    args
}

/// The path of one segment `name`, as its tokens.
pub open spec fn ident_path(name: Seq<char>) -> Seq<SpecToken> {
    seq![SpecToken::Ident(name)]
}

/// The path `first::second`, with two colons before it where it is
/// `global`, as its tokens.
pub open spec fn long_path(global: bool, first: Seq<char>, second: Seq<char>) -> Seq<SpecToken> {
    let path = seq![
        SpecToken::Ident(first),
        SpecToken::Punct(':', true),
        SpecToken::Punct(':', false),
        SpecToken::Ident(second),
    ];
    if global {
        seq![SpecToken::Punct(':', true), SpecToken::Punct(':', false)] + path
    } else {
        path
    }
}

/// What a basic view always derives.
pub open spec fn standing_derives() -> Seq<Seq<SpecToken>> {
    seq![
        ident_path("Debug"@),
        long_path(true, "poem_openapi"@, "Object"@),
        ident_path("Clone"@),
        ident_path("PartialEq"@),
        ident_path("Eq"@),
        ident_path("PartialOrd"@),
        ident_path("Ord"@),
        long_path(false, "sqlx"@, "FromRow"@),
        long_path(true, "typed_builder"@, "TypedBuilder"@),
    ]
}

/// Each of `names` as a path of one segment.
pub open spec fn ident_paths(names: Seq<Seq<char>>) -> Seq<Seq<SpecToken>> {
    Seq::new(names.len(), |k: int| ident_path(names[k]))
}

fn make_ident_path(name: &str) -> (r: Vec<Token>)
    ensures
        r.deep_view() == ident_path(name@),
{
    let mut path: Vec<Token> = Vec::new();
    path.push(Token::ident(name));
    path
}

fn make_long_path(global: bool, first: &str, second: &str) -> (r: Vec<Token>)
    ensures
        r.deep_view() == long_path(global, first@, second@),
{
    let mut path: Vec<Token> = Vec::new();
    if global {
        path.push(Token::Punct(':', true));
        path.push(Token::Punct(':', false));
    }
    path.push(Token::ident(first));
    path.push(Token::Punct(':', true));
    path.push(Token::Punct(':', false));
    path.push(Token::ident(second));
    path
}

/// The standing derives of a view, then `names`.
fn view_derives(names: &Vec<String>) -> (r: Vec<Vec<Token>>)
    ensures
        r.deep_view() == standing_derives() + ident_paths(names.deep_view()),
{
    let mut out: Vec<Vec<Token>> = Vec::new();
    out.push(make_ident_path("Debug"));
    out.push(make_long_path(true, "poem_openapi", "Object"));
    out.push(make_ident_path("Clone"));
    out.push(make_ident_path("PartialEq"));
    out.push(make_ident_path("Eq"));
    out.push(make_ident_path("PartialOrd"));
    out.push(make_ident_path("Ord"));
    out.push(make_long_path(false, "sqlx", "FromRow"));
    out.push(make_long_path(true, "typed_builder", "TypedBuilder"));
    let mut k: usize = 0;
    while k < names.len()
        invariant
            k <= names.len(),
            out.deep_view() == standing_derives() + ident_paths(names.deep_view()).subrange(
                0,
                k as int,
            ),
        decreases names.len() - k,
    {
        let ghost before = out.deep_view();
        out.push(make_ident_path(names[k].as_str()));
        assert(out.deep_view() =~= before.push(ident_path(names@[k as int]@)));
        k += 1;
    }
    out
}

/// Each of `names` as a path of one segment.
fn paths_of(names: &Vec<String>) -> (r: Vec<Vec<Token>>)
    ensures
        r.deep_view() == ident_paths(names.deep_view()),
{
    let mut out: Vec<Vec<Token>> = Vec::new();
    let mut k: usize = 0;
    while k < names.len()
        invariant
            k <= names.len(),
            out.len() == k,
            forall|j: int| 0 <= j < k ==> out@[j].deep_view() == ident_path(names@[j]@),
        decreases names.len() - k,
    {
        out.push(make_ident_path(names[k].as_str()));
        k += 1;
    }
    out
}

/// The arguments of a basic view directive.
#[derive(Debug, PartialEq, Eq)]
pub struct ViewModelArgs {
    pub name: String,
    pub fields: Vec<String>,
    pub derives: Vec<String>,
}

/// The mathematical value of [`ViewModelArgs`].
pub ghost struct SpecViewModelArgs {
    pub name: Seq<char>,
    pub fields: Seq<Seq<char>>,
    pub derives: Seq<Seq<char>>,
}

impl DeepView for ViewModelArgs {
    type V = SpecViewModelArgs;

    open spec fn deep_view(&self) -> SpecViewModelArgs {
        SpecViewModelArgs {
            name: self.name@,
            fields: self.fields.deep_view(),
            derives: self.derives.deep_view(),
        }
    }
}

/// The names that a basic view directive knows.
pub open spec fn view_names() -> Seq<Seq<char>> {
    seq!["fields"@, "derive"@]
}

/// What `parse_view_attributes` makes of the directive `attr`.
pub open spec fn view_attributes_parsed(attr: SpecAttribute) -> Result<
    SpecViewModelArgs,
    SpecError,
> {
    let tokens = directive_tokens(attr);
    match directive_name(attr) {
        None => Err(SpecError::MissingRequiredName),
        Some(name) => if tokens.len() < 3 {
            Err(malformed("fields"@, Expected::Group))
        } else {
            match leftover(behind_name(tokens), view_names()) {
                Some(e) => Err(e),
                None => match fields_parsed(behind_name(tokens)) {
                    Err(e) => Err(e),
                    Ok(fields) => match derives_parsed(behind_name(tokens)) {
                        Err(e) => Err(e),
                        Ok(derives) => Ok(SpecViewModelArgs { name, fields, derives }),
                    },
                },
            }
        },
    }
}

/// Reads a basic view directive: the name of the view, then
/// `fields(...)`, which has to be there, and `derive(...)`.
pub fn parse_view_attributes(attr: &Attribute) -> (r: Result<ViewModelArgs, Error>)
    ensures
        match view_attributes_parsed(attr.deep_view()) {
            Ok(value) => r matches Ok(v) && v.deep_view() == value,
            Err(e) => r matches Err(x) && x.deep_view() == e,
        },
{
    let (name, tokens) = match name_and_tokens(attr) {
        Ok(v) => v,
        Err(e) => {
            return Err(e);
        },
    };
    if tokens.len() < 3 {
        return Err(
            Error::MalformedArgument {
                name: String::from_str("fields"),
                expected: Expected::Group,
            },
        );
    }
    let args = tokens_behind_name(tokens);
    let expected: Vec<&str> = vec!["fields", "derive"];
    assert(expected.deep_view() =~= view_names());
    match abort_unexpected_args(expected, &args) {
        Err(e) => {
            return Err(e);
        },
        Ok(()) => {},
    }
    let fields = match parse_fields(&args) {
        Ok(v) => v,
        Err(e) => {
            return Err(e);
        },
    };
    let derives = match parse_derives(&args) {
        Ok(v) => v,
        Err(e) => {
            return Err(e);
        },
    };
    Ok(ViewModelArgs { name, fields, derives })
}

/// The fields that `names` holds.
pub open spec fn field_listed(names: Seq<Seq<char>>) -> spec_fn(SpecField) -> bool {
    |f: SpecField| names.contains(f.name)
}

/// The members of a basic view for the fields at `indices`: each bears
/// the annotations of the schema integration.
pub open spec fn listed_members(fields: Seq<SpecField>, indices: Seq<usize>) -> Seq<
    SpecViewMember,
> {
    Seq::new(
        indices.len(),
        |k: int|
            SpecViewMember {
                index: indices[k],
                name: fields[indices[k] as int].name,
                docs: Seq::empty(),
                attrs: selected(
                    fields[indices[k] as int].attrs,
                    AttrTest::Member(AttributesWith::Oai).accepts(),
                ),
            },
    )
}

/// The basic view of `ast` under `args`, with the annotations `oai_attr`.
/// Only a record has one.
pub open spec fn view_new_of(ast: SpecDeclaration, args: SpecViewModelArgs, oai_attr: Seq<usize>)
    -> Result<SpecViewModel, SpecError> {
    match ast.members {
        SpecMembers::Variants(_) => Err(SpecError::NotARecord),
        SpecMembers::Fields(fields) => {
            let members = listed_members(fields, selected(fields, field_listed(args.fields)));
            Ok(
                SpecViewModel {
                    name: args.name,
                    original_name: ast.name,
                    is_struct: true,
                    derives: standing_derives() + ident_paths(args.derives),
                    attributes: oai_attr,
                    members,
                    conversions: SpecConversions::Record { from_original: field_copies(members) },
                },
            )
        },
    }
}

/// What `impl_view_model_new` makes of the directive `attr` on `ast`.
pub open spec fn view_model_new(ast: SpecDeclaration, attr: SpecAttribute, oai_attr: Seq<usize>)
    -> Result<SpecViewModel, SpecError> {
    match view_attributes_parsed(attr) {
        Err(e) => Err(e),
        Ok(args) => view_new_of(ast, args, oai_attr),
    }
}

/// Derives the basic view that the directive `attr` asks of the record
/// `ast`: the fields that `fields(...)` lists, in the order of the record.
/// The view bears the annotations of `ast` at `oai_attr`.
pub fn impl_view_model_new(ast: &Declaration, attr: &Attribute, oai_attr: &Vec<usize>) -> (r:
    Result<ViewModel, Error>)
    ensures
        match view_model_new(ast.deep_view(), attr.deep_view(), oai_attr@) {
            Ok(value) => r matches Ok(v) && v.deep_view() == value,
            Err(e) => r matches Err(x) && x.deep_view() == e,
        },
{
    let args = match parse_view_attributes(attr) {
        Ok(v) => v,
        Err(e) => {
            return Err(e);
        },
    };
    let data = match &ast.members {
        Members::Fields(data) => data,
        Members::Variants(_) => {
            return Err(Error::NotARecord);
        },
    };
    let ghost all = data.deep_view();
    let ghost keep = field_listed(args.fields.deep_view());
    let mut members: Vec<ViewMember> = Vec::new();
    let mut copies: Vec<Mapping> = Vec::new();
    let mut i: usize = 0;
    while i < data.len()
        invariant
            i <= data.len(),
            all == data.deep_view(),
            keep == field_listed(args.fields.deep_view()),
            members.deep_view() == listed_members(
                all,
                selected(all.subrange(0, i as int), keep),
            ),
            copies.deep_view() == field_copies(members.deep_view()),
        decreases data.len() - i,
    {
        let ghost before = members.deep_view();
        let ghost one = copies.deep_view();
        let ghost indices = selected(all.subrange(0, i as int), keep);
        proof {
            let upto = all.subrange(0, i + 1);
            assert(upto.drop_last() =~= all.subrange(0, i as int));
        }
        let field = &data[i];
        if contains_text(&args.fields, &field.name) {
            let docs: Vec<usize> = Vec::new();
            members.push(
                ViewMember {
                    index: i,
                    name: field.name.clone(),
                    docs,
                    attrs: AttributesWith::Oai.gen_field_attributes(&field.attrs),
                },
            );
            copies.push(Mapping::Field { name: field.name.clone() });
            proof {
                let member = listed_members(all, indices.push(i))[indices.len() as int];
                assert(members.deep_view() =~= before.push(member));
                assert(copies.deep_view() =~= one.push(SpecMapping::Field { name: member.name }));
            }
        }
        i += 1;
    }
    assert(all.subrange(0, i as int) =~= all);
    let mut attributes: Vec<usize> = Vec::new();
    let mut k: usize = 0;
    while k < oai_attr.len()
        invariant
            k <= oai_attr.len(),
            attributes@ == oai_attr@.subrange(0, k as int),
        decreases oai_attr.len() - k,
    {
        attributes.push(oai_attr[k]);
        k += 1;
    }
    assert(oai_attr@.subrange(0, k as int) =~= oai_attr@);
    Ok(
        ViewModel {
            name: args.name,
            original_name: ast.name.clone(),
            is_struct: true,
            derives: view_derives(&args.derives),
            attributes,
            members,
            conversions: Conversions::Record { from_original: copies },
        },
    )
}

/// The arguments of a basic patch directive.
#[derive(Debug, PartialEq, Eq)]
pub struct PatchModelArgs {
    pub name: String,
    pub omit: Vec<String>,
    pub derives: Vec<String>,
    pub default_derives: bool,
}

/// The mathematical value of [`PatchModelArgs`].
pub ghost struct SpecPatchModelArgs {
    pub name: Seq<char>,
    pub omit: Seq<Seq<char>>,
    pub derives: Seq<Seq<char>>,
    pub default_derives: bool,
}

impl DeepView for PatchModelArgs {
    type V = SpecPatchModelArgs;

    open spec fn deep_view(&self) -> SpecPatchModelArgs {
        SpecPatchModelArgs {
            name: self.name@,
            omit: self.omit.deep_view(),
            derives: self.derives.deep_view(),
            default_derives: self.default_derives,
        }
    }
}

/// The names that may be left over in a basic patch directive.
pub open spec fn patch_names_new() -> Seq<Seq<char>> {
    seq!["fields"@, "derive"@, "derive_defaults"@]
}

/// What `parse_patch_arg` makes of the directive `attr`.
pub open spec fn patch_arg_parsed(attr: SpecAttribute) -> Result<SpecPatchModelArgs, SpecError> {
    let tokens = directive_tokens(attr);
    match directive_name(attr) {
        None => Err(SpecError::MissingRequiredName),
        Some(name) => if tokens.len() < 3 {
            Ok(
                SpecPatchModelArgs {
                    name,
                    omit: Seq::empty(),
                    derives: Seq::empty(),
                    default_derives: true,
                },
            )
        } else {
            match omit_parsed(behind_name(tokens)) {
                Err(e) => Err(e),
                Ok((omit, rest)) => match derives_parsed(rest) {
                    Err(e) => Err(e),
                    Ok(derives) => match default_derives_parsed(rest) {
                        Err(e) => Err(e),
                        Ok((default_derives, rest)) => match leftover(rest, patch_names_new()) {
                            Some(e) => Err(e),
                            None => Ok(
                                SpecPatchModelArgs { name, omit, derives, default_derives },
                            ),
                        },
                    },
                },
            }
        },
    }
}

/// Reads a basic patch directive: the name of the patch alone, or the
/// name, then `omit(...)`, which then has to be there, `derive(...)` and
/// `default_derives = ...`.
pub fn parse_patch_arg(attr: &Attribute) -> (r: Result<PatchModelArgs, Error>)
    ensures
        match patch_arg_parsed(attr.deep_view()) {
            Ok(value) => r matches Ok(v) && v.deep_view() == value,
            Err(e) => r matches Err(x) && x.deep_view() == e,
        },
{
    let (name, tokens) = match name_and_tokens(attr) {
        Ok(v) => v,
        Err(e) => {
            return Err(e);
        },
    };
    if tokens.len() < 3 {
        let omit: Vec<String> = Vec::new();
        let derives: Vec<String> = Vec::new();
        assert(omit.deep_view() =~= Seq::<Seq<char>>::empty());
        return Ok(PatchModelArgs { name, omit, derives, default_derives: true });
    }
    let mut args = tokens_behind_name(tokens);
    let omit = match parse_omit(&mut args) {
        Ok(v) => v,
        Err(e) => {
            return Err(e);
        },
    };
    let derives = match parse_derives(&args) {
        Ok(v) => v,
        Err(e) => {
            return Err(e);
        },
    };
    let default_derives = match parse_default_derives(&mut args) {
        Ok(v) => v,
        Err(e) => {
            return Err(e);
        },
    };
    let expected: Vec<&str> = vec!["fields", "derive", "derive_defaults"];
    assert(expected.deep_view() =~= patch_names_new());
    match abort_unexpected_args(expected, &args) {
        Err(e) => Err(e),
        Ok(()) => Ok(PatchModelArgs { name, omit, derives, default_derives }),
    }
}

/// A basic patch.
#[derive(Debug, PartialEq, Eq)]
pub struct PatchModelNew {
    pub patch: PatchModel,
    /// Whether the patch derives, besides what it lists, what the
    /// surrounding build derives by default.
    pub default_derives: bool,
    /// With the database integration, the steps that merge a patch into a
    /// tracked value of the original.
    pub weld_merge: Option<Vec<PatchStep>>,
}

/// The mathematical value of a [`PatchModelNew`].
pub ghost struct SpecPatchModelNew {
    pub patch: SpecPatchModel,
    pub default_derives: bool,
    pub weld_merge: Option<Seq<SpecPatchStep>>,
}

impl DeepView for PatchModelNew {
    type V = SpecPatchModelNew;

    open spec fn deep_view(&self) -> SpecPatchModelNew {
        SpecPatchModelNew {
            patch: self.patch.deep_view(),
            default_derives: self.default_derives,
            weld_merge: self.weld_merge.deep_view(),
        }
    }
}

/// The fields that a basic patch keeps: those that `omit` does not name
/// and that are not marked `#[oai(read_only)]`.
pub open spec fn field_patched(omit: Seq<Seq<char>>) -> spec_fn(SpecField) -> bool {
    |f: SpecField| !(omit.contains(f.name) || is_marked(f.attrs, "oai"@, "read_only"@))
}

/// The member of a basic patch for the field `field`: wrapped like any
/// member of a patch, it bears the annotations of the schema integration.
pub open spec fn patch_field_new(index: usize, field: SpecField, option: OptionType)
    -> SpecPatchField {
    SpecPatchField {
        index,
        name: field.name,
        attrs: selected(field.attrs, AttrTest::Member(AttributesWith::Oai).accepts()),
        wrapper: patch_field(index, field, option).wrapper,
        inner: patch_field(index, field, option).inner,
    }
}

/// The members of a basic patch for the fields at `indices`.
pub open spec fn patch_fields_new(fields: Seq<SpecField>, indices: Seq<usize>, option: OptionType)
    -> Seq<SpecPatchField> {
    Seq::new(
        indices.len(),
        |k: int| patch_field_new(indices[k], fields[indices[k] as int], option),
    )
}

/// The wrapping of a basic patch: three states with the schema
/// integration, else the plain wrapper.
pub open spec fn option_new(caps: Capabilities) -> OptionType {
    if caps.openapi {
        OptionType::MaybeUndefined
    } else {
        OptionType::Option
    }
}

/// The basic patch of `ast` under `args`, with the annotations `oai_attr`.
/// Only a record has one.
pub open spec fn patch_new_of(
    ast: SpecDeclaration,
    args: SpecPatchModelArgs,
    oai_attr: Seq<usize>,
    caps: Capabilities,
) -> Result<SpecPatchModelNew, SpecError> {
    match ast.members {
        SpecMembers::Variants(_) => Err(SpecError::NotARecord),
        SpecMembers::Fields(fields) => {
            let indices = selected(fields, field_patched(args.omit));
            let option = option_new(caps);
            Ok(
                SpecPatchModelNew {
                    patch: SpecPatchModel {
                        name: args.name,
                        original_name: ast.name,
                        derives: ident_paths(args.derives),
                        attributes: oai_attr,
                        option,
                        fields: patch_fields_new(fields, indices, option),
                        from_derived: from_steps(flags_at(fields, indices), option),
                        merge: merge_steps(flags_at(fields, indices), option),
                    },
                    default_derives: args.default_derives,
                    weld_merge: if caps.welds {
                        Some(merge_steps(flags_at(fields, indices), option))
                    } else {
                        None
                    },
                },
            )
        },
    }
}

/// What `impl_patch_model_new` makes of the directive `attr` on `ast`.
pub open spec fn patch_model_new(
    ast: SpecDeclaration,
    attr: SpecAttribute,
    oai_attr: Seq<usize>,
    caps: Capabilities,
) -> Result<SpecPatchModelNew, SpecError> {
    match patch_arg_parsed(attr) {
        Err(e) => Err(e),
        Ok(args) => patch_new_of(ast, args, oai_attr, caps),
    }
}

/// A copy of `steps`.
fn clone_steps(steps: &Vec<PatchStep>) -> (r: Vec<PatchStep>)
    ensures
        r.deep_view() == steps.deep_view(),
{
    let mut out: Vec<PatchStep> = Vec::new();
    let mut k: usize = 0;
    while k < steps.len()
        invariant
            k <= steps.len(),
            out.len() == k,
            forall|j: int| 0 <= j < k ==> out@[j].deep_view() == steps@[j].deep_view(),
        decreases steps.len() - k,
    {
        out.push(
            PatchStep {
                member: steps[k].member,
                field: steps[k].field.clone(),
                wrapper: steps[k].wrapper,
            },
        );
        k += 1;
    }
    out
}

/// With the database integration, the steps that merge a patch into a
/// tracked value: those of `impl_merge`.
pub fn impl_weld_merge(impl_merge: &Vec<PatchStep>, caps: Capabilities) -> (r: Option<
    Vec<PatchStep>,
>)
    ensures
        r.deep_view() == (if caps.welds {
            Some(impl_merge.deep_view())
        } else {
            None
        }),
{
    if caps.welds {
        Some(clone_steps(impl_merge))
    } else {
        None
    }
}

/// A copy of `v`.
fn clone_indices(v: &Vec<usize>) -> (r: Vec<usize>)
    ensures
        r@ == v@,
{
    let mut out: Vec<usize> = Vec::new();
    let mut k: usize = 0;
    while k < v.len()
        invariant
            k <= v.len(),
            out@ == v@.subrange(0, k as int),
        decreases v.len() - k,
    {
        out.push(v[k]);
        k += 1;
    }
    out
}

/// Derives the basic patch that the directive `attr` asks of the record
/// `ast`: every field but those that `omit(...)` names and those marked
/// read-only, each wrapped. The patch bears the annotations of `ast` at
/// `oai_attr`.
pub fn impl_patch_model_new(
    ast: &Declaration,
    attr: &Attribute,
    oai_attr: &Vec<usize>,
    caps: Capabilities,
) -> (r: Result<PatchModelNew, Error>)
    ensures
        match patch_model_new(ast.deep_view(), attr.deep_view(), oai_attr@, caps) {
            Ok(value) => r matches Ok(v) && v.deep_view() == value,
            Err(e) => r matches Err(x) && x.deep_view() == e,
        },
{
    let args = match parse_patch_arg(attr) {
        Ok(v) => v,
        Err(e) => {
            return Err(e);
        },
    };
    let data = match &ast.members {
        Members::Fields(data) => data,
        Members::Variants(_) => {
            return Err(Error::NotARecord);
        },
    };
    let option = if caps.openapi {
        OptionType::MaybeUndefined
    } else {
        OptionType::Option
    };
    let ghost all = data.deep_view();
    let ghost keep = field_patched(args.omit.deep_view());
    let mut fields: Vec<PatchField> = Vec::new();
    let mut flags: Vec<FieldFlag> = Vec::new();
    let mut i: usize = 0;
    while i < data.len()
        invariant
            i <= data.len(),
            all == data.deep_view(),
            keep == field_patched(args.omit.deep_view()),
            fields.deep_view() == patch_fields_new(
                all,
                selected(all.subrange(0, i as int), keep),
                option,
            ),
            flags.deep_view() == flags_at(all, selected(all.subrange(0, i as int), keep)),
        decreases data.len() - i,
    {
        let ghost one = fields.deep_view();
        let ghost two = flags.deep_view();
        proof {
            let upto = all.subrange(0, i + 1);
            assert(upto.drop_last() =~= all.subrange(0, i as int));
        }
        let field = &data[i];
        if !(contains_text(&args.omit, &field.name) || has_attribute(
            &field.attrs,
            "oai",
            "read_only",
        )) {
            let oai_f_attributes = AttributesWith::Oai.gen_field_attributes(&field.attrs);
            let option_ty = extract_type_from_option(&field.ty);
            flags.push(FieldFlag { name: field.name.clone(), is_option: option_ty.is_some() });
            fields.push(
                impl_struct_fields(
                    i,
                    &field.name,
                    &field.ty.text,
                    option_ty,
                    oai_f_attributes,
                    option,
                ),
            );
            proof {
                let f = all[i as int];
                assert(fields.deep_view() =~= one.push(patch_field_new(i, f, option)));
                assert(flags.deep_view() =~= two.push(
                    SpecFieldFlag { name: f.name, is_option: option_argument(f.ty) is Some },
                ));
            }
        }
        i += 1;
    }
    assert(all.subrange(0, i as int) =~= all);
    let from_derived = impl_from_derived(&flags, option);
    let merge = impl_merge(&flags, option);
    let weld_merge = impl_weld_merge(&merge, caps);
    Ok(
        PatchModelNew {
            patch: PatchModel {
                name: args.name,
                original_name: ast.name.clone(),
                derives: paths_of(&args.derives),
                attributes: clone_indices(oai_attr),
                option,
                fields,
                from_derived,
                merge,
            },
            default_derives: args.default_derives,
            weld_merge,
        },
    )
}

/// The arguments of a clone directive.
#[derive(Debug, PartialEq, Eq)]
pub struct CloneModelArgs {
    pub name: String,
    pub derives: Vec<String>,
}

/// The mathematical value of [`CloneModelArgs`].
pub ghost struct SpecCloneModelArgs {
    pub name: Seq<char>,
    pub derives: Seq<Seq<char>>,
}

impl DeepView for CloneModelArgs {
    type V = SpecCloneModelArgs;

    open spec fn deep_view(&self) -> SpecCloneModelArgs {
        SpecCloneModelArgs { name: self.name@, derives: self.derives.deep_view() }
    }
}

/// What `parse_clone_attributes` makes of the directive `attr`.
pub open spec fn clone_attributes_parsed(attr: SpecAttribute) -> Result<
    SpecCloneModelArgs,
    SpecError,
> {
    let args = behind_name(directive_tokens(attr));
    match directive_name(attr) {
        None => Err(SpecError::MissingRequiredName),
        Some(name) => match derives_parsed(args) {
            Err(e) => Err(e),
            Ok(derives) => match leftover(args, seq!["derive"@]) {
                Some(e) => Err(e),
                None => Ok(SpecCloneModelArgs { name, derives }),
            },
        },
    }
}

/// Reads a clone directive: the name of the copy, then `derive(...)`.
pub fn parse_clone_attributes(attr: &Attribute) -> (r: Result<CloneModelArgs, Error>)
    ensures
        match clone_attributes_parsed(attr.deep_view()) {
            Ok(value) => r matches Ok(v) && v.deep_view() == value,
            Err(e) => r matches Err(x) && x.deep_view() == e,
        },
{
    let (name, tokens) = match name_and_tokens(attr) {
        Ok(v) => v,
        Err(e) => {
            return Err(e);
        },
    };
    let args = tokens_behind_name(tokens);
    let derives = match parse_derives(&args) {
        Ok(v) => v,
        Err(e) => {
            return Err(e);
        },
    };
    let expected: Vec<&str> = vec!["derive"];
    assert(expected.deep_view() =~= seq!["derive"@]);
    match abort_unexpected_args(expected, &args) {
        Err(e) => Err(e),
        Ok(()) => Ok(CloneModelArgs { name, derives }),
    }
}

/// A copy of a declaration under another name: it has every member of the
/// original, as it stands there.
#[derive(Debug, PartialEq, Eq)]
pub struct CloneModel {
    pub name: String,
    pub original_name: String,
    /// What it derives.
    pub derives: Vec<Vec<Token>>,
    /// The annotations of the original that it bears, by index.
    pub attributes: Vec<usize>,
}

/// The mathematical value of a [`CloneModel`].
pub ghost struct SpecCloneModel {
    pub name: Seq<char>,
    pub original_name: Seq<char>,
    pub derives: Seq<Seq<SpecToken>>,
    pub attributes: Seq<usize>,
}

impl DeepView for CloneModel {
    type V = SpecCloneModel;

    open spec fn deep_view(&self) -> SpecCloneModel {
        SpecCloneModel {
            name: self.name@,
            original_name: self.original_name@,
            derives: self.derives.deep_view(),
            attributes: self.attributes@,
        }
    }
}

/// The annotations that a copy bears: those that go by the three names
/// `view`, `patch` and `clone` at once.
pub open spec fn clone_kept() -> spec_fn(SpecAttribute) -> bool {
    |attr: SpecAttribute| attr.is_named("view"@) && attr.is_named("patch"@) && attr.is_named(
        "clone"@,
    )
}

/// No annotation goes by three names: a copy bears none.
pub proof fn lemma_clone_bears_nothing(attrs: Seq<SpecAttribute>)
    ensures
        selected(attrs, clone_kept()) == Seq::<usize>::empty(),
    decreases attrs.len(),
{
    reveal_strlit("view");
    reveal_strlit("patch");
    if attrs.len() > 0 {
        lemma_clone_bears_nothing(attrs.drop_last());
        let last = attrs.last();
        if last.is_named("view"@) && last.is_named("patch"@) {
            assert("view"@.len() == 4);
        }
    }
}

/// What `impl_clone_model` makes of the directive `attr` on `ast`.
pub open spec fn clone_model(ast: SpecDeclaration, attr: SpecAttribute) -> Result<
    SpecCloneModel,
    SpecError,
> {
    match clone_attributes_parsed(attr) {
        Err(e) => Err(e),
        Ok(args) => Ok(
            SpecCloneModel {
                name: args.name,
                original_name: ast.name,
                derives: ident_paths(args.derives),
                attributes: selected(ast.attrs, clone_kept()),
            },
        ),
    }
}

/// Derives the copy that the directive `attr` asks of the declaration
/// `ast`.
pub fn impl_clone_model(ast: &Declaration, attr: &Attribute) -> (r: Result<CloneModel, Error>)
    ensures
        match clone_model(ast.deep_view(), attr.deep_view()) {
            Ok(value) => r matches Ok(v) && v.deep_view() == value,
            Err(e) => r matches Err(x) && x.deep_view() == e,
        },
{
    let args = match parse_clone_attributes(attr) {
        Ok(v) => v,
        Err(e) => {
            return Err(e);
        },
    };
    let ghost all = ast.deep_view().attrs;
    let mut attributes: Vec<usize> = Vec::new();
    let mut i: usize = 0;
    while i < ast.attrs.len()
        invariant
            i <= ast.attrs.len(),
            all == ast.deep_view().attrs,
            attributes@ == selected(all.subrange(0, i as int), clone_kept()),
        decreases ast.attrs.len() - i,
    {
        proof {
            let upto = all.subrange(0, i + 1);
            assert(upto.drop_last() =~= all.subrange(0, i as int));
        }
        let a = &ast.attrs[i];
        if is_attribute(a, "view") && is_attribute(a, "patch") && is_attribute(a, "clone") {
            attributes.push(i);
        }
        i += 1;
    }
    assert(all.subrange(0, i as int) =~= all);
    Ok(
        CloneModel {
            name: args.name,
            original_name: ast.name.clone(),
            derives: paths_of(&args.derives),
            attributes,
        },
    )
}

} // verus!
