//! Patches: a derived record each of whose members is wrapped, so that a
//! value of it says member by member whether to change the original.

use vstd::prelude::*;
use crate::args::{
    directive_names, leftover, AttrArgs, ModelAttrArgs, SpecAttrArgs, SpecModelAttrArgs,
};
use crate::decl::{
    lemma_selected, pick_attributes, picked, selected, AttrStyle, Attribute, Declaration, Field,
    FieldType, Members, SpecAttribute, SpecDeclaration, SpecField, SpecFieldType, SpecMembers,
};
use crate::error::{Error, SpecError};
use crate::policy::{extract_docs, AttrTest, Capabilities, OptionType};
use crate::text::same_text;
use crate::token::{clone_tokens, SpecToken, Token};
use crate::view::{derive_attribute, derive_line, derive_list, field_kept, gen_derive};

verus! {

/// Whether `path` is one of the three ways to name the optional wrapper:
/// `Option`, `std::option::Option`, `core::option::Option`.
pub open spec fn is_option_path(path: Seq<Seq<char>>) -> bool {
    ||| path == seq!["Option"@]
    ||| path == seq!["std"@, "option"@, "Option"@]
    ||| path == seq!["core"@, "option"@, "Option"@]
}

/// The type that `ty` makes optional, where `ty` is written as the
/// optional wrapper of a type.
pub open spec fn option_argument(ty: SpecFieldType) -> Option<Seq<char>> {
    if is_option_path(ty.path) {
        ty.argument
    } else {
        None
    }
}

/// The type that `ty` makes optional, where `ty` is written as the
/// optional wrapper of a type: a path that names the wrapper in one of its
/// three ways, with a type as the first argument of its last segment.
pub fn extract_type_from_option(ty: &FieldType) -> (r: Option<&String>)
    ensures
        r.deep_view() == option_argument(ty.deep_view()),
{
    let path = &ty.path;
    let short = path.len() == 1 && same_text(&path[0], "Option");
    let long = path.len() == 3 && (same_text(&path[0], "std") || same_text(&path[0], "core"))
        && same_text(&path[1], "option") && same_text(&path[2], "Option");
    proof {
        let p = path.deep_view();
        if short {
            assert(p =~= seq!["Option"@]);
        }
        if long {
            assert(p =~= seq![p[0], "option"@, "Option"@]);
        }
        if is_option_path(p) {
            assert(p.len() == 1 ==> p[0] == seq!["Option"@][0]);
        }
    }
    if short || long {
        ty.argument.as_ref()
    } else {
        None
    }
}

/// A member of a patch.
#[derive(Debug, PartialEq, Eq)]
pub struct PatchField {
    /// The index of the field in the original record.
    pub index: usize,
    pub name: String,
    /// The annotations of the original field that it bears, by index
    /// among them: its lines of documentation.
    pub attrs: Vec<usize>,
    /// `Option`: the member is the optional wrapper of `inner`.
    /// `MaybeUndefined`: it is the three-state wrapper of `inner`.
    pub wrapper: OptionType,
    /// The wrapped type, as written.
    pub inner: String,
}

/// The mathematical value of a [`PatchField`].
pub ghost struct SpecPatchField {
    pub index: usize,
    pub name: Seq<char>,
    pub attrs: Seq<usize>,
    pub wrapper: OptionType,
    pub inner: Seq<char>,
}

impl DeepView for PatchField {
    type V = SpecPatchField;

    open spec fn deep_view(&self) -> SpecPatchField {
        SpecPatchField {
            index: self.index,
            name: self.name@,
            attrs: self.attrs@,
            wrapper: self.wrapper,
            inner: self.inner@,
        }
    }
}

/// How a patch under the policy `option` wraps a field of the type `ty`:
/// three states where the policy asks for them and the field is optional
/// already, else the plain optional wrapper.
pub open spec fn wrapper_of(ty: SpecFieldType, option: OptionType) -> OptionType {
    if option == OptionType::MaybeUndefined && option_argument(ty) is Some {
        OptionType::MaybeUndefined
    } else {
        OptionType::Option
    }
}

/// The member of a patch for the field `field`, found at `index`.
pub open spec fn patch_field(index: usize, field: SpecField, option: OptionType) -> SpecPatchField {
    SpecPatchField {
        index,
        name: field.name,
        attrs: selected(field.attrs, AttrTest::Doc.accepts()),
        wrapper: wrapper_of(field.ty, option),
        inner: if wrapper_of(field.ty, option) == OptionType::MaybeUndefined {
            option_argument(field.ty)->0
        } else {
            field.ty.text
        },
    }
}

/// The member of a patch for a field: its name, its documentation and its
/// wrapped type. `option_ty` is the type that the field's own type makes
/// optional, if it does.
pub fn impl_struct_fields(
    index: usize,
    field_name: &String,
    field_ty: &String,
    option_ty: Option<&String>,
    docs: Vec<usize>,
    option: OptionType,
) -> (r: PatchField)
    ensures
        r.deep_view() == (SpecPatchField {
            index,
            name: field_name@,
            attrs: docs@,
            wrapper: if option == OptionType::MaybeUndefined && option_ty is Some {
                OptionType::MaybeUndefined
            } else {
                OptionType::Option
            },
            inner: if option == OptionType::MaybeUndefined && option_ty is Some {
                option_ty->0@
            } else {
                field_ty@
            },
        }),
{
    match option {
        OptionType::MaybeUndefined => match option_ty {
            Some(t) => PatchField {
                index,
                name: field_name.clone(),
                attrs: docs,
                wrapper: OptionType::MaybeUndefined,
                inner: t.clone(),
            },
            None => PatchField {
                index,
                name: field_name.clone(),
                attrs: docs,
                wrapper: OptionType::Option,
                inner: field_ty.clone(),
            },
        },
        OptionType::Option => PatchField {
            index,
            name: field_name.clone(),
            attrs: docs,
            wrapper: OptionType::Option,
            inner: field_ty.clone(),
        },
    }
}

/// A field of a patch, and whether the original field is optional already.
#[derive(Debug, PartialEq, Eq)]
pub struct FieldFlag {
    pub name: String,
    pub is_option: bool,
}

/// The mathematical value of a [`FieldFlag`].
pub ghost struct SpecFieldFlag {
    pub name: Seq<char>,
    pub is_option: bool,
}

impl DeepView for FieldFlag {
    type V = SpecFieldFlag;

    open spec fn deep_view(&self) -> SpecFieldFlag {
        SpecFieldFlag { name: self.name@, is_option: self.is_option }
    }
}

/// One step of making or of merging a patch: the member it is about, the
/// field of that name, and the wrapper it goes by.
///
/// In making a patch from an original: by `Option`, the member is the
/// field's value, present; by `MaybeUndefined`, it is set to the value
/// where the field holds one and cleared where it holds none.
///
/// In merging a patch into a target: by `Option`, a present value
/// overwrites the field and an absent one leaves it; by `MaybeUndefined`, a
/// set value overwrites the field, a cleared one empties it, and one not
/// mentioned leaves it.
#[derive(Debug, PartialEq, Eq)]
pub struct PatchStep {
    /// The place of the member among the members of the patch.
    pub member: usize,
    pub field: String,
    pub wrapper: OptionType,
}

/// The mathematical value of a [`PatchStep`].
pub ghost struct SpecPatchStep {
    pub member: usize,
    pub field: Seq<char>,
    pub wrapper: OptionType,
}

impl DeepView for PatchStep {
    type V = SpecPatchStep;

    open spec fn deep_view(&self) -> SpecPatchStep {
        SpecPatchStep { member: self.member, field: self.field@, wrapper: self.wrapper }
    }
}

/// The fields whose flag is `is_option`.
pub open spec fn flagged(is_option: bool) -> spec_fn(SpecFieldFlag) -> bool {
    |f: SpecFieldFlag| f.is_option == is_option
}

/// Every place of a patch of `n` members, in order.
pub open spec fn every_place(n: nat) -> Seq<usize> {
    Seq::new(n, |k: int| k as usize)
}

/// One step by `wrapper` for each member of `fields` at `places`, in that
/// order.
pub open spec fn steps_at(fields: Seq<SpecFieldFlag>, places: Seq<usize>, wrapper: OptionType)
    -> Seq<SpecPatchStep> {
    Seq::new(
        places.len(),
        |k: int|
            SpecPatchStep { member: places[k], field: fields[places[k] as int].name, wrapper },
    )
}

/// The steps of merging a patch: under `Option`, one for each field in
/// order; under `MaybeUndefined`, first the fields that are not optional,
/// then those that are, these by three states.
pub open spec fn merge_steps(fields: Seq<SpecFieldFlag>, option: OptionType) -> Seq<
    SpecPatchStep,
> {
    match option {
        OptionType::Option => steps_at(fields, every_place(fields.len()), OptionType::Option),
        OptionType::MaybeUndefined => steps_at(
            fields,
            selected(fields, flagged(false)),
            OptionType::Option,
        ) + steps_at(fields, selected(fields, flagged(true)), OptionType::MaybeUndefined),
    }
}

/// The steps of making a patch from an original: under `Option`, one for
/// each field in order; under `MaybeUndefined`, first the fields that are
/// optional, by three states, then those that are not.
pub open spec fn from_steps(fields: Seq<SpecFieldFlag>, option: OptionType) -> Seq<SpecPatchStep> {
    match option {
        OptionType::Option => steps_at(fields, every_place(fields.len()), OptionType::Option),
        OptionType::MaybeUndefined => steps_at(
            fields,
            selected(fields, flagged(true)),
            OptionType::MaybeUndefined,
        ) + steps_at(fields, selected(fields, flagged(false)), OptionType::Option),
    }
}

/// Whether one of `steps` is about the member at the place `m`.
pub open spec fn names_member(steps: Seq<SpecPatchStep>, m: int) -> bool {
    exists|j: int| 0 <= j < steps.len() && (#[trigger] steps[j]).member == m
}

/// Whether `steps` are about each of `n` members once: every step names a
/// member, no two name the same, and every member is named.
pub open spec fn steps_cover(steps: Seq<SpecPatchStep>, n: nat) -> bool {
    &&& forall|j: int| 0 <= j < steps.len() ==> (#[trigger] steps[j]).member < n
    &&& forall|i: int, j: int|
        0 <= i < j < steps.len() ==> (#[trigger] steps[i]).member != (#[trigger] steps[j]).member
    &&& forall|m: int| 0 <= m < n ==> #[trigger] names_member(steps, m)
}

/// Both lists of steps are about each member of the patch once, whatever
/// the order in which they take the members.
pub proof fn lemma_steps_cover(fields: Seq<SpecFieldFlag>, option: OptionType)
    requires
        fields.len() <= usize::MAX,
    ensures
        steps_cover(merge_steps(fields, option), fields.len()),
        steps_cover(from_steps(fields, option), fields.len()),
{
    let n = fields.len();
    match option {
        OptionType::Option => {
            let steps = steps_at(fields, every_place(n), OptionType::Option);
            assert forall|m: int| 0 <= m < n implies #[trigger] names_member(steps, m) by {
                assert(steps[m].member == m);
            }
        },
        OptionType::MaybeUndefined => {
            let plain = selected(fields, flagged(false));
            let optional = selected(fields, flagged(true));
            lemma_selected(fields, flagged(false));
            lemma_selected(fields, flagged(true));
            let first = steps_at(fields, plain, OptionType::Option);
            let second = steps_at(fields, optional, OptionType::MaybeUndefined);
            assert forall|m: int| 0 <= m < n implies #[trigger] in_either(plain, optional, m) by {
                if fields[m].is_option {
                    assert(flagged(true)(fields[m]));
                } else {
                    assert(flagged(false)(fields[m]));
                }
            }
            assert forall|m: int| 0 <= m < n implies #[trigger] in_either(optional, plain, m) by {
                assert(in_either(plain, optional, m));
            }
            assert forall|j: int, k: int|
                0 <= j < plain.len() && 0 <= k < optional.len() implies plain[j] != optional[k] by {
                assert(flagged(false)(fields[plain[j] as int]));
                assert(flagged(true)(fields[optional[k] as int]));
            }
            lemma_parts_cover(fields, first, second, plain, optional);
            lemma_parts_cover(fields, second, first, optional, plain);
        },
    }
}

/// Whether the place `m` is among `a` or among `b`.
spec fn in_either(a: Seq<usize>, b: Seq<usize>, m: int) -> bool {
    a.contains(m as usize) || b.contains(m as usize)
}

/// Two lists of steps, one for the members at `a` and one for those at
/// `b`, are together about each member once, where `a` and `b` rise, have
/// no member in common and have every member between them.
proof fn lemma_parts_cover(
    fields: Seq<SpecFieldFlag>,
    first: Seq<SpecPatchStep>,
    second: Seq<SpecPatchStep>,
    a: Seq<usize>,
    b: Seq<usize>,
)
    requires
        fields.len() <= usize::MAX,
        first.len() == a.len(),
        second.len() == b.len(),
        forall|k: int| 0 <= k < a.len() ==> (#[trigger] first[k]).member == a[k],
        forall|k: int| 0 <= k < b.len() ==> (#[trigger] second[k]).member == b[k],
        forall|k: int| 0 <= k < a.len() ==> (#[trigger] a[k]) < fields.len(),
        forall|k: int| 0 <= k < b.len() ==> (#[trigger] b[k]) < fields.len(),
        forall|j: int, k: int| 0 <= j < k < a.len() ==> a[j] < a[k],
        forall|j: int, k: int| 0 <= j < k < b.len() ==> b[j] < b[k],
        forall|j: int, k: int| 0 <= j < a.len() && 0 <= k < b.len() ==> a[j] != b[k],
        forall|m: int| 0 <= m < fields.len() ==> #[trigger] in_either(a, b, m),
    ensures
        steps_cover(first + second, fields.len()),
{
    let steps = first + second;
    assert forall|j: int| 0 <= j < steps.len() implies (#[trigger] steps[j]).member
        < fields.len() by {
        if j < first.len() {
            assert(steps[j] == first[j]);
        } else {
            assert(steps[j] == second[j - first.len()]);
        }
    }
    assert forall|i: int, j: int| 0 <= i < j < steps.len() implies (#[trigger] steps[i]).member != (
    #[trigger] steps[j]).member by {
        if j < first.len() {
            assert(steps[i] == first[i] && steps[j] == first[j]);
        } else if i < first.len() {
            assert(steps[i] == first[i] && steps[j] == second[j - first.len()]);
        } else {
            assert(steps[i] == second[i - first.len()] && steps[j] == second[j - first.len()]);
        }
    }
    assert forall|m: int| 0 <= m < fields.len() implies #[trigger] names_member(steps, m) by {
        assert(in_either(a, b, m));
        if a.contains(m as usize) {
            let k = choose|k: int| 0 <= k < a.len() && a[k] == m as usize;
            assert(steps[k] == first[k]);
            assert(steps[k].member == m);
        } else {
            let k = choose|k: int| 0 <= k < b.len() && b[k] == m as usize;
            assert(steps[first.len() + k] == second[k]);
            assert(steps[first.len() + k].member == m);
        }
    }
}

/// One step by `wrapper` for each of `fields` whose flag is `is_option`.
fn steps_where(fields: &Vec<FieldFlag>, is_option: bool, wrapper: OptionType) -> (r: Vec<
    PatchStep,
>)
    ensures
        r.deep_view() == steps_at(
            fields.deep_view(),
            selected(fields.deep_view(), flagged(is_option)),
            wrapper,
        ),
{
    let ghost all = fields.deep_view();
    let mut out: Vec<PatchStep> = Vec::new();
    let mut i: usize = 0;
    assert(all.subrange(0, 0) =~= Seq::<SpecFieldFlag>::empty());
    while i < fields.len()
        invariant
            i <= fields.len(),
            all == fields.deep_view(),
            out.deep_view() == steps_at(
                all,
                selected(all.subrange(0, i as int), flagged(is_option)),
                wrapper,
            ),
        decreases fields.len() - i,
    {
        let ghost before = out.deep_view();
        proof {
            let upto = all.subrange(0, i + 1);
            assert(upto.drop_last() =~= all.subrange(0, i as int));
            assert(upto.last() == fields@[i as int].deep_view());
        }
        if fields[i].is_option == is_option {
            out.push(PatchStep { member: i, field: fields[i].name.clone(), wrapper });
            proof {
                let step = SpecPatchStep { member: i, field: all[i as int].name, wrapper };
                assert(out.deep_view() =~= before.push(step));
            }
        }
        i += 1;
    }
    assert(all.subrange(0, i as int) =~= all);
    out
}

/// One step by `Option` for each of `fields`.
fn steps_plain(fields: &Vec<FieldFlag>) -> (r: Vec<PatchStep>)
    ensures
        r.deep_view() == steps_at(
            fields.deep_view(),
            every_place(fields.deep_view().len()),
            OptionType::Option,
        ),
{
    let mut out: Vec<PatchStep> = Vec::new();
    let mut i: usize = 0;
    while i < fields.len()
        invariant
            i <= fields.len(),
            out.len() == i,
            forall|k: int|
                0 <= k < i ==> out@[k].deep_view() == (SpecPatchStep {
                    member: k as usize,
                    field: fields@[k].name@,
                    wrapper: OptionType::Option,
                }),
        decreases fields.len() - i,
    {
        out.push(
            PatchStep { member: i, field: fields[i].name.clone(), wrapper: OptionType::Option },
        );
        i += 1;
    }
    assert(out.deep_view() =~= steps_at(
        fields.deep_view(),
        every_place(fields.deep_view().len()),
        OptionType::Option,
    ));
    out
}

/// The first list, then the second.
fn steps_concat(a: Vec<PatchStep>, b: Vec<PatchStep>) -> (r: Vec<PatchStep>)
    ensures
        r.deep_view() == a.deep_view() + b.deep_view(),
{
    let mut out = a;
    let mut rest = b;
    out.append(&mut rest);
    out
}

/// The steps by which a patch of the fields `fields` is merged into a
/// target, under the policy `option`.
pub fn impl_merge(fields: &Vec<FieldFlag>, option: OptionType) -> (r: Vec<PatchStep>)
    ensures
        r.deep_view() == merge_steps(fields.deep_view(), option),
{
    match option {
        OptionType::MaybeUndefined => {
            let required = steps_where(fields, false, OptionType::Option);
            let optional = steps_where(fields, true, OptionType::MaybeUndefined);
            steps_concat(required, optional)
        },
        OptionType::Option => steps_plain(fields),
    }
}

/// The steps by which a patch of the fields `fields` is made from an
/// original, under the policy `option`.
pub fn impl_from_derived(fields: &Vec<FieldFlag>, option: OptionType) -> (r: Vec<PatchStep>)
    ensures
        r.deep_view() == from_steps(fields.deep_view(), option),
{
    match option {
        OptionType::MaybeUndefined => {
            let optional = steps_where(fields, true, OptionType::MaybeUndefined);
            let required = steps_where(fields, false, OptionType::Option);
            steps_concat(optional, required)
        },
        OptionType::Option => steps_plain(fields),
    }
}

/// A patch, as far as it is decided: the derived record and the steps of
/// its two operations.
#[derive(Debug, PartialEq, Eq)]
pub struct PatchModel {
    /// The name of the patch.
    pub name: String,
    /// The name of the record it is a patch of.
    pub original_name: String,
    /// What it derives.
    pub derives: Vec<Vec<Token>>,
    /// The annotations of the original that it bears, by index.
    pub attributes: Vec<usize>,
    /// The wrapping policy.
    pub option: OptionType,
    pub fields: Vec<PatchField>,
    /// The steps that make a patch from an original.
    pub from_derived: Vec<PatchStep>,
    /// The steps that merge a patch into a target.
    pub merge: Vec<PatchStep>,
}

/// The mathematical value of a [`PatchModel`].
pub ghost struct SpecPatchModel {
    pub name: Seq<char>,
    pub original_name: Seq<char>,
    pub derives: Seq<Seq<SpecToken>>,
    pub attributes: Seq<usize>,
    pub option: OptionType,
    pub fields: Seq<SpecPatchField>,
    pub from_derived: Seq<SpecPatchStep>,
    pub merge: Seq<SpecPatchStep>,
}

impl DeepView for PatchModel {
    type V = SpecPatchModel;

    open spec fn deep_view(&self) -> SpecPatchModel {
        SpecPatchModel {
            name: self.name@,
            original_name: self.original_name@,
            derives: self.derives.deep_view(),
            attributes: self.attributes@,
            option: self.option,
            fields: self.fields.deep_view(),
            from_derived: self.from_derived.deep_view(),
            merge: self.merge.deep_view(),
        }
    }
}

/// The members of a patch for the fields at `indices`.
pub open spec fn patch_fields_at(fields: Seq<SpecField>, indices: Seq<usize>, option: OptionType)
    -> Seq<SpecPatchField> {
    Seq::new(indices.len(), |k: int| patch_field(indices[k], fields[indices[k] as int], option))
}

/// The fields at `indices`, each with the flag that says whether it is
/// optional already.
pub open spec fn flags_at(fields: Seq<SpecField>, indices: Seq<usize>) -> Seq<SpecFieldFlag> {
    Seq::new(
        indices.len(),
        |k: int|
            SpecFieldFlag {
                name: fields[indices[k] as int].name,
                is_option: option_argument(fields[indices[k] as int].ty) is Some,
            },
    )
}

/// The patch of the declaration `ast` under the configuration `args` and
/// the wrapping policy `option`. Only a record has one.
pub open spec fn patch_of(ast: SpecDeclaration, args: SpecAttrArgs, option: OptionType) -> Result<
    SpecPatchModel,
    SpecError,
> {
    match ast.members {
        SpecMembers::Variants(_) => Err(SpecError::NotARecord),
        SpecMembers::Fields(fields) => Ok(
            SpecPatchModel {
                name: args.name,
                original_name: ast.name,
                derives: derive_list(args.derive),
                attributes: selected(ast.attrs, AttrTest::Top(args.attributes_with).accepts()),
                option,
                fields: patch_fields_at(fields, selected(fields, field_kept(args)), option),
                from_derived: from_steps(
                    flags_at(fields, selected(fields, field_kept(args))),
                    option,
                ),
                merge: merge_steps(flags_at(fields, selected(fields, field_kept(args))), option),
            },
        ),
    }
}

/// The names that a patch directive knows.
pub open spec fn patch_names() -> Seq<Seq<char>> {
    directive_names() + seq!["option"@]
}

/// What `impl_patch_model` makes of the directive `attr` on `ast`.
pub open spec fn patch_model(
    ast: SpecDeclaration,
    attr: SpecAttribute,
    model: SpecModelAttrArgs,
    caps: Capabilities,
) -> Result<SpecPatchModel, SpecError> {
    match AttrArgs::parsed(attr, model, false, caps) {
        Err(e) => Err(e),
        Ok((args, rest)) => match OptionType::parsed(rest) {
            Err(e) => Err(e),
            Ok((option, rest)) => match leftover(rest, patch_names()) {
                Some(e) => Err(e),
                None => patch_of(
                    ast,
                    args,
                    match option {
                        Some(o) => o,
                        None => args.preset.implied_option(),
                    },
                ),
            },
        },
    }
}

/// The fields of the record `data` that a patch keeps under `args`, each
/// wrapped by the policy `option`, and the flags of the same fields.
fn patch_fields(data: &Vec<Field>, args: &AttrArgs, option: OptionType) -> (r: (
    Vec<PatchField>,
    Vec<FieldFlag>,
))
    ensures
        r.0.deep_view() == patch_fields_at(
            data.deep_view(),
            selected(data.deep_view(), field_kept(args.deep_view())),
            option,
        ),
        r.1.deep_view() == flags_at(
            data.deep_view(),
            selected(data.deep_view(), field_kept(args.deep_view())),
        ),
{
    let ghost all = data.deep_view();
    let ghost keep = field_kept(args.deep_view());
    let mut fields: Vec<PatchField> = Vec::new();
    let mut flags: Vec<FieldFlag> = Vec::new();
    let mut i: usize = 0;
    while i < data.len()
        invariant
            i <= data.len(),
            all == data.deep_view(),
            keep == field_kept(args.deep_view()),
            fields.deep_view() == patch_fields_at(
                all,
                selected(all.subrange(0, i as int), keep),
                option,
            ),
            flags.deep_view() == flags_at(all, selected(all.subrange(0, i as int), keep)),
        decreases data.len() - i,
    {
        let ghost one = fields.deep_view();
        let ghost two = flags.deep_view();
        proof {
            let upto = all.subrange(0, i + 1);
            assert(upto.drop_last() =~= all.subrange(0, i as int));
        }
        let field = &data[i];
        if args.preset.predicate(field) && args.fields.predicate(&field.name) {
            let docs = extract_docs(&field.attrs);
            let option_ty = extract_type_from_option(&field.ty);
            flags.push(FieldFlag { name: field.name.clone(), is_option: option_ty.is_some() });
            fields.push(
                impl_struct_fields(i, &field.name, &field.ty.text, option_ty, docs, option),
            );
            proof {
                let f = all[i as int];
                assert(fields.deep_view() =~= one.push(patch_field(i, f, option)));
                assert(flags.deep_view() =~= two.push(
                    SpecFieldFlag { name: f.name, is_option: option_argument(f.ty) is Some },
                ));
            }
        }
        i += 1;
    }
    assert(all.subrange(0, i as int) =~= all);
    (fields, flags)
}

/// Derives the patch that the directive `attr` asks of the declaration
/// `ast`, under the type-level block `model_args`. Besides the arguments of
/// every directive it knows `option`; without it, the preset decides the
/// wrapping policy.
pub fn impl_patch_model(
    ast: &Declaration,
    attr: &Attribute,
    model_args: &ModelAttrArgs,
    caps: Capabilities,
) -> (r: Result<PatchModel, Error>)
    ensures
        match patch_model(ast.deep_view(), attr.deep_view(), model_args.deep_view(), caps) {
            Ok(value) => r matches Ok(v) && v.deep_view() == value,
            Err(e) => r matches Err(x) && x.deep_view() == e,
        },
{
    let (args, mut remainder) = match AttrArgs::parse(attr, model_args, false, caps) {
        Ok(v) => v,
        Err(e) => {
            return Err(e);
        },
    };
    let option = match OptionType::parse(&mut remainder) {
        Ok(Some(option)) => option,
        Ok(None) => args.preset.option(),
        Err(e) => {
            return Err(e);
        },
    };
    let ignore: Vec<&str> = vec!["option"];
    assert(ignore.deep_view() =~= seq!["option"@]);
    match AttrArgs::abort_unexpected(&remainder, &ignore) {
        Err(e) => {
            return Err(e);
        },
        Ok(()) => {},
    }
    let (fields, flags) = match &ast.members {
        Members::Fields(data) => patch_fields(data, &args, option),
        Members::Variants(_) => {
            return Err(Error::NotARecord);
        },
    };
    let attributes = args.attributes_with.gen_top_attributes(ast);
    let derives = gen_derive(args.derive.as_ref());
    let from_derived = impl_from_derived(&flags, option);
    let merge = impl_merge(&flags, option);
    Ok(
        PatchModel {
            name: args.name,
            original_name: ast.name.clone(),
            derives,
            attributes,
            option,
            fields,
            from_derived,
            merge,
        },
    )
}

/// The members of a patch are exactly the fields of the record that the
/// preset and the selector both keep, under their own names and in the
/// order of the record.
pub proof fn lemma_patch_members(
    ast: SpecDeclaration,
    args: SpecAttrArgs,
    option: OptionType,
    fields: Seq<SpecField>,
)
    requires
        ast.members == SpecMembers::Fields(fields),
        fields.len() <= usize::MAX,
    ensures
        patch_of(ast, args, option) is Ok,
        forall|k: int|
            0 <= k < patch_of(ast, args, option)->Ok_0.fields.len() ==> {
                let member = #[trigger] patch_of(ast, args, option)->Ok_0.fields[k];
                &&& member.index < fields.len()
                &&& args.preset.keeps(fields[member.index as int])
                &&& args.fields.predicate(fields[member.index as int].name)
                &&& member.name == fields[member.index as int].name
            },
        forall|j: int, k: int|
            0 <= j < k < patch_of(ast, args, option)->Ok_0.fields.len() ==> patch_of(
                ast,
                args,
                option,
            )->Ok_0.fields[j].index < patch_of(ast, args, option)->Ok_0.fields[k].index,
        forall|i: int|
            0 <= i < fields.len() && args.preset.keeps(fields[i]) && args.fields.predicate(
                fields[i].name,
            ) ==> exists|k: int|
                0 <= k < patch_of(ast, args, option)->Ok_0.fields.len() && (#[trigger] patch_of(
                    ast,
                    args,
                    option,
                )->Ok_0.fields[k]).index == i,
{
    let members = patch_of(ast, args, option)->Ok_0.fields;
    let indices = selected(fields, field_kept(args));
    lemma_selected(fields, field_kept(args));
    assert forall|i: int|
        0 <= i < fields.len() && args.preset.keeps(fields[i]) && args.fields.predicate(
            fields[i].name,
        ) implies exists|k: int| 0 <= k < members.len() && (#[trigger] members[k]).index == i by {
        let k = choose|k: int| 0 <= k < indices.len() && indices[k] == i as usize;
        assert(members[k].index == i);
    }
}

/// The type of a member of a patch: the wrapper `wrapper` around `inner`.
pub open spec fn wrapped_type(wrapper: OptionType, inner: Seq<char>) -> SpecFieldType {
    match wrapper {
        OptionType::Option => SpecFieldType {
            text: "core::option::Option<"@ + inner + ">"@,
            path: seq!["core"@, "option"@, "Option"@],
            argument: Some(inner),
        },
        OptionType::MaybeUndefined => SpecFieldType {
            text: "::poem_openapi::types::MaybeUndefined<"@ + inner + ">"@,
            path: seq!["poem_openapi"@, "types"@, "MaybeUndefined"@],
            argument: Some(inner),
        },
    }
}

/// The type of a member of a patch: the wrapper `wrapper` around `inner`.
pub fn wrap_type(wrapper: OptionType, inner: &String) -> (r: FieldType)
    ensures
        r.deep_view() == wrapped_type(wrapper, inner@),
{
    let mut path: Vec<String> = Vec::new();
    let mut text = String::new();
    match wrapper {
        OptionType::Option => {
            text.append("core::option::Option<");
            path.push(String::from_str("core"));
            path.push(String::from_str("option"));
            path.push(String::from_str("Option"));
            assert(path.deep_view() =~= seq!["core"@, "option"@, "Option"@]);
        },
        OptionType::MaybeUndefined => {
            text.append("::poem_openapi::types::MaybeUndefined<");
            path.push(String::from_str("poem_openapi"));
            path.push(String::from_str("types"));
            path.push(String::from_str("MaybeUndefined"));
            assert(path.deep_view() =~= seq!["poem_openapi"@, "types"@, "MaybeUndefined"@]);
        },
    }
    text.append(inner.as_str());
    text.append(">");
    FieldType { text, path, argument: Some(inner.clone()) }
}

/// The plain wrapper of a type is itself written as optional: a patch of
/// a patch finds it so.
pub proof fn lemma_wrapped_is_optional(inner: Seq<char>)
    ensures
        option_argument(wrapped_type(OptionType::Option, inner)) == Some(inner),
{
}

/// The line of documentation that a patch bears on behalf of the record
/// `original_name`.
pub open spec fn patch_doc(original_name: Seq<char>) -> SpecAttribute {
    SpecAttribute {
        path: seq!["doc"@],
        style: AttrStyle::NameValue,
        tokens: seq![
            SpecToken::Literal("\" Generated patch model of [`"@ + original_name + "`]\""@),
        ],
    }
}

/// The fields of a patch: for each of `members` the field of `fields` that
/// it is for, under its own name, public and wrapped. A member without a
/// field is passed over.
pub open spec fn patched_fields(fields: Seq<SpecField>, members: Seq<SpecPatchField>) -> Seq<
    SpecField,
>
    decreases members.len(),
{
    if members.len() == 0 {
        Seq::empty()
    } else {
        let head = patched_fields(fields, members.drop_last());
        let member = members.last();
        if member.index < fields.len() {
            let field = fields[member.index as int];
            head.push(
                SpecField {
                    name: field.name,
                    vis: seq![SpecToken::Ident("pub"@)],
                    ty: wrapped_type(member.wrapper, member.inner),
                    attrs: picked(field.attrs, member.attrs),
                },
            )
        } else {
            head
        }
    }
}

/// The declaration of the patch `patch` of `original`: a record under the
/// name of the patch, as visible as the original; it bears a line of
/// documentation, the derive line and the annotations carried over, and has
/// the wrapped members.
pub open spec fn patch_declaration(patch: SpecPatchModel, original: SpecDeclaration)
    -> SpecDeclaration {
    SpecDeclaration {
        name: patch.name,
        vis: original.vis,
        attrs: seq![patch_doc(patch.original_name), derive_attribute(patch.derives)] + picked(
            original.attrs,
            patch.attributes,
        ),
        members: SpecMembers::Fields(
            match original.members {
                SpecMembers::Fields(fields) => patched_fields(fields, patch.fields),
                SpecMembers::Variants(_) => Seq::empty(),
            },
        ),
    }
}

impl PatchModel {
    /// The declaration of this patch of `original`.
    pub fn declaration(&self, original: &Declaration) -> (r: Declaration)
        ensures
            r.deep_view() == patch_declaration(self.deep_view(), original.deep_view()),
    {
        let mut text = String::from_str("\" Generated patch model of [`");
        text.append(self.original_name.as_str());
        text.append("`]\"");
        let mut doc_tokens: Vec<Token> = Vec::new();
        doc_tokens.push(Token::Literal(text));
        let mut doc_path: Vec<String> = Vec::new();
        doc_path.push(String::from_str("doc"));
        let doc = Attribute { path: doc_path, style: AttrStyle::NameValue, tokens: doc_tokens };
        assert(doc.deep_view().path =~= seq!["doc"@]);
        assert(doc.deep_view().tokens =~= patch_doc(self.original_name@).tokens);
        let mut attrs: Vec<Attribute> = Vec::new();
        attrs.push(doc);
        attrs.push(derive_line(&self.derives));
        let mut carried = pick_attributes(&original.attrs, &self.attributes);
        let ghost head = attrs.deep_view();
        let ghost tail = carried.deep_view();
        attrs.append(&mut carried);
        proof {
            assert(head =~= seq![
                patch_doc(self.original_name@),
                derive_attribute(self.derives.deep_view()),
            ]);
            assert(attrs.deep_view() =~= head + tail);
        }
        let ghost members = self.fields.deep_view();
        let mut out: Vec<Field> = Vec::new();
        assert(out.deep_view() =~= Seq::<SpecField>::empty());
        match &original.members {
            Members::Fields(fields) => {
                let mut k: usize = 0;
                while k < self.fields.len()
                    invariant
                        k <= self.fields.len(),
                        members == self.fields.deep_view(),
                        out.deep_view() == patched_fields(
                            fields.deep_view(),
                            members.subrange(0, k as int),
                        ),
                    decreases self.fields.len() - k,
                {
                    proof {
                        let upto = members.subrange(0, k + 1);
                        assert(upto.drop_last() =~= members.subrange(0, k as int));
                    }
                    let member = &self.fields[k];
                    if member.index < fields.len() {
                        let field = &fields[member.index];
                        let mut vis: Vec<Token> = Vec::new();
                        vis.push(Token::ident("pub"));
                        assert(vis.deep_view() =~= seq![SpecToken::Ident("pub"@)]);
                        out.push(
                            Field {
                                name: field.name.clone(),
                                vis,
                                ty: wrap_type(member.wrapper, &member.inner),
                                attrs: pick_attributes(&field.attrs, &member.attrs),
                            },
                        );
                    }
                    k += 1;
                }
                assert(members.subrange(0, k as int) =~= members);
            },
            Members::Variants(_) => {},
        }
        Declaration {
            name: self.name.clone(),
            vis: clone_tokens(&original.vis),
            attrs,
            members: Members::Fields(out),
        }
    }
}

} // verus!
