//! Views: a derived type that keeps some members of the original as they
//! are, and the conversions between the two.

use vstd::prelude::*;
use crate::args::{clone_paths, AttrArgs, ModelAttrArgs, SpecAttrArgs, SpecModelAttrArgs};
use crate::decl::{
    lemma_selected, pick_attributes, picked, selected, AttrStyle, Attribute, Declaration, Field,
    Members, Shape, SpecAttribute, SpecDeclaration, SpecField, SpecMembers, SpecShape,
    SpecVariant, Variant,
};
use crate::error::{Error, SpecError};
use crate::policy::{extract_docs, AttrTest, AttributesWith, Capabilities, Preset};
use crate::text::push_char;
use crate::token::{clone_tokens, SpecToken, Token};

verus! {

/// The three shapes of a variant.
#[derive(Clone, Copy, Debug, PartialEq, Eq, Structural)]
pub enum ShapeKind {
    Unit,
    Positional,
    Named,
}

impl SpecShape {
    /// Which of the three shapes this is.
    pub open spec fn kind(self) -> ShapeKind {
        match self {
            SpecShape::Unit => ShapeKind::Unit,
            SpecShape::Positional(_) => ShapeKind::Positional,
            SpecShape::Named(_) => ShapeKind::Named,
        }
    }
}

/// A member of a derived type: the member of the original that it repeats,
/// and what it bears.
#[derive(Debug, PartialEq, Eq)]
pub struct ViewMember {
    /// The index of the member in the original declaration.
    pub index: usize,
    pub name: String,
    /// The lines of documentation it keeps: indices among the annotations
    /// of the original member.
    pub docs: Vec<usize>,
    /// The annotations carried over: indices among those of the original member.
    pub attrs: Vec<usize>,
}

/// The mathematical value of a [`ViewMember`].
pub ghost struct SpecViewMember {
    pub index: usize,
    pub name: Seq<char>,
    pub docs: Seq<usize>,
    pub attrs: Seq<usize>,
}

impl DeepView for ViewMember {
    type V = SpecViewMember;

    open spec fn deep_view(&self) -> SpecViewMember {
        SpecViewMember {
            index: self.index,
            name: self.name@,
            docs: self.docs@,
            attrs: self.attrs@,
        }
    }
}

/// One step of a conversion between the original and a derived type.
#[derive(Debug, PartialEq, Eq)]
pub enum Mapping {
    /// The field `name` of the result is the field `name` of the source.
    Field { name: String },
    /// The variant `variant` of the source becomes the variant of that name
    /// of the result; `bindings` names what the pattern binds, in order.
    Arm { variant: String, kind: ShapeKind, arity: usize, bindings: Vec<String> },
}

/// The mathematical value of a [`Mapping`].
pub ghost enum SpecMapping {
    Field { name: Seq<char> },
    Arm { variant: Seq<char>, kind: ShapeKind, arity: usize, bindings: Seq<Seq<char>> },
}

impl DeepView for Mapping {
    type V = SpecMapping;

    open spec fn deep_view(&self) -> SpecMapping {
        match self {
            Mapping::Field { name } => SpecMapping::Field { name: name@ },
            Mapping::Arm { variant, kind, arity, bindings } => SpecMapping::Arm {
                variant: variant@,
                kind: *kind,
                arity: *arity,
                bindings: bindings.deep_view(),
            },
        }
    }
}

impl SpecMapping {
    /// Whether the pattern of an arm has the shape of its variant: it binds
    /// as many names as the variant has elements.
    pub open spec fn fits(self) -> bool {
        match self {
            SpecMapping::Field { .. } => true,
            SpecMapping::Arm { arity, bindings, .. } => bindings.len() == arity,
        }
    }
}

/// Which members of a record the configuration `args` keeps.
pub open spec fn field_kept(args: SpecAttrArgs) -> spec_fn(SpecField) -> bool {
    |f: SpecField| args.preset.keeps(f) && args.fields.predicate(f.name)
}

/// Which variants of a tagged union the configuration `args` keeps.
pub open spec fn variant_kept(args: SpecAttrArgs) -> spec_fn(SpecVariant) -> bool {
    |v: SpecVariant| args.preset.keeps_annotated(v.attrs) && args.fields.predicate(v.name)
}

/// The member of a view that repeats a member of the original with the
/// name `name` and the annotations `attrs`, found at `index`.
pub open spec fn member_of(
    index: usize,
    name: Seq<char>,
    attrs: Seq<SpecAttribute>,
    policy: AttributesWith,
) -> SpecViewMember {
    SpecViewMember {
        index,
        name,
        docs: selected(attrs, AttrTest::Doc.accepts()),
        attrs: selected(attrs, AttrTest::Member(policy).accepts()),
    }
}

/// The members of a view that repeat the fields at `indices`.
pub open spec fn fields_at(fields: Seq<SpecField>, indices: Seq<usize>, policy: AttributesWith)
    -> Seq<SpecViewMember> {
    Seq::new(
        indices.len(),
        |k: int|
            member_of(
                indices[k],
                fields[indices[k] as int].name,
                fields[indices[k] as int].attrs,
                policy,
            ),
    )
}

/// The members of a view of a record: one for each field that `args`
/// keeps, in the order of the record.
pub open spec fn record_members(fields: Seq<SpecField>, args: SpecAttrArgs) -> Seq<
    SpecViewMember,
> {
    fields_at(fields, selected(fields, field_kept(args)), args.attributes_with)
}

/// The copies of the fields `members`, one `name: value.name` each.
pub open spec fn field_copies(members: Seq<SpecViewMember>) -> Seq<SpecMapping> {
    Seq::new(members.len(), |k: int| SpecMapping::Field { name: members[k].name })
}

/// The fields of the record `data` that a view keeps under `args`. Appends
/// the copy of each of them to both lists of mappings.
pub fn impl_for_struct(
    data: &Vec<Field>,
    field_mapping: &mut Vec<Mapping>,
    field_mapping_reverse: &mut Vec<Mapping>,
    args: &AttrArgs,
) -> (r: Vec<ViewMember>)
    ensures
        r.deep_view() == record_members(data.deep_view(), args.deep_view()),
        final(field_mapping).deep_view() == old(field_mapping).deep_view() + field_copies(
            record_members(data.deep_view(), args.deep_view()),
        ),
        final(field_mapping_reverse).deep_view() == old(field_mapping_reverse).deep_view()
            + field_copies(record_members(data.deep_view(), args.deep_view())),
{
    let ghost all = data.deep_view();
    let ghost keep = field_kept(args.deep_view());
    let ghost policy = args.attributes_with;
    let ghost first = field_mapping.deep_view();
    let ghost second = field_mapping_reverse.deep_view();
    let mut out: Vec<ViewMember> = Vec::new();
    let mut i: usize = 0;
    while i < data.len()
        invariant
            i <= data.len(),
            all == data.deep_view(),
            keep == field_kept(args.deep_view()),
            policy == args.attributes_with,
            out.deep_view() == fields_at(all, selected(all.subrange(0, i as int), keep), policy),
            field_mapping.deep_view() == first + field_copies(out.deep_view()),
            field_mapping_reverse.deep_view() == second + field_copies(out.deep_view()),
        decreases data.len() - i,
    {
        let ghost before = out.deep_view();
        let ghost one = field_mapping.deep_view();
        let ghost two = field_mapping_reverse.deep_view();
        proof {
            let upto = all.subrange(0, i + 1);
            assert(upto.drop_last() =~= all.subrange(0, i as int));
        }
        let field = &data[i];
        if args.preset.predicate(field) && args.fields.predicate(&field.name) {
            out.push(
                ViewMember {
                    index: i,
                    name: field.name.clone(),
                    docs: extract_docs(&field.attrs),
                    attrs: args.attributes_with.gen_field_attributes(&field.attrs),
                },
            );
            field_mapping.push(Mapping::Field { name: field.name.clone() });
            field_mapping_reverse.push(Mapping::Field { name: field.name.clone() });
            proof {
                let member = member_of(i, all[i as int].name, all[i as int].attrs, policy);
                assert(out.deep_view() =~= before.push(member));
                assert(field_mapping.deep_view() =~= one.push(
                    SpecMapping::Field { name: member.name },
                ));
                assert(field_mapping_reverse.deep_view() =~= two.push(
                    SpecMapping::Field { name: member.name },
                ));
            }
        }
        i += 1;
    }
    assert(all.subrange(0, i as int) =~= all);
    out
}

/// The letter of the placeholder with the number `i`: `a` to `z`, then
/// over again.
pub open spec fn letter(i: nat) -> char {
    ((97 + i % 26) as u8) as char
}

/// The name that the pattern of a positional variant binds in the place
/// `i`: `a`, `b`, ... `z`, then `aa`, `bb`, and so on.
pub open spec fn placeholder(i: nat) -> Seq<char> {
    Seq::new(i / 26 + 1, |k: int| letter(i))
}

/// Two places have two names.
pub proof fn lemma_placeholders_differ(i: nat, j: nat)
    requires
        i != j,
    ensures
        placeholder(i) != placeholder(j),
{
    if i / 26 == j / 26 {
        assert(placeholder(i)[0] == letter(i));
    } else {
        assert(placeholder(i).len() != placeholder(j).len());
    }
}

/// The name that the pattern of a positional variant binds in the place `i`.
pub fn placeholder_name(i: usize) -> (r: String)
    ensures
        r@ == placeholder(i as nat),
{
    let code: u8 = 97u8 + (i % 26) as u8;
    let c = code as char;
    let n = i / 26 + 1;
    let mut out = String::new();
    let mut k: usize = 0;
    while k < n
        invariant
            k <= n,
            c == letter(i as nat),
            out@ == Seq::new(k as nat, |x: int| letter(i as nat)),
        decreases n - k,
    {
        push_char(&mut out, c);
        k += 1;
    }
    out
}

/// The indices of all `n` elements of a variant.
pub open spec fn all_elements(n: nat) -> Seq<usize> {
    Seq::new(n, |k: int| k as usize)
}

/// The names that the pattern of a variant of the shape `shape` binds for
/// the elements `bound`: none for a unit variant, placeholders in order for
/// a positional one, the elements' own names for a named one.
pub open spec fn bound_names(shape: SpecShape, bound: Seq<usize>) -> Seq<Seq<char>> {
    match shape {
        SpecShape::Unit => Seq::empty(),
        SpecShape::Positional(_) => Seq::new(bound.len(), |k: int| placeholder(k as nat)),
        SpecShape::Named(fields) => Seq::new(bound.len(), |k: int| fields[bound[k] as int].name),
    }
}

/// The arm for the variant `v` whose pattern binds the elements `bound`.
pub open spec fn arm_of(v: SpecVariant, bound: Seq<usize>) -> SpecMapping {
    SpecMapping::Arm {
        variant: v.name,
        kind: v.shape.kind(),
        arity: v.shape.elements().len() as usize,
        bindings: bound_names(v.shape, bound),
    }
}

/// The arm that takes the variant `v` of a view back to the original: its
/// pattern binds the elements that `preset` keeps.
pub open spec fn arm_into_original(v: SpecVariant, preset: Preset) -> SpecMapping {
    arm_of(v, selected(v.shape.elements(), preset.keeps_fields()))
}

/// The arm that takes the variant `v` of the original to the view: its
/// pattern binds every element.
pub open spec fn arm_from_original(v: SpecVariant) -> SpecMapping {
    arm_of(v, all_elements(v.shape.elements().len()))
}

/// The members of a view that repeat the variants at `indices`.
pub open spec fn variants_at(
    variants: Seq<SpecVariant>,
    indices: Seq<usize>,
    policy: AttributesWith,
) -> Seq<SpecViewMember> {
    Seq::new(
        indices.len(),
        |k: int|
            member_of(
                indices[k],
                variants[indices[k] as int].name,
                variants[indices[k] as int].attrs,
                policy,
            ),
    )
}

/// The members of a view of a tagged union: one for each variant that
/// `args` keeps, in the order of the union.
pub open spec fn union_members(variants: Seq<SpecVariant>, args: SpecAttrArgs) -> Seq<
    SpecViewMember,
> {
    variants_at(variants, selected(variants, variant_kept(args)), args.attributes_with)
}

/// The arms that take the variants at `indices` back to the original.
pub open spec fn arms_into_original(
    variants: Seq<SpecVariant>,
    indices: Seq<usize>,
    preset: Preset,
) -> Seq<SpecMapping> {
    Seq::new(indices.len(), |k: int| arm_into_original(variants[indices[k] as int], preset))
}

/// The arms that take the variants at `indices` to the view.
pub open spec fn arms_from_original(variants: Seq<SpecVariant>, indices: Seq<usize>) -> Seq<
    SpecMapping,
> {
    Seq::new(indices.len(), |k: int| arm_from_original(variants[indices[k] as int]))
}

/// The names that a pattern binds for the elements `bound` of `elements`.
fn names_bound(shape: &Shape, bound: &Vec<usize>) -> (r: Vec<String>)
    requires
        forall|k: int| 0 <= k < bound.len() ==> bound@[k] < shape.deep_view().elements().len(),
    ensures
        r.deep_view() == bound_names(shape.deep_view(), bound@),
{
    let mut out: Vec<String> = Vec::new();
    match shape {
        Shape::Unit => {
        },
        Shape::Positional(_) => {
            let mut k: usize = 0;
            while k < bound.len()
                invariant
                    k <= bound.len(),
                    out.len() == k,
                    forall|j: int| 0 <= j < k ==> out@[j]@ == placeholder(j as nat),
                decreases bound.len() - k,
            {
                out.push(placeholder_name(k));
                k += 1;
            }
        },
        Shape::Named(fields) => {
            let mut k: usize = 0;
            while k < bound.len()
                invariant
                    k <= bound.len(),
                    out.len() == k,
                    forall|j: int| 0 <= j < bound.len() ==> bound@[j] < fields.len(),
                    forall|j: int| 0 <= j < k ==> out@[j]@ == fields@[bound@[j] as int].name@,
                decreases bound.len() - k,
            {
                out.push(fields[bound[k]].name.clone());
                k += 1;
            }
        },
    }
    out
}

/// How many elements a variant of the shape `shape` has.
spec fn arity_len(shape: &Shape) -> usize {
    match shape {
        Shape::Unit => 0,
        Shape::Positional(elements) => elements.len(),
        Shape::Named(fields) => fields.len(),
    }
}

/// How many elements a variant of the shape `shape` has.
fn arity_of(shape: &Shape) -> (r: usize)
    ensures
        r == shape.deep_view().elements().len(),
{
    match shape {
        Shape::Unit => 0,
        Shape::Positional(elements) => elements.len(),
        Shape::Named(fields) => fields.len(),
    }
}

/// Which of the three shapes `shape` is.
fn kind_of(shape: &Shape) -> (r: ShapeKind)
    ensures
        r == shape.deep_view().kind(),
{
    match shape {
        Shape::Unit => ShapeKind::Unit,
        Shape::Positional(_) => ShapeKind::Positional,
        Shape::Named(_) => ShapeKind::Named,
    }
}

/// The elements of `shape` that `preset` keeps: their indices, in order.
fn elements_kept(shape: &Shape, preset: &Preset) -> (r: Vec<usize>)
    ensures
        r@ == selected(shape.deep_view().elements(), preset.keeps_fields()),
        forall|k: int| 0 <= k < r.len() ==> r@[k] < shape.deep_view().elements().len(),
{
    proof {
        assert(shape.deep_view().elements().len() == arity_len(shape));
        lemma_selected(shape.deep_view().elements(), preset.keeps_fields());
    }
    match shape {
        Shape::Unit => Vec::new(),
        Shape::Positional(elements) => preset.select_fields(elements),
        Shape::Named(fields) => preset.select_fields(fields),
    }
}

/// The indices of all elements of `shape`.
fn elements_all(shape: &Shape) -> (r: Vec<usize>)
    ensures
        r@ == all_elements(shape.deep_view().elements().len()),
{
    let n = arity_of(shape);
    let mut out: Vec<usize> = Vec::new();
    let mut k: usize = 0;
    while k < n
        invariant
            k <= n,
            out.len() == k,
            forall|j: int| 0 <= j < k ==> out@[j] == j,
        decreases n - k,
    {
        out.push(k);
        k += 1;
    }
    out
}

/// The variants of the tagged union `data` that a view keeps under `args`,
/// each with its own shape. Appends to `field_mapping` the arm that takes
/// each of them back to the original, and to `field_mapping_reverse` the arm
/// that takes it to the view.
pub fn impl_for_enum(
    data: &Vec<Variant>,
    field_mapping: &mut Vec<Mapping>,
    field_mapping_reverse: &mut Vec<Mapping>,
    args: &AttrArgs,
) -> (r: Vec<ViewMember>)
    ensures
        r.deep_view() == union_members(data.deep_view(), args.deep_view()),
        final(field_mapping).deep_view() == old(field_mapping).deep_view() + arms_into_original(
            data.deep_view(),
            selected(data.deep_view(), variant_kept(args.deep_view())),
            args.preset,
        ),
        final(field_mapping_reverse).deep_view() == old(field_mapping_reverse).deep_view()
            + arms_from_original(
            data.deep_view(),
            selected(data.deep_view(), variant_kept(args.deep_view())),
        ),
{
    let ghost all = data.deep_view();
    let ghost keep = variant_kept(args.deep_view());
    let ghost policy = args.attributes_with;
    let ghost first = field_mapping.deep_view();
    let ghost second = field_mapping_reverse.deep_view();
    let mut out: Vec<ViewMember> = Vec::new();
    let mut i: usize = 0;
    while i < data.len()
        invariant
            i <= data.len(),
            all == data.deep_view(),
            keep == variant_kept(args.deep_view()),
            policy == args.attributes_with,
            out.deep_view() == variants_at(
                all,
                selected(all.subrange(0, i as int), keep),
                policy,
            ),
            field_mapping.deep_view() == first + arms_into_original(
                all,
                selected(all.subrange(0, i as int), keep),
                args.preset,
            ),
            field_mapping_reverse.deep_view() == second + arms_from_original(
                all,
                selected(all.subrange(0, i as int), keep),
            ),
        decreases data.len() - i,
    {
        let ghost before = out.deep_view();
        let ghost one = field_mapping.deep_view();
        let ghost two = field_mapping_reverse.deep_view();
        proof {
            let upto = all.subrange(0, i + 1);
            assert(upto.drop_last() =~= all.subrange(0, i as int));
        }
        let variant = &data[i];
        if args.preset.predicate_annotated(&variant.attrs) && args.fields.predicate(&variant.name) {
            out.push(
                ViewMember {
                    index: i,
                    name: variant.name.clone(),
                    docs: extract_docs(&variant.attrs),
                    attrs: args.attributes_with.gen_field_attributes(&variant.attrs),
                },
            );
            let kept = elements_kept(&variant.shape, &args.preset);
            let every = elements_all(&variant.shape);
            field_mapping.push(
                Mapping::Arm {
                    variant: variant.name.clone(),
                    kind: kind_of(&variant.shape),
                    arity: arity_of(&variant.shape),
                    bindings: names_bound(&variant.shape, &kept),
                },
            );
            field_mapping_reverse.push(
                Mapping::Arm {
                    variant: variant.name.clone(),
                    kind: kind_of(&variant.shape),
                    arity: arity_of(&variant.shape),
                    bindings: names_bound(&variant.shape, &every),
                },
            );
            proof {
                let v = all[i as int];
                let member = member_of(i, v.name, v.attrs, policy);
                assert(out.deep_view() =~= before.push(member));
                assert(field_mapping.deep_view() =~= one.push(arm_into_original(v, args.preset)));
                assert(field_mapping_reverse.deep_view() =~= two.push(arm_from_original(v)));
            }
        }
        i += 1;
    }
    assert(all.subrange(0, i as int) =~= all);
    out
}

/// The conversions that go with a view.
#[derive(Debug, PartialEq, Eq)]
pub enum Conversions {
    /// Of a record: the view is made from the original, field by field.
    Record { from_original: Vec<Mapping> },
    /// Of a tagged union. The original is made from the view, arm by arm;
    /// where an arm would not have its variant's shape, that failure stands
    /// in place of the arms. The view is made from the original by
    /// `from_original`, and an original of any other variant is refused.
    Union { into_original: Result<Vec<Mapping>, Error>, from_original: Vec<Mapping> },
}

/// The mathematical value of [`Conversions`].
pub ghost enum SpecConversions {
    Record { from_original: Seq<SpecMapping> },
    Union { into_original: Result<Seq<SpecMapping>, SpecError>, from_original: Seq<SpecMapping> },
}

impl DeepView for Conversions {
    type V = SpecConversions;

    open spec fn deep_view(&self) -> SpecConversions {
        match self {
            Conversions::Record { from_original } => SpecConversions::Record {
                from_original: from_original.deep_view(),
            },
            Conversions::Union { into_original, from_original } => SpecConversions::Union {
                into_original: match into_original {
                    Ok(arms) => Ok(arms.deep_view()),
                    Err(e) => Err(e.deep_view()),
                },
                from_original: from_original.deep_view(),
            },
        }
    }
}

/// The variant of the first arm among `arms` whose pattern has not the
/// shape of its variant.
pub open spec fn first_misfit(arms: Seq<SpecMapping>) -> Option<Seq<char>>
    decreases arms.len(),
{
    if arms.len() == 0 {
        None
    } else {
        match arms[0] {
            SpecMapping::Arm { variant, arity, bindings, .. } => if bindings.len() != arity {
                Some(variant)
            } else {
                first_misfit(arms.drop_first())
            },
            _ => first_misfit(arms.drop_first()),
        }
    }
}

/// The arms `arms` if each has the shape of its variant, else the failure
/// on the first that has not.
pub open spec fn shapes_checked(arms: Seq<SpecMapping>) -> Result<Seq<SpecMapping>, SpecError> {
    match first_misfit(arms) {
        Some(variant) => Err(SpecError::ShapeMismatch { variant }),
        None => Ok(arms),
    }
}

/// The conversions made of the two lists of mappings.
pub open spec fn conversions_of(
    field_mapping: Seq<SpecMapping>,
    field_mapping_reverse: Seq<SpecMapping>,
    is_struct: bool,
) -> SpecConversions {
    if is_struct {
        SpecConversions::Record { from_original: field_mapping }
    } else {
        SpecConversions::Union {
            into_original: shapes_checked(field_mapping),
            from_original: field_mapping_reverse,
        }
    }
}

/// Checks, before any arm is put out, that each of `arms` has the shape of
/// its variant.
pub fn check_shapes(arms: Vec<Mapping>) -> (r: Result<Vec<Mapping>, Error>)
    ensures
        match shapes_checked(arms.deep_view()) {
            Ok(value) => r matches Ok(v) && v.deep_view() == value,
            Err(e) => r matches Err(x) && x.deep_view() == e,
        },
{
    let ghost all = arms.deep_view();
    let mut i: usize = 0;
    assert(all.subrange(0, all.len() as int) =~= all);
    while i < arms.len()
        invariant
            i <= arms.len(),
            all == arms.deep_view(),
            first_misfit(all) == first_misfit(all.subrange(i as int, all.len() as int)),
        decreases arms.len() - i,
    {
        proof {
            let tail = all.subrange(i as int, all.len() as int);
            assert(tail.drop_first() =~= all.subrange(i + 1, all.len() as int));
        }
        match &arms[i] {
            Mapping::Arm { variant, arity, bindings, .. } => {
                if bindings.len() != *arity {
                    return Err(Error::ShapeMismatch { variant: variant.clone() });
                }
            },
            _ => {},
        }
        i += 1;
    }
    Ok(arms)
}

/// Puts the conversions of a view together from the two lists of
/// mappings: of a record, the copies of its fields; of a tagged union, the
/// arms in both directions.
pub fn impl_from_trait(
    field_mapping: Vec<Mapping>,
    field_mapping_reverse: Vec<Mapping>,
    is_struct: bool,
) -> (r: Conversions)
    ensures
        r.deep_view() == conversions_of(
            field_mapping.deep_view(),
            field_mapping_reverse.deep_view(),
            is_struct,
        ),
{
    if is_struct {
        Conversions::Record { from_original: field_mapping }
    } else {
        Conversions::Union {
            into_original: check_shapes(field_mapping),
            from_original: field_mapping_reverse,
        }
    }
}

/// The derive list of a derived type: the paths given, or none.
pub open spec fn derive_list(from_args: Option<Seq<Seq<SpecToken>>>) -> Seq<Seq<SpecToken>> {
    match from_args {
        Some(paths) => paths,
        None => Seq::empty(),
    }
}

/// The derive list of a derived type.
pub fn gen_derive(from_args: Option<&Vec<Vec<Token>>>) -> (r: Vec<Vec<Token>>)
    ensures
        r.deep_view() == derive_list(from_args.deep_view()),
{
    match from_args {
        Some(paths) => clone_paths(paths),
        None => {
            let none: Vec<Vec<Token>> = Vec::new();
            none
        },
    }
}

/// A view, as far as it is decided: the derived declaration and its
/// conversions.
#[derive(Debug, PartialEq, Eq)]
pub struct ViewModel {
    /// The name of the view.
    pub name: String,
    /// The name of the type it is a view of.
    pub original_name: String,
    /// Whether it is a record; else it is a tagged union.
    pub is_struct: bool,
    /// What it derives.
    pub derives: Vec<Vec<Token>>,
    /// The annotations of the original that it bears, by index.
    pub attributes: Vec<usize>,
    pub members: Vec<ViewMember>,
    pub conversions: Conversions,
}

/// The mathematical value of a [`ViewModel`].
pub ghost struct SpecViewModel {
    pub name: Seq<char>,
    pub original_name: Seq<char>,
    pub is_struct: bool,
    pub derives: Seq<Seq<SpecToken>>,
    pub attributes: Seq<usize>,
    pub members: Seq<SpecViewMember>,
    pub conversions: SpecConversions,
}

impl DeepView for ViewModel {
    type V = SpecViewModel;

    open spec fn deep_view(&self) -> SpecViewModel {
        SpecViewModel {
            name: self.name@,
            original_name: self.original_name@,
            is_struct: self.is_struct,
            derives: self.derives.deep_view(),
            attributes: self.attributes@,
            members: self.members.deep_view(),
            conversions: self.conversions.deep_view(),
        }
    }
}

/// The view of the declaration `ast` under the configuration `args`.
pub open spec fn view_of(ast: SpecDeclaration, args: SpecAttrArgs) -> SpecViewModel {
    SpecViewModel {
        name: args.name,
        original_name: ast.name,
        is_struct: ast.members is Fields,
        derives: derive_list(args.derive),
        attributes: selected(ast.attrs, AttrTest::Top(args.attributes_with).accepts()),
        members: view_members(ast.members, args),
        conversions: match ast.members {
            SpecMembers::Fields(fields) => conversions_of(
                field_copies(record_members(fields, args)),
                field_copies(record_members(fields, args)),
                true,
            ),
            SpecMembers::Variants(variants) => conversions_of(
                arms_into_original(variants, selected(variants, variant_kept(args)), args.preset),
                arms_from_original(variants, selected(variants, variant_kept(args))),
                false,
            ),
        },
    }
}

/// The members that a view keeps.
pub open spec fn view_members(members: SpecMembers, args: SpecAttrArgs) -> Seq<SpecViewMember> {
    match members {
        SpecMembers::Fields(fields) => record_members(fields, args),
        SpecMembers::Variants(variants) => union_members(variants, args),
    }
}

/// What `impl_view_model` makes of the directive `attr` on `ast`.
pub open spec fn view_model(
    ast: SpecDeclaration,
    attr: SpecAttribute,
    model: SpecModelAttrArgs,
    caps: Capabilities,
) -> Result<SpecViewModel, SpecError> {
    match AttrArgs::parsed(attr, model, true, caps) {
        Err(e) => Err(e),
        Ok((args, _)) => Ok(view_of(ast, args)),
    }
}

/// Derives the view that the directive `attr` asks of the declaration
/// `ast`, under the type-level block `model_args`.
pub fn impl_view_model(
    ast: &Declaration,
    attr: &Attribute,
    model_args: &ModelAttrArgs,
    caps: Capabilities,
) -> (r: Result<ViewModel, Error>)
    ensures
        match view_model(ast.deep_view(), attr.deep_view(), model_args.deep_view(), caps) {
            Ok(value) => r matches Ok(v) && v.deep_view() == value,
            Err(e) => r matches Err(x) && x.deep_view() == e,
        },
{
    let args = match AttrArgs::parse(attr, model_args, true, caps) {
        Ok((args, _)) => args,
        Err(e) => {
            return Err(e);
        },
    };
    let mut field_mapping: Vec<Mapping> = Vec::new();
    let mut field_mapping_reverse: Vec<Mapping> = Vec::new();
    let (members, is_struct) = match &ast.members {
        Members::Fields(fields) => (
            impl_for_struct(fields, &mut field_mapping, &mut field_mapping_reverse, &args),
            true,
        ),
        Members::Variants(variants) => (
            impl_for_enum(variants, &mut field_mapping, &mut field_mapping_reverse, &args),
            false,
        ),
    };
    let attributes = args.attributes_with.gen_top_attributes(ast);
    let derives = gen_derive(args.derive.as_ref());
    let conversions = impl_from_trait(field_mapping, field_mapping_reverse, is_struct);
    Ok(
        ViewModel {
            name: args.name,
            original_name: ast.name.clone(),
            is_struct,
            derives,
            attributes,
            members,
            conversions,
        },
    )
}

/// Whether the configuration `args` keeps the member of `members` at `i`:
/// both its preset and its selector do.
pub open spec fn member_kept(members: SpecMembers, args: SpecAttrArgs, i: int) -> bool {
    match members {
        SpecMembers::Fields(fields) => args.preset.keeps(fields[i]) && args.fields.predicate(
            fields[i].name,
        ),
        SpecMembers::Variants(variants) => args.preset.keeps_annotated(variants[i].attrs)
            && args.fields.predicate(variants[i].name),
    }
}

/// The members of a view are exactly the members of the original that the
/// preset and the selector both keep, under their own names and in the
/// order of the original.
pub proof fn lemma_view_members(ast: SpecDeclaration, args: SpecAttrArgs)
    requires
        ast.members.len() <= usize::MAX,
    ensures
        forall|k: int|
            0 <= k < view_of(ast, args).members.len() ==> {
                let member = #[trigger] view_of(ast, args).members[k];
                &&& member.index < ast.members.len()
                &&& member_kept(ast.members, args, member.index as int)
                &&& member.name == ast.members.names()[member.index as int]
            },
        forall|j: int, k: int|
            0 <= j < k < view_of(ast, args).members.len() ==> view_of(ast, args).members[j].index
                < view_of(ast, args).members[k].index,
        forall|i: int|
            0 <= i < ast.members.len() && member_kept(ast.members, args, i) ==> exists|k: int|
                0 <= k < view_of(ast, args).members.len() && (#[trigger] view_of(
                    ast,
                    args,
                ).members[k]).index == i,
{
    let members = view_of(ast, args).members;
    match ast.members {
        SpecMembers::Fields(fields) => {
            let indices = selected(fields, field_kept(args));
            lemma_selected(fields, field_kept(args));
            assert forall|i: int|
                0 <= i < ast.members.len() && member_kept(ast.members, args, i) implies exists|
                k: int,
            |
                0 <= k < members.len() && (#[trigger] members[k]).index == i by {
                let k = choose|k: int| 0 <= k < indices.len() && indices[k] == i as usize;
                assert(members[k].index == i);
            }
        },
        SpecMembers::Variants(variants) => {
            let indices = selected(variants, variant_kept(args));
            lemma_selected(variants, variant_kept(args));
            assert forall|i: int|
                0 <= i < ast.members.len() && member_kept(ast.members, args, i) implies exists|
                k: int,
            |
                0 <= k < members.len() && (#[trigger] members[k]).index == i by {
                let k = choose|k: int| 0 <= k < indices.len() && indices[k] == i as usize;
                assert(members[k].index == i);
            }
        },
    }
}

/// The paths `paths` with a comma between two of them: what stands inside
/// the brackets of a derive line.
pub open spec fn derive_tokens(paths: Seq<Seq<SpecToken>>) -> Seq<SpecToken>
    decreases paths.len(),
{
    if paths.len() == 0 {
        Seq::empty()
    } else if paths.len() == 1 {
        paths[0]
    } else {
        derive_tokens(paths.drop_last()) + seq![SpecToken::Punct(',', false)] + paths.last()
    }
}

/// The derive line of a derived type: `#[derive(path, ...)]`.
pub open spec fn derive_attribute(paths: Seq<Seq<SpecToken>>) -> SpecAttribute {
    SpecAttribute {
        path: seq!["derive"@],
        style: AttrStyle::List,
        tokens: derive_tokens(paths),
    }
}

/// The derive line of a derived type that derives `paths`.
pub fn derive_line(paths: &Vec<Vec<Token>>) -> (r: Attribute)
    ensures
        r.deep_view() == derive_attribute(paths.deep_view()),
{
    let ghost all = paths.deep_view();
    let mut tokens: Vec<Token> = Vec::new();
    let mut i: usize = 0;
    while i < paths.len()
        invariant
            i <= paths.len(),
            all == paths.deep_view(),
            tokens.deep_view() == derive_tokens(all.subrange(0, i as int)),
        decreases paths.len() - i,
    {
        proof {
            let upto = all.subrange(0, i + 1);
            assert(upto.drop_last() =~= all.subrange(0, i as int));
        }
        if i > 0 {
            tokens.push(Token::Punct(',', false));
        }
        let mut path = clone_tokens(&paths[i]);
        tokens.append(&mut path);
        i += 1;
    }
    assert(all.subrange(0, i as int) =~= all);
    let attr = Attribute::list("derive", tokens);
    attr
}

/// The line of documentation that a view bears on behalf of the type
/// `original_name`.
pub open spec fn view_doc(original_name: Seq<char>) -> SpecAttribute {
    SpecAttribute {
        path: seq!["doc"@],
        style: AttrStyle::NameValue,
        tokens: seq![
            SpecToken::Literal(
                "\"This is a restructured (View) model of ['"@ + original_name
                    + "']. Refer to the original model for more structual documentation.\""@,
            ),
        ],
    }
}

/// What a member of a derived type bears: of the annotations `attrs` of
/// the original member, the lines of documentation `docs`, then the
/// annotations `kept`.
pub open spec fn borne(attrs: Seq<SpecAttribute>, docs: Seq<usize>, kept: Seq<usize>) -> Seq<
    SpecAttribute,
> {
    picked(attrs, docs) + picked(attrs, kept)
}

/// The fields of a view: for each of `members` the field of `fields` that
/// it repeats, under its own name and with its own type. A member without
/// a field is passed over.
pub open spec fn derived_fields(fields: Seq<SpecField>, members: Seq<SpecViewMember>) -> Seq<
    SpecField,
>
    decreases members.len(),
{
    if members.len() == 0 {
        Seq::empty()
    } else {
        let head = derived_fields(fields, members.drop_last());
        let member = members.last();
        if member.index < fields.len() {
            let field = fields[member.index as int];
            head.push(
                SpecField {
                    name: field.name,
                    vis: field.vis,
                    ty: field.ty,
                    attrs: borne(field.attrs, member.docs, member.attrs),
                },
            )
        } else {
            head
        }
    }
}

/// The variants of a view: for each of `members` the variant of `variants`
/// that it repeats, under its own name and with its own shape. A member
/// without a variant is passed over.
pub open spec fn derived_variants(variants: Seq<SpecVariant>, members: Seq<SpecViewMember>) -> Seq<
    SpecVariant,
>
    decreases members.len(),
{
    if members.len() == 0 {
        Seq::empty()
    } else {
        let head = derived_variants(variants, members.drop_last());
        let member = members.last();
        if member.index < variants.len() {
            let variant = variants[member.index as int];
            head.push(
                SpecVariant {
                    name: variant.name,
                    shape: variant.shape,
                    attrs: borne(variant.attrs, member.docs, member.attrs),
                },
            )
        } else {
            head
        }
    }
}

/// The declaration of the view `view` of `original`: under the name of the
/// view and as visible as the original, it bears a line of documentation,
/// the derive line and the annotations carried over, and has the members
/// that the view keeps.
pub open spec fn view_declaration(view: SpecViewModel, original: SpecDeclaration)
    -> SpecDeclaration {
    SpecDeclaration {
        name: view.name,
        vis: original.vis,
        attrs: seq![view_doc(view.original_name), derive_attribute(view.derives)] + picked(
            original.attrs,
            view.attributes,
        ),
        members: match original.members {
            SpecMembers::Fields(fields) => SpecMembers::Fields(
                derived_fields(fields, view.members),
            ),
            SpecMembers::Variants(variants) => SpecMembers::Variants(
                derived_variants(variants, view.members),
            ),
        },
    }
}

/// What a member of a derived type bears.
fn bear(attrs: &Vec<Attribute>, docs: &Vec<usize>, kept: &Vec<usize>) -> (r: Vec<Attribute>)
    ensures
        r.deep_view() == borne(attrs.deep_view(), docs@, kept@),
{
    let mut out = pick_attributes(attrs, docs);
    let mut rest = pick_attributes(attrs, kept);
    out.append(&mut rest);
    out
}

impl ViewModel {
    /// The declaration of this view of `original`.
    pub fn declaration(&self, original: &Declaration) -> (r: Declaration)
        ensures
            r.deep_view() == view_declaration(self.deep_view(), original.deep_view()),
    {
        let mut text = String::from_str("\"This is a restructured (View) model of ['");
        text.append(self.original_name.as_str());
        text.append("']. Refer to the original model for more structual documentation.\"");
        let mut doc_tokens: Vec<Token> = Vec::new();
        doc_tokens.push(Token::Literal(text));
        let mut doc_path: Vec<String> = Vec::new();
        doc_path.push(String::from_str("doc"));
        let doc = Attribute { path: doc_path, style: AttrStyle::NameValue, tokens: doc_tokens };
        assert(doc.deep_view().path =~= seq!["doc"@]);
        assert(doc.deep_view().tokens =~= view_doc(self.original_name@).tokens);
        let mut attrs: Vec<Attribute> = Vec::new();
        attrs.push(doc);
        attrs.push(derive_line(&self.derives));
        let mut carried = pick_attributes(&original.attrs, &self.attributes);
        let ghost head = attrs.deep_view();
        let ghost tail = carried.deep_view();
        attrs.append(&mut carried);
        proof {
            assert(head =~= seq![
                view_doc(self.original_name@),
                derive_attribute(self.derives.deep_view()),
            ]);
            assert(attrs.deep_view() =~= head + tail);
        }
        let ghost members = self.members.deep_view();
        let members = match &original.members {
            Members::Fields(fields) => {
                let mut out: Vec<Field> = Vec::new();
                let mut k: usize = 0;
                while k < self.members.len()
                    invariant
                        k <= self.members.len(),
                        members == self.members.deep_view(),
                        out.deep_view() == derived_fields(
                            fields.deep_view(),
                            members.subrange(0, k as int),
                        ),
                    decreases self.members.len() - k,
                {
                    proof {
                        let upto = members.subrange(0, k + 1);
                        assert(upto.drop_last() =~= members.subrange(0, k as int));
                    }
                    let member = &self.members[k];
                    if member.index < fields.len() {
                        let field = &fields[member.index];
                        out.push(
                            Field {
                                name: field.name.clone(),
                                vis: clone_tokens(&field.vis),
                                ty: field.ty.clone(),
                                attrs: bear(&field.attrs, &member.docs, &member.attrs),
                            },
                        );
                    }
                    k += 1;
                }
                assert(members.subrange(0, k as int) =~= members);
                Members::Fields(out)
            },
            Members::Variants(variants) => {
                let mut out: Vec<Variant> = Vec::new();
                let mut k: usize = 0;
                while k < self.members.len()
                    invariant
                        k <= self.members.len(),
                        members == self.members.deep_view(),
                        out.deep_view() == derived_variants(
                            variants.deep_view(),
                            members.subrange(0, k as int),
                        ),
                    decreases self.members.len() - k,
                {
                    proof {
                        let upto = members.subrange(0, k + 1);
                        assert(upto.drop_last() =~= members.subrange(0, k as int));
                    }
                    let member = &self.members[k];
                    if member.index < variants.len() {
                        let variant = &variants[member.index];
                        out.push(
                            Variant {
                                name: variant.name.clone(),
                                shape: variant.shape.clone(),
                                attrs: bear(&variant.attrs, &member.docs, &member.attrs),
                            },
                        );
                    }
                    k += 1;
                }
                assert(members.subrange(0, k as int) =~= members);
                Members::Variants(out)
            },
        };
        Declaration { name: self.name.clone(), vis: clone_tokens(&original.vis), attrs, members }
    }
}

} // verus!
