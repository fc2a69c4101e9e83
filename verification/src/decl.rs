//! The annotated declaration: what the generators read of a record or a
//! tagged union, its members and their annotations.

use vstd::prelude::*;
use crate::text::{clone_strings, same_text};
use crate::token::{clone_tokens, SpecToken, Token};

verus! {

/// The form in which an annotation is written.
#[derive(Clone, Copy, Debug, PartialEq, Eq, Structural)]
pub enum AttrStyle {
    /// `#[name]`
    Path,
    /// `#[name(...)]`
    List,
    /// `#[name = value]`
    NameValue,
}

/// One annotation of a declaration or of a member.
#[derive(Debug, PartialEq, Eq)]
pub struct Attribute {
    /// The identifiers of the segments of its path, in order.
    pub path: Vec<String>,
    pub style: AttrStyle,
    /// Of a list, the tokens inside the brackets; of a name-value form, the
    /// tokens of the value; of a bare path, none.
    pub tokens: Vec<Token>,
}

/// The mathematical value of an [`Attribute`].
pub ghost struct SpecAttribute {
    pub path: Seq<Seq<char>>,
    pub style: AttrStyle,
    pub tokens: Seq<SpecToken>,
}

impl DeepView for Attribute {
    type V = SpecAttribute;

    open spec fn deep_view(&self) -> SpecAttribute {
        SpecAttribute {
            path: self.path.deep_view(),
            style: self.style,
            tokens: self.tokens.deep_view(),
        }
    }
}

impl SpecAttribute {
    /// Whether the first segment of the path is `name`.
    pub open spec fn is_named(self, name: Seq<char>) -> bool {
        self.path.len() > 0 && self.path[0] == name
    }

    /// Whether the path is the one identifier `name`.
    pub open spec fn is_exactly(self, name: Seq<char>) -> bool {
        self.path.len() == 1 && self.path[0] == name
    }

    /// Whether this is a line of documentation.
    pub open spec fn is_doc(self) -> bool {
        self.style == AttrStyle::NameValue && self.is_named("doc"@)
    }

    /// Whether one of the tokens of the list is the identifier `word`.
    pub open spec fn mentions(self, word: Seq<char>) -> bool {
        self.style == AttrStyle::List && self.tokens.contains(SpecToken::Ident(word))
    }

    /// Whether this is an `oai` annotation and, where a word is given, one
    /// that mentions it.
    pub open spec fn is_oai_with(self, containing: Option<Seq<char>>) -> bool {
        self.is_exactly("oai"@) && match containing {
            Some(word) => self.mentions(word),
            None => true,
        }
    }
}

impl Attribute {
    /// The list annotation `#[name(tokens)]`.
    pub fn list(name: &str, tokens: Vec<Token>) -> (r: Attribute)
        ensures
            r.deep_view() == (SpecAttribute {
                path: seq![name@],
                style: AttrStyle::List,
                tokens: tokens.deep_view(),
            }),
    {
        let mut path: Vec<String> = Vec::new();
        path.push(String::from_str(name));
        assert(path.deep_view() =~= seq![name@]);
        Attribute { path, style: AttrStyle::List, tokens }
    }

    /// Whether its list mentions the identifier `word`.
    pub fn mentions(&self, word: &str) -> (r: bool)
        ensures
            r == self.deep_view().mentions(word@),
    {
        match self.style {
            AttrStyle::List => {},
            _ => {
                return false;
            },
        }
        let key = String::from_str(word);
        let mut i: usize = 0;
        while i < self.tokens.len()
            invariant
                i <= self.tokens.len(),
                key@ == word@,
                self.style == AttrStyle::List,
                forall|k: int| 0 <= k < i ==> self.tokens.deep_view()[k] != SpecToken::Ident(word@),
            decreases self.tokens.len() - i,
        {
            if self.tokens[i].is_ident(&key) {
                proof {
                    let ts = self.deep_view().tokens;
                    assert(ts[i as int] == SpecToken::Ident(word@));
                }
                return true;
            }
            i += 1;
        }
        false
    }

    /// Whether its path is the one identifier `name`.
    pub fn is_exactly(&self, name: &str) -> (r: bool)
        ensures
            r == self.deep_view().is_exactly(name@),
    {
        self.path.len() == 1 && same_text(&self.path[0], name)
    }
}

/// Whether the first segment of the path of `attr` is `name`.
pub fn is_attribute(attr: &Attribute, name: &str) -> (r: bool)
    ensures
        r == attr.deep_view().is_named(name@),
{
    match get_attribute_name(attr) {
        Some(first) => same_text(first, name),
        None => false,
    }
}

/// The first segment of the path of `attr`, by which annotations are told apart.
pub fn get_attribute_name(attr: &Attribute) -> (r: Option<&String>)
    ensures
        attr.path.len() == 0 ==> r is None,
        attr.path.len() > 0 ==> r == Some(&attr.path@[0]),
{
    if attr.path.len() > 0 {
        Some(&attr.path[0])
    } else {
        None
    }
}

/// Whether `attr` is a line of documentation.
pub fn is_doc(attr: &Attribute) -> (r: bool)
    ensures
        r == attr.deep_view().is_doc(),
{
    match attr.style {
        AttrStyle::NameValue => is_attribute(attr, "doc"),
        _ => false,
    }
}

/// Whether one of `attrs` is an `oai` annotation and, where `containing` is
/// given, mentions that word.
pub open spec fn has_oai(attrs: Seq<SpecAttribute>, containing: Option<Seq<char>>) -> bool {
    exists|i: int| 0 <= i < attrs.len() && (#[trigger] attrs[i]).is_oai_with(containing)
}

/// Whether one of `attrs` is an `oai` annotation and, where `containing` is
/// given, mentions that word.
pub fn has_oai_attribute(attrs: &Vec<Attribute>, containing: Option<&str>) -> (r: bool)
    ensures
        r == has_oai(attrs.deep_view(), containing.deep_view()),
{
    let mut i: usize = 0;
    while i < attrs.len()
        invariant
            i <= attrs.len(),
            forall|k: int|
                0 <= k < i ==> !(#[trigger] attrs.deep_view()[k]).is_oai_with(
                    containing.deep_view(),
                ),
        decreases attrs.len() - i,
    {
        if attrs[i].is_exactly("oai") {
            let hit = match containing {
                Some(word) => attrs[i].mentions(word),
                None => true,
            };
            if hit {
                assert(attrs.deep_view()[i as int].is_oai_with(containing.deep_view()));
                return true;
            }
        }
        i += 1;
    }
    false
}

/// The indices of the items of `items` that `keep` accepts, in rising order.
pub open spec fn selected<A>(items: Seq<A>, keep: spec_fn(A) -> bool) -> Seq<usize>
    decreases items.len(),
{
    if items.len() == 0 {
        Seq::empty()
    } else {
        let head = selected(items.drop_last(), keep);
        if keep(items.last()) {
            head.push((items.len() - 1) as usize)
        } else {
            head
        }
    }
}

/// What `selected` holds: indices of `items`, strictly rising, each of an
/// item that `keep` accepts, and the index of every such item.
pub proof fn lemma_selected<A>(items: Seq<A>, keep: spec_fn(A) -> bool)
    requires
        items.len() <= usize::MAX,
    ensures
        selected(items, keep).len() <= items.len(),
        forall|k: int|
            0 <= k < selected(items, keep).len() ==> (#[trigger] selected(items, keep)[k])
                < items.len() && keep(items[selected(items, keep)[k] as int]),
        forall|j: int, k: int|
            0 <= j < k < selected(items, keep).len() ==> selected(items, keep)[j] < selected(
                items,
                keep,
            )[k],
        forall|i: int|
            0 <= i < items.len() && keep(#[trigger] items[i]) ==> selected(items, keep).contains(
                i as usize,
            ),
    decreases items.len(),
{
    if items.len() > 0 {
        let head_items = items.drop_last();
        let head = selected(head_items, keep);
        let all = selected(items, keep);
        lemma_selected(head_items, keep);
        let last = (items.len() - 1) as usize;
        assert forall|i: int| 0 <= i < items.len() && keep(#[trigger] items[i]) implies all.contains(
            i as usize,
        ) by {
            if i < items.len() - 1 {
                assert(items[i] == head_items[i]);
                let k = choose|k: int| 0 <= k < head.len() && head[k] == i as usize;
                assert(all[k] == i as usize);
            } else {
                assert(all[all.len() - 1] == last);
            }
        }
    }
}

/// The declared type of a field, as far as the generators read it.
#[derive(Debug, PartialEq, Eq)]
pub struct FieldType {
    /// The type as written.
    pub text: String,
    /// Where the type is a path without a qualified self: the identifiers of
    /// its segments, in order. Empty for every other type.
    pub path: Vec<String>,
    /// Where the last segment of that path has arguments in angle brackets
    /// and the first of them is a type: that type as written.
    pub argument: Option<String>,
}

/// The mathematical value of a [`FieldType`].
pub ghost struct SpecFieldType {
    pub text: Seq<char>,
    pub path: Seq<Seq<char>>,
    pub argument: Option<Seq<char>>,
}

impl DeepView for FieldType {
    type V = SpecFieldType;

    open spec fn deep_view(&self) -> SpecFieldType {
        SpecFieldType {
            text: self.text@,
            path: self.path.deep_view(),
            argument: self.argument.deep_view(),
        }
    }
}

/// A field of a record, or an element of a variant.
#[derive(Debug, PartialEq, Eq)]
pub struct Field {
    /// The field's name; empty for a positional element.
    pub name: String,
    /// The visibility as written, such as `pub` or `pub(crate)`; empty for
    /// a private field.
    pub vis: Vec<Token>,
    pub ty: FieldType,
    pub attrs: Vec<Attribute>,
}

/// The mathematical value of a [`Field`].
pub ghost struct SpecField {
    pub name: Seq<char>,
    pub vis: Seq<SpecToken>,
    pub ty: SpecFieldType,
    pub attrs: Seq<SpecAttribute>,
}

impl DeepView for Field {
    type V = SpecField;

    open spec fn deep_view(&self) -> SpecField {
        SpecField {
            name: self.name@,
            vis: self.vis.deep_view(),
            ty: self.ty.deep_view(),
            attrs: self.attrs.deep_view(),
        }
    }
}

/// What a variant carries.
#[derive(Debug, PartialEq, Eq)]
pub enum Shape {
    Unit,
    /// `Name(A, B)`
    Positional(Vec<Field>),
    /// `Name { a: A, b: B }`
    Named(Vec<Field>),
}

/// The mathematical value of a [`Shape`].
pub ghost enum SpecShape {
    Unit,
    Positional(Seq<SpecField>),
    Named(Seq<SpecField>),
}

impl DeepView for Shape {
    type V = SpecShape;

    open spec fn deep_view(&self) -> SpecShape {
        match self {
            Shape::Unit => SpecShape::Unit,
            Shape::Positional(elements) => SpecShape::Positional(elements.deep_view()),
            Shape::Named(fields) => SpecShape::Named(fields.deep_view()),
        }
    }
}

impl SpecShape {
    /// The elements that the variant carries, in order.
    pub open spec fn elements(self) -> Seq<SpecField> {
        match self {
            SpecShape::Unit => Seq::empty(),
            SpecShape::Positional(elements) => elements,
            SpecShape::Named(fields) => fields,
        }
    }
}

/// A variant of a tagged union.
#[derive(Debug, PartialEq, Eq)]
pub struct Variant {
    pub name: String,
    pub shape: Shape,
    pub attrs: Vec<Attribute>,
}

/// The mathematical value of a [`Variant`].
pub ghost struct SpecVariant {
    pub name: Seq<char>,
    pub shape: SpecShape,
    pub attrs: Seq<SpecAttribute>,
}

impl DeepView for Variant {
    type V = SpecVariant;

    open spec fn deep_view(&self) -> SpecVariant {
        SpecVariant {
            name: self.name@,
            shape: self.shape.deep_view(),
            attrs: self.attrs.deep_view(),
        }
    }
}

/// The members of a declaration.
#[derive(Debug, PartialEq, Eq)]
pub enum Members {
    /// The named fields of a record.
    Fields(Vec<Field>),
    /// The variants of a tagged union.
    Variants(Vec<Variant>),
}

/// The mathematical value of [`Members`].
pub ghost enum SpecMembers {
    Fields(Seq<SpecField>),
    Variants(Seq<SpecVariant>),
}

impl DeepView for Members {
    type V = SpecMembers;

    open spec fn deep_view(&self) -> SpecMembers {
        match self {
            Members::Fields(fields) => SpecMembers::Fields(fields.deep_view()),
            Members::Variants(variants) => SpecMembers::Variants(variants.deep_view()),
        }
    }
}

impl SpecMembers {
    /// How many members there are.
    pub open spec fn len(self) -> nat {
        match self {
            SpecMembers::Fields(fields) => fields.len(),
            SpecMembers::Variants(variants) => variants.len(),
        }
    }

    /// The names of the members, in order.
    pub open spec fn names(self) -> Seq<Seq<char>> {
        match self {
            SpecMembers::Fields(fields) => Seq::new(fields.len(), |i: int| fields[i].name),
            SpecMembers::Variants(variants) => Seq::new(variants.len(), |i: int| variants[i].name),
        }
    }
}

/// An annotated declaration: a record or a tagged union.
#[derive(Debug, PartialEq, Eq)]
pub struct Declaration {
    pub name: String,
    /// The visibility as written; empty for a private type.
    pub vis: Vec<Token>,
    pub attrs: Vec<Attribute>,
    pub members: Members,
}

/// The mathematical value of a [`Declaration`].
pub ghost struct SpecDeclaration {
    pub name: Seq<char>,
    pub vis: Seq<SpecToken>,
    pub attrs: Seq<SpecAttribute>,
    pub members: SpecMembers,
}

impl DeepView for Declaration {
    type V = SpecDeclaration;

    open spec fn deep_view(&self) -> SpecDeclaration {
        SpecDeclaration {
            name: self.name@,
            vis: self.vis.deep_view(),
            attrs: self.attrs.deep_view(),
            members: self.members.deep_view(),
        }
    }
}

impl Clone for Attribute {
    fn clone(&self) -> (r: Self)
        ensures
            r.deep_view() == self.deep_view(),
    {
        Attribute {
            path: clone_strings(&self.path),
            style: self.style,
            tokens: clone_tokens(&self.tokens),
        }
    }
}

/// A copy of each annotation of `attrs`, in order.
pub fn clone_attributes(attrs: &Vec<Attribute>) -> (r: Vec<Attribute>)
    ensures
        r.deep_view() == attrs.deep_view(),
{
    let mut out: Vec<Attribute> = Vec::new();
    let mut i: usize = 0;
    while i < attrs.len()
        invariant
            i <= attrs.len(),
            out.len() == i,
            forall|k: int| 0 <= k < i ==> out@[k].deep_view() == attrs@[k].deep_view(),
        decreases attrs.len() - i,
    {
        out.push(attrs[i].clone());
        i += 1;
    }
    out
}

impl Clone for FieldType {
    fn clone(&self) -> (r: Self)
        ensures
            r.deep_view() == self.deep_view(),
    {
        FieldType {
            text: self.text.clone(),
            path: clone_strings(&self.path),
            argument: match &self.argument {
                Some(inner) => Some(inner.clone()),
                None => None,
            },
        }
    }
}

impl Clone for Field {
    fn clone(&self) -> (r: Self)
        ensures
            r.deep_view() == self.deep_view(),
    {
        Field {
            name: self.name.clone(),
            vis: clone_tokens(&self.vis),
            ty: self.ty.clone(),
            attrs: clone_attributes(&self.attrs),
        }
    }
}

/// A copy of each field of `fields`, in order.
pub fn clone_fields(fields: &Vec<Field>) -> (r: Vec<Field>)
    ensures
        r.deep_view() == fields.deep_view(),
{
    let mut out: Vec<Field> = Vec::new();
    let mut i: usize = 0;
    while i < fields.len()
        invariant
            i <= fields.len(),
            out.len() == i,
            forall|k: int| 0 <= k < i ==> out@[k].deep_view() == fields@[k].deep_view(),
        decreases fields.len() - i,
    {
        out.push(fields[i].clone());
        i += 1;
    }
    out
}

impl Clone for Shape {
    fn clone(&self) -> (r: Self)
        ensures
            r.deep_view() == self.deep_view(),
    {
        match self {
            Shape::Unit => Shape::Unit,
            Shape::Positional(elements) => Shape::Positional(clone_fields(elements)),
            Shape::Named(fields) => Shape::Named(clone_fields(fields)),
        }
    }
}

impl Clone for Variant {
    fn clone(&self) -> (r: Self)
        ensures
            r.deep_view() == self.deep_view(),
    {
        Variant {
            name: self.name.clone(),
            shape: self.shape.clone(),
            attrs: clone_attributes(&self.attrs),
        }
    }
}

/// A copy of each variant of `variants`, in order.
pub fn clone_variants(variants: &Vec<Variant>) -> (r: Vec<Variant>)
    ensures
        r.deep_view() == variants.deep_view(),
{
    let mut out: Vec<Variant> = Vec::new();
    let mut i: usize = 0;
    while i < variants.len()
        invariant
            i <= variants.len(),
            out.len() == i,
            forall|k: int| 0 <= k < i ==> out@[k].deep_view() == variants@[k].deep_view(),
        decreases variants.len() - i,
    {
        out.push(variants[i].clone());
        i += 1;
    }
    out
}

impl Clone for Members {
    fn clone(&self) -> (r: Self)
        ensures
            r.deep_view() == self.deep_view(),
    {
        match self {
            Members::Fields(fields) => Members::Fields(clone_fields(fields)),
            Members::Variants(variants) => Members::Variants(clone_variants(variants)),
        }
    }
}

impl Clone for Declaration {
    fn clone(&self) -> (r: Self)
        ensures
            r.deep_view() == self.deep_view(),
    {
        Declaration {
            name: self.name.clone(),
            vis: clone_tokens(&self.vis),
            attrs: clone_attributes(&self.attrs),
            members: self.members.clone(),
        }
    }
}

/// The annotations of `attrs` at `indices`, in that order; an index that
/// `attrs` has not is passed over.
pub open spec fn picked(attrs: Seq<SpecAttribute>, indices: Seq<usize>) -> Seq<SpecAttribute>
    decreases indices.len(),
{
    if indices.len() == 0 {
        Seq::empty()
    } else if indices.last() < attrs.len() {
        picked(attrs, indices.drop_last()).push(attrs[indices.last() as int])
    } else {
        picked(attrs, indices.drop_last())
    }
}

/// A copy of the annotations of `attrs` at `indices`.
pub fn pick_attributes(attrs: &Vec<Attribute>, indices: &Vec<usize>) -> (r: Vec<Attribute>)
    ensures
        r.deep_view() == picked(attrs.deep_view(), indices@),
{
    let mut out: Vec<Attribute> = Vec::new();
    let mut k: usize = 0;
    while k < indices.len()
        invariant
            k <= indices.len(),
            out.deep_view() == picked(attrs.deep_view(), indices@.subrange(0, k as int)),
        decreases indices.len() - k,
    {
        proof {
            let upto = indices@.subrange(0, k + 1);
            assert(upto.drop_last() =~= indices@.subrange(0, k as int));
        }
        if indices[k] < attrs.len() {
            out.push(attrs[indices[k]].clone());
        }
        k += 1;
    }
    assert(indices@.subrange(0, k as int) =~= indices@);
    out
}

} // verus!
