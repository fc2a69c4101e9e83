//! The expansion of one annotated declaration: every view and every patch
//! that its directives ask for.

use vstd::prelude::*;
use crate::args::{ExtraConditions, ModelAttrArgs, SpecModelAttrArgs};
use crate::decl::{
    has_oai, is_attribute, lemma_selected, selected, Attribute, Declaration, SpecAttribute,
    SpecDeclaration,
};
use crate::error::{Error, SpecError};
use crate::patch::{impl_patch_model, patch_model, PatchModel, SpecPatchModel};
use crate::policy::Capabilities;
use crate::view::{impl_view_model, view_model, SpecViewModel, ViewModel};

verus! {

/// What a declaration expands to: its views, then its patches, each list
/// in the order of the directives.
#[derive(Debug, PartialEq, Eq)]
pub struct Expansion {
    pub views: Vec<ViewModel>,
    pub patches: Vec<PatchModel>,
}

/// The mathematical value of an [`Expansion`].
pub ghost struct SpecExpansion {
    pub views: Seq<SpecViewModel>,
    pub patches: Seq<SpecPatchModel>,
}

impl DeepView for Expansion {
    type V = SpecExpansion;

    open spec fn deep_view(&self) -> SpecExpansion {
        SpecExpansion { views: self.views.deep_view(), patches: self.patches.deep_view() }
    }
}

/// A failed expansion: why it failed, and at which annotation of the
/// declaration.
#[derive(Debug, PartialEq, Eq)]
pub struct Failure {
    /// The index of the directive, or of the type-level block, among the
    /// annotations of the declaration.
    pub attribute: usize,
    pub error: Error,
}

/// The mathematical value of a [`Failure`].
pub ghost struct SpecFailure {
    pub attribute: usize,
    pub error: SpecError,
}

impl DeepView for Failure {
    type V = SpecFailure;

    open spec fn deep_view(&self) -> SpecFailure {
        SpecFailure { attribute: self.attribute, error: self.error.deep_view() }
    }
}

/// Whether `attr` goes by the name `name`.
pub open spec fn named(name: Seq<char>) -> spec_fn(SpecAttribute) -> bool {
    |attr: SpecAttribute| attr.is_named(name)
}

/// The annotations among `attrs` that go by the name `name`: their
/// indices, in order.
pub fn attributes_named(attrs: &Vec<Attribute>, name: &str) -> (r: Vec<usize>)
    ensures
        r@ == selected(attrs.deep_view(), named(name@)),
{
    let ghost all = attrs.deep_view();
    let mut out: Vec<usize> = Vec::new();
    let mut i: usize = 0;
    while i < attrs.len()
        invariant
            i <= attrs.len(),
            all == attrs.deep_view(),
            out@ == selected(all.subrange(0, i as int), named(name@)),
        decreases attrs.len() - i,
    {
        proof {
            let upto = all.subrange(0, i + 1);
            assert(upto.drop_last() =~= all.subrange(0, i as int));
        }
        if is_attribute(&attrs[i], name) {
            out.push(i);
        }
        i += 1;
    }
    assert(all.subrange(0, i as int) =~= all);
    out
}

/// The annotations of `attrs` at `indices`.
pub open spec fn blocks_at(attrs: Seq<SpecAttribute>, indices: Seq<usize>) -> Seq<SpecAttribute> {
    Seq::new(indices.len(), |k: int| attrs[indices[k] as int])
}

/// The annotations of `attrs` at `indices`.
fn pick<'a>(attrs: &'a Vec<Attribute>, indices: &Vec<usize>) -> (r: Vec<&'a Attribute>)
    requires
        forall|k: int| 0 <= k < indices.len() ==> indices@[k] < attrs.len(),
    ensures
        r.deep_view() == blocks_at(attrs.deep_view(), indices@),
{
    let mut out: Vec<&Attribute> = Vec::new();
    let mut k: usize = 0;
    while k < indices.len()
        invariant
            k <= indices.len(),
            out.len() == k,
            forall|j: int| 0 <= j < indices.len() ==> indices@[j] < attrs.len(),
            forall|j: int|
                0 <= j < k ==> out@[j].deep_view() == attrs@[indices@[j] as int].deep_view(),
        decreases indices.len() - k,
    {
        out.push(&attrs[indices[k]]);
        k += 1;
    }
    out
}

/// The views that the `view` directives among `attrs` ask of `ast`, in
/// order; the failure of the first directive that fails.
pub open spec fn views_of(
    ast: SpecDeclaration,
    attrs: Seq<SpecAttribute>,
    model: SpecModelAttrArgs,
    caps: Capabilities,
) -> Result<Seq<SpecViewModel>, SpecFailure>
    decreases attrs.len(),
{
    if attrs.len() == 0 {
        Ok(Seq::empty())
    } else {
        match views_of(ast, attrs.drop_last(), model, caps) {
            Err(e) => Err(e),
            Ok(views) => if attrs.last().is_named("view"@) {
                match view_model(ast, attrs.last(), model, caps) {
                    Ok(view) => Ok(views.push(view)),
                    Err(error) => Err(
                        SpecFailure { attribute: (attrs.len() - 1) as usize, error },
                    ),
                }
            } else {
                Ok(views)
            },
        }
    }
}

/// The patches that the `patch` directives among `attrs` ask of `ast`, in
/// order; the failure of the first directive that fails.
pub open spec fn patches_of(
    ast: SpecDeclaration,
    attrs: Seq<SpecAttribute>,
    model: SpecModelAttrArgs,
    caps: Capabilities,
) -> Result<Seq<SpecPatchModel>, SpecFailure>
    decreases attrs.len(),
{
    if attrs.len() == 0 {
        Ok(Seq::empty())
    } else {
        match patches_of(ast, attrs.drop_last(), model, caps) {
            Err(e) => Err(e),
            Ok(patches) => if attrs.last().is_named("patch"@) {
                match patch_model(ast, attrs.last(), model, caps) {
                    Ok(patch) => Ok(patches.push(patch)),
                    Err(error) => Err(
                        SpecFailure { attribute: (attrs.len() - 1) as usize, error },
                    ),
                }
            } else {
                Ok(patches)
            },
        }
    }
}

proof fn lemma_views_of_prefix(
    ast: SpecDeclaration,
    attrs: Seq<SpecAttribute>,
    model: SpecModelAttrArgs,
    caps: Capabilities,
    n: int,
)
    requires
        0 <= n <= attrs.len(),
        views_of(ast, attrs.subrange(0, n), model, caps) is Err,
    ensures
        views_of(ast, attrs, model, caps) == views_of(ast, attrs.subrange(0, n), model, caps),
    decreases attrs.len() - n,
{
    if n < attrs.len() {
        assert(attrs.subrange(0, n + 1).drop_last() =~= attrs.subrange(0, n));
        lemma_views_of_prefix(ast, attrs, model, caps, n + 1);
    } else {
        assert(attrs.subrange(0, n) =~= attrs);
    }
}

proof fn lemma_patches_of_prefix(
    ast: SpecDeclaration,
    attrs: Seq<SpecAttribute>,
    model: SpecModelAttrArgs,
    caps: Capabilities,
    n: int,
)
    requires
        0 <= n <= attrs.len(),
        patches_of(ast, attrs.subrange(0, n), model, caps) is Err,
    ensures
        patches_of(ast, attrs, model, caps) == patches_of(ast, attrs.subrange(0, n), model, caps),
    decreases attrs.len() - n,
{
    if n < attrs.len() {
        assert(attrs.subrange(0, n + 1).drop_last() =~= attrs.subrange(0, n));
        lemma_patches_of_prefix(ast, attrs, model, caps, n + 1);
    } else {
        assert(attrs.subrange(0, n) =~= attrs);
    }
}

/// The annotation at which the type-level blocks fail: the second block
/// where there are several, else the one block.
pub open spec fn block_at(blocks: Seq<usize>) -> usize {
    if blocks.len() > 1 {
        blocks[1]
    } else {
        blocks[0]
    }
}

/// The type-level block of `ast`, read.
pub open spec fn block_of(ast: SpecDeclaration, caps: Capabilities) -> Result<
    SpecModelAttrArgs,
    SpecFailure,
> {
    let extras = ExtraConditions {
        has_oai_example: caps.openapi && has_oai(ast.attrs, Some("example"@)),
    };
    let blocks = selected(ast.attrs, named("model"@));
    match ModelAttrArgs::parsed(blocks_at(ast.attrs, blocks), extras, caps) {
        Err(error) => Err(SpecFailure { attribute: block_at(blocks), error }),
        Ok(model) => Ok(model),
    }
}

/// What `models` makes of the declaration `ast`.
pub open spec fn expansion_of(ast: SpecDeclaration, caps: Capabilities) -> Result<
    SpecExpansion,
    SpecFailure,
> {
    match block_of(ast, caps) {
        Err(e) => Err(e),
        Ok(model) => match views_of(ast, ast.attrs, model, caps) {
            Err(e) => Err(e),
            Ok(views) => match patches_of(ast, ast.attrs, model, caps) {
                Err(e) => Err(e),
                Ok(patches) => Ok(SpecExpansion { views, patches }),
            },
        },
    }
}

/// Expands the declaration `ast`: reads its type-level block, then derives
/// a view for each `view` directive and a patch for each `patch`
/// directive, in the order in which they stand. The first failure ends it:
/// either all is derived or nothing. A failure names the annotation at
/// which it arose.
pub fn models(ast: &Declaration, caps: Capabilities) -> (r: Result<Expansion, Failure>)
    ensures
        match expansion_of(ast.deep_view(), caps) {
            Ok(value) => r matches Ok(v) && v.deep_view() == value,
            Err(e) => r matches Err(x) && x.deep_view() == e,
        },
{
    let blocks = attributes_named(&ast.attrs, "model");
    proof {
        lemma_selected(ast.deep_view().attrs, named("model"@));
    }
    let model_attr = pick(&ast.attrs, &blocks);
    let extras = ExtraConditions::parse(&ast.attrs, caps);
    let model_args = match ModelAttrArgs::parse(&model_attr, extras, caps) {
        Ok(v) => v,
        Err(error) => {
            let attribute = if blocks.len() > 1 {
                blocks[1]
            } else {
                blocks[0]
            };
            return Err(Failure { attribute, error });
        },
    };
    let ghost all = ast.deep_view().attrs;
    let ghost model = model_args.deep_view();
    let mut views: Vec<ViewModel> = Vec::new();
    let mut i: usize = 0;
    proof {
        assert(views.deep_view() =~= Seq::<SpecViewModel>::empty());
    }
    while i < ast.attrs.len()
        invariant
            i <= ast.attrs.len(),
            all == ast.deep_view().attrs,
            model == model_args.deep_view(),
            block_of(ast.deep_view(), caps) == Ok::<SpecModelAttrArgs, SpecFailure>(model),
            views_of(ast.deep_view(), all.subrange(0, i as int), model, caps) == Ok::<
                Seq<SpecViewModel>,
                SpecFailure,
            >(views.deep_view()),
        decreases ast.attrs.len() - i,
    {
        let ghost before = views.deep_view();
        proof {
            let upto = all.subrange(0, i + 1);
            assert(upto.drop_last() =~= all.subrange(0, i as int));
        }
        if is_attribute(&ast.attrs[i], "view") {
            match impl_view_model(ast, &ast.attrs[i], &model_args, caps) {
                Ok(view) => {
                    views.push(view);
                    assert(views.deep_view() =~= before.push(
                        view_model(ast.deep_view(), all[i as int], model, caps)->Ok_0,
                    ));
                },
                Err(error) => {
                    proof {
                        lemma_views_of_prefix(ast.deep_view(), all, model, caps, i + 1);
                    }
                    return Err(Failure { attribute: i, error });
                },
            }
        }
        i += 1;
    }
    assert(all.subrange(0, i as int) =~= all);
    let mut patches: Vec<PatchModel> = Vec::new();
    let mut j: usize = 0;
    proof {
        assert(patches.deep_view() =~= Seq::<SpecPatchModel>::empty());
    }
    while j < ast.attrs.len()
        invariant
            j <= ast.attrs.len(),
            all == ast.deep_view().attrs,
            model == model_args.deep_view(),
            block_of(ast.deep_view(), caps) == Ok::<SpecModelAttrArgs, SpecFailure>(model),
            views_of(ast.deep_view(), all, model, caps) == Ok::<Seq<SpecViewModel>, SpecFailure>(
                views.deep_view(),
            ),
            patches_of(ast.deep_view(), all.subrange(0, j as int), model, caps) == Ok::<
                Seq<SpecPatchModel>,
                SpecFailure,
            >(patches.deep_view()),
        decreases ast.attrs.len() - j,
    {
        let ghost before = patches.deep_view();
        proof {
            let upto = all.subrange(0, j + 1);
            assert(upto.drop_last() =~= all.subrange(0, j as int));
        }
        if is_attribute(&ast.attrs[j], "patch") {
            match impl_patch_model(ast, &ast.attrs[j], &model_args, caps) {
                Ok(patch) => {
                    patches.push(patch);
                    assert(patches.deep_view() =~= before.push(
                        patch_model(ast.deep_view(), all[j as int], model, caps)->Ok_0,
                    ));
                },
                Err(error) => {
                    proof {
                        lemma_patches_of_prefix(ast.deep_view(), all, model, caps, j + 1);
                    }
                    return Err(Failure { attribute: j, error });
                },
            }
        }
        j += 1;
    }
    Ok(Expansion { views, patches })
}

/// Something more that goes with a derived type.
#[derive(Debug, PartialEq, Eq)]
pub enum Extra {
    /// The derived type `name` gives as its example the example of
    /// `original_name`, converted.
    OaiExample { name: String, original_name: String },
}

/// The mathematical value of an [`Extra`].
pub ghost enum SpecExtra {
    OaiExample { name: Seq<char>, original_name: Seq<char> },
}

impl DeepView for Extra {
    type V = SpecExtra;

    open spec fn deep_view(&self) -> SpecExtra {
        match self {
            Extra::OaiExample { name, original_name } => SpecExtra::OaiExample {
                name: name@,
                original_name: original_name@,
            },
        }
    }
}

/// The example of the derived type `name`, where the original gives one.
pub fn impl_oai_example(name: &String, original_name: &String, model_args: &ModelAttrArgs) -> (r:
    Option<Extra>)
    ensures
        r.deep_view() == (if model_args.extras.has_oai_example {
            Some(SpecExtra::OaiExample { name: name@, original_name: original_name@ })
        } else {
            None
        }),
{
    if model_args.extras.has_oai_example {
        Some(Extra::OaiExample { name: name.clone(), original_name: original_name.clone() })
    } else {
        None
    }
}

/// What else goes with the derived type `name`: with the schema
/// integration, its example where the original gives one; without, nothing.
pub open spec fn extras_of(
    original_name: Seq<char>,
    name: Seq<char>,
    model: SpecModelAttrArgs,
    caps: Capabilities,
) -> Seq<SpecExtra> {
    if caps.openapi && model.extras.has_oai_example {
        seq![SpecExtra::OaiExample { name, original_name }]
    } else {
        Seq::empty()
    }
}

/// What else goes with the derived type `name` of `original_name`.
pub fn impl_extras(
    original_name: &String,
    name: &String,
    model_args: &ModelAttrArgs,
    caps: Capabilities,
) -> (r: Vec<Extra>)
    ensures
        r.deep_view() == extras_of(original_name@, name@, model_args.deep_view(), caps),
{
    let mut out: Vec<Extra> = Vec::new();
    if caps.openapi {
        match impl_oai_example(name, original_name, model_args) {
            Some(extra) => {
                out.push(extra);
            },
            None => {
            },
        }
    } else {
    }
    out
}

} // verus!
