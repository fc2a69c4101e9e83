//! The configuration of a directive: what the directive says itself, laid
//! over what the declaration's type-level block gives as defaults and base.

use vstd::prelude::*;
use crate::cursor::{
    abort_unexpected_args, first_unknown, group_taken, literal_left, paths_taken,
    take_ident_group, take_path_group,
};
use crate::decl::{has_oai, has_oai_attribute, AttrStyle, Attribute, SpecAttribute};
use crate::error::{Error, SpecError};
use crate::policy::{AttributesWith, Capabilities, Preset};
use crate::selector::{selector_left, selector_parsed, FieldsArg, SpecFieldsArg};
use crate::token::{clone_tokens, SpecToken, Token};

verus! {

/// What else the generators have to know of the declaration.
#[derive(Clone, Copy, Debug, PartialEq, Eq, Structural)]
pub struct ExtraConditions {
    /// The declaration bears `#[oai(example)]`: a derived type then has to
    /// give an example of its own.
    pub has_oai_example: bool,
}

impl Default for ExtraConditions {
    fn default() -> (r: Self)
        ensures
            r == (ExtraConditions { has_oai_example: false }),
    {
        ExtraConditions { has_oai_example: false }
    }
}

impl ExtraConditions {
    /// Reads the conditions off the annotations of the declaration.
    pub fn parse(attrs: &Vec<Attribute>, caps: Capabilities) -> (r: Self)
        ensures
            r.has_oai_example == (caps.openapi && has_oai(attrs.deep_view(), Some("example"@))),
    {
        ExtraConditions {
            has_oai_example: caps.openapi && has_oai_attribute(attrs, Some("example")),
        }
    }
}

/// A copy of each path of `paths`, in order.
pub fn clone_paths(paths: &Vec<Vec<Token>>) -> (r: Vec<Vec<Token>>)
    ensures
        r.deep_view() == paths.deep_view(),
{
    let mut out: Vec<Vec<Token>> = Vec::new();
    let mut i: usize = 0;
    while i < paths.len()
        invariant
            i <= paths.len(),
            out.len() == i,
            forall|k: int| 0 <= k < i ==> out@[k].deep_view() == paths@[k].deep_view(),
        decreases paths.len() - i,
    {
        out.push(clone_tokens(&paths[i]));
        i += 1;
    }
    out
}

/// A copy of the selector `fields`, where there is one.
fn clone_fields(fields: &Option<FieldsArg>) -> (r: Option<FieldsArg>)
    ensures
        r.deep_view() == fields.deep_view(),
{
    match fields {
        Some(f) => Some(f.clone()),
        None => None,
    }
}

/// A copy of the derive list `derive`, where there is one.
fn clone_derive(derive: &Option<Vec<Vec<Token>>>) -> (r: Option<Vec<Vec<Token>>>)
    ensures
        r.deep_view() == derive.deep_view(),
{
    match derive {
        Some(paths) => Some(clone_paths(paths)),
        None => None,
    }
}

/// The arguments of a directive: the tokens inside the brackets of a list
/// annotation. An annotation of another form has none.
pub open spec fn directive_tokens(attr: SpecAttribute) -> Seq<SpecToken> {
    if attr.style == AttrStyle::List {
        attr.tokens
    } else {
        Seq::empty()
    }
}

/// A copy of the arguments of the directive `attr`.
pub fn directive_args(attr: &Attribute) -> (r: Vec<Token>)
    ensures
        r.deep_view() == directive_tokens(attr.deep_view()),
{
    match attr.style {
        AttrStyle::List => clone_tokens(&attr.tokens),
        _ => {
            let none: Vec<Token> = Vec::new();
            none
        },
    }
}

/// The `base` overlay of a type-level block: it is merged into every
/// directive of the declaration.
#[derive(Debug, PartialEq, Eq)]
pub struct BaseAttrArgs {
    pub fields: Option<FieldsArg>,
    pub derive: Option<Vec<Vec<Token>>>,
}

/// The mathematical value of [`BaseAttrArgs`].
pub ghost struct SpecBaseAttrArgs {
    pub fields: Option<SpecFieldsArg>,
    pub derive: Option<Seq<Seq<SpecToken>>>,
}

impl DeepView for BaseAttrArgs {
    type V = SpecBaseAttrArgs;

    open spec fn deep_view(&self) -> SpecBaseAttrArgs {
        SpecBaseAttrArgs { fields: self.fields.deep_view(), derive: self.derive.deep_view() }
    }
}

impl Clone for BaseAttrArgs {
    fn clone(&self) -> (r: Self)
        ensures
            r.deep_view() == self.deep_view(),
    {
        BaseAttrArgs { fields: clone_fields(&self.fields), derive: clone_derive(&self.derive) }
    }
}

/// The selector `f` where a directive gave one, nothing where it is the
/// default.
pub open spec fn given(f: SpecFieldsArg) -> Option<SpecFieldsArg> {
    if f.is_default() {
        None
    } else {
        Some(f)
    }
}

impl BaseAttrArgs {
    /// What `parse` makes of `args`.
    pub open spec fn parsed(args: Seq<SpecToken>) -> Result<SpecBaseAttrArgs, SpecError> {
        match selector_parsed(args) {
            Err(e) => Err(e),
            Ok((fields, rest)) => match paths_taken(rest, "derive"@).0 {
                Err(e) => Err(e),
                Ok(derive) => Ok(SpecBaseAttrArgs { fields: given(fields), derive }),
            },
        }
    }

    /// What `parse` leaves of `args`, whether it fails or not.
    pub open spec fn left(args: Seq<SpecToken>) -> Seq<SpecToken> {
        match selector_parsed(args) {
            Err(_) => selector_left(args),
            Ok((_, rest)) => paths_taken(rest, "derive"@).1,
        }
    }

    /// Reads the `base` overlay from the tokens inside `base(...)`.
    pub fn parse(args: &mut Vec<Token>) -> (r: Result<Self, Error>)
        ensures
            final(args).deep_view() == Self::left(old(args).deep_view()),
            match Self::parsed(old(args).deep_view()) {
                Ok(value) => r matches Ok(v) && v.deep_view() == value,
                Err(e) => r matches Err(x) && x.deep_view() == e,
            },
    {
        let fields = match FieldsArg::parse(args) {
            Ok(fields) => if fields.is_default() {
                None
            } else {
                Some(fields)
            },
            Err(e) => {
                return Err(e);
            },
        };
        let derive = match take_path_group("derive", args) {
            Ok(derive) => derive,
            Err(e) => {
                return Err(e);
            },
        };
        Ok(BaseAttrArgs { fields, derive })
    }
}

/// The `defaults` overlay of a type-level block: it stands in where a
/// directive does not say.
#[derive(Debug, PartialEq, Eq)]
pub struct DefaultAttrArgs {
    pub fields: Option<FieldsArg>,
    pub derive: Option<Vec<Vec<Token>>>,
    pub preset: Option<Preset>,
    pub attributes_with: AttributesWith,
}

/// The mathematical value of [`DefaultAttrArgs`].
pub ghost struct SpecDefaultAttrArgs {
    pub fields: Option<SpecFieldsArg>,
    pub derive: Option<Seq<Seq<SpecToken>>>,
    pub preset: Option<Preset>,
    pub attributes_with: AttributesWith,
}

impl DeepView for DefaultAttrArgs {
    type V = SpecDefaultAttrArgs;

    open spec fn deep_view(&self) -> SpecDefaultAttrArgs {
        SpecDefaultAttrArgs {
            fields: self.fields.deep_view(),
            derive: self.derive.deep_view(),
            preset: self.preset,
            attributes_with: self.attributes_with,
        }
    }
}

impl Clone for DefaultAttrArgs {
    fn clone(&self) -> (r: Self)
        ensures
            r.deep_view() == self.deep_view(),
    {
        DefaultAttrArgs {
            fields: clone_fields(&self.fields),
            derive: clone_derive(&self.derive),
            preset: self.preset,
            attributes_with: self.attributes_with,
        }
    }
}

/// The annotation policy where none is given: that of the preset, if there
/// is one.
pub open spec fn fallback_attributes(preset: Option<Preset>) -> AttributesWith {
    match preset {
        Some(p) => p.implied_attributes(),
        None => AttributesWith::Nothing,
    }
}

impl DefaultAttrArgs {
    /// What `parse` makes of `args`.
    pub open spec fn parsed(args: Seq<SpecToken>, caps: Capabilities) -> Result<
        SpecDefaultAttrArgs,
        SpecError,
    > {
        match selector_parsed(args) {
            Err(e) => Err(e),
            Ok((fields, rest)) => match paths_taken(rest, "derive"@).0 {
                Err(e) => Err(e),
                Ok(derive) => match Preset::parsed(paths_taken(rest, "derive"@).1, caps) {
                    Err(e) => Err(e),
                    Ok((preset, rest)) => match AttributesWith::parsed(rest, caps) {
                        Err(e) => Err(e),
                        Ok((policy, _)) => Ok(
                            SpecDefaultAttrArgs {
                                fields: given(fields),
                                derive,
                                preset,
                                attributes_with: match policy {
                                    Some(p) => p,
                                    None => fallback_attributes(preset),
                                },
                            },
                        ),
                    },
                },
            },
        }
    }

    /// What `parse` leaves of `args`, whether it fails or not.
    pub open spec fn left(args: Seq<SpecToken>, caps: Capabilities) -> Seq<SpecToken> {
        match selector_parsed(args) {
            Err(_) => selector_left(args),
            Ok((_, rest)) => match paths_taken(rest, "derive"@).0 {
                Err(_) => paths_taken(rest, "derive"@).1,
                Ok(_) => match Preset::parsed(paths_taken(rest, "derive"@).1, caps) {
                    Err(_) => literal_left(paths_taken(rest, "derive"@).1, "preset"@),
                    Ok((_, rest)) => literal_left(rest, "attributes_with"@),
                },
            },
        }
    }

    /// Reads the `defaults` overlay from the tokens inside `defaults(...)`.
    pub fn parse(args: &mut Vec<Token>, caps: Capabilities) -> (r: Result<Self, Error>)
        ensures
            final(args).deep_view() == Self::left(old(args).deep_view(), caps),
            match Self::parsed(old(args).deep_view(), caps) {
                Ok(value) => r matches Ok(v) && v.deep_view() == value,
                Err(e) => r matches Err(x) && x.deep_view() == e,
            },
    {
        let fields = match FieldsArg::parse(args) {
            Ok(fields) => if fields.is_default() {
                None
            } else {
                Some(fields)
            },
            Err(e) => {
                return Err(e);
            },
        };
        let derive = match take_path_group("derive", args) {
            Ok(derive) => derive,
            Err(e) => {
                return Err(e);
            },
        };
        let preset = match Preset::parse(args, caps) {
            Ok(preset) => preset,
            Err(e) => {
                return Err(e);
            },
        };
        let attributes_with = match AttributesWith::parse(args, caps) {
            Ok(Some(policy)) => policy,
            Ok(None) => match preset {
                Some(p) => p.attr_with(),
                None => AttributesWith::Nothing,
            },
            Err(e) => {
                return Err(e);
            },
        };
        Ok(DefaultAttrArgs { fields, derive, preset, attributes_with })
    }
}

/// The type-level block of a declaration.
#[derive(Debug, PartialEq, Eq)]
pub struct ModelAttrArgs {
    pub base: Option<BaseAttrArgs>,
    pub defaults: Option<DefaultAttrArgs>,
    pub extras: ExtraConditions,
}

/// The mathematical value of [`ModelAttrArgs`].
pub ghost struct SpecModelAttrArgs {
    pub base: Option<SpecBaseAttrArgs>,
    pub defaults: Option<SpecDefaultAttrArgs>,
    pub extras: ExtraConditions,
}

impl DeepView for ModelAttrArgs {
    type V = SpecModelAttrArgs;

    open spec fn deep_view(&self) -> SpecModelAttrArgs {
        SpecModelAttrArgs {
            base: self.base.deep_view(),
            defaults: self.defaults.deep_view(),
            extras: self.extras,
        }
    }
}

impl Clone for ModelAttrArgs {
    fn clone(&self) -> (r: Self)
        ensures
            r.deep_view() == self.deep_view(),
    {
        ModelAttrArgs {
            base: match &self.base {
                Some(base) => Some(base.clone()),
                None => None,
            },
            defaults: match &self.defaults {
                Some(defaults) => Some(defaults.clone()),
                None => None,
            },
            extras: self.extras,
        }
    }
}

impl Default for ModelAttrArgs {
    fn default() -> (r: Self)
        ensures
            r.deep_view() == SpecModelAttrArgs::empty(),
    {
        ModelAttrArgs { base: None, defaults: None, extras: ExtraConditions::default() }
    }
}

impl SpecModelAttrArgs {
    /// The block of a declaration that has none.
    pub open spec fn empty() -> SpecModelAttrArgs {
        SpecModelAttrArgs {
            base: None,
            defaults: None,
            extras: ExtraConditions { has_oai_example: false },
        }
    }

    /// The selector that stands in for a directive's default one.
    pub open spec fn default_fields(self) -> Option<SpecFieldsArg> {
        match self.defaults {
            Some(d) => d.fields,
            None => None,
        }
    }

    /// The selector that every directive is merged over.
    pub open spec fn base_fields(self) -> Option<SpecFieldsArg> {
        match self.base {
            Some(b) => b.fields,
            None => None,
        }
    }

    /// The derive list for a directive that gives none.
    pub open spec fn default_derive(self) -> Option<Seq<Seq<SpecToken>>> {
        match self.defaults {
            Some(d) => d.derive,
            None => None,
        }
    }

    /// The derive list that every directive's list is put behind.
    pub open spec fn base_derive(self) -> Option<Seq<Seq<SpecToken>>> {
        match self.base {
            Some(b) => b.derive,
            None => None,
        }
    }

    /// The preset for a directive that gives none.
    pub open spec fn default_preset(self) -> Option<Preset> {
        match self.defaults {
            Some(d) => d.preset,
            None => None,
        }
    }
}

/// The names that a type-level block knows.
pub open spec fn model_names() -> Seq<Seq<char>> {
    seq!["base"@, "defaults"@]
}

impl ModelAttrArgs {
    /// What `parse` makes of the arguments `args` of the one type-level
    /// block.
    pub open spec fn block_parsed(
        args: Seq<SpecToken>,
        extras: ExtraConditions,
        caps: Capabilities,
    ) -> Result<SpecModelAttrArgs, SpecError> {
        match group_taken(args, "base"@) {
            Err(e) => Err(e),
            Ok((base_group, rest)) => match Self::base_of(base_group) {
                Err(e) => Err(e),
                Ok(base) => match group_taken(rest, "defaults"@) {
                    Err(e) => Err(e),
                    Ok((defaults_group, rest)) => match Self::defaults_of(defaults_group, caps) {
                        Err(e) => Err(e),
                        Ok(defaults) => match first_unknown(rest, model_names()) {
                            Some(name) => Err(
                                SpecError::UnknownArgument { name, allowed: model_names() },
                            ),
                            None => Ok(SpecModelAttrArgs { base, defaults, extras }),
                        },
                    },
                },
            },
        }
    }

    /// The `base` overlay read from its group, where there is one.
    pub open spec fn base_of(group: Option<Seq<SpecToken>>) -> Result<
        Option<SpecBaseAttrArgs>,
        SpecError,
    > {
        match group {
            None => Ok(None),
            Some(g) => match BaseAttrArgs::parsed(g) {
                Ok(base) => Ok(Some(base)),
                Err(e) => Err(e),
            },
        }
    }

    /// The `defaults` overlay read from its group, where there is one.
    pub open spec fn defaults_of(group: Option<Seq<SpecToken>>, caps: Capabilities) -> Result<
        Option<SpecDefaultAttrArgs>,
        SpecError,
    > {
        match group {
            None => Ok(None),
            Some(g) => match DefaultAttrArgs::parsed(g, caps) {
                Ok(defaults) => Ok(Some(defaults)),
                Err(e) => Err(e),
            },
        }
    }

    /// What `parse` makes of the type-level blocks `attrs` of a declaration.
    pub open spec fn parsed(
        attrs: Seq<SpecAttribute>,
        extras: ExtraConditions,
        caps: Capabilities,
    ) -> Result<SpecModelAttrArgs, SpecError> {
        if attrs.len() == 0 {
            Ok(SpecModelAttrArgs::empty())
        } else if attrs.len() > 1 {
            Err(SpecError::RepeatedModel { count: attrs.len() as usize })
        } else {
            Self::block_parsed(directive_tokens(attrs[0]), extras, caps)
        }
    }

    /// Fails on the first argument that is left in `args` and that a
    /// type-level block does not know.
    pub fn abort_unexpected(args: &Vec<Token>) -> (r: Result<(), Error>)
        ensures
            match first_unknown(args.deep_view(), model_names()) {
                None => r is Ok,
                Some(name) => r matches Err(e) && e.deep_view() == (SpecError::UnknownArgument {
                    name,
                    allowed: model_names(),
                }),
            },
    {
        let expected: Vec<&str> = vec!["base", "defaults"];
        assert(expected.deep_view() =~= model_names());
        abort_unexpected_args(expected, args)
    }

    /// Reads the type-level block of a declaration from its `model`
    /// annotations `attrs`. Without one, the empty block; with more than
    /// one, an error.
    pub fn parse(attrs: &Vec<&Attribute>, extras: ExtraConditions, caps: Capabilities) -> (r:
        Result<Self, Error>)
        ensures
            match Self::parsed(attrs.deep_view(), extras, caps) {
                Ok(value) => r matches Ok(v) && v.deep_view() == value,
                Err(e) => r matches Err(x) && x.deep_view() == e,
            },
    {
        if attrs.len() == 0 {
            return Ok(ModelAttrArgs::default());
        } else if attrs.len() > 1 {
            return Err(Error::RepeatedModel { count: attrs.len() });
        }
        let mut args = directive_args(attrs[0]);
        let base = match take_ident_group("base", &mut args) {
            Err(e) => {
                return Err(e);
            },
            Ok(None) => None,
            Ok(Some(mut group)) => match BaseAttrArgs::parse(&mut group) {
                Ok(base) => Some(base),
                Err(e) => {
                    return Err(e);
                },
            },
        };
        let defaults = match take_ident_group("defaults", &mut args) {
            Err(e) => {
                return Err(e);
            },
            Ok(None) => None,
            Ok(Some(mut group)) => match DefaultAttrArgs::parse(&mut group, caps) {
                Ok(defaults) => Some(defaults),
                Err(e) => {
                    return Err(e);
                },
            },
        };
        match Self::abort_unexpected(&args) {
            Err(e) => Err(e),
            Ok(()) => Ok(ModelAttrArgs { base, defaults, extras }),
        }
    }
}

impl FieldsArg {
    /// What `parse_with_args` makes of `args`: the selector of the
    /// directive, or the default selector of the block where the directive
    /// gives none, merged over the base selector of the block where there is
    /// one.
    pub open spec fn resolved(args: Seq<SpecToken>, model: SpecModelAttrArgs) -> Result<
        (SpecFieldsArg, Seq<SpecToken>),
        SpecError,
    > {
        match selector_parsed(args) {
            Err(e) => Err(e),
            Ok((fields, rest)) => Ok((Self::layered(fields, model), rest)),
        }
    }

    /// The selector `fields` of a directive under the block `model`.
    pub open spec fn layered(fields: SpecFieldsArg, model: SpecModelAttrArgs) -> SpecFieldsArg {
        let local = match model.default_fields() {
            Some(f) => if fields.is_default() {
                f
            } else {
                fields
            },
            None => fields,
        };
        match model.base_fields() {
            Some(base) => local.merge(base),
            None => local,
        }
    }

    /// Reads the selector of a directive out of `args` and lays it over the
    /// type-level block `model_args`.
    pub fn parse_with_args(args: &mut Vec<Token>, model_args: &ModelAttrArgs) -> (r: Result<
        FieldsArg,
        Error,
    >)
        ensures
            final(args).deep_view() == selector_left(old(args).deep_view()),
            match Self::resolved(old(args).deep_view(), model_args.deep_view()) {
                Ok((value, rest)) => r matches Ok(v) && v.deep_view() == value && final(
                    args
                ).deep_view() == rest,
                Err(e) => r matches Err(x) && x.deep_view() == e,
            },
    {
        let fields = match FieldsArg::parse(args) {
            Ok(fields) => fields,
            Err(e) => {
                return Err(e);
            },
        };
        let default_fields = match &model_args.defaults {
            Some(d) => match &d.fields {
                Some(f) => Some(f),
                None => None,
            },
            None => None,
        };
        let fields = match default_fields {
            Some(f) => if fields.is_default() {
                f.clone()
            } else {
                fields
            },
            None => fields,
        };
        let base_fields = match &model_args.base {
            Some(b) => match &b.fields {
                Some(f) => Some(f),
                None => None,
            },
            None => None,
        };
        match base_fields {
            Some(base) => Ok(fields.merge(base)),
            None => Ok(fields),
        }
    }
}

/// The derive list of a directive under the block `model`: the list of the
/// directive or else the default list, behind the base list.
pub open spec fn derives_layered(
    local: Option<Seq<Seq<SpecToken>>>,
    model: SpecModelAttrArgs,
) -> Option<Seq<Seq<SpecToken>>> {
    let derives = match local {
        Some(d) => Some(d),
        None => model.default_derive(),
    };
    match (derives, model.base_derive()) {
        (Some(d), Some(b)) => Some(b + d),
        (Some(d), None) => Some(d),
        (None, Some(b)) => Some(b),
        (None, None) => None,
    }
}

/// What `parse_derives_wtih_args` makes of `args`: the outcome, and what
/// is left of `args`.
pub open spec fn derives_resolved(args: Seq<SpecToken>, model: SpecModelAttrArgs) -> (
    Result<Option<Seq<Seq<SpecToken>>>, SpecError>,
    Seq<SpecToken>,
) {
    match paths_taken(args, "derive"@).0 {
        Err(e) => (Err(e), paths_taken(args, "derive"@).1),
        Ok(local) => (Ok(derives_layered(local, model)), paths_taken(args, "derive"@).1),
    }
}

/// Takes the argument `derive(...)` out of `args` and lays it over the
/// type-level block `model_args`.
pub fn parse_derives_wtih_args(args: &mut Vec<Token>, model_args: &ModelAttrArgs) -> (r: Result<
    Option<Vec<Vec<Token>>>,
    Error,
>)
    ensures
        final(args).deep_view() == derives_resolved(
            old(args).deep_view(),
            model_args.deep_view(),
        ).1,
        match derives_resolved(old(args).deep_view(), model_args.deep_view()).0 {
            Ok(value) => r matches Ok(v) && v.deep_view() == value,
            Err(e) => r matches Err(x) && x.deep_view() == e,
        },
{
    let base_derives = match &model_args.base {
        Some(b) => match &b.derive {
            Some(d) => Some(clone_paths(d)),
            None => None,
        },
        None => None,
    };
    let default_derives = match &model_args.defaults {
        Some(d) => match &d.derive {
            Some(d) => Some(clone_paths(d)),
            None => None,
        },
        None => None,
    };
    let derives = match take_path_group("derive", args) {
        Ok(Some(d)) => Some(d),
        Ok(None) => default_derives,
        Err(e) => {
            return Err(e);
        },
    };
    match (derives, base_derives) {
        (Some(d), Some(b)) => {
            let mut all = b;
            let mut rest = d;
            all.append(&mut rest);
            Ok(Some(all))
        },
        (Some(d), None) => Ok(Some(d)),
        (None, Some(b)) => Ok(Some(b)),
        (None, None) => Ok(None),
    }
}

impl Preset {
    /// What `parse_with_args` makes of `args`: the preset of the directive,
    /// or else that of the block's defaults.
    pub open spec fn resolved(
        args: Seq<SpecToken>,
        model: SpecModelAttrArgs,
        caps: Capabilities,
    ) -> Result<(Option<Preset>, Seq<SpecToken>), SpecError> {
        match Preset::parsed(args, caps) {
            Err(e) => Err(e),
            Ok((Some(p), rest)) => Ok((Some(p), rest)),
            Ok((None, rest)) => Ok((model.default_preset(), rest)),
        }
    }

    /// Takes the preset of a directive out of `args`; where it gives none,
    /// that of the defaults of `model_args` holds.
    pub fn parse_with_args(
        args: &mut Vec<Token>,
        model_args: &ModelAttrArgs,
        caps: Capabilities,
    ) -> (r: Result<Option<Preset>, Error>)
        ensures
            final(args).deep_view() == literal_left(old(args).deep_view(), "preset"@),
            match Self::resolved(old(args).deep_view(), model_args.deep_view(), caps) {
                Ok((value, rest)) => r == Ok::<Option<Preset>, Error>(value) && final(
                    args
                ).deep_view() == rest,
                Err(e) => r matches Err(x) && x.deep_view() == e,
            },
    {
        match Preset::parse(args, caps) {
            Err(e) => Err(e),
            Ok(Some(p)) => Ok(Some(p)),
            Ok(None) => match &model_args.defaults {
                Some(d) => Ok(d.preset),
                None => Ok(None),
            },
        }
    }
}

impl AttributesWith {
    /// What `parse_with_args` makes of `args`: the policy of the directive,
    /// or else that of the preset, or else that of the block's defaults.
    pub open spec fn resolved(
        args: Seq<SpecToken>,
        model: SpecModelAttrArgs,
        preset: Option<Preset>,
        caps: Capabilities,
    ) -> Result<(Option<AttributesWith>, Seq<SpecToken>), SpecError> {
        match AttributesWith::parsed(args, caps) {
            Err(e) => Err(e),
            Ok((Some(policy), rest)) => Ok((Some(policy), rest)),
            Ok((None, rest)) => Ok(
                (
                    match preset {
                        Some(p) => Some(p.implied_attributes()),
                        None => match model.defaults {
                            Some(d) => Some(d.attributes_with),
                            None => None,
                        },
                    },
                    rest,
                ),
            ),
        }
    }

    /// Takes the annotation policy of a directive out of `args`; where it
    /// gives none, that of `preset` holds, and without a preset that of the
    /// defaults of `model_args`.
    pub fn parse_with_args(
        args: &mut Vec<Token>,
        model_args: &ModelAttrArgs,
        preset: Option<&Preset>,
        caps: Capabilities,
    ) -> (r: Result<Option<AttributesWith>, Error>)
        ensures
            final(args).deep_view() == literal_left(old(args).deep_view(), "attributes_with"@),
            match Self::resolved(
                old(args).deep_view(),
                model_args.deep_view(),
                match preset {
                    Some(p) => Some(*p),
                    None => None,
                },
                caps,
            ) {
                Ok((value, rest)) => r == Ok::<Option<AttributesWith>, Error>(value) && final(
                    args
                ).deep_view() == rest,
                Err(e) => r matches Err(x) && x.deep_view() == e,
            },
    {
        match AttributesWith::parse(args, caps) {
            Err(e) => Err(e),
            Ok(Some(policy)) => Ok(Some(policy)),
            Ok(None) => match preset {
                Some(p) => Ok(Some(p.attr_with())),
                None => match &model_args.defaults {
                    Some(d) => Ok(Some(d.attributes_with)),
                    None => Ok(None),
                },
            },
        }
    }
}

/// The resolved configuration of one directive.
#[derive(Debug, PartialEq, Eq)]
pub struct AttrArgs {
    /// The name of the derived type.
    pub name: String,
    /// Which members it keeps.
    pub fields: FieldsArg,
    /// What it derives: each entry a path, as its tokens.
    pub derive: Option<Vec<Vec<Token>>>,
    pub preset: Preset,
    /// Which annotations it carries over.
    pub attributes_with: AttributesWith,
}

/// The mathematical value of [`AttrArgs`].
pub ghost struct SpecAttrArgs {
    pub name: Seq<char>,
    pub fields: SpecFieldsArg,
    pub derive: Option<Seq<Seq<SpecToken>>>,
    pub preset: Preset,
    pub attributes_with: AttributesWith,
}

impl DeepView for AttrArgs {
    type V = SpecAttrArgs;

    open spec fn deep_view(&self) -> SpecAttrArgs {
        SpecAttrArgs {
            name: self.name@,
            fields: self.fields.deep_view(),
            derive: self.derive.deep_view(),
            preset: self.preset,
            attributes_with: self.attributes_with,
        }
    }
}

impl Clone for AttrArgs {
    fn clone(&self) -> (r: Self)
        ensures
            r.deep_view() == self.deep_view(),
    {
        AttrArgs {
            name: self.name.clone(),
            fields: self.fields.clone(),
            derive: clone_derive(&self.derive),
            preset: self.preset,
            attributes_with: self.attributes_with,
        }
    }
}

/// The names that every directive knows.
pub open spec fn directive_names() -> Seq<Seq<char>> {
    seq!["fields"@, "omit"@, "derive"@, "attributes_with"@, "preset"@]
}

/// The failure on what is left over in `rest`, if an identifier of it is
/// not among `names`.
pub open spec fn leftover(rest: Seq<SpecToken>, names: Seq<Seq<char>>) -> Option<SpecError> {
    match first_unknown(rest, names) {
        Some(name) => Some(SpecError::UnknownArgument { name, allowed: names }),
        None => None,
    }
}

/// The arguments of a directive behind its name: what follows the first
/// two tokens, the name and the comma.
pub open spec fn behind_name(tokens: Seq<SpecToken>) -> Seq<SpecToken> {
    if tokens.len() < 3 {
        Seq::empty()
    } else {
        tokens.subrange(2, tokens.len() as int)
    }
}

impl AttrArgs {
    /// What `parse` makes of the directive `attr` under the block `model`:
    /// the configuration, and the arguments that are left over.
    pub open spec fn parsed(
        attr: SpecAttribute,
        model: SpecModelAttrArgs,
        abort_unexpected: bool,
        caps: Capabilities,
    ) -> Result<(SpecAttrArgs, Seq<SpecToken>), SpecError> {
        let tokens = directive_tokens(attr);
        if tokens.len() == 0 || !(tokens[0] is Ident) {
            Err(SpecError::MissingRequiredName)
        } else {
            match FieldsArg::resolved(behind_name(tokens), model) {
                Err(e) => Err(e),
                Ok((fields, rest)) => match derives_resolved(rest, model).0 {
                    Err(e) => Err(e),
                    Ok(derive) => match Preset::resolved(
                        derives_resolved(rest, model).1,
                        model,
                        caps,
                    ) {
                        Err(e) => Err(e),
                        Ok((preset, rest)) => match AttributesWith::resolved(
                            rest,
                            model,
                            preset,
                            caps,
                        ) {
                            Err(e) => Err(e),
                            Ok((policy, rest)) => if abort_unexpected && leftover(
                                rest,
                                directive_names(),
                            ) is Some {
                                Err(leftover(rest, directive_names())->0)
                            } else {
                                Ok(
                                    (
                                        SpecAttrArgs {
                                            name: tokens[0]->Ident_0,
                                            fields,
                                            derive,
                                            preset: match preset {
                                                Some(p) => p,
                                                None => Preset::Unset,
                                            },
                                            attributes_with: match policy {
                                                Some(p) => p,
                                                None => AttributesWith::Nothing,
                                            },
                                        },
                                        rest,
                                    ),
                                )
                            },
                        },
                    },
                },
            }
        }
    }

    /// Fails on the first argument that is left in `args` and that neither
    /// every directive knows nor `ignore` names.
    pub fn abort_unexpected(args: &Vec<Token>, ignore: &Vec<&str>) -> (r: Result<(), Error>)
        ensures
            match leftover(args.deep_view(), directive_names() + ignore.deep_view()) {
                None => r is Ok,
                Some(e) => r matches Err(x) && x.deep_view() == e,
            },
    {
        let mut expected: Vec<&str> = vec!["fields", "omit", "derive", "attributes_with", "preset"];
        let mut i: usize = 0;
        while i < ignore.len()
            invariant
                i <= ignore.len(),
                expected.deep_view() == directive_names() + ignore.deep_view().subrange(
                    0,
                    i as int,
                ),
            decreases ignore.len() - i,
        {
            let ghost before = expected.deep_view();
            expected.push(ignore[i]);
            assert(expected.deep_view() =~= before.push(ignore.deep_view()[i as int]));
            i += 1;
        }
        assert(ignore.deep_view().subrange(0, i as int) =~= ignore.deep_view());
        abort_unexpected_args(expected, args)
    }

    /// Resolves the directive `attr` under the type-level block
    /// `model_args`. The first token names the derived type; the arguments
    /// behind it come in any order. Returns the configuration and the
    /// arguments that no one took; with `abort_unexpected`, an argument
    /// that is left over and unknown is an error.
    pub fn parse(
        attr: &Attribute,
        model_args: &ModelAttrArgs,
        abort_unexpected: bool,
        caps: Capabilities,
    ) -> (r: Result<(AttrArgs, Vec<Token>), Error>)
        ensures
            match Self::parsed(attr.deep_view(), model_args.deep_view(), abort_unexpected, caps) {
                Ok((value, rest)) => r matches Ok(v) && v.0.deep_view() == value
                    && v.1.deep_view() == rest,
                Err(e) => r matches Err(x) && x.deep_view() == e,
            },
    {
        let mut tokens = directive_args(attr);
        let ghost all = tokens.deep_view();
        if tokens.len() == 0 {
            return Err(Error::MissingRequiredName);
        }
        let name = match &tokens[0] {
            Token::Ident(v) => v.clone(),
            _ => {
                return Err(Error::MissingRequiredName);
            },
        };
        let mut args = if tokens.len() < 3 {
            Vec::new()
        } else {
            tokens.split_off(2)
        };
        assert(args.deep_view() =~= behind_name(all));
        let fields = match FieldsArg::parse_with_args(&mut args, model_args) {
            Ok(v) => v,
            Err(e) => {
                return Err(e);
            },
        };
        let derive = match parse_derives_wtih_args(&mut args, model_args) {
            Ok(v) => v,
            Err(e) => {
                return Err(e);
            },
        };
        let preset = match Preset::parse_with_args(&mut args, model_args, caps) {
            Ok(v) => v,
            Err(e) => {
                return Err(e);
            },
        };
        let attributes_with = match AttributesWith::parse_with_args(
            &mut args,
            model_args,
            preset.as_ref(),
            caps,
        ) {
            Ok(Some(v)) => v,
            Ok(None) => AttributesWith::default(),
            Err(e) => {
                return Err(e);
            },
        };
        if abort_unexpected {
            let ignore: Vec<&str> = Vec::new();
            match Self::abort_unexpected(&args, &ignore) {
                Err(e) => {
                    return Err(e);
                },
                Ok(()) => {},
            }
        }
        let preset = match preset {
            Some(p) => p,
            None => Preset::default(),
        };
        Ok((AttrArgs { name, fields, derive, preset, attributes_with }, args))
    }
}

} // verus!
