//! The closed choices of a directive: the preset, which annotations are
//! carried over, and how a patch wraps its members.

use vstd::prelude::*;
use crate::cursor::{
    ident_left, ident_taken, literal_left, literal_taken, take_ident_ident, take_ident_literal,
};
use crate::decl::{
    get_attribute_name, has_oai, has_oai_attribute, is_doc, selected, Attribute, Declaration, Field,
    SpecAttribute, SpecField,
};
use crate::error::{Error, SpecError};
use crate::text::same_text;
use crate::token::{SpecToken, Token};

verus! {

/// What the surrounding build offers. The rules are the same whatever is
/// switched on; a value that needs what is switched off is refused.
#[derive(Clone, Copy, Debug, PartialEq, Eq, Structural)]
pub struct Capabilities {
    /// Whether the schema integration (`oai` annotations, the `read` and
    /// `write` presets) is there.
    pub openapi: bool,
    /// Whether the database integration is there.
    pub welds: bool,
}

/// How a patch wraps its members.
#[derive(Clone, Copy, Debug, PartialEq, Eq, Structural)]
pub enum OptionType {
    /// Every member becomes optional: absent means no change.
    Option,
    /// As `Option`, but a member that is optional already gets three
    /// states: not mentioned, cleared, set.
    MaybeUndefined,
}

/// Which annotations of the original are carried over to the derived type.
#[derive(Clone, Copy, Debug, PartialEq, Eq, Structural)]
pub enum AttributesWith {
    /// None of them.
    Nothing,
    /// Those of the schema integration.
    Oai,
    /// All but the directives themselves and the derive lists.
    Deriveless,
    /// All but the directives themselves.
    All,
}

/// A built-in rule for which members a derived type keeps, with the
/// wrapping and the annotations that go with it.
#[derive(Clone, Copy, Debug, PartialEq, Eq, Structural)]
pub enum Preset {
    /// No preset: every member is kept.
    Unset,
    /// What may be read: all but the members marked `write_only`.
    Read,
    /// What may be written: all but the members marked `read_only`.
    Write,
}

impl Default for OptionType {
    fn default() -> (r: Self)
        ensures
            r == OptionType::Option,
    {
        OptionType::Option
    }
}

impl Default for AttributesWith {
    fn default() -> (r: Self)
        ensures
            r == AttributesWith::Nothing,
    {
        AttributesWith::Nothing
    }
}

impl Default for Preset {
    fn default() -> (r: Self)
        ensures
            r == Preset::Unset,
    {
        Preset::Unset
    }
}

/// The text of a literal without its first and its last character: of a
/// string literal, what stands between the quotes.
pub open spec fn unquoted(text: Seq<char>) -> Seq<char> {
    if text.len() >= 2 {
        text.subrange(1, text.len() - 1)
    } else {
        text
    }
}

/// The text of a literal without its first and its last character.
pub fn unquote(text: &String) -> (r: String)
    ensures
        r@ == unquoted(text@),
{
    let s = text.as_str();
    let n = s.unicode_len();
    if n >= 2 {
        String::from_str(s.substring_char(1, n - 1))
    } else {
        text.clone()
    }
}

/// The failure of the argument `name` given the value `value`.
pub open spec fn invalid_value(name: Seq<char>, value: Seq<char>) -> SpecError {
    SpecError::InvalidEnumValue { name, value }
}

impl OptionType {
    /// The wrapping that the identifier `value` names.
    pub open spec fn named(value: Seq<char>) -> Option<OptionType> {
        if value == "Option"@ {
            Some(OptionType::Option)
        } else if value == "MaybeUndefined"@ {
            Some(OptionType::MaybeUndefined)
        } else {
            None
        }
    }

    /// What `parse` makes of `args`.
    pub open spec fn parsed(args: Seq<SpecToken>) -> Result<
        (Option<OptionType>, Seq<SpecToken>),
        SpecError,
    > {
        match ident_taken(args, "option"@) {
            Err(e) => Err(e),
            Ok((None, rest)) => Ok((None, rest)),
            Ok((Some(value), rest)) => match Self::named(value) {
                Some(option) => Ok((Some(option), rest)),
                None => Err(invalid_value("option"@, value)),
            },
        }
    }

    /// Takes the argument `option = Option` or `option = MaybeUndefined` out
    /// of `args`.
    pub fn parse(args: &mut Vec<Token>) -> (r: Result<Option<OptionType>, Error>)
        ensures
            final(args).deep_view() == ident_left(old(args).deep_view(), "option"@),
            match Self::parsed(old(args).deep_view()) {
                Ok((value, rest)) => r == Ok::<Option<OptionType>, Error>(value) && final(
                    args
                ).deep_view() == rest,
                Err(e) => r matches Err(x) && x.deep_view() == e,
            },
    {
        let ident = match take_ident_ident("option", args) {
            Err(e) => {
                return Err(e);
            },
            Ok(None) => {
                return Ok(None);
            },
            Ok(Some(ident)) => ident,
        };
        if same_text(&ident, "Option") {
            Ok(Some(OptionType::Option))
        } else if same_text(&ident, "MaybeUndefined") {
            Ok(Some(OptionType::MaybeUndefined))
        } else {
            Err(Error::InvalidEnumValue { name: String::from_str("option"), value: ident })
        }
    }
}

/// Whether `attr` is neither of the two directives.
pub open spec fn is_no_directive(attr: SpecAttribute) -> bool {
    !attr.is_named("view"@) && !attr.is_named("patch"@)
}

impl AttributesWith {
    /// The policy that the text `value` names, given what is switched on.
    pub open spec fn named(value: Seq<char>, caps: Capabilities) -> Option<AttributesWith> {
        if value == "none"@ {
            Some(AttributesWith::Nothing)
        } else if caps.openapi && value == "oai"@ {
            Some(AttributesWith::Oai)
        } else if value == "deriveless"@ {
            Some(AttributesWith::Deriveless)
        } else if value == "all"@ {
            Some(AttributesWith::All)
        } else {
            None
        }
    }

    /// What `parse` makes of `args`.
    pub open spec fn parsed(args: Seq<SpecToken>, caps: Capabilities) -> Result<
        (Option<AttributesWith>, Seq<SpecToken>),
        SpecError,
    > {
        match literal_taken(args, "attributes_with"@) {
            Err(e) => Err(e),
            Ok((None, rest)) => Ok((None, rest)),
            Ok((Some(text), rest)) => match Self::named(unquoted(text), caps) {
                Some(policy) => Ok((Some(policy), rest)),
                None => Err(invalid_value("attributes_with"@, unquoted(text))),
            },
        }
    }

    /// Takes the argument `attributes_with = "..."` out of `args`.
    pub fn parse(args: &mut Vec<Token>, caps: Capabilities) -> (r: Result<
        Option<AttributesWith>,
        Error,
    >)
        ensures
            final(args).deep_view() == literal_left(old(args).deep_view(), "attributes_with"@),
            match Self::parsed(old(args).deep_view(), caps) {
                Ok((value, rest)) => r == Ok::<Option<AttributesWith>, Error>(value) && final(
                    args
                ).deep_view() == rest,
                Err(e) => r matches Err(x) && x.deep_view() == e,
            },
    {
        let literal = match take_ident_literal("attributes_with", args) {
            Err(e) => {
                return Err(e);
            },
            Ok(None) => {
                return Ok(None);
            },
            Ok(Some(literal)) => literal,
        };
        let value = unquote(&literal);
        if same_text(&value, "none") {
            Ok(Some(AttributesWith::Nothing))
        } else if caps.openapi && same_text(&value, "oai") {
            Ok(Some(AttributesWith::Oai))
        } else if same_text(&value, "deriveless") {
            Ok(Some(AttributesWith::Deriveless))
        } else if same_text(&value, "all") {
            Ok(Some(AttributesWith::All))
        } else {
            Err(Error::InvalidEnumValue { name: String::from_str("attributes_with"), value })
        }
    }

    /// Whether the policy carries the annotation `attr` of the declaration
    /// over to the derived type.
    pub open spec fn keeps_top(self, attr: SpecAttribute) -> bool {
        match self {
            AttributesWith::All => is_no_directive(attr),
            AttributesWith::Deriveless => attr.path.len() > 0 && is_no_directive(attr)
                && !attr.is_named("derive"@),
            AttributesWith::Oai => attr.is_exactly("oai"@),
            AttributesWith::Nothing => false,
        }
    }

    /// Whether the policy carries the annotation `attr` of a member over to
    /// the member of the derived type.
    pub open spec fn keeps_member(self, attr: SpecAttribute) -> bool {
        match self {
            AttributesWith::Oai => attr.is_named("oai"@),
            AttributesWith::All | AttributesWith::Deriveless => true,
            AttributesWith::Nothing => false,
        }
    }

    /// The annotations of the declaration `ast` that the derived type gets:
    /// their indices among those of `ast`, in order.
    pub fn gen_top_attributes(&self, ast: &Declaration) -> (r: Vec<usize>)
        ensures
            r@ == selected(ast.deep_view().attrs, AttrTest::Top(*self).accepts()),
    {
        select_attributes(&ast.attrs, AttrTest::Top(*self))
    }

    /// The annotations of a member that the member of the derived type gets:
    /// their indices among `attrs`, in order.
    pub fn gen_field_attributes(&self, attrs: &Vec<Attribute>) -> (r: Vec<usize>)
        ensures
            r@ == selected(attrs.deep_view(), AttrTest::Member(*self).accepts()),
    {
        select_attributes(attrs, AttrTest::Member(*self))
    }
}

/// A test on annotations, by which some of them are picked.
#[derive(Clone, Copy, Debug, PartialEq, Eq, Structural)]
pub enum AttrTest {
    /// The lines of documentation.
    Doc,
    /// What a policy carries over from the declaration.
    Top(AttributesWith),
    /// What a policy carries over from a member.
    Member(AttributesWith),
}

impl AttrTest {
    /// Whether the test accepts `attr`.
    pub open spec fn accepts_one(self, attr: SpecAttribute) -> bool {
        match self {
            AttrTest::Doc => attr.is_doc(),
            AttrTest::Top(policy) => policy.keeps_top(attr),
            AttrTest::Member(policy) => policy.keeps_member(attr),
        }
    }

    /// The test as a predicate.
    pub open spec fn accepts(self) -> spec_fn(SpecAttribute) -> bool {
        |attr: SpecAttribute| self.accepts_one(attr)
    }

    /// Whether the test accepts `attr`.
    pub fn check(self, attr: &Attribute) -> (r: bool)
        ensures
            r == self.accepts_one(attr.deep_view()),
    {
        match self {
            AttrTest::Doc => is_doc(attr),
            AttrTest::Top(AttributesWith::All) => match get_attribute_name(attr) {
                Some(first) => !same_text(first, "view") && !same_text(first, "patch"),
                None => true,
            },
            AttrTest::Top(AttributesWith::Deriveless) => match get_attribute_name(attr) {
                Some(first) => !same_text(first, "view") && !same_text(first, "patch")
                    && !same_text(first, "derive"),
                None => false,
            },
            AttrTest::Top(AttributesWith::Oai) => attr.is_exactly("oai"),
            AttrTest::Top(AttributesWith::Nothing) => false,
            AttrTest::Member(AttributesWith::Oai) => match get_attribute_name(attr) {
                Some(first) => same_text(first, "oai"),
                None => false,
            },
            AttrTest::Member(AttributesWith::All) => true,
            AttrTest::Member(AttributesWith::Deriveless) => true,
            AttrTest::Member(AttributesWith::Nothing) => false,
        }
    }
}

/// The indices of the annotations among `attrs` that `test` accepts, in order.
pub fn select_attributes(attrs: &Vec<Attribute>, test: AttrTest) -> (r: Vec<usize>)
    ensures
        r@ == selected(attrs.deep_view(), test.accepts()),
{
    let ghost all = attrs.deep_view();
    let mut out: Vec<usize> = Vec::new();
    let mut i: usize = 0;
    while i < attrs.len()
        invariant
            i <= attrs.len(),
            all == attrs.deep_view(),
            out@ == selected(all.subrange(0, i as int), test.accepts()),
        decreases attrs.len() - i,
    {
        proof {
            let upto = all.subrange(0, i + 1);
            assert(upto.drop_last() =~= all.subrange(0, i as int));
        }
        if test.check(&attrs[i]) {
            out.push(i);
        }
        i += 1;
    }
    assert(all.subrange(0, i as int) =~= all);
    out
}

/// The lines of documentation among `attrs`: their indices, in order.
pub fn extract_docs(attrs: &Vec<Attribute>) -> (r: Vec<usize>)
    ensures
        r@ == selected(attrs.deep_view(), AttrTest::Doc.accepts()),
{
    select_attributes(attrs, AttrTest::Doc)
}

impl Preset {
    /// The preset that the text `value` names, given what is switched on.
    pub open spec fn named(value: Seq<char>, caps: Capabilities) -> Option<Preset> {
        if value == "none"@ {
            Some(Preset::Unset)
        } else if caps.openapi && value == "read"@ {
            Some(Preset::Read)
        } else if caps.openapi && value == "write"@ {
            Some(Preset::Write)
        } else {
            None
        }
    }

    /// What `parse` makes of `args`.
    pub open spec fn parsed(args: Seq<SpecToken>, caps: Capabilities) -> Result<
        (Option<Preset>, Seq<SpecToken>),
        SpecError,
    > {
        match literal_taken(args, "preset"@) {
            Err(e) => Err(e),
            Ok((None, rest)) => Ok((None, rest)),
            Ok((Some(text), rest)) => match Self::named(unquoted(text), caps) {
                Some(preset) => Ok((Some(preset), rest)),
                None => Err(invalid_value("preset"@, unquoted(text))),
            },
        }
    }

    /// Takes the argument `preset = "..."` out of `args`.
    pub fn parse(args: &mut Vec<Token>, caps: Capabilities) -> (r: Result<Option<Preset>, Error>)
        ensures
            final(args).deep_view() == literal_left(old(args).deep_view(), "preset"@),
            match Self::parsed(old(args).deep_view(), caps) {
                Ok((value, rest)) => r == Ok::<Option<Preset>, Error>(value) && final(
                    args
                ).deep_view() == rest,
                Err(e) => r matches Err(x) && x.deep_view() == e,
            },
    {
        let literal = match take_ident_literal("preset", args) {
            Err(e) => {
                return Err(e);
            },
            Ok(None) => {
                return Ok(None);
            },
            Ok(Some(literal)) => literal,
        };
        let value = unquote(&literal);
        if same_text(&value, "none") {
            Ok(Some(Preset::Unset))
        } else if caps.openapi && same_text(&value, "read") {
            Ok(Some(Preset::Read))
        } else if caps.openapi && same_text(&value, "write") {
            Ok(Some(Preset::Write))
        } else {
            Err(Error::InvalidEnumValue { name: String::from_str("preset"), value })
        }
    }

    /// Whether the preset keeps a member that bears the annotations `attrs`.
    pub open spec fn keeps_annotated(self, attrs: Seq<SpecAttribute>) -> bool {
        match self {
            Preset::Unset => true,
            Preset::Read => !has_oai(attrs, Some("write_only"@)),
            Preset::Write => !has_oai(attrs, Some("read_only"@)),
        }
    }

    /// Whether the preset keeps the member `field`.
    pub open spec fn keeps(self, field: SpecField) -> bool {
        self.keeps_annotated(field.attrs)
    }

    /// The preset as a predicate on fields.
    pub open spec fn keeps_fields(self) -> spec_fn(SpecField) -> bool {
        |field: SpecField| self.keeps(field)
    }

    /// Whether the preset keeps a member that bears the annotations `attrs`.
    pub fn predicate_annotated(&self, attrs: &Vec<Attribute>) -> (r: bool)
        ensures
            r == self.keeps_annotated(attrs.deep_view()),
    {
        match self {
            Preset::Unset => true,
            Preset::Read => !has_oai_attribute(attrs, Some("write_only")),
            Preset::Write => !has_oai_attribute(attrs, Some("read_only")),
        }
    }

    /// Whether the preset keeps the member `field`.
    pub fn predicate(&self, field: &Field) -> (r: bool)
        ensures
            r == self.keeps(field.deep_view()),
    {
        self.predicate_annotated(&field.attrs)
    }

    /// The fields among `fields` that the preset keeps: their indices, in order.
    pub fn select_fields(&self, fields: &Vec<Field>) -> (r: Vec<usize>)
        ensures
            r@ == selected(fields.deep_view(), self.keeps_fields()),
    {
        let ghost all = fields.deep_view();
        let mut out: Vec<usize> = Vec::new();
        let mut i: usize = 0;
        while i < fields.len()
            invariant
                i <= fields.len(),
                all == fields.deep_view(),
                out@ == selected(all.subrange(0, i as int), self.keeps_fields()),
            decreases fields.len() - i,
        {
            proof {
                let upto = all.subrange(0, i + 1);
                assert(upto.drop_last() =~= all.subrange(0, i as int));
            }
            if self.predicate(&fields[i]) {
                out.push(i);
            }
            i += 1;
        }
        assert(all.subrange(0, i as int) =~= all);
        out
    }

    /// The wrapping of a patch that goes with the preset.
    pub open spec fn implied_option(self) -> OptionType {
        match self {
            Preset::Unset => OptionType::Option,
            Preset::Read | Preset::Write => OptionType::MaybeUndefined,
        }
    }

    /// The annotations that the preset carries over where the directive
    /// does not say.
    pub open spec fn implied_attributes(self) -> AttributesWith {
        match self {
            Preset::Unset => AttributesWith::Nothing,
            Preset::Read | Preset::Write => AttributesWith::Oai,
        }
    }

    /// The wrapping of a patch that goes with the preset.
    pub fn option(&self) -> (r: OptionType)
        ensures
            r == self.implied_option(),
    {
        match self {
            Preset::Unset => OptionType::Option,
            Preset::Read | Preset::Write => OptionType::MaybeUndefined,
        }
    }

    /// The annotations that the preset carries over where the directive
    /// does not say.
    pub fn attr_with(&self) -> (r: AttributesWith)
        ensures
            r == self.implied_attributes(),
    {
        match self {
            Preset::Unset => AttributesWith::Nothing,
            Preset::Read | Preset::Write => AttributesWith::Oai,
        }
    }
}

} // verus!
