//! The failures of an expansion. Each one is final: nothing is generated for
//! a declaration one of whose directives fails.

use vstd::prelude::*;
use crate::text::{decimal, to_decimal};

verus! {

/// The shape that the value of an argument should have had.
#[derive(Clone, Copy, Debug, PartialEq, Eq, Structural)]
pub enum Expected {
    /// `name(...)`
    Group,
    /// `name = "..."`
    Literal,
    /// `name = Identifier`
    Identifier,
    /// `name = true` or `name = false`
    Bool,
    /// An entry of a list of paths, such as `core::fmt::Debug`.
    Path,
    /// An entry of a list of member names.
    MemberName,
}

/// Why an expansion failed.
#[derive(Debug, PartialEq, Eq)]
pub enum Error {
    /// The argument `name` is there, but what follows it has not the
    /// expected shape. For an entry of a list, `name` is the entry as written.
    MalformedArgument { name: String, expected: Expected },
    /// One directive gives both an include list and an exclude list.
    ConflictingSelector,
    /// The identifier `name` is left over after every known argument was
    /// taken; `allowed` lists the known ones.
    UnknownArgument { name: String, allowed: Vec<String> },
    /// The directive does not start with the name of the type to derive.
    MissingRequiredName,
    /// The argument `name` has the value `value`, which is outside its closed set.
    InvalidEnumValue { name: String, value: String },
    /// The variant `variant` cannot be mapped: its pattern would not have the
    /// variant's own shape.
    ShapeMismatch { variant: String },
    /// The declaration bears `count` type-level blocks; one is the most.
    RepeatedModel { count: usize },
    /// The directive asks of a declaration what only a record can give.
    NotARecord,
}

/// The mathematical value of an [`Error`].
pub ghost enum SpecError {
    MalformedArgument { name: Seq<char>, expected: Expected },
    ConflictingSelector,
    UnknownArgument { name: Seq<char>, allowed: Seq<Seq<char>> },
    MissingRequiredName,
    InvalidEnumValue { name: Seq<char>, value: Seq<char> },
    ShapeMismatch { variant: Seq<char> },
    RepeatedModel { count: usize },
    NotARecord,
}

impl DeepView for Error {
    type V = SpecError;

    open spec fn deep_view(&self) -> SpecError {
        match self {
            Error::MalformedArgument { name, expected } => SpecError::MalformedArgument {
                name: name@,
                expected: *expected,
            },
            Error::ConflictingSelector => SpecError::ConflictingSelector,
            Error::UnknownArgument { name, allowed } => SpecError::UnknownArgument {
                name: name@,
                allowed: allowed.deep_view(),
            },
            Error::MissingRequiredName => SpecError::MissingRequiredName,
            Error::InvalidEnumValue { name, value } => SpecError::InvalidEnumValue {
                name: name@,
                value: value@,
            },
            Error::ShapeMismatch { variant } => SpecError::ShapeMismatch { variant: variant@ },
            Error::RepeatedModel { count } => SpecError::RepeatedModel { count: *count },
            Error::NotARecord => SpecError::NotARecord,
        }
    }
}

/// The failure of an argument `name` whose value has not the shape `expected`.
pub open spec fn malformed(name: Seq<char>, expected: Expected) -> SpecError {
    SpecError::MalformedArgument { name, expected }
}

/// The names `names`, each in double quotes, with `, ` between them.
pub open spec fn quoted_list(names: Seq<Seq<char>>) -> Seq<char>
    decreases names.len(),
{
    if names.len() == 0 {
        Seq::empty()
    } else if names.len() == 1 {
        "\""@ + names[0] + "\""@
    } else {
        quoted_list(names.drop_last()) + ", "@ + "\""@ + names.last() + "\""@
    }
}

/// What is amiss with an argument that is `expected` to have a shape.
pub open spec fn expectation(name: Seq<char>, expected: Expected) -> Seq<char> {
    match expected {
        Expected::Group => "Invalid or missing `"@ + name
            + "` argument, expected a group of args, e.g. `"@ + name + "(...)`"@,
        Expected::Literal => "Invalid or missing `"@ + name
            + "` argument, expected a literal, e.g. `"@ + name + " = \"...\"`"@,
        Expected::Identifier => "Invalid or missing `"@ + name
            + "` argument, expected an identifier, e.g. `"@ + name + " = MyStruct`"@,
        Expected::Bool => "Invalid or missing `"@ + name
            + "` argument, expected a bool, e.g. `"@ + name + " = true`"@,
        Expected::Path => "Invalid `"@ + name
            + "` argument, not a valid derive Path (e.g. `core::fmt::Debug`) or Identifier (e.g. `Debug`)"@,
        Expected::MemberName => "Invalid syntax, expected a field identifier, got `"@ + name + "`"@,
    }
}

/// The text that reports the failure `e` to the author of the declaration.
pub open spec fn message_of(e: SpecError) -> Seq<char> {
    match e {
        SpecError::MalformedArgument { name, expected } => expectation(name, expected),
        SpecError::ConflictingSelector => "Cannot have both `fields` and `omit` arguments"@,
        SpecError::UnknownArgument { name, allowed } => "Unknown argument `"@ + name
            + "`, all known arguments are ["@ + quoted_list(allowed) + "]"@,
        SpecError::MissingRequiredName =>
            "First argument must be an identifier (name) of the derived type"@,
        SpecError::InvalidEnumValue { name, value } => "Invalid value for `"@ + name + "`, got `"@
            + value + "`"@,
        SpecError::ShapeMismatch { variant } => "The variant `"@ + variant
            + "` cannot be mapped: its pattern has not the variant's shape"@,
        SpecError::RepeatedModel { count } =>
            "Invalid attribute, expected only one `model` attribute but got `"@ + decimal(
                count as nat,
            ) + "`"@,
        SpecError::NotARecord => "Patch models can only be derived for structs"@,
    }
}

/// The names `names`, each in double quotes, with `, ` between them.
fn quote_list(names: &Vec<String>) -> (r: String)
    ensures
        r@ == quoted_list(names.deep_view()),
{
    let ghost all = names.deep_view();
    let mut out = String::new();
    let mut i: usize = 0;
    while i < names.len()
        invariant
            i <= names.len(),
            all == names.deep_view(),
            out@ == quoted_list(all.subrange(0, i as int)),
        decreases names.len() - i,
    {
        proof {
            let upto = all.subrange(0, i + 1);
            assert(upto.drop_last() =~= all.subrange(0, i as int));
        }
        if i > 0 {
            out.append(", ");
        }
        out.append("\"");
        out.append(names[i].as_str());
        out.append("\"");
        i += 1;
    }
    assert(all.subrange(0, i as int) =~= all);
    out
}

/// `first`, then `name`, then `second`, then `name` again, then `third`.
fn around(first: &str, name: &String, second: &str, third: &str) -> (r: String)
    ensures
        r@ == first@ + name@ + second@ + name@ + third@,
{
    let mut out = String::from_str(first);
    out.append(name.as_str());
    out.append(second);
    out.append(name.as_str());
    out.append(third);
    out
}

/// `first`, then `name`, then `second`.
fn between(first: &str, name: &String, second: &str) -> (r: String)
    ensures
        r@ == first@ + name@ + second@,
{
    let mut out = String::from_str(first);
    out.append(name.as_str());
    out.append(second);
    out
}

impl Error {
    /// The text that reports this failure to the author of the declaration.
    pub fn message(&self) -> (r: String)
        ensures
            r@ == message_of(self.deep_view()),
    {
        match self {
            Error::MalformedArgument { name, expected } => match expected {
                Expected::Group => around(
                    "Invalid or missing `",
                    name,
                    "` argument, expected a group of args, e.g. `",
                    "(...)`",
                ),
                Expected::Literal => around(
                    "Invalid or missing `",
                    name,
                    "` argument, expected a literal, e.g. `",
                    " = \"...\"`",
                ),
                Expected::Identifier => around(
                    "Invalid or missing `",
                    name,
                    "` argument, expected an identifier, e.g. `",
                    " = MyStruct`",
                ),
                Expected::Bool => around(
                    "Invalid or missing `",
                    name,
                    "` argument, expected a bool, e.g. `",
                    " = true`",
                ),
                Expected::Path => between(
                    "Invalid `",
                    name,
                    "` argument, not a valid derive Path (e.g. `core::fmt::Debug`) or Identifier (e.g. `Debug`)",
                ),
                Expected::MemberName => between(
                    "Invalid syntax, expected a field identifier, got `",
                    name,
                    "`",
                ),
            },
            Error::ConflictingSelector => String::from_str(
                "Cannot have both `fields` and `omit` arguments",
            ),
            Error::UnknownArgument { name, allowed } => {
                let mut out = between("Unknown argument `", name, "`, all known arguments are [");
                let list = quote_list(allowed);
                out.append(list.as_str());
                out.append("]");
                out
            },
            Error::MissingRequiredName => String::from_str(
                "First argument must be an identifier (name) of the derived type",
            ),
            Error::InvalidEnumValue { name, value } => {
                let mut out = between("Invalid value for `", name, "`, got `");
                out.append(value.as_str());
                out.append("`");
                out
            },
            Error::ShapeMismatch { variant } => between(
                "The variant `",
                variant,
                "` cannot be mapped: its pattern has not the variant's shape",
            ),
            Error::RepeatedModel { count } => {
                let digits = to_decimal(*count);
                between(
                    "Invalid attribute, expected only one `model` attribute but got `",
                    &digits,
                    "`",
                )
            },
            Error::NotARecord => String::from_str("Patch models can only be derived for structs"),
        }
    }
}

} // verus!
