use proc_macro2::{Spacing, TokenStream, TokenTree};
use restructed::args::{AttrArgs, BaseAttrArgs, DefaultAttrArgs, ExtraConditions, ModelAttrArgs};
use restructed::cursor::{
    abort_unexpected_args, extract_idents, find_ident, split_paths, take_ident_bool,
    take_ident_group, take_ident_ident, take_ident_literal, take_path_group,
};
use restructed::decl::{
    get_attribute_name, has_oai_attribute, is_attribute, is_doc, AttrStyle, Attribute, FieldType,
};
use restructed::error::{Error, Expected};
use restructed::expand::{impl_extras, Extra};
use restructed::patch::extract_type_from_option;
use restructed::policy::{
    extract_docs, unquote, AttributesWith, Capabilities, OptionType, Preset,
};
use restructed::selector::FieldsArg;
use restructed::text::to_decimal;
use restructed::token::{render_tokens, Delimiter, Token};

const PLAIN: Capabilities = Capabilities { openapi: false, welds: false };
const OPENAPI: Capabilities = Capabilities { openapi: true, welds: false };

fn lower(stream: TokenStream) -> Vec<Token> {
    stream
        .into_iter()
        .map(|tree| match tree {
            TokenTree::Ident(ident) => Token::Ident(ident.to_string()),
            TokenTree::Literal(literal) => Token::Literal(literal.to_string()),
            TokenTree::Punct(punct) => {
                Token::Punct(punct.as_char(), punct.spacing() == Spacing::Joint)
            }
            TokenTree::Group(group) => {
                let delimiter = match group.delimiter() {
                    proc_macro2::Delimiter::Parenthesis => Delimiter::Parenthesis,
                    proc_macro2::Delimiter::Brace => Delimiter::Brace,
                    proc_macro2::Delimiter::Bracket => Delimiter::Bracket,
                    proc_macro2::Delimiter::None => Delimiter::Invisible,
                };
                Token::Group(delimiter, lower(group.stream()))
            }
        })
        .collect()
}

fn lex(source: &str) -> Vec<Token> {
    lower(source.parse().unwrap())
}

fn directive(name: &str, arguments: &str) -> Attribute {
    Attribute::list(name, lex(arguments))
}

fn strings(names: &[&str]) -> Vec<String> {
    names.iter().map(|s| s.to_string()).collect()
}

fn malformed(name: &str, expected: Expected) -> Error {
    Error::MalformedArgument { name: name.to_string(), expected }
}

#[test]
fn should_extract_derives() {
    let tokens = lex("UserUpdatables, omit(id), derives(Clone, core::fmt::Debug)");
    let mut attr_args = tokens[2..].to_vec();

    let derives = take_path_group("derives", &mut attr_args)
        .unwrap()
        .expect("Should of found derives");
    assert_eq!(render_tokens(&derives[0]), "Clone");
    assert_eq!(render_tokens(&derives[1]), "core :: fmt :: Debug");
    assert_eq!(derives.len(), 2);
    assert_eq!(attr_args, lex("omit(id),"));
}

#[test]
fn a_group_is_taken_with_its_comma() {
    let mut args = lex("omit(id), fields(a, b), preset = \"none\"");
    let group = take_ident_group("fields", &mut args).unwrap().unwrap();
    assert_eq!(group, lex("a, b"));
    assert_eq!(args, lex("omit(id), preset = \"none\""));

    let mut args = lex("fields(a)");
    assert_eq!(take_ident_group("fields", &mut args), Ok(Some(lex("a"))));
    assert!(args.is_empty());

    let mut args = lex("omit(id)");
    assert_eq!(take_ident_group("fields", &mut args), Ok(None));
    assert_eq!(args, lex("omit(id)"));

    let mut args = lex("fields = 3, fields(a)");
    assert_eq!(take_ident_group("fields", &mut args), Err(malformed("fields", Expected::Group)));
    assert_eq!(args, lex("fields = 3, fields(a)"));

    let mut args = lex("omit(id), fields");
    assert_eq!(take_ident_group("fields", &mut args), Err(malformed("fields", Expected::Group)));
    assert_eq!(find_ident(&lex("a, b(fields), fields"), &"fields".to_string()), 5);
    assert_eq!(find_ident(&lex("a, b"), &"fields".to_string()), 3);
}

#[test]
fn a_value_is_taken_with_its_name() {
    let mut args = lex("option = MaybeUndefined, preset = \"read\", default_derives = true");
    assert_eq!(take_ident_literal("preset", &mut args), Ok(Some("\"read\"".to_string())));
    assert_eq!(args, lex("option = MaybeUndefined, default_derives = true"));
    assert_eq!(take_ident_bool("default_derives", &mut args), Ok(Some(true)));
    assert_eq!(take_ident_ident("option", &mut args), Ok(Some("MaybeUndefined".to_string())));
    assert!(args.is_empty());
    assert_eq!(take_ident_ident("option", &mut args), Ok(None));

    let mut args = lex("flag = false");
    assert_eq!(take_ident_bool("flag", &mut args), Ok(Some(false)));

    let mut args = lex("preset = read");
    assert_eq!(take_ident_literal("preset", &mut args), Err(malformed("preset", Expected::Literal)));
    assert_eq!(args, lex("preset = read"));
    let mut args = lex("option = \"Option\"");
    assert_eq!(take_ident_ident("option", &mut args), Err(malformed("option", Expected::Identifier)));
    let mut args = lex("option =");
    assert_eq!(take_ident_ident("option", &mut args), Err(malformed("option", Expected::Identifier)));
    let mut args = lex("option(Option)");
    assert_eq!(take_ident_ident("option", &mut args), Err(malformed("option", Expected::Identifier)));
    let mut args = lex("flag = maybe");
    assert_eq!(take_ident_bool("flag", &mut args), Err(malformed("flag", Expected::Bool)));
    let mut args = lex("flag = \"true\"");
    assert_eq!(take_ident_bool("flag", &mut args), Err(malformed("flag", Expected::Bool)));
}

#[test]
fn paths_are_split_at_commas_and_checked() {
    let runs = split_paths(&lex("Clone, core::fmt::Debug,"));
    assert_eq!(runs, vec![lex("Clone"), lex("core::fmt::Debug")]);
    assert_eq!(split_paths(&lex("A,, B")), vec![lex("A")]);
    assert!(split_paths(&lex(", A")).is_empty());
    assert!(split_paths(&lex("")).is_empty());

    let mut args = lex("derive(), omit(id)");
    assert_eq!(take_path_group("derive", &mut args), Ok(None));
    assert_eq!(args, lex("omit(id)"));

    let mut args = lex("derive(Clone Debug)");
    assert_eq!(take_path_group("derive", &mut args), Err(malformed("derive", Expected::Path)));
    assert!(args.is_empty());
    let mut args = lex("derive(core::fmt::)");
    assert_eq!(take_path_group("derive", &mut args), Err(malformed("derive", Expected::Path)));
    let mut args = lex("derive(\"Clone\")");
    assert_eq!(take_path_group("derive", &mut args), Err(malformed("derive", Expected::Path)));
    let mut args = lex("derive = Clone");
    assert_eq!(take_path_group("derive", &mut args), Err(malformed("derive", Expected::Group)));
    let mut args = lex("derive(::serde::Serialize, Foo<Bar>)");
    let paths = take_path_group("derive", &mut args).unwrap().unwrap();
    assert_eq!(render_tokens(&paths[0]), ":: serde :: Serialize");
    assert_eq!(render_tokens(&paths[1]), "Foo < Bar >");
}

#[test]
fn tokens_are_written_as_they_are_read() {
    for source in ["a :: b", "x (y , z)", "{ }", "{ a }", "[1 , 2]", "f = \"s\" , g", "< - >"] {
        let tokens = lex(source);
        let expected: TokenStream = source.parse().unwrap();
        assert_eq!(render_tokens(&tokens), expected.to_string());
        assert_eq!(lex(&render_tokens(&tokens)), tokens);
    }
    assert_eq!(render_tokens(&lex("core::fmt::Debug")), "core :: fmt :: Debug");
    assert_eq!(render_tokens(&[Token::ident("a"), Token::punct(','), Token::literal("1")].to_vec()), "a , 1");
    assert_eq!(render_tokens(&vec![Token::group(lex("a"))]), "(a)");
}

#[test]
fn a_selector_lists_names() {
    assert_eq!(extract_idents(&lex("a, b , c")), Ok(strings(&["a", "b", "c"])));
    assert_eq!(extract_idents(&lex("")), Ok(vec![]));
    assert_eq!(extract_idents(&lex("a, 1, (b)")), Err(malformed("1", Expected::MemberName)));
    assert_eq!(extract_idents(&lex("a (b)")), Err(malformed("(b)", Expected::MemberName)));

    let mut args = lex("derive(Clone), fields(a, b)");
    assert_eq!(FieldsArg::parse(&mut args), Ok(FieldsArg::Fields(strings(&["a", "b"]))));
    assert_eq!(args, lex("derive(Clone),"));
    let mut args = lex("omit(id)");
    assert_eq!(FieldsArg::parse(&mut args), Ok(FieldsArg::Omit(strings(&["id"]))));
    let mut args = lex("derive(Clone)");
    assert_eq!(FieldsArg::parse(&mut args), Ok(FieldsArg::Omit(vec![])));
    assert_eq!(FieldsArg::default(), FieldsArg::Omit(vec![]));
    let mut args = lex("fields(a), omit(b)");
    assert_eq!(FieldsArg::parse(&mut args), Err(Error::ConflictingSelector));
    let mut args = lex("fields(a.b)");
    assert_eq!(FieldsArg::parse(&mut args), Err(malformed(".", Expected::MemberName)));
}

#[test]
fn a_selector_decides_membership() {
    let fields = FieldsArg::Fields(strings(&["a", "b"]));
    let omit = FieldsArg::Omit(strings(&["a"]));
    assert!(fields.predicate(&"a".to_string()));
    assert!(!fields.predicate(&"c".to_string()));
    assert!(!omit.predicate(&"a".to_string()));
    assert!(omit.predicate(&"c".to_string()));
    assert!(FieldsArg::Omit(vec![]).is_default());
    assert!(!omit.is_default());
    assert!(!FieldsArg::Fields(vec![]).is_default());
}

#[test]
fn selectors_merge_over_a_base() {
    let none = FieldsArg::Omit(vec![]);
    assert_eq!(none.merge(&none), FieldsArg::Omit(vec![]));
    assert_eq!(
        FieldsArg::Fields(strings(&["a", "b"])).merge(&FieldsArg::Omit(strings(&["a"]))),
        FieldsArg::Fields(strings(&["b"]))
    );
    assert_eq!(
        FieldsArg::Omit(strings(&["a"])).merge(&FieldsArg::Fields(strings(&["a", "b"]))),
        FieldsArg::Fields(strings(&["b"]))
    );
    assert_eq!(
        FieldsArg::Fields(strings(&["c", "a", "d"])).merge(&FieldsArg::Fields(strings(&["a", "b"]))),
        FieldsArg::Fields(strings(&["c", "d", "a", "b"]))
    );
    assert_eq!(
        FieldsArg::Omit(strings(&["x", "a"])).merge(&FieldsArg::Omit(strings(&["a", "b"]))),
        FieldsArg::Omit(strings(&["a", "b", "x"]))
    );
}

#[test]
fn leftovers_are_unknown_arguments() {
    assert_eq!(abort_unexpected_args(vec!["a", "b"], &lex("a = 1, b(c)")), Ok(()));
    assert_eq!(
        abort_unexpected_args(vec!["a", "b"], &lex("a, (c), c, d")),
        Err(Error::UnknownArgument { name: "c".to_string(), allowed: strings(&["a", "b"]) })
    );
    assert_eq!(AttrArgs::abort_unexpected(&lex("option = x"), &vec!["option", "x"]), Ok(()));
    assert_eq!(ModelAttrArgs::abort_unexpected(&lex("base")), Ok(()));
}

#[test]
fn unknown_argument_names_the_allowed_set() {
    let attr = directive("view", "UserView, fields(name), foo = 1");
    let failure = AttrArgs::parse(&attr, &ModelAttrArgs::default(), true, PLAIN);
    assert_eq!(
        failure,
        Err(Error::UnknownArgument {
            name: "foo".to_string(),
            allowed: strings(&["fields", "omit", "derive", "attributes_with", "preset"]),
        })
    );
    let (args, rest) = AttrArgs::parse(&attr, &ModelAttrArgs::default(), false, PLAIN).unwrap();
    assert_eq!(args.name, "UserView");
    assert_eq!(rest, lex("foo = 1"));
}

#[test]
fn a_directive_starts_with_a_name() {
    let none = ModelAttrArgs::default();
    for arguments in ["", "\"UserView\", fields(a)", "(UserView)"] {
        let attr = directive("view", arguments);
        assert_eq!(AttrArgs::parse(&attr, &none, true, PLAIN), Err(Error::MissingRequiredName));
    }
    let bare = Attribute { path: strings(&["view"]), style: AttrStyle::Path, tokens: vec![] };
    assert_eq!(AttrArgs::parse(&bare, &none, true, PLAIN), Err(Error::MissingRequiredName));

    let (args, rest) = AttrArgs::parse(&directive("view", "Only"), &none, true, PLAIN).unwrap();
    assert_eq!(
        args,
        AttrArgs {
            name: "Only".to_string(),
            fields: FieldsArg::Omit(vec![]),
            derive: None,
            preset: Preset::Unset,
            attributes_with: AttributesWith::Nothing,
        }
    );
    assert!(rest.is_empty());
}

#[test]
fn arguments_come_in_any_order() {
    let none = ModelAttrArgs::default();
    let one = directive(
        "view",
        "V, preset = \"write\", derive(Clone), attributes_with = \"all\", omit(id)",
    );
    let two = directive(
        "view",
        "V, omit(id), attributes_with = \"all\", derive(Clone), preset = \"write\"",
    );
    let (first, _) = AttrArgs::parse(&one, &none, true, OPENAPI).unwrap();
    let (second, _) = AttrArgs::parse(&two, &none, true, OPENAPI).unwrap();
    assert_eq!(first, second);
    assert_eq!(first.preset, Preset::Write);
    assert_eq!(first.attributes_with, AttributesWith::All);
    assert_eq!(first.fields, FieldsArg::Omit(strings(&["id"])));
    assert_eq!(first.derive, Some(vec![lex("Clone")]));
}

#[test]
fn closed_sets_refuse_other_values() {
    let invalid = |name: &str, value: &str| Error::InvalidEnumValue {
        name: name.to_string(),
        value: value.to_string(),
    };
    assert_eq!(Preset::parse(&mut lex("preset = \"none\""), PLAIN), Ok(Some(Preset::Unset)));
    assert_eq!(Preset::parse(&mut lex("preset = \"write\""), OPENAPI), Ok(Some(Preset::Write)));
    assert_eq!(Preset::parse(&mut lex("preset = \"write\""), PLAIN), Err(invalid("preset", "write")));
    assert_eq!(Preset::parse(&mut lex("preset = \"both\""), OPENAPI), Err(invalid("preset", "both")));
    assert_eq!(Preset::parse(&mut lex("preset = 5"), OPENAPI), Err(invalid("preset", "5")));
    assert_eq!(Preset::parse(&mut lex("omit(a)"), OPENAPI), Ok(None));
    assert_eq!(
        AttributesWith::parse(&mut lex("attributes_with = \"deriveless\""), PLAIN),
        Ok(Some(AttributesWith::Deriveless))
    );
    assert_eq!(
        AttributesWith::parse(&mut lex("attributes_with = \"all\""), PLAIN),
        Ok(Some(AttributesWith::All))
    );
    assert_eq!(
        AttributesWith::parse(&mut lex("attributes_with = \"none\""), PLAIN),
        Ok(Some(AttributesWith::Nothing))
    );
    assert_eq!(
        AttributesWith::parse(&mut lex("attributes_with = \"oai\""), OPENAPI),
        Ok(Some(AttributesWith::Oai))
    );
    assert_eq!(
        AttributesWith::parse(&mut lex("attributes_with = \"oai\""), PLAIN),
        Err(invalid("attributes_with", "oai"))
    );
    assert_eq!(OptionType::parse(&mut lex("option = Option")), Ok(Some(OptionType::Option)));
    assert_eq!(
        OptionType::parse(&mut lex("option = MaybeUndefined")),
        Ok(Some(OptionType::MaybeUndefined))
    );
    assert_eq!(OptionType::parse(&mut lex("option = Maybe")), Err(invalid("option", "Maybe")));
    assert_eq!(unquote(&"\"read\"".to_string()), "read");
    assert_eq!(unquote(&"\"\"".to_string()), "");
    assert_eq!(unquote(&"x".to_string()), "x");
    assert_eq!(OptionType::default(), OptionType::Option);
    assert_eq!(Preset::default(), Preset::Unset);
    assert_eq!(AttributesWith::default(), AttributesWith::Nothing);
    assert_eq!(Preset::Unset.option(), OptionType::Option);
    assert_eq!(Preset::Read.option(), OptionType::MaybeUndefined);
    assert_eq!(Preset::Write.option(), OptionType::MaybeUndefined);
    assert_eq!(Preset::Unset.attr_with(), AttributesWith::Nothing);
    assert_eq!(Preset::Write.attr_with(), AttributesWith::Oai);
}

fn block(arguments: &str, caps: Capabilities) -> Result<ModelAttrArgs, Error> {
    let attr = directive("model", arguments);
    ModelAttrArgs::parse(&vec![&attr], ExtraConditions::default(), caps)
}

#[test]
fn a_type_level_block_gives_base_and_defaults() {
    let model = block(
        "base(fields(bio, display_name), derive(Debug)), defaults(omit(display_name), preset = \"read\")",
        OPENAPI,
    )
    .unwrap();
    assert_eq!(
        model.base,
        Some(BaseAttrArgs {
            fields: Some(FieldsArg::Fields(strings(&["bio", "display_name"]))),
            derive: Some(vec![lex("Debug")]),
        })
    );
    assert_eq!(
        model.defaults,
        Some(DefaultAttrArgs {
            fields: Some(FieldsArg::Omit(strings(&["display_name"]))),
            derive: None,
            preset: Some(Preset::Read),
            attributes_with: AttributesWith::Oai,
        })
    );
    assert_eq!(block("", PLAIN), Ok(ModelAttrArgs::default()));
    assert_eq!(
        block("base(), defaults()", PLAIN),
        Ok(ModelAttrArgs {
            base: Some(BaseAttrArgs { fields: None, derive: None }),
            defaults: Some(DefaultAttrArgs {
                fields: None,
                derive: None,
                preset: None,
                attributes_with: AttributesWith::Nothing,
            }),
            extras: ExtraConditions::default(),
        })
    );
    assert_eq!(
        block("base(fields(a)), other(b)", PLAIN),
        Err(Error::UnknownArgument {
            name: "other".to_string(),
            allowed: strings(&["base", "defaults"]),
        })
    );
    assert_eq!(block("base = 1", PLAIN), Err(malformed("base", Expected::Group)));
    assert_eq!(block("base(fields(a), omit(b))", PLAIN), Err(Error::ConflictingSelector));
    assert_eq!(
        block("defaults(preset = \"read\")", PLAIN),
        Err(Error::InvalidEnumValue { name: "preset".to_string(), value: "read".to_string() })
    );
    let one = directive("model", "");
    let two = directive("model", "");
    assert_eq!(
        ModelAttrArgs::parse(&vec![&one, &two], ExtraConditions::default(), PLAIN),
        Err(Error::RepeatedModel { count: 2 })
    );
    assert_eq!(
        ModelAttrArgs::parse(&vec![], ExtraConditions { has_oai_example: true }, PLAIN),
        Ok(ModelAttrArgs::default())
    );
}

#[test]
fn a_directive_is_laid_over_the_block() {
    let model = block(
        "base(fields(bio, display_name), derive(Debug)), defaults(omit(display_name), derive(Clone), preset = \"read\")",
        OPENAPI,
    )
    .unwrap();
    let (args, _) = AttrArgs::parse(&directive("patch", "Mix"), &model, true, OPENAPI).unwrap();
    assert_eq!(args.fields, FieldsArg::Fields(strings(&["bio"])));
    assert_eq!(args.derive, Some(vec![lex("Debug"), lex("Clone")]));
    assert_eq!(args.preset, Preset::Read);
    assert_eq!(args.attributes_with, AttributesWith::Oai);

    let own = directive(
        "patch",
        "Own, fields(id, bio), derive(Eq), preset = \"none\", attributes_with = \"all\"",
    );
    let (args, _) = AttrArgs::parse(&own, &model, true, OPENAPI).unwrap();
    assert_eq!(args.fields, FieldsArg::Fields(strings(&["id", "bio", "display_name"])));
    assert_eq!(args.derive, Some(vec![lex("Debug"), lex("Eq")]));
    assert_eq!(args.preset, Preset::Unset);
    assert_eq!(args.attributes_with, AttributesWith::All);

    let unset = directive("patch", "Quiet, preset = \"none\"");
    let (args, _) = AttrArgs::parse(&unset, &model, true, OPENAPI).unwrap();
    assert_eq!(args.attributes_with, AttributesWith::Nothing);

    let defaults_only = block("defaults(attributes_with = \"deriveless\")", PLAIN).unwrap();
    let (args, _) = AttrArgs::parse(&directive("view", "D"), &defaults_only, true, PLAIN).unwrap();
    assert_eq!(args.attributes_with, AttributesWith::Deriveless);
    assert_eq!(args.derive, None);
}

#[test]
fn annotations_are_told_apart_by_their_path() {
    let doc = Attribute {
        path: strings(&["doc"]),
        style: AttrStyle::NameValue,
        tokens: lex("\" text\""),
    };
    let oai = directive("oai", "validator(min_length = 5), write_only");
    let nested = Attribute {
        path: strings(&["serde", "oai"]),
        style: AttrStyle::List,
        tokens: lex("write_only"),
    };
    let attrs = vec![doc, oai, nested];
    assert!(is_doc(&attrs[0]));
    assert!(!is_doc(&attrs[1]));
    assert!(is_attribute(&attrs[1], "oai"));
    assert!(is_attribute(&attrs[2], "serde"));
    assert!(!is_attribute(&attrs[2], "oai"));
    assert_eq!(get_attribute_name(&attrs[2]), Some(&"serde".to_string()));
    assert_eq!(extract_docs(&attrs), vec![0]);
    assert!(has_oai_attribute(&attrs, Some("write_only")));
    assert!(has_oai_attribute(&attrs, None));
    assert!(!has_oai_attribute(&attrs, Some("read_only")));
    assert!(!has_oai_attribute(&attrs, Some("min_length")));
    assert!(!has_oai_attribute(&vec![directive("serde", "oai")], None));
    assert!(ExtraConditions::parse(&vec![directive("oai", "example")], OPENAPI).has_oai_example);
    assert!(!ExtraConditions::parse(&vec![directive("oai", "example")], PLAIN).has_oai_example);
    assert!(!ExtraConditions::parse(&attrs, OPENAPI).has_oai_example);
}

#[test]
fn an_example_goes_with_the_schema_integration() {
    let with = ModelAttrArgs {
        base: None,
        defaults: None,
        extras: ExtraConditions { has_oai_example: true },
    };
    let name = "View".to_string();
    let original = "User".to_string();
    assert_eq!(
        impl_extras(&original, &name, &with, OPENAPI),
        vec![Extra::OaiExample { name: name.clone(), original_name: original.clone() }]
    );
    assert!(impl_extras(&original, &name, &with, PLAIN).is_empty());
    assert!(impl_extras(&original, &name, &ModelAttrArgs::default(), OPENAPI).is_empty());
}

#[test]
fn an_optional_type_is_told_by_its_path() {
    let ty = |text: &str, path: &[&str], argument: Option<&str>| FieldType {
        text: text.to_string(),
        path: strings(path),
        argument: argument.map(|s| s.to_string()),
    };
    let inner = "String".to_string();
    assert_eq!(
        extract_type_from_option(&ty("Option<String>", &["Option"], Some("String"))),
        Some(&inner)
    );
    assert_eq!(
        extract_type_from_option(&ty("x", &["std", "option", "Option"], Some("String"))),
        Some(&inner)
    );
    assert_eq!(
        extract_type_from_option(&ty("x", &["core", "option", "Option"], Some("String"))),
        Some(&inner)
    );
    assert_eq!(extract_type_from_option(&ty("Option", &["Option"], None)), None);
    assert_eq!(extract_type_from_option(&ty("x", &["Vec"], Some("String"))), None);
    assert_eq!(extract_type_from_option(&ty("x", &["my", "Option"], Some("String"))), None);
    assert_eq!(
        extract_type_from_option(&ty("x", &["std", "core", "Option"], Some("String"))),
        None
    );
    assert_eq!(extract_type_from_option(&ty("[u8]", &[], None)), None);
}

#[test]
fn failures_say_what_is_amiss() {
    assert_eq!(
        malformed("fields", Expected::Group).message(),
        "Invalid or missing `fields` argument, expected a group of args, e.g. `fields(...)`"
    );
    assert_eq!(
        malformed("option", Expected::Identifier).message(),
        "Invalid or missing `option` argument, expected an identifier, e.g. `option = MyStruct`"
    );
    assert_eq!(
        malformed("preset", Expected::Literal).message(),
        "Invalid or missing `preset` argument, expected a literal, e.g. `preset = \"...\"`"
    );
    assert_eq!(
        malformed("flag", Expected::Bool).message(),
        "Invalid or missing `flag` argument, expected a bool, e.g. `flag = true`"
    );
    assert_eq!(
        malformed("derive", Expected::Path).message(),
        "Invalid `derive` argument, not a valid derive Path (e.g. `core::fmt::Debug`) or Identifier (e.g. `Debug`)"
    );
    assert_eq!(
        malformed("1", Expected::MemberName).message(),
        "Invalid syntax, expected a field identifier, got `1`"
    );
    assert_eq!(
        Error::ConflictingSelector.message(),
        "Cannot have both `fields` and `omit` arguments"
    );
    assert_eq!(
        Error::UnknownArgument { name: "foo".to_string(), allowed: strings(&["fields", "omit"]) }
            .message(),
        "Unknown argument `foo`, all known arguments are [\"fields\", \"omit\"]"
    );
    assert_eq!(
        Error::UnknownArgument { name: "foo".to_string(), allowed: vec![] }.message(),
        "Unknown argument `foo`, all known arguments are []"
    );
    assert_eq!(
        Error::MissingRequiredName.message(),
        "First argument must be an identifier (name) of the derived type"
    );
    assert_eq!(
        Error::InvalidEnumValue { name: "preset".to_string(), value: "both".to_string() }
            .message(),
        "Invalid value for `preset`, got `both`"
    );
    assert_eq!(
        Error::ShapeMismatch { variant: "Created".to_string() }.message(),
        "The variant `Created` cannot be mapped: its pattern has not the variant's shape"
    );
    assert_eq!(
        Error::RepeatedModel { count: 12 }.message(),
        "Invalid attribute, expected only one `model` attribute but got `12`"
    );
    assert_eq!(Error::NotARecord.message(), "Patch models can only be derived for structs");
    assert_eq!(to_decimal(0), "0");
    assert_eq!(to_decimal(7), "7");
    assert_eq!(to_decimal(10), "10");
    assert_eq!(to_decimal(90210), "90210");
}

#[test]
fn a_configuration_can_be_copied() {
    let model = block(
        "base(fields(bio), derive(Debug)), defaults(omit(name), derive(Clone))",
        PLAIN,
    )
    .unwrap();
    assert_eq!(model.clone(), model);
    let (args, _) = AttrArgs::parse(&directive("view", "V, fields(a)"), &model, true, PLAIN)
        .unwrap();
    assert_eq!(args.clone(), args);
    let tokens = lex("a(b, [c]), \"d\" :: e");
    assert_eq!(tokens.clone(), tokens);
}
