use proc_macro2::{Spacing, TokenStream, TokenTree};
use quote::ToTokens;
use restructed::decl::{
    AttrStyle, Attribute, Declaration, Field, FieldType, Members, Shape, Variant,
};
use restructed::token::{Delimiter, Token};

fn lower(stream: TokenStream) -> Vec<Token> {
    stream
        .into_iter()
        .map(|tree| match tree {
            TokenTree::Ident(ident) => Token::Ident(ident.to_string()),
            TokenTree::Literal(literal) => Token::Literal(literal.to_string()),
            TokenTree::Punct(punct) => {
                Token::Punct(punct.as_char(), punct.spacing() == Spacing::Joint)
            }
            TokenTree::Group(group) => {
                let delimiter = match group.delimiter() {
                    proc_macro2::Delimiter::Parenthesis => Delimiter::Parenthesis,
                    proc_macro2::Delimiter::Brace => Delimiter::Brace,
                    proc_macro2::Delimiter::Bracket => Delimiter::Bracket,
                    proc_macro2::Delimiter::None => Delimiter::Invisible,
                };
                Token::Group(delimiter, lower(group.stream()))
            }
        })
        .collect()
}

fn attribute(attr: &syn::Attribute) -> Attribute {
    let (style, tokens) = match &attr.meta {
        syn::Meta::Path(_) => (AttrStyle::Path, Vec::new()),
        syn::Meta::List(list) => (AttrStyle::List, lower(list.tokens.clone())),
        syn::Meta::NameValue(pair) => (AttrStyle::NameValue, lower(pair.value.to_token_stream())),
    };
    Attribute {
        path: attr.path().segments.iter().map(|s| s.ident.to_string()).collect(),
        style,
        tokens,
    }
}

fn field_type(ty: &syn::Type) -> FieldType {
    let mut path = Vec::new();
    let mut argument = None;
    if let syn::Type::Path(typed) = ty {
        if typed.qself.is_none() {
            path = typed.path.segments.iter().map(|s| s.ident.to_string()).collect();
            if let Some(last) = typed.path.segments.last() {
                if let syn::PathArguments::AngleBracketed(list) = &last.arguments {
                    if let Some(syn::GenericArgument::Type(inner)) = list.args.first() {
                        argument = Some(inner.to_token_stream().to_string());
                    }
                }
            }
        }
    }
    FieldType { text: ty.to_token_stream().to_string(), path, argument }
}

fn field(f: &syn::Field) -> Field {
    Field {
        name: f.ident.as_ref().map(|i| i.to_string()).unwrap_or_default(),
        vis: lower(f.vis.to_token_stream()),
        ty: field_type(&f.ty),
        attrs: f.attrs.iter().map(attribute).collect(),
    }
}

fn variant(v: &syn::Variant) -> Variant {
    Variant {
        name: v.ident.to_string(),
        shape: match &v.fields {
            syn::Fields::Unit => Shape::Unit,
            syn::Fields::Unnamed(list) => Shape::Positional(list.unnamed.iter().map(field).collect()),
            syn::Fields::Named(list) => Shape::Named(list.named.iter().map(field).collect()),
        },
        attrs: v.attrs.iter().map(attribute).collect(),
    }
}

fn declaration(source: &str) -> Declaration {
    let input: syn::DeriveInput = syn::parse_str(source).unwrap();
    Declaration {
        name: input.ident.to_string(),
        vis: lower(input.vis.to_token_stream()),
        attrs: input.attrs.iter().map(attribute).collect(),
        members: match &input.data {
            syn::Data::Struct(data) => Members::Fields(data.fields.iter().map(field).collect()),
            syn::Data::Enum(data) => Members::Variants(data.variants.iter().map(variant).collect()),
            syn::Data::Union(_) => panic!("a union has no members to restructure"),
        },
    }
}
use restructed::error::Error;
use restructed::expand::{models, Failure};
use restructed::policy::{AttributesWith, Capabilities, Preset};
use restructed::token::render_tokens;
use restructed::value::Value;
use restructed::view::{
    impl_view_model, placeholder_name, Conversions, Mapping, ShapeKind, ViewModel,
};
use restructed::args::ModelAttrArgs;

const PLAIN: Capabilities = Capabilities { openapi: false, welds: false };
const OPENAPI: Capabilities = Capabilities { openapi: true, welds: false };

#[derive(Clone, Debug, PartialEq)]
enum V {
    I32(i32),
    U16(u16),
    U32(u32),
    Text(String),
}

fn text(s: &str) -> V {
    V::Text(s.to_string())
}

const USER: &str = r#"
    #[derive(Models)]
    #[view(UserProfile, fields(display_name, bio))]
    struct User {
        /// This should be omitted
        id: i32,
        /// This shouldn't be omitted
        display_name: String,
        bio: String,
        password: String,
    }
"#;

fn new_user() -> Vec<V> {
    vec![
        V::I32(123),
        text("Cool Doode"),
        text("I'm a cool doode, what can I say?"),
        text("Pls don't hack me"),
    ]
}

fn only_view(source: &str, caps: Capabilities) -> ViewModel {
    let mut expansion = models(&declaration(source), caps).unwrap();
    assert_eq!(expansion.views.len(), 1);
    expansion.views.remove(0)
}

fn names(view: &ViewModel) -> Vec<&str> {
    view.members.iter().map(|m| m.name.as_str()).collect()
}

fn fields_of(value: Value<V>) -> Vec<V> {
    match value {
        Value::Record(fields) => fields,
        other => panic!("expected a record, got {:?}", other),
    }
}

#[test]
fn from_original() {
    let user = new_user();
    let view = only_view(USER, PLAIN);

    let profile = fields_of(view.view_from(Value::Record(user.clone())).unwrap());
    let display_name = &profile[0];
    let bio = &profile[1];

    assert_eq!(display_name, display_name);
    assert_eq!(bio, bio);
    assert_eq!(display_name, &user[1]);
    assert_eq!(bio, &user[2]);
    assert_eq!(profile.len(), 2);
}

#[test]
fn only_fields() {
    let user = new_user();
    let view = only_view(USER, PLAIN);

    let profile = vec![user[1].clone(), user[2].clone()];

    assert_eq!(profile[0], profile[0]);
    assert_eq!(profile[1], profile[1]);
    assert_eq!(names(&view), vec!["display_name", "bio"]);
    assert_eq!(view.view_from(Value::Record(user)), Some(Value::Record(profile)));
}

#[test]
fn user_view_keeps_name_and_bio_in_order() {
    let source = r#"
        #[view(UserView, fields(name, bio))]
        struct User { id: u32, name: String, bio: String, password: String }
    "#;
    let view = only_view(source, PLAIN);
    assert_eq!(view.name, "UserView");
    assert_eq!(view.original_name, "User");
    assert!(view.is_struct);
    assert_eq!(names(&view), vec!["name", "bio"]);
    assert_eq!(view.members.iter().map(|m| m.index).collect::<Vec<_>>(), vec![1, 2]);

    let user = vec![V::U32(7), text("Ada"), text("Engineer"), text("secret")];
    let derived = fields_of(view.view_from(Value::Record(user.clone())).unwrap());
    assert_eq!(derived[0], user[1]);
    assert_eq!(derived, vec![text("Ada"), text("Engineer")]);
    assert_eq!(
        view.conversions,
        Conversions::Record {
            from_original: vec![
                Mapping::Field { name: "name".to_string() },
                Mapping::Field { name: "bio".to_string() },
            ],
        }
    );
}

#[test]
fn selector_order_does_not_reorder_members() {
    let source = r#"
        #[view(Swapped, fields(bio, name))]
        struct User { id: u32, name: String, bio: String }
    "#;
    let view = only_view(source, PLAIN);
    assert_eq!(names(&view), vec!["name", "bio"]);
}

#[test]
fn omit_keeps_the_rest() {
    let source = r#"
        #[view(Public, omit(password))]
        struct User { id: u32, name: String, password: String }
    "#;
    let view = only_view(source, PLAIN);
    assert_eq!(names(&view), vec!["id", "name"]);
}

#[test]
fn documentation_is_kept_and_annotations_follow_the_policy() {
    let view = only_view(USER, PLAIN);
    assert_eq!(view.members[0].docs, vec![0]);
    assert!(view.members[0].attrs.is_empty());
    assert!(view.attributes.is_empty());
    assert!(view.derives.is_empty());

    let all = only_view(
        r#"
        #[derive(Models)]
        #[serde(rename_all = "camelCase")]
        #[view(UserProfileAll, fields(display_name, bio), attributes_with = "all")]
        #[patch(Other)]
        struct UserAttrAll {
            id: i32,
            /// Shown
            #[serde(default)]
            display_name: String,
            bio: String,
        }
        "#,
        PLAIN,
    );
    assert_eq!(all.attributes, vec![0, 1]);
    assert_eq!(all.members[0].docs, vec![0]);
    assert_eq!(all.members[0].attrs, vec![0, 1]);

    let deriveless = only_view(
        r#"
        #[derive(Models)]
        #[serde(rename_all = "camelCase")]
        #[view(UserProfileDeriveless, fields(display_name), attributes_with = "deriveless")]
        struct UserAttrDeriveless { id: i32, #[serde(default)] display_name: String }
        "#,
        PLAIN,
    );
    assert_eq!(deriveless.attributes, vec![1]);
    assert_eq!(deriveless.members[0].attrs, vec![0]);

    let none = only_view(
        r#"
        #[derive(Models)]
        #[view(UserProfileNone, fields(display_name), attributes_with = "none")]
        struct UserAttrNone { id: i32, #[serde(default)] display_name: String }
        "#,
        PLAIN,
    );
    assert!(none.attributes.is_empty());
    assert!(none.members[0].attrs.is_empty());
}

#[test]
fn defaults_stand_in_for_a_missing_selector() {
    let view = only_view(
        r#"
        #[derive(Models)]
        #[model(defaults(fields(display_name, bio), attributes_with = "none"))]
        #[view(UserProfileDefaults)]
        struct UserDefaults { id: i32, display_name: String, bio: String, password: String }
        "#,
        PLAIN,
    );
    assert_eq!(names(&view), vec!["display_name", "bio"]);
}

fn validate(name: &V, age: &V) -> Result<(), &'static str> {
    match (name, age) {
        (V::Text(name), V::U32(age)) => {
            if name.is_empty() || name == "xXxShad0wxXx" {
                Err("terrible_username")
            } else if *age < 18 || *age > 20 {
                Err("range")
            } else {
                Ok(())
            }
        }
        _ => Err("type"),
    }
}

#[test]
fn both_invalidate() {
    let source = r#"
        #[derive(Validate, Models, Clone)]
        #[view(UserNameOnly, attributes_with = "all", derive(Validate))]
        struct User {
            #[validate(length(min = 1), custom(function = "validate_unique_username"))]
            name: String,
            #[validate(range(min = 18, max = 20))]
            age: u32,
        }
    "#;
    let user = vec![text("xXxShad0wxXx"), V::U32(19)];
    let model = only_view(source, PLAIN);

    let view = fields_of(model.view_from(Value::Record(user.clone())).unwrap());

    assert_eq!(validate(&user[0], &user[1]), Err("terrible_username"));
    assert_eq!(validate(&view[0], &view[1]), Err("terrible_username"));
    assert_eq!(names(&model), vec!["name", "age"]);
    assert_eq!(model.members[0].attrs, vec![0]);
    assert_eq!(model.members[1].attrs, vec![0]);
    assert_eq!(model.attributes, vec![0]);
    assert_eq!(model.derives.len(), 1);
    assert_eq!(render_tokens(&model.derives[0]), "Validate");
}

const API_ERROR: &str = r#"
    #[derive(Debug, Clone, Models)]
    #[view(ApiErrorReads, fields(NotFound, Unauthorized, InternalServerError))]
    pub enum ApiError {
        /// This "NotFound" rustdoc will carry over <br/>
        /// Even for multiple lines
        NotFound(String),
        ConflictX(String),
        ConflictY(u64),
        Unauthorized { code: u16, reason: String },
        InternalServerError,
    }
"#;

#[test]
fn view_mapping_enum() {
    let view = only_view(API_ERROR, PLAIN);
    let reads = Value::Variant(0, vec![text("No User")]);

    let err = view.original_from(reads, 5).unwrap();

    let is_match = matches!(&err, Value::Variant(0, v) if v == &vec![text("No User")]);
    assert!(is_match, "Expected NotFound, got {:?}", err);
}

#[test]
fn variants_keep_their_shape_and_map_both_ways() {
    let view = only_view(API_ERROR, PLAIN);
    assert!(!view.is_struct);
    assert_eq!(names(&view), vec!["NotFound", "Unauthorized", "InternalServerError"]);
    assert_eq!(view.members.iter().map(|m| m.index).collect::<Vec<_>>(), vec![0, 3, 4]);
    assert_eq!(view.members[0].docs, vec![0, 1]);
    let arms = vec![
        Mapping::Arm {
            variant: "NotFound".to_string(),
            kind: ShapeKind::Positional,
            arity: 1,
            bindings: vec!["a".to_string()],
        },
        Mapping::Arm {
            variant: "Unauthorized".to_string(),
            kind: ShapeKind::Named,
            arity: 2,
            bindings: vec!["code".to_string(), "reason".to_string()],
        },
        Mapping::Arm {
            variant: "InternalServerError".to_string(),
            kind: ShapeKind::Unit,
            arity: 0,
            bindings: vec![],
        },
    ];
    match &view.conversions {
        Conversions::Union { into_original, from_original } => {
            assert_eq!(into_original.as_ref().unwrap(), &arms);
            assert_eq!(from_original, &arms);
        }
        other => panic!("expected the conversions of a tagged union, got {:?}", other),
    }

    let unauthorized = Value::Variant(3, vec![V::U16(401), text("no token")]);
    let derived = view.view_from(unauthorized).unwrap();
    assert_eq!(derived, Value::Variant(1, vec![V::U16(401), text("no token")]));
    assert_eq!(
        view.original_from(derived, 5),
        Some(Value::Variant(3, vec![V::U16(401), text("no token")]))
    );
    assert_eq!(view.view_from(Value::Variant(1, vec![text("conflict")])), None);
    assert_eq!(view.original_from(Value::<V>::Variant(3, vec![]), 5), None);
    assert_eq!(view.view_from(Value::Record(vec![text("not a variant")])), None);
}

#[test]
fn openapi_mapping_enum() {
    let source = r#"
        #[derive(Debug, Default, Clone, Models, ApiResponse)]
        #[view(
            ApiErrorReads,
            fields(NotFound, InternalServerError),
            attributes_with = "oai",
            derive(ApiResponse, Clone)
        )]
        pub enum ApiError {
            #[oai(status = 404)]
            NotFound(Json<String>),
            #[oai(status = 409)]
            ConflictX(Json<String>),
            #[oai(status = 409)]
            ConflictY(Json<u64>),
            #[oai(status = 401)]
            Unauthorized,
            #[default]
            #[oai(status = 500)]
            InternalServerError,
        }
    "#;
    let view = only_view(source, OPENAPI);
    let reads = Value::Variant(0, vec![text("No User")]);

    let err = view.original_from(reads, 5).unwrap();

    let is_match = matches!(&err, Value::Variant(0, v) if v[0] == text("No User"));
    assert!(is_match, "Expected NotFound, got {:?}", err);
    assert_eq!(names(&view), vec!["NotFound", "InternalServerError"]);
    assert_eq!(view.members[0].attrs, vec![0]);
    assert_eq!(view.members[1].attrs, vec![1]);
    assert_eq!(
        view.derives.iter().map(render_tokens).collect::<Vec<_>>(),
        vec!["ApiResponse", "Clone"]
    );
    assert_eq!(
        view.original_from(Value::Variant(1, Vec::<V>::new()), 5),
        Some(Value::Variant(4, vec![]))
    );
}

#[test]
fn a_full_view_round_trips() {
    let source = r#"
        #[view(Twin)]
        struct Pair { left: u32, right: u32 }
    "#;
    let view = only_view(source, PLAIN);
    let pair = vec![V::U32(1), V::U32(2)];
    let derived = view.view_from(Value::Record(pair.clone())).unwrap();
    assert_eq!(view.original_from(derived, 2), Some(Value::Record(pair)));

    let partial = only_view(USER, PLAIN);
    let derived = partial.view_from(Value::Record(new_user())).unwrap();
    assert_eq!(partial.original_from(derived, 4), None);
    assert_eq!(partial.view_from(Value::Record(vec![V::I32(1)])), None);
}

#[test]
fn a_preset_hides_members_and_refuses_the_way_back() {
    let source = r#"
        #[view(Readable, preset = "read")]
        enum Event {
            Created(#[oai(write_only)] String, u32),
            Renamed { from: String, to: String },
            #[oai(write_only)]
            Purged,
        }
    "#;
    let view = only_view(source, OPENAPI);
    assert_eq!(names(&view), vec!["Created", "Renamed"]);
    match &view.conversions {
        Conversions::Union { into_original, from_original } => {
            assert_eq!(
                into_original,
                &Err(Error::ShapeMismatch { variant: "Created".to_string() })
            );
            assert_eq!(
                from_original[0],
                Mapping::Arm {
                    variant: "Created".to_string(),
                    kind: ShapeKind::Positional,
                    arity: 2,
                    bindings: vec!["a".to_string(), "b".to_string()],
                }
            );
        }
        other => panic!("expected the conversions of a tagged union, got {:?}", other),
    }
    let created = Value::Variant(0, vec![text("x"), V::U32(1)]);
    let derived = view.view_from(created).unwrap();
    assert_eq!(view.original_from(derived, 3), None);
    assert_eq!(view.attributes, vec![] as Vec<usize>);
}

#[test]
fn a_preset_needs_its_capability() {
    let decl = declaration(
        r#"
        #[view(Readable, preset = "read")]
        struct User { id: u32 }
        "#,
    );
    assert_eq!(
        models(&decl, PLAIN),
        Err(Failure {
            attribute: 0,
            error: Error::InvalidEnumValue {
                name: "preset".to_string(),
                value: "read".to_string()
            },
        })
    );
    let view = only_view(
        r#"
        #[view(Readable, preset = "read")]
        struct User { #[oai(read_only)] id: u32, #[oai(validator(min_length = 5), write_only)] password: String }
        "#,
        OPENAPI,
    );
    assert_eq!(names(&view), vec!["id"]);
    assert_eq!(view.members[0].attrs, vec![0]);
    assert_eq!(Preset::Read.attr_with(), AttributesWith::Oai);
}

#[test]
fn placeholders_are_letters_then_repeat() {
    assert_eq!(placeholder_name(0), "a");
    assert_eq!(placeholder_name(1), "b");
    assert_eq!(placeholder_name(25), "z");
    assert_eq!(placeholder_name(26), "aa");
    assert_eq!(placeholder_name(53), "bbb");
}

#[test]
fn a_view_directive_alone_resolves_against_the_empty_block() {
    let decl = declaration(USER);
    let view = impl_view_model(&decl, &decl.attrs[1], &ModelAttrArgs::default(), PLAIN).unwrap();
    assert_eq!(view, only_view(USER, PLAIN));
}

#[test]
fn a_failure_names_its_annotation() {
    let decl = declaration(
        r#"
        #[derive(Models)]
        #[view(Fine, fields(id))]
        #[patch(Broken, fields(id), omit(name))]
        #[view(AlsoBroken, fields = 1)]
        struct User { id: u32, name: String }
        "#,
    );
    assert_eq!(
        models(&decl, PLAIN),
        Err(Failure {
            attribute: 3,
            error: Error::MalformedArgument {
                name: "fields".to_string(),
                expected: restructed::error::Expected::Group,
            },
        })
    );
    let decl = declaration(
        r#"
        #[model(base(fields(id)))]
        #[view(Fine)]
        #[patch(Broken, fields(id), omit(name))]
        #[model(defaults(omit(id)))]
        struct User { id: u32, name: String }
        "#,
    );
    assert_eq!(
        models(&decl, PLAIN),
        Err(Failure { attribute: 3, error: Error::RepeatedModel { count: 2 } })
    );
    let decl = declaration(
        r#"
        #[view(Fine)]
        #[patch(Broken, fields(id), omit(name))]
        #[model(defaults(omit(id)), more)]
        struct User { id: u32, name: String }
        "#,
    );
    assert!(matches!(
        models(&decl, PLAIN),
        Err(Failure { attribute: 2, error: Error::UnknownArgument { name, .. } }) if name == "more"
    ));
    let decl = declaration(
        r#"
        #[view(Fine)]
        #[patch(Broken, fields(id), omit(name))]
        struct User { id: u32, name: String }
        "#,
    );
    assert_eq!(
        models(&decl, PLAIN),
        Err(Failure { attribute: 1, error: Error::ConflictingSelector })
    );
}

#[test]
fn a_view_is_a_declaration_of_its_own() {
    let original = declaration(
        r#"
        #[derive(Models)]
        #[serde(rename_all = "camelCase")]
        #[view(UserProfile, fields(display_name, bio), attributes_with = "all", derive(Clone, core::fmt::Debug))]
        struct User {
            id: i32,
            /// Shown
            #[serde(default)]
            display_name: String,
            bio: Option<String>,
        }
        "#,
    );
    let view = only_view_of(&original);
    let derived = view.declaration(&original);
    assert_eq!(derived.name, "UserProfile");
    assert_eq!(derived.attrs.len(), 4);
    assert_eq!(derived.attrs[0].path, vec!["doc"]);
    assert_eq!(derived.attrs[0].style, AttrStyle::NameValue);
    assert_eq!(
        render_tokens(&derived.attrs[0].tokens),
        "\"This is a restructured (View) model of ['User']. Refer to the original model for more structual documentation.\""
    );
    assert_eq!(derived.attrs[1].path, vec!["derive"]);
    assert_eq!(render_tokens(&derived.attrs[1].tokens), "Clone , core :: fmt :: Debug");
    assert_eq!(derived.attrs[2], original.attrs[0]);
    assert_eq!(derived.attrs[3], original.attrs[1]);
    let (fields, originals) = match (&derived.members, &original.members) {
        (Members::Fields(fields), Members::Fields(originals)) => (fields, originals),
        other => panic!("expected two records, got {:?}", other),
    };
    assert_eq!(fields.len(), 2);
    assert_eq!(fields[0].name, "display_name");
    assert_eq!(fields[0].ty, originals[1].ty);
    assert_eq!(
        fields[0].attrs,
        vec![originals[1].attrs[0].clone(), originals[1].attrs[0].clone(), originals[1].attrs[1].clone()]
    );
    assert_eq!(fields[1], originals[2]);
    assert!(derived.vis.is_empty());

    let again = Attribute::list("view", restructed_tokens("Bio, fields(bio)"));
    let second = impl_view_model(&derived, &again, &ModelAttrArgs::default(), PLAIN).unwrap();
    assert_eq!(names(&second), vec!["bio"]);
    assert_eq!(second.original_name, "UserProfile");
}

fn only_view_of(decl: &Declaration) -> ViewModel {
    let mut expansion = models(decl, PLAIN).unwrap();
    expansion.views.remove(0)
}

fn restructed_tokens(source: &str) -> Vec<Token> {
    lower(source.parse().unwrap())
}

#[test]
fn a_view_of_a_union_declares_its_variants() {
    let original = declaration(API_ERROR);
    let derived = only_view(API_ERROR, PLAIN).declaration(&original);
    let (variants, originals) = match (&derived.members, &original.members) {
        (Members::Variants(variants), Members::Variants(originals)) => (variants, originals),
        other => panic!("expected two unions, got {:?}", other),
    };
    assert_eq!(variants.len(), 3);
    assert_eq!(variants[0].name, "NotFound");
    assert_eq!(variants[0].shape, originals[0].shape);
    assert_eq!(variants[0].attrs, originals[0].attrs);
    assert_eq!(variants[1], originals[3]);
    assert_eq!(variants[2], originals[4]);
    assert_eq!(render_tokens(&derived.vis), "pub");
    assert_eq!(render_tokens(&derived.attrs[1].tokens), "");
}
