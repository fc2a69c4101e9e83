use proc_macro2::{Spacing, TokenStream, TokenTree};
use quote::ToTokens;
use restructed::decl::{
    AttrStyle, Attribute, Declaration, Field, FieldType, Members, Shape, Variant,
};
use restructed::token::{Delimiter, Token};

fn lower(stream: TokenStream) -> Vec<Token> {
    stream
        .into_iter()
        .map(|tree| match tree {
            TokenTree::Ident(ident) => Token::Ident(ident.to_string()),
            TokenTree::Literal(literal) => Token::Literal(literal.to_string()),
            TokenTree::Punct(punct) => {
                Token::Punct(punct.as_char(), punct.spacing() == Spacing::Joint)
            }
            TokenTree::Group(group) => {
                let delimiter = match group.delimiter() {
                    proc_macro2::Delimiter::Parenthesis => Delimiter::Parenthesis,
                    proc_macro2::Delimiter::Brace => Delimiter::Brace,
                    proc_macro2::Delimiter::Bracket => Delimiter::Bracket,
                    proc_macro2::Delimiter::None => Delimiter::Invisible,
                };
                Token::Group(delimiter, lower(group.stream()))
            }
        })
        .collect()
}

fn attribute(attr: &syn::Attribute) -> Attribute {
    let (style, tokens) = match &attr.meta {
        syn::Meta::Path(_) => (AttrStyle::Path, Vec::new()),
        syn::Meta::List(list) => (AttrStyle::List, lower(list.tokens.clone())),
        syn::Meta::NameValue(pair) => (AttrStyle::NameValue, lower(pair.value.to_token_stream())),
    };
    Attribute {
        path: attr.path().segments.iter().map(|s| s.ident.to_string()).collect(),
        style,
        tokens,
    }
}

fn field_type(ty: &syn::Type) -> FieldType {
    let mut path = Vec::new();
    let mut argument = None;
    if let syn::Type::Path(typed) = ty {
        if typed.qself.is_none() {
            path = typed.path.segments.iter().map(|s| s.ident.to_string()).collect();
            if let Some(last) = typed.path.segments.last() {
                if let syn::PathArguments::AngleBracketed(list) = &last.arguments {
                    if let Some(syn::GenericArgument::Type(inner)) = list.args.first() {
                        argument = Some(inner.to_token_stream().to_string());
                    }
                }
            }
        }
    }
    FieldType { text: ty.to_token_stream().to_string(), path, argument }
}

fn field(f: &syn::Field) -> Field {
    Field {
        name: f.ident.as_ref().map(|i| i.to_string()).unwrap_or_default(),
        vis: lower(f.vis.to_token_stream()),
        ty: field_type(&f.ty),
        attrs: f.attrs.iter().map(attribute).collect(),
    }
}

fn variant(v: &syn::Variant) -> Variant {
    Variant {
        name: v.ident.to_string(),
        shape: match &v.fields {
            syn::Fields::Unit => Shape::Unit,
            syn::Fields::Unnamed(list) => Shape::Positional(list.unnamed.iter().map(field).collect()),
            syn::Fields::Named(list) => Shape::Named(list.named.iter().map(field).collect()),
        },
        attrs: v.attrs.iter().map(attribute).collect(),
    }
}

fn declaration(source: &str) -> Declaration {
    let input: syn::DeriveInput = syn::parse_str(source).unwrap();
    Declaration {
        name: input.ident.to_string(),
        vis: lower(input.vis.to_token_stream()),
        attrs: input.attrs.iter().map(attribute).collect(),
        members: match &input.data {
            syn::Data::Struct(data) => Members::Fields(data.fields.iter().map(field).collect()),
            syn::Data::Enum(data) => Members::Variants(data.variants.iter().map(variant).collect()),
            syn::Data::Union(_) => panic!("a union has no members to restructure"),
        },
    }
}
use restructed::error::Error;
use restructed::expand::{models, Failure};
use restructed::basic::{
    impl_clone_model, impl_patch_model_new, impl_view_model_new, PatchModelNew,
};
use restructed::patch::{PatchModel, PatchStep};
use restructed::policy::{Capabilities, OptionType};
use restructed::token::render_tokens;
use restructed::value::{MaybeUndefined, PatchSlot, Slot, Value};

const PLAIN: Capabilities = Capabilities { openapi: false, welds: false };
const OPENAPI: Capabilities = Capabilities { openapi: true, welds: false };
const WELDS: Capabilities = Capabilities { openapi: false, welds: true };

#[derive(Clone, Debug, PartialEq)]
enum V {
    I32(i32),
    Text(String),
}

fn text(s: &str) -> V {
    V::Text(s.to_string())
}

fn plain(s: &str) -> Slot<V> {
    Slot::Plain(text(s))
}

fn some(s: &str) -> PatchSlot<V> {
    PatchSlot::Option(Some(plain(s)))
}

fn only_patch(source: &str, caps: Capabilities) -> PatchModel {
    let mut expansion = models(&declaration(source), caps).unwrap();
    assert_eq!(expansion.patches.len(), 1);
    expansion.patches.remove(0)
}

fn names(patch: &PatchModel) -> Vec<&str> {
    patch.fields.iter().map(|f| f.name.as_str()).collect()
}

fn step(member: usize, field: &str, wrapper: OptionType) -> PatchStep {
    PatchStep { member, field: field.to_string(), wrapper }
}

const USER: &str = r#"
    #[derive(Models, Clone)]
    #[patch(UserUpdatables, omit(id))]
    struct User {
        id: i32,
        display_name: String,
        bio: Option<String>,
        password: String,
    }
"#;

fn new_user() -> Vec<Slot<V>> {
    vec![
        Slot::Plain(V::I32(123)),
        plain("Cool Doode"),
        Slot::Optional(Some(text("I'm a cool doode, what can I say?"))),
        plain("Pls don't hack me"),
    ]
}

#[test]
fn omitted_only() {
    let user = new_user();
    let model = only_patch(USER, PLAIN);

    let updates = vec![some("Cooler doode"), PatchSlot::Option(None), some("Can't hack 'dis")];

    let updated_user = model.merge(updates, user.clone());

    assert_ne!(user[1], updated_user[1]);
    assert_eq!(user[2], updated_user[2]);
    assert_ne!(user[3], updated_user[3]);
    assert_eq!(updated_user[0], user[0]);
    assert_eq!(updated_user[1], plain("Cooler doode"));
    assert_eq!(updated_user[3], plain("Can't hack 'dis"));
}

#[test]
fn a_plain_patch_wraps_every_member_once() {
    let model = only_patch(USER, PLAIN);
    assert_eq!(model.name, "UserUpdatables");
    assert_eq!(model.original_name, "User");
    assert_eq!(model.option, OptionType::Option);
    assert_eq!(names(&model), vec!["display_name", "bio", "password"]);
    assert_eq!(model.fields.iter().map(|f| f.index).collect::<Vec<_>>(), vec![1, 2, 3]);
    assert!(model.fields.iter().all(|f| f.wrapper == OptionType::Option));
    assert_eq!(
        model.fields.iter().map(|f| f.inner.as_str()).collect::<Vec<_>>(),
        vec!["String", "Option < String >", "String"]
    );
    let steps = vec![
        step(0, "display_name", OptionType::Option),
        step(1, "bio", OptionType::Option),
        step(2, "password", OptionType::Option),
    ];
    assert_eq!(model.merge, steps);
    assert_eq!(model.from_derived, steps);

    let made = model.from_original(new_user()).unwrap();
    assert_eq!(
        made,
        vec![
            some("Cool Doode"),
            PatchSlot::Option(Some(Slot::Optional(Some(text(
                "I'm a cool doode, what can I say?"
            ))))),
            some("Pls don't hack me"),
        ]
    );
}

const USER_ALT: &str = r#"
    #[derive(Models, Clone)]
    #[patch(UserMaybes, omit(id), option = MaybeUndefined)]
    struct UserAlt {
        id: i32,
        display_name: String,
        bio: Option<String>,
        password: String,
    }
"#;

#[test]
fn alt_omitted_only() {
    let user = new_user();
    let model = only_patch(USER_ALT, PLAIN);

    let maybes = vec![
        some("Cooler doode"),
        PatchSlot::MaybeUndefined(MaybeUndefined::Null),
        some("Can't hack 'dis"),
    ];

    let updated_user = model.merge(maybes, user.clone());

    assert_ne!(user[1], updated_user[1]);
    assert_ne!(user[2], updated_user[2]);
    assert_ne!(user[3], updated_user[3]);
    assert_eq!(updated_user[2], Slot::Optional(None));
}

#[test]
fn tri_state_patch_sets_and_clears() {
    let source = r#"
        #[patch(Update, option = MaybeUndefined)]
        struct Target { name: String, bio: Option<String> }
    "#;
    let model = only_patch(source, PLAIN);
    assert_eq!(model.option, OptionType::MaybeUndefined);
    assert_eq!(model.fields[0].wrapper, OptionType::Option);
    assert_eq!(model.fields[0].inner, "String");
    assert_eq!(model.fields[1].wrapper, OptionType::MaybeUndefined);
    assert_eq!(model.fields[1].inner, "String");

    let target = vec![plain("old"), Slot::Optional(Some(text("about me")))];
    let patch = vec![some("x"), PatchSlot::MaybeUndefined(MaybeUndefined::Null)];
    let merged = model.merge(patch, target);
    assert_eq!(merged, vec![plain("x"), Slot::Optional(None)]);

    let patch = vec![
        PatchSlot::Option(None),
        PatchSlot::MaybeUndefined(MaybeUndefined::Value(text("new"))),
    ];
    let merged = model.merge(patch, merged);
    assert_eq!(merged, vec![plain("x"), Slot::Optional(Some(text("new")))]);

    let patch = vec![PatchSlot::Option(None), PatchSlot::MaybeUndefined(MaybeUndefined::Undefined)];
    let merged = model.merge(patch, merged);
    assert_eq!(merged, vec![plain("x"), Slot::Optional(Some(text("new")))]);
}

#[test]
fn tri_state_steps_take_the_optional_members_apart() {
    let model = only_patch(USER_ALT, PLAIN);
    assert_eq!(
        model.merge,
        vec![
            step(0, "display_name", OptionType::Option),
            step(2, "password", OptionType::Option),
            step(1, "bio", OptionType::MaybeUndefined),
        ]
    );
    assert_eq!(
        model.from_derived,
        vec![
            step(1, "bio", OptionType::MaybeUndefined),
            step(0, "display_name", OptionType::Option),
            step(2, "password", OptionType::Option),
        ]
    );
}

#[test]
fn mapping_struct() {
    let source = r#"
        #[derive(Clone, Object, Models)]
        #[oai(skip_serializing_if_is_none, rename_all = "camelCase")]
        #[patch(UserUpdates, omit(id), attributes_with = "oai", option = MaybeUndefined, derive(Object))]
        struct User {
            id: i32,
            display_name: Option<String>,
            bio: Option<String>,
            extra: Option<String>,
            password: Option<String>,
        }
    "#;
    let user = vec![
        Slot::Plain(V::I32(123)),
        Slot::Optional(Some(text("Cool Doode"))),
        Slot::Optional(None),
        Slot::Optional(Some(text("Something?"))),
        Slot::Optional(Some(text("Pls don't hack me"))),
    ];
    let model = only_patch(source, OPENAPI);

    let mut update = model.from_original(user.clone()).unwrap();
    assert_eq!(update[1], PatchSlot::MaybeUndefined(MaybeUndefined::Null));
    assert_eq!(update[2], PatchSlot::MaybeUndefined(MaybeUndefined::Value(text("Something?"))));

    // This should cause a change
    update[0] = PatchSlot::MaybeUndefined(MaybeUndefined::Null);
    // This should *not* cause a change
    update[3] = PatchSlot::MaybeUndefined(MaybeUndefined::Undefined);

    let updated_user = model.merge(update, user.clone());
    assert_eq!(updated_user[0], user[0]);
    assert_eq!(updated_user[1], Slot::Optional(None));
    assert_eq!(updated_user[4], user[4]);

    assert_eq!(model.attributes, vec![1]);
    assert_eq!(model.derives.iter().map(render_tokens).collect::<Vec<_>>(), vec!["Object"]);
}

#[test]
fn a_patch_made_from_a_value_restores_it() {
    let model = only_patch(USER_ALT, PLAIN);
    let user = new_user();
    let blank = vec![
        Slot::Plain(V::I32(0)),
        plain(""),
        Slot::Optional(None),
        plain(""),
    ];
    let made = model.from_original(user.clone()).unwrap();
    let merged = model.merge(made, blank);
    assert_eq!(merged[1..], user[1..]);
    assert_eq!(merged[0], Slot::Plain(V::I32(0)));

    let cleared = vec![Slot::Plain(V::I32(1)), plain("n"), Slot::Optional(None), plain("p")];
    let made = model.from_original(cleared.clone()).unwrap();
    assert_eq!(made[1], PatchSlot::MaybeUndefined(MaybeUndefined::Null));
    assert_eq!(model.merge(made, new_user())[2], Slot::Optional(None));

    let misfit = vec![Slot::Plain(V::I32(1)), plain("n"), plain("not optional"), plain("p")];
    assert_eq!(model.from_original(misfit), None);
    assert_eq!(model.from_original(vec![plain("too short")]), None);
}

#[test]
fn a_silent_patch_changes_nothing() {
    let model = only_patch(USER_ALT, PLAIN);
    let silent = vec![
        PatchSlot::Option(None),
        PatchSlot::MaybeUndefined(MaybeUndefined::Undefined),
        PatchSlot::Option(None),
    ];
    assert_eq!(model.merge(silent, new_user()), new_user());
    assert_eq!(model.merge(Vec::new(), new_user()), new_user());

    let mut target = new_user();
    model.merge_mut(vec![some("only the first")], &mut target);
    assert_eq!(target[1], plain("only the first"));
    assert_eq!(target[2..], new_user()[2..]);
}

#[test]
fn a_preset_decides_the_wrapping() {
    let source = r#"
        #[oai(rename_all = "camelCase")]
        #[patch(UserUpdatable, preset = "write", derive(Object))]
        struct UserPre {
            #[oai(read_only)]
            id: i32,
            display_name: Option<String>,
            bio: String,
            /// The secret
            #[oai(write_only)]
            password: std::option::Option<String>,
        }
    "#;
    let model = only_patch(source, OPENAPI);
    assert_eq!(model.option, OptionType::MaybeUndefined);
    assert_eq!(names(&model), vec!["display_name", "bio", "password"]);
    assert_eq!(
        model.fields.iter().map(|f| f.wrapper).collect::<Vec<_>>(),
        vec![OptionType::MaybeUndefined, OptionType::Option, OptionType::MaybeUndefined]
    );
    assert_eq!(model.fields[2].attrs, vec![0]);
    assert_eq!(model.attributes, vec![0]);
}

#[test]
fn only_a_record_has_a_patch() {
    let decl = declaration(
        r#"
        #[patch(Nope)]
        enum Choice { Yes, No }
        "#,
    );
    assert_eq!(models(&decl, PLAIN), Err(Failure { attribute: 0, error: Error::NotARecord }));
}

#[test]
fn the_wrapping_is_one_of_two() {
    let decl = declaration(
        r#"
        #[patch(Update, option = Maybe)]
        struct Target { name: String }
        "#,
    );
    assert_eq!(
        models(&decl, PLAIN),
        Err(Failure {
            attribute: 0,
            error: Error::InvalidEnumValue {
                name: "option".to_string(),
                value: "Maybe".to_string()
            },
        })
    );
    let decl = declaration(
        r#"
        #[view(Update, option = Option)]
        struct Target { name: String }
        "#,
    );
    assert!(matches!(
        models(&decl, PLAIN),
        Err(Failure { attribute: 0, error: Error::UnknownArgument { name, .. } }) if name == "option"
    ));
}

const BUILT: &str = r#"
    #[derive(Models, Clone)]
    #[patch(UserUpdatables, omit(id), default_derives = true)]
    #[view(UserId, fields(id))]
    struct User {
        id: i32,
        display_name: String,
        bio: String,
        password: String,
    }
"#;

fn built_user() -> Vec<Slot<V>> {
    vec![
        Slot::Plain(V::I32(123)),
        plain("Cool Doode"),
        plain("I'm a cool doode, what can I say?"),
        plain("Pls don't hack me"),
    ]
}

fn built(caps: Capabilities) -> (restructed::view::ViewModel, PatchModelNew) {
    let decl = declaration(BUILT);
    let none = Vec::new();
    let view = impl_view_model_new(&decl, &decl.attrs[2], &none).unwrap();
    let patch = impl_patch_model_new(&decl, &decl.attrs[1], &none, caps).unwrap();
    (view, patch)
}

#[test]
fn builder_can_build() {
    let user = built_user();
    let (view, patch) = built(PLAIN);

    let id = view.view_from(Value::Record(user.clone())).unwrap();
    assert_eq!(id, Value::Record(vec![user[0].clone()]));

    let built = vec![some("Cooler doode"), PatchSlot::Option(None), some("Can't hack 'dis")];
    assert_eq!(built.len(), patch.patch.fields.len());
    assert!(patch.default_derives);
    assert!(view
        .derives
        .iter()
        .any(|path| render_tokens(path) == ":: typed_builder :: TypedBuilder"));
}

#[test]
fn welds_can_build() {
    let user = built_user();
    let (view, patch) = built(WELDS);

    let id = view.view_from(Value::Record(user.clone())).unwrap();
    assert_eq!(id, Value::Record(vec![user[0].clone()]));

    let updates = vec![some("Cooler doode"), PatchSlot::Option(None), some("Can't hack 'dis")];

    let mut state = user.clone();
    assert_eq!(patch.weld_merge.as_ref(), Some(&patch.patch.merge));
    patch.patch.merge_mut(updates, &mut state);

    assert_ne!(state, user);
    assert_eq!(state[1], plain("Cooler doode"));
    assert_eq!(state[2], plain("I'm a cool doode, what can I say?"));
    assert_eq!(state[3], plain("Can't hack 'dis"));
}

#[test]
fn the_basic_generators_read_their_own_arguments() {
    let (view, patch) = built(PLAIN);
    assert_eq!(view.name, "UserId");
    assert_eq!(view.members.len(), 1);
    assert_eq!(view.members[0].name, "id");
    assert_eq!(view.derives.len(), 9);
    assert_eq!(render_tokens(&view.derives[0]), "Debug");
    assert_eq!(render_tokens(&view.derives[7]), "sqlx :: FromRow");
    assert_eq!(patch.patch.name, "UserUpdatables");
    assert_eq!(patch.patch.option, OptionType::Option);
    assert_eq!(patch.weld_merge, None);
    assert_eq!(
        patch.patch.fields.iter().map(|f| f.name.as_str()).collect::<Vec<_>>(),
        vec!["display_name", "bio", "password"]
    );

    let decl = declaration(
        r#"
        #[patch(Bare)]
        #[patch(Half, derive(Clone))]
        #[view(Empty)]
        #[view(Odd, fields(id), skip)]
        struct User { #[oai(read_only)] id: i32, name: Option<String> }
        "#,
    );
    let none = Vec::new();
    let bare = impl_patch_model_new(&decl, &decl.attrs[0], &none, OPENAPI).unwrap();
    assert!(bare.default_derives);
    assert_eq!(bare.patch.fields.len(), 1);
    assert_eq!(bare.patch.fields[0].wrapper, OptionType::MaybeUndefined);
    assert_eq!(
        impl_patch_model_new(&decl, &decl.attrs[1], &none, PLAIN),
        Err(Error::MalformedArgument {
            name: "omit".to_string(),
            expected: restructed::error::Expected::Group
        })
    );
    assert_eq!(
        impl_view_model_new(&decl, &decl.attrs[2], &none),
        Err(Error::MalformedArgument {
            name: "fields".to_string(),
            expected: restructed::error::Expected::Group
        })
    );
    assert!(matches!(
        impl_view_model_new(&decl, &decl.attrs[3], &none),
        Err(Error::UnknownArgument { name, .. }) if name == "skip"
    ));
}

#[test]
fn a_copy_bears_no_annotation() {
    let decl = declaration(
        r#"
        #[derive(Models)]
        #[clone(UserClone, derive(Clone))]
        #[clone]
        struct User {
            /// This should be omitted
            id: i32,
            display_name: String,
        }
        "#,
    );
    let copy = impl_clone_model(&decl, &decl.attrs[1]).unwrap();
    assert_eq!(copy.name, "UserClone");
    assert_eq!(copy.original_name, "User");
    assert_eq!(copy.derives.iter().map(render_tokens).collect::<Vec<_>>(), vec!["Clone"]);
    assert!(copy.attributes.is_empty());
    assert_eq!(impl_clone_model(&decl, &decl.attrs[2]), Err(Error::MissingRequiredName));
}

#[test]
fn a_patch_is_a_declaration_of_its_own() {
    let original = declaration(
        r#"
        #[patch(Update, option = MaybeUndefined, derive(Default))]
        struct Target {
            /// The name
            name: String,
            bio: Option<String>,
        }
        "#,
    );
    let model = only_patch_of(&original);
    let derived = model.declaration(&original);
    assert_eq!(derived.name, "Update");
    assert_eq!(derived.attrs.len(), 2);
    assert_eq!(render_tokens(&derived.attrs[0].tokens), "\" Generated patch model of [`Target`]\"");
    assert_eq!(render_tokens(&derived.attrs[1].tokens), "Default");
    let (fields, originals) = match (&derived.members, &original.members) {
        (Members::Fields(fields), Members::Fields(originals)) => (fields, originals),
        other => panic!("expected two records, got {:?}", other),
    };
    assert_eq!(fields.len(), 2);
    assert_eq!(fields[0].name, "name");
    assert_eq!(fields[0].ty.text, "core::option::Option<String>");
    assert_eq!(render_tokens(&fields[0].vis), "pub");
    assert_eq!(fields[0].attrs, originals[0].attrs);
    assert_eq!(fields[1].name, "bio");
    assert_eq!(fields[1].ty.text, "::poem_openapi::types::MaybeUndefined<String>");
    assert!(fields[1].attrs.is_empty());

    let plain = Attribute::list("patch", lower("Twice".parse().unwrap()));
    let twice = restructed::patch::impl_patch_model(
        &derived,
        &plain,
        &restructed::args::ModelAttrArgs::default(),
        PLAIN,
    )
    .unwrap();
    assert_eq!(twice.fields[0].inner, "core::option::Option<String>");
    let tri = Attribute::list("patch", lower("Twice, option = MaybeUndefined".parse().unwrap()));
    let twice = restructed::patch::impl_patch_model(
        &derived,
        &tri,
        &restructed::args::ModelAttrArgs::default(),
        PLAIN,
    )
    .unwrap();
    assert_eq!(twice.fields[0].wrapper, OptionType::MaybeUndefined);
    assert_eq!(twice.fields[0].inner, "String");
    assert_eq!(twice.fields[1].wrapper, OptionType::Option);
}

fn only_patch_of(decl: &Declaration) -> PatchModel {
    let mut expansion = models(decl, PLAIN).unwrap();
    expansion.patches.remove(0)
}

#[test]
fn the_steps_in_their_order_merge_like_the_members() {
    let model = only_patch(USER_ALT, PLAIN);
    let patch = vec![
        some("Cooler doode"),
        PatchSlot::MaybeUndefined(MaybeUndefined::Null),
        PatchSlot::Option(None),
    ];
    let mut by_steps = new_user();
    for step in &model.merge {
        let index = model.fields[step.member].index;
        assert_eq!(model.fields[step.member].name, step.field);
        match (&patch[step.member], step.wrapper) {
            (PatchSlot::Option(Some(v)), OptionType::Option) => by_steps[index] = v.clone(),
            (PatchSlot::Option(None), OptionType::Option) => {}
            (PatchSlot::MaybeUndefined(MaybeUndefined::Value(v)), OptionType::MaybeUndefined) => {
                by_steps[index] = Slot::Optional(Some(v.clone()))
            }
            (PatchSlot::MaybeUndefined(MaybeUndefined::Null), OptionType::MaybeUndefined) => {
                by_steps[index] = Slot::Optional(None)
            }
            (PatchSlot::MaybeUndefined(MaybeUndefined::Undefined), OptionType::MaybeUndefined) => {}
            other => panic!("the member and its step disagree: {:?}", other),
        }
    }
    assert_eq!(by_steps, model.merge(patch, new_user()));
}
