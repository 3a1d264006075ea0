use spru_script::declare::{
    build_impl, build_struct, field_attrs, fn_attrs, script_item, strip_helper_attributes, Attr,
    AttrArgs, BuildError, FieldModel, FnModel, HelperWord, ImplItemModel, ImplModel, NameOptions,
    ReturnModel, ScriptItem, StructModel,
};
use spru_script::model::{
    GetKind, Getter, Param, Scriptable, SelfType, SetKind, Setter, StateMemberKind, TypeMemberKind,
};
use spru_script::expand::{scriptable_plan, MacroPlan};
use spru_script::options::{ImplOptions, ScriptOption, StructOptions};

fn s(x: &str) -> String {
    x.to_string()
}

fn bare(word: &str) -> Attr {
    Attr { path: Some(s(word)), args: AttrArgs::Bare }
}

fn named(word: &str, name: &str) -> Attr {
    Attr { path: Some(s(word)), args: AttrArgs::Parsed { options: NameOptions { names: vec![s(name)] } } }
}

fn field(ident: Option<&str>, ty: &str, attrs: Vec<Attr>) -> FieldModel {
    FieldModel { ident: ident.map(s), ty: s(ty), attrs }
}

fn model(fields: Vec<FieldModel>) -> StructModel {
    StructModel {
        ident: s("Root"),
        self_type: s("Root"),
        generics: s(""),
        where_clause: s(""),
        fields,
    }
}

#[test]
fn field_attrs_pick_get_and_set_only() {
    let attrs = vec![bare("get"), bare("doc"), bare("method"), named("set", "total")];
    let hs = field_attrs(&attrs, 0).ok().unwrap();
    assert_eq!(hs.len(), 2);
    assert_eq!(hs[0].word, HelperWord::GetAttr);
    assert_eq!(hs[0].span, 0);
    assert_eq!(hs[0].name, None);
    assert_eq!(hs[1].word, HelperWord::SetAttr);
    assert_eq!(hs[1].span, 3);
    assert_eq!(hs[1].name, Some(s("total")));
}

#[test]
fn fn_attrs_report_unparsable_arguments() {
    let attrs = vec![bare("function"), Attr { path: Some(s("create")), args: AttrArgs::Unparsable { message: s("expected `name`") } }];
    assert_eq!(
        fn_attrs(&attrs, 4),
        Err(BuildError::AttrArgs { item: 4, attr: 1, message: s("expected `name`") })
    );
}

#[test]
fn strip_removes_helper_attributes() {
    let attrs = vec![bare("get"), bare("doc"), named("set", "x"), Attr { path: None, args: AttrArgs::Bare }, bare("function")];
    let kept = strip_helper_attributes(attrs);
    assert_eq!(kept, vec![bare("doc"), Attr { path: None, args: AttrArgs::Bare }]);
}

#[test]
fn struct_state_members_from_fields() {
    let options = StructOptions { options: vec![] };
    let m = model(vec![
        field(Some("score"), "u32", vec![bare("get")]),
        field(Some("other"), "u32", vec![named("set", "total"), bare("get")]),
    ]);
    let built = build_struct(&options, &m).ok().unwrap();
    match built {
        Scriptable::State { state } => {
            assert_eq!(state.members, vec![
                StateMemberKind::MemberGet { get: Getter { name: s("score"), ty: s("u32"), kind: GetKind::Field { ident: s("score") } } },
                StateMemberKind::MemberSet { set: Setter { name: s("total"), ty: s("u32"), kind: SetKind::Field { ident: s("other") } } },
                StateMemberKind::MemberGet { get: Getter { name: s("other"), ty: s("u32"), kind: GetKind::Field { ident: s("other") } } },
            ]);
            assert_eq!(state.details.self_type, SelfType::Path { segments: vec![s("Root")], text: s("Root") });
            assert_eq!(state.details.options.partial, None);
            assert_eq!(state.details.options.includes, None);
        }
        _ => panic!("expected a state description"),
    }
}

#[test]
fn tuple_struct_fields_are_named_by_position() {
    let options = StructOptions { options: vec![ScriptOption::State { is_state: false }] };
    let m = model(vec![field(None, "u8", vec![]), field(None, "i64", vec![bare("get")])]);
    match build_struct(&options, &m).ok().unwrap() {
        Scriptable::Ty { ty } => {
            assert_eq!(ty.members, vec![TypeMemberKind::MemberGet { get: Getter { name: s("1"), ty: s("i64"), kind: GetKind::Field { ident: s("1") } } }]);
        }
        _ => panic!("expected a plain type description"),
    }
}

#[test]
fn set_on_plain_type_field_is_refused() {
    let options = StructOptions { options: vec![ScriptOption::State { is_state: false }] };
    let m = model(vec![field(Some("a"), "u8", vec![bare("doc"), bare("set")])]);
    assert_eq!(build_struct(&options, &m), Err(BuildError::RequireState { item: 0, attr: 1 }));
    assert_eq!(BuildError::RequireState { item: 0, attr: 1 }.message(), s("The attribute is only supported for State types"));
}

fn f(ident: &str, attrs: Vec<Attr>, inputs: Vec<Param>, output: ReturnModel) -> ImplItemModel {
    ImplItemModel::Fn { f: FnModel { ident: s(ident), attrs, inputs, output } }
}

fn ret(text: &str) -> ReturnModel {
    ReturnModel::Type { text: s(text), tuple: None }
}

fn typed(pat: &str, ty: &str) -> Param {
    Param::Typed { pat: s(pat), ty: s(ty) }
}

fn impl_model(items: Vec<ImplItemModel>) -> ImplModel {
    ImplModel {
        self_type: SelfType::Path { segments: vec![s("game"), s("Root")], text: s("game::Root") },
        generics: s(""),
        where_clause: s(""),
        items,
    }
}

#[test]
fn impl_state_members_from_functions() {
    let options = ImplOptions { options: vec![] };
    let m = impl_model(vec![
        f("score", vec![bare("get")], vec![Param::Receiver], ret("u32")),
        ImplItemModel::Other,
        f("set_score", vec![named("set", "score")], vec![Param::Receiver, typed("v", "u32")], ret("Vec<Actions>")),
        f("play", vec![bare("method")], vec![Param::Receiver, typed("w", "String")],
            ReturnModel::Type { text: s("(bool, Play)"), tuple: Some(vec![s("bool"), s("Play")]) }),
    ]);
    match build_impl(&options, &m).ok().unwrap() {
        Scriptable::State { state } => {
            assert_eq!(state.members.len(), 3);
            assert_eq!(state.members[0], StateMemberKind::MemberGet { get: Getter { name: s("score"), ty: s("u32"), kind: GetKind::Fn { ident: s("score") } } });
            assert_eq!(state.members[1], StateMemberKind::MemberSet { set: Setter { name: s("score"), ty: s("u32"), kind: SetKind::Fn { ident: s("set_score"), ret: s("Vec<Actions>") } } });
            match &state.members[2] {
                StateMemberKind::MemberMethod { method } => {
                    assert_eq!(method.name, s("play"));
                    assert_eq!(method.ret, s("bool"));
                    assert_eq!(method.actions, vec![s("Play")]);
                    assert_eq!(method.params, vec![Param::Receiver, typed("w", "String")]);
                }
                _ => panic!("expected a method"),
            }
        }
        _ => panic!("expected a state description"),
    }
}

#[test]
fn impl_errors() {
    let options = ImplOptions { options: vec![] };
    let cases = vec![
        (f("g", vec![bare("get")], vec![Param::Receiver], ReturnModel::Default), BuildError::GetWithoutReturn { item: 0 }),
        (f("s", vec![bare("set")], vec![Param::Receiver], ret("()")), BuildError::SetParams { item: 0 }),
        (f("s", vec![bare("set")], vec![Param::Receiver, typed("a", "u8")], ReturnModel::Default), BuildError::SetWithoutReturn { item: 0 }),
        (f("m", vec![bare("method")], vec![], ReturnModel::Default), BuildError::MethodWithoutReturn { item: 0 }),
        (f("m", vec![bare("method")], vec![], ret("u8")), BuildError::MethodNotTuple { item: 0 }),
        (f("m", vec![bare("method")], vec![], ReturnModel::Type { text: s("()"), tuple: Some(vec![]) }), BuildError::MethodEmptyTuple { item: 0 }),
        (f("c", vec![bare("create")], vec![], ReturnModel::Default), BuildError::CreateWithoutReturn { item: 0 }),
        (f("x", vec![bare("function")], vec![], ReturnModel::Default), BuildError::FunctionWithoutReturn { item: 0 }),
    ];
    for (item, expected) in cases {
        assert_eq!(build_impl(&options, &impl_model(vec![item])), Err(expected));
    }
}

#[test]
fn stateless_impl_refuses_state_only_attributes() {
    let options = ImplOptions { options: vec![ScriptOption::State { is_state: false }] };
    let m = impl_model(vec![f("c", vec![bare("doc"), bare("create")], vec![], ret("Create"))]);
    assert_eq!(build_impl(&options, &m), Err(BuildError::RequireState { item: 0, attr: 1 }));
    let m = impl_model(vec![f("mk", vec![named("function", "make")], vec![typed("a", "u8")], ret("Self"))]);
    match build_impl(&options, &m).ok().unwrap() {
        Scriptable::Ty { ty } => match &ty.members[0] {
            TypeMemberKind::MemberFunction { function } => {
                assert_eq!(function.name, s("make"));
                assert_eq!(function.ident, s("mk"));
                assert_eq!(function.ret, s("Self"));
            }
            _ => panic!("expected a function"),
        },
        _ => panic!("expected a plain type description"),
    }
}

#[test]
fn first_error_stops_the_build() {
    let options = ImplOptions { options: vec![] };
    let m = impl_model(vec![
        f("a", vec![bare("get")], vec![], ret("u8")),
        f("b", vec![bare("function")], vec![], ReturnModel::Default),
        f("c", vec![bare("get")], vec![], ReturnModel::Default),
    ]);
    assert_eq!(build_impl(&options, &m), Err(BuildError::FunctionWithoutReturn { item: 1 }));
}

#[test]
fn script_on_other_items_is_refused() {
    assert_eq!(script_item(&ScriptItem::Other), Err(BuildError::NotStructOrImpl));
    assert_eq!(BuildError::NotStructOrImpl.message(), s("The #[script] attribute can only be applied to structs and impl blocks."));
}

#[test]
fn script_item_dispatches_structs() {
    let options = StructOptions { options: vec![ScriptOption::Partial { partial: s("Base") }] };
    let m = model(vec![field(Some("x"), "u8", vec![bare("get")])]);
    match script_item(&ScriptItem::Struct(options, m)).ok().unwrap() {
        Scriptable::State { state } => assert_eq!(state.details.options.partial, Some(s("Base"))),
        _ => panic!("expected a state description"),
    }
}

#[test]
fn scripted_type_with_included_partial_impl() {
    let struct_options = StructOptions { options: vec![ScriptOption::Includes { includes: vec![s("Impl")] }] };
    let m = StructModel {
        ident: s("S"),
        self_type: s("S"),
        generics: s(""),
        where_clause: s(""),
        fields: vec![
            field(Some("a"), "i64", vec![bare("get"), bare("set")]),
            field(Some("b"), "Option<IdT<S>>", vec![bare("get"), bare("set")]),
        ],
    };
    let built = script_item(&ScriptItem::Struct(struct_options, m)).ok().unwrap();
    let plan = scriptable_plan(&built).ok().unwrap();
    let names: Vec<String> = plan.items.iter().map(|i| i.name.clone()).collect();
    assert_eq!(names, vec![s("__get__a"), s("__set__a"), s("__get__b"), s("__set__b")]);
    assert_eq!(plan.register_macro, Some(s("register_S")));
    assert_eq!(plan.macros, MacroPlan::Build { chain: vec![s("Impl"), s("__spru_script__build")] });

    let impl_options = ImplOptions { options: vec![ScriptOption::Partial { partial: s("Impl") }] };
    let im = ImplModel {
        self_type: SelfType::Path { segments: vec![s("S")], text: s("S") },
        generics: s(""),
        where_clause: s(""),
        items: vec![
            f("create", vec![bare("create")], vec![typed("val", "i64"), typed("_dummy", "i64")], ret("cloned::Create<S>")),
            f("f", vec![bare("function")], vec![], ret("i64")),
        ],
    };
    let built = script_item(&ScriptItem::Impl(impl_options, im)).ok().unwrap();
    let plan = scriptable_plan(&built).ok().unwrap();
    let items: Vec<(String, usize)> = plan.items.iter().map(|i| (i.name.clone(), i.arg_count)).collect();
    assert_eq!(items, vec![(s("__create__create"), 2), (s("__function__f"), 0)]);
    assert!(!plan.type_item);
    assert_eq!(plan.macros, MacroPlan::Partial { alias: s("Impl") });
}
