use spru_script::expand::{scriptable_plan, MacroPlan, PlanError, WrapperKind};
use spru_script::model::{
    Create, DeriveKind, Function, GetKind, Getter, Method, Param, Scriptable, ScriptableDetails,
    ScriptableOptions, ScriptableState, ScriptableType, SelfType, SetKind, Setter,
    StateMemberKind, TypeMemberKind,
};
use spru_script::model::{mangle_state_member_name, mangle_type_member_name, params_to_types};

fn s(x: &str) -> String {
    x.to_string()
}

fn details(segments: &[&str], options: ScriptableOptions) -> ScriptableDetails {
    ScriptableDetails {
        self_type: SelfType::Path { segments: segments.iter().map(|x| s(x)).collect(), text: segments.join("::") },
        options,
        generics: s(""),
        where_clause: s(""),
    }
}

fn no_options() -> ScriptableOptions {
    ScriptableOptions { includes: None, partial: None, derive: None }
}

fn typed(ty: &str) -> Param {
    Param::Typed { pat: s("x"), ty: s(ty) }
}

#[test]
fn mangled_member_names() {
    let get = StateMemberKind::MemberGet { get: Getter { name: s("score"), ty: s("u32"), kind: GetKind::Field { ident: s("score") } } };
    assert_eq!(mangle_state_member_name(&get), s("__get__score"));
    let f = TypeMemberKind::MemberFunction { function: Function { name: s("make"), ident: s("mk"), ret: s("Self"), params: vec![] } };
    assert_eq!(mangle_type_member_name(&f), s("__function__make"));
}

#[test]
fn params_to_types_skips_receivers() {
    assert_eq!(params_to_types(&vec![Param::Receiver, typed("u8"), typed("String")]), vec![s("u8"), s("String")]);
}

#[test]
fn state_plan_lists_items_and_build_chain() {
    let members = vec![
        StateMemberKind::MemberGet { get: Getter { name: s("score"), ty: s("u32"), kind: GetKind::Field { ident: s("score") } } },
        StateMemberKind::MemberSet { set: Setter { name: s("score"), ty: s("u32"), kind: SetKind::Fn { ident: s("set_score"), ret: s("Vec<A>") } } },
        StateMemberKind::MemberMethod { method: Method { name: s("play"), ident: s("play"), ret: s("bool"), actions: vec![s("Play")], params: vec![Param::Receiver, typed("u8"), typed("u8")] } },
        StateMemberKind::MemberCreate { create: Create { name: s("new"), ident: s("new"), action: s("Create"), params: vec![typed("u8")] } },
    ];
    let options = ScriptableOptions { includes: Some(vec![s("base_a"), s("base_b")]), partial: None, derive: None };
    let sc = Scriptable::State { state: ScriptableState { details: details(&["game", "Root"], options), members } };
    let plan = scriptable_plan(&sc).ok().unwrap();
    assert_eq!(plan.register_macro, Some(s("register_Root")));
    assert!(plan.is_state);
    assert!(plan.type_item);
    let names: Vec<String> = plan.items.iter().map(|i| i.name.clone()).collect();
    assert_eq!(names, vec![s("__get__score"), s("__set__score"), s("__method__play"), s("__create__new")]);
    let wrappers: Vec<WrapperKind> = plan.items.iter().map(|i| i.wrapper).collect();
    assert_eq!(wrappers, vec![WrapperKind::StateGet, WrapperKind::StateSet, WrapperKind::StateMethod, WrapperKind::StateCreate]);
    let counts: Vec<usize> = plan.items.iter().map(|i| i.arg_count).collect();
    assert_eq!(counts, vec![0, 1, 2, 1]);
    assert_eq!(plan.macros, MacroPlan::Build { chain: vec![s("base_a"), s("base_b"), s("__spru_script__build")] });
}

#[test]
fn partial_plan_forwards_under_alias() {
    let options = ScriptableOptions { includes: None, partial: Some(s("input_base")), derive: Some(vec![DeriveKind::Eq]) };
    let members = vec![TypeMemberKind::MemberFunction { function: Function { name: s("pass"), ident: s("pass"), ret: s("Self"), params: vec![] } }];
    let sc = Scriptable::Ty { ty: ScriptableType { details: details(&["Input"], options), members } };
    let plan = scriptable_plan(&sc).ok().unwrap();
    assert!(!plan.is_state);
    assert!(!plan.type_item);
    assert_eq!(plan.items.len(), 2);
    assert_eq!(plan.items[0].name, s("__eq"));
    assert_eq!(plan.items[0].wrapper, WrapperKind::StatelessEq);
    assert_eq!(plan.items[1].name, s("__function__pass"));
    assert_eq!(plan.items[1].wrapper, WrapperKind::StatelessFunction);
    assert_eq!(plan.macros, MacroPlan::Partial { alias: s("input_base") });
}

#[test]
fn plan_refuses_non_path_types() {
    let d = ScriptableDetails { self_type: SelfType::Other { text: s("&'static str") }, options: no_options(), generics: s(""), where_clause: s("") };
    let sc = Scriptable::Ty { ty: ScriptableType { details: d, members: vec![] } };
    assert_eq!(scriptable_plan(&sc), Err(PlanError::ExpectedTypePath));
    assert_eq!(PlanError::ExpectedTypePath.message(), "Expected a type path");
}

#[test]
fn plan_refuses_stateless_method_actions() {
    let members = vec![TypeMemberKind::MemberMethod { method: Method { name: s("m"), ident: s("m"), ret: s("u8"), actions: vec![s("A")], params: vec![Param::Receiver] } }];
    let sc = Scriptable::Ty { ty: ScriptableType { details: details(&["T"], no_options()), members } };
    assert_eq!(scriptable_plan(&sc), Err(PlanError::StatelessMethodActions));
    assert_eq!(PlanError::StatelessMethodActions.message(), "Non-state methods cannot have actions");
}

#[test]
fn details_of_either_kind() {
    let sc = Scriptable::Ty { ty: ScriptableType { details: details(&["T"], no_options()), members: vec![] } };
    assert_eq!(sc.details().self_type, SelfType::Path { segments: vec![s("T")], text: s("T") });
}
