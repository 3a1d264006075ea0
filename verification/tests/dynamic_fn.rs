use spru_script::dynamic_fn::{
    arg_type_ident, arg_value_ident, converted_args, dynamic_fn_plan, impl_shape, member_kinds,
    trait_fn_name, trait_name, ImplSpec, MemberKind, ParamKind, Registration, ReceiverBound,
    ReturnBound, ReturnKind,
};

#[test]
fn param_kind_limits() {
    assert_eq!((ParamKind::Zero.min_params(), ParamKind::Zero.max_params()), (0, 0));
    assert_eq!((ParamKind::One.min_params(), ParamKind::One.max_params()), (1, 1));
    assert_eq!((ParamKind::Many.min_params(), ParamKind::Many.max_params()), (0, 1000));
}

#[test]
fn return_kinds_with_values() {
    assert!(ReturnKind::One.has_return_value());
    assert!(!ReturnKind::Actions.has_return_value());
    assert!(ReturnKind::OnePlusActions.has_return_value());
    assert!(!ReturnKind::Action.has_return_value());
}

#[test]
fn member_kind_table() {
    let kinds = member_kinds();
    assert_eq!(kinds.len(), 8);
    assert_eq!(kinds[0].wrapper_name(), "StateGetWrap");
    assert_eq!(kinds[7].wrapper_name(), "StatelessFunctionWrap");
    assert_eq!(MemberKind::StateSet.registration(), Some(Registration::Setter { pure: true }));
    assert_eq!(MemberKind::StatelessMethod.registration(), Some(Registration::Function { pure: true, volatile: false }));
    assert_eq!(MemberKind::StateCreate.registration(), None);
    assert!(MemberKind::StateFunction.is_state());
    assert!(!MemberKind::StateFunction.has_receiver());
    assert_eq!(trait_name(true), "RegisterStateMember");
    assert_eq!(trait_fn_name(false), "register_stateless_member");
}

fn count(plan: &[ImplSpec], kind: MemberKind) -> usize {
    plan.iter().filter(|e| e.kind == kind).count()
}

#[test]
fn plan_for_the_bindings_limits() {
    // Five parameters at most converted, ten at most unconverted.
    let plan = dynamic_fn_plan(5, 10);
    // Getters: only with no parameters, two return conversions.
    assert_eq!(count(&plan, MemberKind::StateGet), 2);
    // Setters: one parameter, one or no conversion of it, no return value.
    assert_eq!(count(&plan, MemberKind::StateSet), 2);
    // Constructors: 2^pc subsets up to five parameters, one for six to ten.
    assert_eq!(count(&plan, MemberKind::StateCreate), 1 + 2 + 4 + 8 + 16 + 32 + 5);
    // Methods: twice that, for the two return conversions.
    assert_eq!(count(&plan, MemberKind::StateMethod), 2 * (63 + 5));
    assert_eq!(plan.len(), 2 + 2 + 136 + 136 + 68 + 2 + 136 + 136);
    assert!(plan.iter().any(|e| e.param_count == 10));
    assert!(plan.iter().any(|e| e.param_count == 5 && e.conversion_bitset == 31));
    assert_eq!(plan[0], ImplSpec { kind: MemberKind::StateGet, param_count: 0, return_conversion: Some(false), conversion_bitset: 0, trait_bitset: 0, mut_refs: 1 });
    assert_eq!(plan[1], ImplSpec { kind: MemberKind::StateGet, param_count: 0, return_conversion: Some(true), conversion_bitset: 0, trait_bitset: 1, mut_refs: 2 });
}

#[test]
fn plan_impls_never_overlap() {
    let plan = dynamic_fn_plan(5, 10);
    for (i, a) in plan.iter().enumerate() {
        for b in &plan[i + 1..] {
            assert!(!(a.kind == b.kind && a.param_count == b.param_count && a.trait_bitset == b.trait_bitset));
        }
        assert_eq!(a.mut_refs as u32, (a.trait_bitset as u64).count_ones() + 1);
    }
}

#[test]
fn plan_with_zero_limits_has_the_parameterless_impls() {
    let plan = dynamic_fn_plan(0, 0);
    assert_eq!(plan.len(), 13);
    assert!(plan.iter().all(|e| e.param_count == 0 && e.conversion_bitset == 0));
    assert_eq!(count(&plan, MemberKind::StateSet), 0);
    assert_eq!(count(&plan, MemberKind::StateCreate), 1);
}

#[test]
fn shapes_of_state_setter_and_create() {
    let set = impl_shape(MemberKind::StateSet, None);
    assert!(set.checks_unchanged && set.gets_ledger && set.looks_up_receiver && set.splits_set_return && set.applies_actions);
    assert_eq!(set.receiver_bound, Some(ReceiverBound::StateId));
    assert_eq!(set.return_bound, Some(ReturnBound::SetReturn));
    let create = impl_shape(MemberKind::StateCreate, None);
    assert!(create.creates_item && create.gets_ledger && create.receiver_type_param && create.storable_bound);
    assert_eq!(create.receiver_bound, None);
    let get = impl_shape(MemberKind::StatelessGet, Some(true));
    assert!(get.converts_return && !get.gets_ledger && !get.passes_args);
    assert_eq!(get.return_bound, Some(ReturnBound::Value { converted: true }));
}

#[test]
fn converted_args_read_bits() {
    assert_eq!(converted_args(4, 0b1010), vec![false, true, false, true]);
    assert_eq!(converted_args(0, 7), Vec::<bool>::new());
}

#[test]
fn argument_identifiers() {
    assert_eq!(arg_type_ident(0), 'A');
    assert_eq!(arg_type_ident(25), 'Z');
    assert_eq!(arg_value_ident(2), 'c');
}
