use spru_script::rhai::{
    apply_ret, engine_setup, extra_args_error, flatten, from_array, from_int, option_from_dynamic,
    pop_arg, to_int, typed_elements, vec_from_dynamic, ArgError, DataTooLarge, Direction,
    DynValue, IntKind, OutputMap, Registry, ScriptArg, ScriptReturn, StorageHandle, TriggerError,
    VecConversionError,
};

fn other<T>(name: &str) -> ScriptArg<T> {
    ScriptArg::Other { kind_name: name.to_string() }
}

#[test]
fn registry_is_empty() {
    let _r = Registry::new();
}

#[test]
fn from_int_checks_range() {
    assert!(matches!(from_int(IntKind::U8, 255), Ok(255)));
    assert!(matches!(from_int(IntKind::U8, 256), Err(DataTooLarge)));
    assert!(matches!(from_int(IntKind::U32, -1), Err(DataTooLarge)));
    assert!(matches!(from_int(IntKind::I8, -128), Ok(-128)));
    assert!(matches!(from_int(IntKind::I64, i64::MIN), Ok(v) if v == i64::MIN as i128));
    assert_eq!(DataTooLarge.message(), "Value is too large for the target type");
}

#[test]
fn to_int_checks_range() {
    assert!(matches!(to_int(IntKind::U64, u64::MAX as i128), Err(DataTooLarge)));
    assert!(matches!(to_int(IntKind::U64, 42), Ok(42)));
    assert!(matches!(to_int(IntKind::I16, -7), Ok(-7)));
}

#[test]
fn engine_setup_registers_conversions() {
    let setup = engine_setup();
    assert_eq!((setup.max_expr_depth, setup.max_function_expr_depth, setup.fast_operators), (64, 32, false));
    assert_eq!(setup.conversions.len(), 19);
    assert_eq!(setup.conversions[0].name, "to_u8");
    assert_eq!(setup.conversions[9].name, "to_isize");
    assert!(setup.conversions[10..].iter().all(|c| c.name == "to_int" && c.direction == Direction::ToInt));
    assert!(setup.conversions[10..].iter().all(|c| c.kind != IntKind::I64));
}

#[test]
fn pop_arg_errors() {
    let mut args: Vec<ScriptArg<u8>> = vec![];
    assert!(matches!(pop_arg(&mut args, &"u8".to_string()), Err(ArgError::NotEnough)));
    let mut args: Vec<ScriptArg<u8>> = vec![other("string"), ScriptArg::Of(4)];
    match pop_arg(&mut args, &"u8".to_string()) {
        Err(ArgError::Mismatch { expected, actual }) => {
            assert_eq!(expected, "u8");
            assert_eq!(actual, "string");
        }
        _ => panic!("expected a mismatch"),
    }
    assert!(matches!(pop_arg(&mut args, &"u8".to_string()), Ok(4)));
    assert!(extra_args_error(&args).is_ok());
    assert!(matches!(extra_args_error(&vec![ScriptArg::Of(1u8)]), Err(ArgError::TooMany)));
    assert_eq!(ArgError::NotEnough.message(), Some("Not enough arguments"));
    assert_eq!(ArgError::TooMany.message(), Some("Too many arguments"));
    assert_eq!(ArgError::Mismatch { expected: "a".to_string(), actual: "b".to_string() }.message(), None);
}

#[test]
fn typed_elements_reports_first_mismatch() {
    assert!(matches!(typed_elements(vec![ScriptArg::Of(1u8), ScriptArg::Of(2)], &"u8".to_string()), Ok(v) if v == vec![1, 2]));
    match typed_elements(vec![ScriptArg::Of(1u8), other("bool"), other("f64")], &"u8".to_string()) {
        Err(ArgError::Mismatch { actual, .. }) => assert_eq!(actual, "bool"),
        _ => panic!("expected a mismatch"),
    }
}

#[test]
fn from_array_skips_receiver() {
    let arr = ScriptArg::Of(vec![ScriptArg::Of(3u8), ScriptArg::Of(4)]);
    let args = vec![other("map"), arr];
    assert!(matches!(from_array(args, &"array".to_string(), &"u8".to_string()), Ok(v) if v == vec![3, 4]));
    let too_many = vec![other("map"), ScriptArg::Of(vec![]), other("x")];
    assert!(matches!(from_array::<u8>(too_many, &"array".to_string(), &"u8".to_string()), Err(ArgError::TooMany)));
    assert!(matches!(from_array::<u8>(vec![other("map")], &"array".to_string(), &"u8".to_string()), Err(ArgError::NotEnough)));
}

#[test]
fn storage_handles() {
    let storage = 5u8;
    let ro = StorageHandle::new_readonly(&storage);
    assert_eq!(ro.ledger(), Err("Attempted to modify state during read-only script evaluation"));
    let mut ledger = vec![1u8];
    let rw = StorageHandle::new(&mut ledger);
    assert_eq!(rw.ledger(), Ok(()));
}

#[test]
fn triggers_come_out_in_order() {
    let mut out: OutputMap<u8> = OutputMap::new();
    assert_eq!(out.enqueue_trigger(true, vec![1]), Err(TriggerError::QueueMissing));
    out.insert_enqueue_trigger();
    assert_eq!(out.enqueue_trigger(true, vec![1, 2]), Ok(()));
    assert_eq!(out.enqueue_trigger(false, vec![9]), Err(TriggerError::NotMethod));
    assert_eq!(out.enqueue_trigger(true, vec![3]), Ok(()));
    assert_eq!(out.apply_enqueued_triggers(), vec![1, 2, 3]);
    assert_eq!(TriggerError::QueueMissing.message(), "Trigger queue missing");
    assert_eq!(TriggerError::NotMethod.message(), "Must be called as a method");
}


#[test]
fn many_enqueue_calls_keep_call_order() {
    let mut out: OutputMap<u32> = OutputMap::new();
    out.insert_enqueue_trigger();
    let mut expected: Vec<u32> = Vec::new();
    for call in 0..10u32 {
        let batch: Vec<u32> = (0..call % 3).map(|k| call * 10 + k).collect();
        let as_method = call % 4 != 1;
        let r = out.enqueue_trigger(as_method, batch.clone());
        if as_method {
            assert_eq!(r, Ok(()));
            expected.extend(batch);
        } else {
            assert_eq!(r, Err(TriggerError::NotMethod));
        }
    }
    assert_eq!(out.apply_enqueued_triggers(), expected);
    assert_eq!(out.enqueue_trigger(true, vec![1]), Err(TriggerError::QueueMissing));
}
#[test]
fn reaction_return_sets_outcome() {
    let mut outcome: Option<u8> = None;
    assert!(apply_ret(&mut outcome, ScriptReturn::Unit, &"Outcome".to_string()).is_ok());
    assert_eq!(outcome, None);
    assert!(apply_ret(&mut outcome, ScriptReturn::Outcome(3), &"Outcome".to_string()).is_ok());
    assert_eq!(outcome, Some(3));
    match apply_ret(&mut outcome, ScriptReturn::Other { kind_name: "i64".to_string() }, &"Outcome".to_string()) {
        Err(e) => {
            assert_eq!(e.expected, "Outcome");
            assert_eq!(e.actual, "i64");
        }
        Ok(()) => panic!("expected a mismatch"),
    }
    assert_eq!(outcome, Some(3));
}

#[test]
fn dynamic_conversions() {
    assert!(matches!(option_from_dynamic(DynValue::<u8>::Unit), Ok(None)));
    assert!(matches!(option_from_dynamic(DynValue::Value(4u8)), Ok(Some(4))));
    assert!(matches!(option_from_dynamic(DynValue::OptionValue(Some(5u8))), Ok(Some(5))));
    assert!(matches!(option_from_dynamic(DynValue::<u8>::Other { kind_name: "bool".to_string() }), Err(DynValue::Other { .. })));
    assert!(matches!(vec_from_dynamic(DynValue::VecValue(vec![1u8])), Ok(v) if v == vec![1]));
    assert!(matches!(vec_from_dynamic(DynValue::Array(vec![ScriptArg::Of(2u8)])), Ok(v) if v == vec![2]));
    assert!(matches!(vec_from_dynamic(DynValue::Array(vec![ScriptArg::<u8>::Other { kind_name: "char".to_string() }])), Err(VecConversionError::Element { kind_name }) if kind_name == "char"));
    assert!(matches!(vec_from_dynamic(DynValue::<u8>::Unit), Err(VecConversionError::NotArray(DynValue::Unit))));
    assert!(matches!(flatten(Some(1u8)), DynValue::Value(1)));
    assert!(matches!(flatten(None::<u8>), DynValue::Unit));
}
