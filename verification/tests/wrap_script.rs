use spru_script::marker;
use spru_script::script::Script;
use spru_script::wrap::Wrap;

#[test]
fn wrap_hands_its_arguments_out_once() {
    let mut w: Wrap<marker::State, (u8, &str)> = Wrap::new((3, "x"));
    assert_eq!(w.take(), (3, "x"));
}

#[test]
fn wrap_constructors_hold_arguments() {
    let mut get = Wrap::<(marker::State, marker::Get), _>::new_state_get(("score", 1u8));
    assert_eq!(get.take(), ("score", 1u8));
    let mut eq = Wrap::<(marker::Stateless, marker::Equality), _>::new_stateless_eq(5u16);
    assert_eq!(eq.take(), 5);
}

#[test]
fn script_calls_its_loader_each_time() {
    let script = Script::new(|| "print(1)".to_string());
    assert_eq!(script.get(), "print(1)");
    assert_eq!(script.get(), "print(1)");
}

#[test]
fn cached_script_loads_once() {
    let loads = std::cell::Cell::new(0);
    let mut script = spru_script::script::CachedScript::new(|| {
        loads.set(loads.get() + 1);
        format!("print({})", loads.get())
    });
    assert_eq!(script.get(), "print(1)");
    assert_eq!(script.get(), "print(1)");
    assert_eq!(script.get(), "print(1)");
    assert_eq!(loads.get(), 1);
}
