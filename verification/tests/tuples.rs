use spru_script::tuples::{MethodReturn, SetReturn};

#[derive(Debug, PartialEq)]
enum Action {
    Draw(u8),
    Play(String),
}

struct Draw(u8);
struct Play(&'static str);

impl From<Draw> for Action {
    fn from(d: Draw) -> Self {
        Action::Draw(d.0)
    }
}

impl From<Play> for Action {
    fn from(p: Play) -> Self {
        Action::Play(p.0.to_string())
    }
}

#[test]
fn method_return_without_actions() {
    let (value, actions): (u32, Vec<Action>) = MethodReturn::<Action>::convert((7u32,));
    assert_eq!(value, 7);
    assert!(actions.is_empty());
}

#[test]
fn method_return_keeps_action_order() {
    let (value, actions): (bool, Vec<Action>) = MethodReturn::<Action>::convert((true, Draw(1), Play("cat"), Draw(2)));
    assert!(value);
    assert_eq!(actions, vec![Action::Draw(1), Action::Play("cat".to_string()), Action::Draw(2)]);
}

#[test]
fn set_return_keeps_action_order() {
    let actions: Vec<Action> = SetReturn::<Action>::convert((Play("a"), Draw(3)));
    assert_eq!(actions, vec![Action::Play("a".to_string()), Action::Draw(3)]);
    let single: Vec<Action> = SetReturn::<Action>::convert((Draw(9),));
    assert_eq!(single, vec![Action::Draw(9)]);
}

#[test]
fn longest_tuples_convert() {
    let t = ((), Draw(1), Draw(2), Draw(3), Draw(4), Draw(5), Draw(6), Draw(7), Draw(8), Draw(9), Draw(10), Draw(11), Draw(12), Draw(13), Draw(14), Draw(15), Draw(16));
    let ((), actions): ((), Vec<Action>) = MethodReturn::<Action>::convert(t);
    assert_eq!(actions, (1..=16).map(Action::Draw).collect::<Vec<_>>());
    let s = (Draw(1), Draw(2), Draw(3), Draw(4), Draw(5), Draw(6), Draw(7), Draw(8), Draw(9), Draw(10), Draw(11), Draw(12), Draw(13), Draw(14), Draw(15), Draw(16));
    let actions: Vec<Action> = SetReturn::<Action>::convert(s);
    assert_eq!(actions.len(), 16);
    assert_eq!(actions[15], Action::Draw(16));
}
