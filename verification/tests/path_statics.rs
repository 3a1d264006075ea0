use spru_script::path::{path_key, write_scriptable_path, ScriptablePath};
use spru_script::statics::{insert_type_statics, NamedMap, Registration};

fn p(segments: &[&str], args: Vec<ScriptablePath>) -> ScriptablePath {
    ScriptablePath(segments.iter().map(|s| s.to_string()).collect(), args)
}

#[test]
fn key_of_a_plain_path() {
    assert_eq!(path_key(&p(&["reaction", "Trigger"], vec![])), "reaction::Trigger");
    assert_eq!(path_key(&p(&["Play"], vec![])), "Play");
}

#[test]
fn key_of_a_generic_path() {
    let path = p(&["pile", "Pile"], vec![p(&["data", "Card"], vec![])]);
    assert_eq!(path_key(&path), "pile::Pile<data::Card>");
    let nested = p(&["Map"], vec![p(&["u8"], vec![]), p(&["Vec"], vec![p(&["i32"], vec![])])]);
    assert_eq!(path_key(&nested), "Map<u8,Vec<i32>>");
}

#[test]
fn path_without_segments_writes_nothing() {
    let mut s = String::from("prefix");
    write_scriptable_path(&mut s, &p(&[], vec![p(&["X"], vec![])]));
    assert_eq!(s, "prefix");
    write_scriptable_path(&mut s, &p(&["a"], vec![]));
    assert_eq!(s, "prefixa");
}

#[test]
fn named_map_replaces_values() {
    let mut m: NamedMap<u32> = NamedMap::new();
    m.insert("none".to_string(), 1);
    m.insert("from_array".to_string(), 2);
    m.insert("none".to_string(), 3);
    assert_eq!(m.len(), 2);
    assert_eq!(m.get(&"none".to_string()), Some(&3));
    assert_eq!(m.get(&"from_array".to_string()), Some(&2));
    assert_eq!(m.get(&"other".to_string()), None);
}

#[test]
fn statics_are_filed_under_the_path_key() {
    let mut reg: Registration<u32> = Registration::new();
    let mut member = reg.type_registration(Some(p(&["pile", "Pile"], vec![p(&["data", "Card"], vec![])])));
    member.insert_static("none".to_string(), 7);
    member.apply(&mut reg);
    let statics = reg.statics_map(&"pile::Pile<data::Card>".to_string()).unwrap();
    assert_eq!(statics.get(&"none".to_string()), Some(&7));
    assert!(reg.statics_map(&"pile::Pile".to_string()).is_none());
}

#[test]
fn type_without_path_files_nothing() {
    let mut reg: Registration<u32> = Registration::new();
    let mut member = reg.type_registration(None);
    member.insert_static("none".to_string(), 7);
    member.apply(&mut reg);
    let scope = reg.apply();
    assert_eq!(scope.len(), 1);
    assert_eq!(scope[0].0, "type");
    assert_eq!(scope[0].1.len(), 0);
}

#[test]
fn registering_a_type_again_replaces_its_statics() {
    let mut reg: Registration<u32> = Registration::new();
    let mut first = reg.type_registration(Some(p(&["T"], vec![])));
    first.insert_static("a".to_string(), 1);
    first.apply(&mut reg);
    let mut second = reg.type_registration(Some(p(&["T"], vec![])));
    second.insert_static("b".to_string(), 2);
    second.apply(&mut reg);
    let statics = reg.statics_map(&"T".to_string()).unwrap();
    assert_eq!(statics.get(&"a".to_string()), None);
    assert_eq!(statics.get(&"b".to_string()), Some(&2));
}

#[test]
fn every_type_gets_none_and_from_array() {
    let mut reg: Registration<u32> = Registration::new();
    let mut member = reg.type_registration(Some(p(&["data", "Card"], vec![])));
    insert_type_statics(&mut member, 0, 1);
    member.apply(&mut reg);
    let statics = reg.statics_map(&"data::Card".to_string()).unwrap();
    assert_eq!(statics.len(), 2);
    assert_eq!(statics.get(&"none".to_string()), Some(&0));
    assert_eq!(statics.get(&"from_array".to_string()), Some(&1));
}

#[test]
fn nested_and_listed_arguments_get_distinct_keys() {
    let listed = p(&["A"], vec![p(&["B"], vec![]), p(&["C"], vec![])]);
    let nested = p(&["A"], vec![p(&["B"], vec![p(&["C"], vec![])])]);
    assert_eq!(path_key(&listed), "A<B,C>");
    assert_eq!(path_key(&nested), "A<B<C>>");
    assert_ne!(path_key(&listed), path_key(&nested));
}
