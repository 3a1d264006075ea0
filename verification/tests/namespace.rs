use spru_script::namespace::{path_node_count, Namespace, NsKey};
use spru_script::path::ScriptablePath;

fn p(segments: &[&str], args: Vec<ScriptablePath>) -> ScriptablePath {
    ScriptablePath(segments.iter().map(|s| s.to_string()).collect(), args)
}

#[test]
fn path_segments_make_nested_tables() {
    let mut ns = Namespace::new();
    let card = ns.register_path(&p(&["data", "Card"], vec![]));
    assert_eq!(card, 2);
    assert_eq!(ns.len(), 2);
    let play = ns.register_path(&p(&["data", "Play"], vec![]));
    assert_eq!(play, 3);
    assert_eq!(ns.len(), 3);
}

#[test]
fn registering_twice_makes_nothing_new() {
    let mut ns = Namespace::new();
    let path = p(&["pile", "Pile"], vec![p(&["data", "Card"], vec![])]);
    let first = ns.register_path(&path);
    let len = ns.len();
    let again = ns.register_path(&path);
    assert_eq!(first, again);
    assert_eq!(ns.len(), len);
}

#[test]
fn generic_types_sit_under_their_arguments() {
    let mut ns = Namespace::new();
    let card = ns.register_path(&p(&["data", "Card"], vec![]));
    let pile_of_cards = ns.register_path(&p(&["pile", "Pile"], vec![p(&["data", "Card"], vec![])]));
    let pile = ns.register_path(&p(&["pile", "Pile"], vec![]));
    assert_ne!(pile_of_cards, pile);
    assert!(ns.is_structural(pile));
    assert!(!ns.is_structural(card));
    let pile_of_ints = ns.register_path(&p(&["pile", "Pile"], vec![p(&["u32"], vec![])]));
    assert_ne!(pile_of_ints, pile_of_cards);
    assert_eq!(ns.register_path(&p(&["data", "Card"], vec![])), card);
}

#[test]
fn entries_list_the_tables_in_the_order_made() {
    let mut ns = Namespace::new();
    assert_eq!(ns.next_id(), 1);
    let pile_of_cards = ns.register_path(&p(&["pile", "Pile"], vec![p(&["data", "Card"], vec![])]));
    assert_eq!(ns.len(), 5);
    assert_eq!(ns.next_id(), 6);
    let (parent, key, id) = ns.entry(0);
    assert_eq!((parent, id), (0, 1));
    assert!(matches!(key, NsKey::Name(s) if s == "data"));
    let (parent, key, id) = ns.entry(1);
    assert_eq!((parent, id), (1, 2));
    assert!(matches!(key, NsKey::Name(s) if s == "Card"));
    let (parent, key, id) = ns.entry(4);
    assert_eq!((parent, id), (4, pile_of_cards));
    assert!(matches!(key, NsKey::Args(ids) if ids == &vec![2u64]));
}

#[test]
fn node_count_bounds_the_tables_made() {
    let path = p(&["pile", "Pile"], vec![p(&["data", "Card"], vec![]), p(&["u32"], vec![])]);
    assert_eq!(path_node_count(&path), Some(8));
    assert_eq!(path_node_count(&p(&[], vec![])), Some(1));
    let mut ns = Namespace::new();
    ns.register_path(&path);
    assert!(ns.next_id() <= 1 + 8);
}
