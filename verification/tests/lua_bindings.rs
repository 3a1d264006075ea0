use spru_script::ledger::{apply_actions, enqueue_actions};
use spru_script::lua::{
    get_outcome, route_method, route_set, type_parameter_index, GetMapping,
    GetOutcome, IndexKey,
    InstanceCache, MappingTable, ParamKey, Registry,
};

#[test]
fn cache_makes_one_instance_per_key() {
    let mut cache = InstanceCache::new();
    assert_eq!(cache.get(10), (0, true));
    assert_eq!(cache.get(20), (1, true));
    assert_eq!(cache.get(10), (0, false));
    assert_eq!(cache.get(20), (1, false));
    let r = Registry::new(1);
    assert_eq!(r.cached_slot(), 1);
}

#[test]
fn cache_len_counts_distinct_keys() {
    let mut cache = InstanceCache::new();
    assert_eq!(cache.len(), 0);
    for key in [5u64, 6, 5, 7, 6, 5] {
        cache.get(key);
    }
    assert_eq!(cache.len(), 3);
    assert_eq!(cache.get(7), (2, false));
    assert_eq!(cache.get(8), (3, true));
    assert_eq!(cache.len(), 4);
}

#[test]
fn get_outcomes() {
    assert_eq!(get_outcome(true, GetMapping::Function), GetOutcome::Apply);
    assert_eq!(get_outcome(true, GetMapping::Nil), GetOutcome::Exists(true));
    assert_eq!(get_outcome(false, GetMapping::Nil), GetOutcome::Exists(false));
    assert_eq!(get_outcome(false, GetMapping::Function), GetOutcome::NotFound);
    assert_eq!(get_outcome(false, GetMapping::Other), GetOutcome::NotFound);
}

#[test]
fn mapping_table_routes_by_type() {
    let mut table: MappingTable<&str> = MappingTable::new();
    table.register_mappings(1, "cards");
    table.register_mappings(2, "players");
    table.register_mappings(1, "piles");
    assert_eq!(*table.route(1), "piles");
    assert_eq!(*table.route(2), "players");
}

#[test]
fn actions_are_queued_in_order_with_their_item() {
    let mut queue = vec![(0u64, 'z')];
    enqueue_actions(&mut queue, 7, vec!['a', 'b']);
    assert_eq!(queue, vec![(0, 'z'), (7, 'a'), (7, 'b')]);
    assert!(!apply_actions(&mut queue, 8, vec![]));
    assert!(apply_actions(&mut queue, 8, vec!['c']));
    assert_eq!(queue.last(), Some(&(8, 'c')));
}

fn entries() -> Vec<(ParamKey, &'static str)> {
    vec![
        (ParamKey::Name("__type_path".to_string()), "path"),
        (ParamKey::Args(vec![11]), "X<i32>"),
        (ParamKey::Args(vec![11, 12]), "X<i32, u8>"),
        (ParamKey::Name("new".to_string()), "ctor"),
        (ParamKey::Other, "other"),
    ]
}

#[test]
fn single_type_argument_may_be_bare() {
    let key = IndexKey::Table { identity: 11, elements: vec![] };
    assert_eq!(type_parameter_index(&entries(), &key), Ok(&"X<i32>"));
}

#[test]
fn argument_tables_match_structurally() {
    let key = IndexKey::Table { identity: 99, elements: vec![11, 12] };
    assert_eq!(type_parameter_index(&entries(), &key), Ok(&"X<i32, u8>"));
    let key = IndexKey::Table { identity: 98, elements: vec![11] };
    assert_eq!(type_parameter_index(&entries(), &key), Ok(&"X<i32>"));
}

#[test]
fn unknown_type_argument_lists_available() {
    let key = IndexKey::Table { identity: 50, elements: vec![12, 11] };
    assert_eq!(type_parameter_index(&entries(), &key), Err(vec![1, 2, 3]));
    assert_eq!(type_parameter_index(&entries(), &IndexKey::Other), Err(vec![1, 2, 3]));
}

#[test]
fn set_and_method_accesses_are_routed_by_type() {
    let mut table: MappingTable<fn(u8) -> Result<(u64, Vec<char>), String>> = MappingTable::new();
    fn cards(v: u8) -> Result<(u64, Vec<char>), String> {
        if v == 0 { Err("not found".to_string()) } else { Ok((v as u64, vec!['s', 't'])) }
    }
    table.register_mappings(3, cards);
    let mut queue = vec![];
    let flushes = std::cell::Cell::new(0);
    assert_eq!(route_set(&table, 3, 5, &mut queue, || { flushes.set(flushes.get() + 1); Ok(()) }), Ok(()));
    assert_eq!(queue, vec![(5, 's'), (5, 't')]);
    assert_eq!(flushes.get(), 1);
    assert_eq!(route_set(&table, 3, 0, &mut queue, || { flushes.set(flushes.get() + 1); Ok(()) }), Err("not found".to_string()));
    assert_eq!(queue.len(), 2);
    assert_eq!(flushes.get(), 1);
    assert_eq!(route_set(&table, 3, 1, &mut queue, || Err("flush failed".to_string())), Err("flush failed".to_string()));
    assert_eq!(queue.len(), 4);

    let mut methods: MappingTable<fn(u8) -> Result<(bool, u64, Vec<char>), String>> = MappingTable::new();
    fn play(v: u8) -> Result<(bool, u64, Vec<char>), String> {
        Ok((v > 1, 9, vec!['p']))
    }
    methods.register_mappings(4, play);
    assert_eq!(route_method(&methods, 4, 2, &mut queue, || Ok(())), Ok(true));
    assert_eq!(queue.last(), Some(&(9, 'p')));
    assert_eq!(route_method(&methods, 4, 2, &mut queue, || Err("flush failed".to_string())), Err("flush failed".to_string()));
}

#[test]
fn lua_handles_share_the_cached_instance() {
    let mut cache = InstanceCache::new();
    let _a: spru_script::lua::Lua<u8, u16> = spru_script::lua::Lua::new(&mut cache, 77);
    let _b: spru_script::lua::Lua<u8, u16> = spru_script::lua::Lua::new(&mut cache, 77);
    assert_eq!(cache.get(77), (0, false));
}
