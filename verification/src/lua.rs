//! The logic of the lua bindings: the instance cache, the routing of item
//! accesses to the mapping functions of their type, and the lookup of a
//! generic type by its type arguments.
use vstd::prelude::*;
use std::collections::HashMap;
use std::marker::PhantomData;
use append_only_vec::AppendOnlyVec;

use crate::ledger::enqueue_actions;

verus! {

broadcast use vstd::std_specs::hash::group_hash_axioms;

/// `append_only_vec::AppendOnlyVec`, declared so that it can stand in a
/// field; what it holds is named below.
#[verifier::external_type_specification]
#[verifier::external_body]
#[verifier::reject_recursive_types(Elem)]
pub struct ExAppendOnlyVec<Elem>(append_only_vec::AppendOnlyVec<Elem>);

/// The keys held by an `AppendOnlyVec` of keys, in the order they were
/// pushed.
pub uninterp spec fn held_keys(v: AppendOnlyVec<u64>) -> Seq<u64>;

/// The most keys the cache holds: the bin that would hold the next key past
/// it needs an array whose layout a 32-bit target cannot describe.
pub open spec fn max_cached_keys() -> nat {
    0x0fff_fff8
}

/// `AppendOnlyVec::new`: an empty vec.
#[verifier::external_body]
fn keys_new() -> (r: AppendOnlyVec<u64>)
    ensures
        held_keys(r) == Seq::<u64>::empty(),
{
    AppendOnlyVec::new()
}

/// `AppendOnlyVec::len`: the number of keys pushed.
#[verifier::external_body]
fn keys_len(v: &AppendOnlyVec<u64>) -> (r: usize)
    ensures
        r == held_keys(*v).len(),
{
    v.len()
}

/// `AppendOnlyVec`'s `Index`: the key at `i`, which must be below the length
/// (it panics otherwise).
#[verifier::external_body]
fn keys_at(v: &AppendOnlyVec<u64>, i: usize) -> (r: u64)
    requires
        i < held_keys(*v).len(),
    ensures
        r == held_keys(*v)[i as int],
{
    v[i]
}

/// `AppendOnlyVec::push`: appends `key` and returns the index it was pushed
/// to. The library reaches the vec only through `&mut`, so nothing else
/// pushes in between.
#[verifier::external_body]
fn keys_push(v: &mut AppendOnlyVec<u64>, key: u64) -> (r: usize)
    requires
        held_keys(*old(v)).len() < max_cached_keys(),
    ensures
        held_keys(*final(v)) == held_keys(*old(v)).push(key),
        r == held_keys(*old(v)).len(),
{
    v.push(key)
}

/// The cache of lua instances: one instance per key (a game's state and
/// action types), made the first time the key is asked for.
pub struct InstanceCache {
    keys: AppendOnlyVec<u64>,
}

impl InstanceCache {
    /// The keys of the instances made so far, in the order they were made.
    pub closed spec fn keys(&self) -> Seq<u64> {
        held_keys(self.keys)
    }

    pub fn new() -> (r: Self)
        ensures
            r.keys() == Seq::<u64>::empty(),
    {
        InstanceCache { keys: keys_new() }
    }

    /// The number of instances made so far.
    pub fn len(&self) -> (r: usize)
        ensures
            r == self.keys().len(),
    {
        keys_len(&self.keys)
    }

    /// The slot of the instance for `key`: the first made for it, or, where
    /// none was, a new one at the end. `made` tells whether it is new.
    pub fn get(&mut self, key: u64) -> (r: (usize, bool))
        requires
            !old(self).keys().contains(key) ==> old(self).keys().len() < max_cached_keys(),
        ensures
            !old(self).keys().contains(key) ==> r.1 && r.0 == old(self).keys().len(),
            !old(self).keys().contains(key) ==> final(self).keys() == old(self).keys().push(key),
            old(self).keys().contains(key) ==> !r.1 && final(self).keys() == old(self).keys(),
            r.0 < final(self).keys().len(),
            final(self).keys()[r.0 as int] == key,
            forall|i: int| 0 <= i < r.0 ==> final(self).keys()[i] != key,
    {
        let n = keys_len(&self.keys);
        let mut i: usize = 0;
        while i < n
            invariant
                i <= n,
                n == held_keys(self.keys).len(),
                forall|q: int| 0 <= q < i ==> held_keys(self.keys)[q] != key,
            decreases n - i,
        {
            if keys_at(&self.keys, i) == key {
                return (i, false);
            }
            i = i + 1;
        }
        assert(!old(self).keys().contains(key)) by {
            if old(self).keys().contains(key) {
                let q = choose|q: int| 0 <= q < old(self).keys().len() && old(self).keys()[q] == key;
                assert(held_keys(self.keys)[q] != key);
            }
        }
        let slot = keys_push(&mut self.keys, key);
        (slot, true)
    }
}

/// The slot of a key is the first position that holds it, so there is one
/// slot per key however often it is asked for.
pub proof fn lemma_cache_slot_stable(keys: Seq<u64>, key: u64, i: int, j: int)
    requires
        0 <= i < keys.len(),
        keys[i] == key,
        forall|q: int| 0 <= q < i ==> keys[q] != key,
        0 <= j < keys.len(),
        keys[j] == key,
        forall|q: int| 0 <= q < j ==> keys[q] != key,
    ensures
        i == j,
{
}

/// The lua language for a game's state and action types: a handle on the
/// cached instance of those types.
pub struct Lua<State, Action> {
    cached: usize,
    _p: PhantomData<(State, Action)>,
}

impl<State, Action> Lua<State, Action> {
    pub closed spec fn slot(&self) -> usize {
        self.cached
    }

    /// The handle on the instance cached for `key` (the game's types), made
    /// in the cache the first time the key is asked for.
    pub fn new(cache: &mut InstanceCache, key: u64) -> (r: Self)
        requires
            !old(cache).keys().contains(key) ==> old(cache).keys().len() < max_cached_keys(),
        ensures
            !old(cache).keys().contains(key) ==> final(cache).keys() == old(cache).keys().push(key),
            old(cache).keys().contains(key) ==> final(cache).keys() == old(cache).keys(),
            r.slot() < final(cache).keys().len(),
            final(cache).keys()[r.slot() as int] == key,
            forall|i: int| 0 <= i < r.slot() ==> final(cache).keys()[i] != key,
    {
        let (slot, _made) = cache.get(key);
        Lua { cached: slot, _p: PhantomData }
    }
}

/// The lua registry, which registers types in the instance held in its
/// cache slot.
pub struct Registry {
    cached: usize,
}

impl Registry {
    pub closed spec fn slot(&self) -> usize {
        self.cached
    }

    pub fn new(cached: usize) -> (r: Self)
        ensures
            r.slot() == cached,
    {
        Registry { cached }
    }

    /// The cache slot of the instance this registry registers into.
    pub fn cached_slot(&self) -> (r: usize)
        ensures
            r == self.slot(),
    {
        self.cached
    }
}

/// What the ledger's `get` was asked with: a mapping function that reads
/// the item, nil (to ask whether the item exists), or any other value.
#[derive(Debug, Clone, Copy, PartialEq, Eq, Structural)]
pub enum GetMapping {
    Function,
    Nil,
    Other,
}

/// What the ledger's `get` answers.
#[derive(Debug, Clone, Copy, PartialEq, Eq, Structural)]
pub enum GetOutcome {
    /// Call the mapping function on the item.
    Apply,
    /// Whether the item exists.
    Exists(bool),
    /// The item was not found.
    NotFound,
}

/// The answer of the ledger's `get` for an item that was (or was not)
/// found; a value that is neither a mapping function nor nil is a caller's
/// error, and is left out.
pub fn get_outcome(found: bool, mapping: GetMapping) -> (r: GetOutcome)
    requires
        found ==> mapping != GetMapping::Other,
    ensures
        found && mapping == GetMapping::Function ==> r == GetOutcome::Apply,
        mapping == GetMapping::Nil ==> r == GetOutcome::Exists(found),
        !found && mapping != GetMapping::Nil ==> r == GetOutcome::NotFound,
{
    match mapping {
        GetMapping::Nil => GetOutcome::Exists(found),
        _ => if found {
            GetOutcome::Apply
        } else {
            GetOutcome::NotFound
        },
    }
}

/// The mapping functions of the registered types, by type key.
pub struct MappingTable<F> {
    fns: HashMap<u64, F>,
}

impl<F> MappingTable<F> {
    pub closed spec fn contents(&self) -> Map<u64, F> {
        self.fns@
    }

    pub fn new() -> (r: Self)
        ensures
            r.contents() == Map::<u64, F>::empty(),
    {
        MappingTable { fns: HashMap::new() }
    }

    /// Registers the mapping functions of a type, in place of any registered
    /// before under its key.
    pub fn register_mappings(&mut self, type_key: u64, fns: F)
        ensures
            final(self).contents() == old(self).contents().insert(type_key, fns),
    {
        self.fns.insert(type_key, fns);
    }

    /// The mapping functions for an item of the type with this key, which
    /// must be registered.
    pub fn route(&self, type_key: u64) -> (r: &F)
        requires
            self.contents().contains_key(type_key),
        ensures
            *r == self.contents()[type_key],
    {
        self.fns.get(&type_key).unwrap()
    }
}

/// A setter's access, routed: the mapping function registered for the
/// item's type is called, the actions it returns are queued in order, each
/// tagged with the item it returned, and then the ledger is flushed, once;
/// the result is the flush's. Where the mapping fails, its error is handed
/// back, nothing is queued and nothing is flushed.
pub fn route_set<Args, A, E, F: Fn(Args) -> Result<(u64, Vec<A>), E>, Fl: FnOnce() -> Result<(), E>>(
    table: &MappingTable<F>,
    type_key: u64,
    args: Args,
    queue: &mut Vec<(u64, A)>,
    flush: Fl,
) -> (r: Result<(), E>)
    requires
        table.contents().contains_key(type_key),
        call_requires(table.contents()[type_key], (args,)),
        call_requires(flush, ()),
    ensures
        exists|res: Result<(u64, Vec<A>), E>|
            #[trigger] call_ensures(table.contents()[type_key], (args,), res) && match res {
                Ok(done) => final(queue)@ == old(queue)@ + done.1@.map_values(|a: A| (done.0, a))
                    && exists|fr: Result<(), E>| #[trigger] call_ensures(flush, (), fr) && r == fr,
                Err(e) => r == Err::<(), E>(e) && final(queue)@ == old(queue)@,
            },
{
    let f = table.route(type_key);
    let res = f(args);
    match res {
        Ok((id, actions)) => {
            enqueue_actions(queue, id, actions);
            let fr = flush();
            fr
        },
        Err(e) => Err(e),
    }
}

/// A method's access, routed: as a setter's, and where the flush succeeds
/// the method's value for the script is handed back; where it fails, its
/// error.
pub fn route_method<Args, R, A, E, F: Fn(Args) -> Result<(R, u64, Vec<A>), E>, Fl: FnOnce() -> Result<(), E>>(
    table: &MappingTable<F>,
    type_key: u64,
    args: Args,
    queue: &mut Vec<(u64, A)>,
    flush: Fl,
) -> (r: Result<R, E>)
    requires
        table.contents().contains_key(type_key),
        call_requires(table.contents()[type_key], (args,)),
        call_requires(flush, ()),
    ensures
        exists|res: Result<(R, u64, Vec<A>), E>|
            #[trigger] call_ensures(table.contents()[type_key], (args,), res) && match res {
                Ok(done) => final(queue)@ == old(queue)@ + done.2@.map_values(|a: A| (done.1, a))
                    && exists|fr: Result<(), E>| #[trigger] call_ensures(flush, (), fr) && match fr {
                        Ok(_) => r == Ok::<R, E>(done.0),
                        Err(fe) => r == Err::<R, E>(fe),
                    },
                Err(e) => r == Err::<R, E>(e) && final(queue)@ == old(queue)@,
            },
{
    let f = table.route(type_key);
    let res = f(args);
    match res {
        Ok((ret, id, actions)) => {
            enqueue_actions(queue, id, actions);
            match flush() {
                Ok(()) => Ok(ret),
                Err(fe) => Err(fe),
            }
        },
        Err(e) => Err(e),
    }
}

/// A key of a generic type's table of instantiations: the table of its type
/// arguments (each a registered type's table, by identity), a name, or any
/// other value.
pub enum ParamKey {
    Args(Vec<u64>),
    Name(String),
    Other,
}

/// What a script indexed a generic type's table with: a table (the one type
/// argument's table itself, or a table of type argument tables), or any
/// other value.
pub enum IndexKey {
    Table { identity: u64, elements: Vec<u64> },
    Other,
}

/// Whether the instantiation with these type arguments is the one indexed:
/// a single argument may be given bare (`X[i32]` for `X[{i32}]`), and a
/// table of arguments matches one with the same arguments in order.
pub open spec fn param_matches(k: ParamKey, key: IndexKey) -> bool {
    match k {
        ParamKey::Args(args) => match key {
            IndexKey::Table { identity, elements } => (args@.len() == 1 && args@[0] == identity)
                || args@ == elements@,
            IndexKey::Other => false,
        },
        _ => false,
    }
}

/// A key that is listed among the available instantiations: a table of
/// arguments, or a name that does not begin with `_`.
pub open spec fn pathy(k: ParamKey) -> bool {
    match k {
        ParamKey::Args(_) => true,
        ParamKey::Name(s) => s@[0] != '_',
        ParamKey::Other => false,
    }
}

pub open spec fn first_match<V>(entries: Seq<(ParamKey, V)>, key: IndexKey) -> Option<int>
    decreases entries.len(),
{
    if entries.len() == 0 {
        None
    } else {
        match first_match(entries.drop_last(), key) {
            Some(i) => Some(i),
            None => if param_matches(entries.last().0, key) {
                Some(entries.len() - 1)
            } else {
                None
            },
        }
    }
}

fn key_matches(k: &ParamKey, key: &IndexKey) -> (r: bool)
    ensures
        r == param_matches(*k, *key),
{
    match (k, key) {
        (ParamKey::Args(args), IndexKey::Table { identity, elements }) => {
            if args.len() == 1 && args[0] == *identity {
                return true;
            }
            if args.len() != elements.len() {
                return false;
            }
            let mut i: usize = 0;
            while i < args.len()
                invariant
                    i <= args.len(),
                    args.len() == elements.len(),
                    !(args@.len() == 1 && args@[0] == *identity),
                    *k == ParamKey::Args(*args),
                    *key == (IndexKey::Table { identity: *identity, elements: *elements }),
                    forall|q: int| 0 <= q < i ==> args@[q] == elements@[q],
                decreases args.len() - i,
            {
                if args[i] != elements[i] {
                    return false;
                }
                i = i + 1;
            }
            assert(args@ =~= elements@);
            true
        },
        _ => false,
    }
}

/// The index of a generic type's table of instantiations: the value of the
/// first entry whose type arguments match the key; where none does, the
/// positions of the entries listed as available.
pub fn type_parameter_index<'a, V>(entries: &'a Vec<(ParamKey, V)>, key: &IndexKey) -> (r: Result<
    &'a V,
    Vec<usize>,
>)
    requires
        forall|i: int|
            0 <= i < entries@.len() ==> (#[trigger] entries@[i]).0 is Name ==> entries@[i].0->Name_0@.len()
                > 0,
    ensures
        match first_match(entries@, *key) {
            Some(i) => r is Ok && *r->Ok_0 == entries@[i].1,
            None => r is Err && (forall|q: int|
                0 <= q < r->Err_0@.len() ==> (#[trigger] r->Err_0@[q]) < entries@.len()
                    && pathy(entries@[r->Err_0@[q] as int].0)) && r->Err_0@.len() == Seq::new(
                entries@.len(),
                |i: int| i,
            ).filter(|i: int| pathy(entries@[i].0)).len(),
        },
{
    let mut i: usize = 0;
    while i < entries.len()
        invariant
            i <= entries@.len(),
            first_match(entries@.take(i as int), *key) is None,
        decreases entries.len() - i,
    {
        assert(entries@.take(i + 1).drop_last() =~= entries@.take(i as int));
        if key_matches(&entries[i].0, key) {
            assert(first_match(entries@.take(i + 1), *key) == Some(i as int));
            proof {
                lemma_first_match_extends(entries@, *key, i + 1);
            }
            return Ok(&entries[i].1);
        }
        i = i + 1;
    }
    assert(entries@.take(i as int) =~= entries@);
    let ghost idx = Seq::new(entries@.len(), |i: int| i);
    let mut available: Vec<usize> = Vec::new();
    let mut j: usize = 0;
    while j < entries.len()
        invariant
            j <= entries@.len(),
            idx == Seq::new(entries@.len(), |i: int| i),
            forall|i: int|
                0 <= i < entries@.len() ==> (#[trigger] entries@[i]).0 is Name ==> entries@[i].0->Name_0@.len()
                    > 0,
            forall|q: int|
                0 <= q < available@.len() ==> (#[trigger] available@[q]) < j && pathy(
                    entries@[available@[q] as int].0,
                ),
            available@.len() == idx.take(j as int).filter(|i: int| pathy(entries@[i].0)).len(),
        decreases entries.len() - j,
    {
        let listed = match &entries[j].0 {
            ParamKey::Args(_) => true,
            ParamKey::Name(s) => {
                assert(s@.len() > 0);
                let c = s.as_str().get_char(0);
                c != '_'
            },
            ParamKey::Other => false,
        };
        proof {
            assert(idx.take(j + 1) =~= idx.take(j as int).push(j as int));
            idx.take(j as int).lemma_filter_push(j as int, |i: int| pathy(entries@[i].0));
        }
        if listed {
            available.push(j);
        }
        j = j + 1;
    }
    assert(idx.take(j as int) =~= idx);
    Err(available)
}

proof fn lemma_first_match_extends<V>(entries: Seq<(ParamKey, V)>, key: IndexKey, n: int)
    requires
        0 <= n <= entries.len(),
        first_match(entries.take(n), key) is Some,
    ensures
        first_match(entries, key) == first_match(entries.take(n), key),
    decreases entries.len() - n,
{
    if n < entries.len() {
        assert(entries.take(n + 1).drop_last() =~= entries.take(n));
        lemma_first_match_extends(entries, key, n + 1);
    } else {
        assert(entries.take(n) =~= entries);
    }
}

} // verus!
