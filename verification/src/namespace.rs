//! Where the lua bindings put a type's static table: the globals are walked
//! along the type's path, one nested table per segment, and a generic type's
//! instantiation sits under the table of its type arguments (the argument
//! types' own tables, registered first).
use vstd::prelude::*;

use crate::path::{ScriptablePath, same_args, same_path};

verus! {

/// A key of a table on a type's path: a segment, or the table of a generic
/// type's arguments (the identities of the argument types' tables).
pub enum NsKey {
    Name(String),
    Args(Vec<u64>),
}

/// A key as the specification sees it.
pub enum KeyView {
    Name(Seq<char>),
    Args(Seq<u64>),
}

pub open spec fn key_view(k: NsKey) -> KeyView {
    match k {
        NsKey::Name(s) => KeyView::Name(s@),
        NsKey::Args(ids) => KeyView::Args(ids@),
    }
}

/// The child table filed under `key` in table `t`: the first entry that
/// files one. Argument keys are compared element by element (the tables on
/// a path to generic types compare their keys structurally).
pub open spec fn lookup(es: Seq<(u64, KeyView, u64)>, t: u64, key: KeyView) -> Option<u64>
    decreases es.len(),
{
    if es.len() == 0 {
        None
    } else {
        match lookup(es.drop_last(), t, key) {
            Some(c) => Some(c),
            None => if es.last().0 == t && es.last().1 == key {
                Some(es.last().2)
            } else {
                None
            },
        }
    }
}

/// The table reached from the globals (table 0) along `keys`.
pub open spec fn walk(es: Seq<(u64, KeyView, u64)>, keys: Seq<KeyView>) -> Option<u64>
    decreases keys.len(),
{
    if keys.len() == 0 {
        Some(0)
    } else {
        match walk(es, keys.drop_last()) {
            Some(t) => lookup(es, t, keys.last()),
            None => None,
        }
    }
}

/// The keys of a path whose type arguments' tables are `ids`: its segments,
/// then, for a generic type, the table of its arguments.
pub open spec fn keys_of(segments: Seq<String>, ids: Seq<u64>) -> Seq<KeyView> {
    segments.map_values(|s: String| KeyView::Name(s@)) + if ids.len() > 0 {
        seq![KeyView::Args(ids)]
    } else {
        Seq::empty()
    }
}

/// The table of a registered type path, if every table on its way exists.
pub open spec fn resolve(es: Seq<(u64, KeyView, u64)>, p: ScriptablePath) -> Option<u64>
    decreases p,
{
    match resolve_args(es, p.1@) {
        Some(ids) => walk(es, keys_of(p.0@, ids)),
        None => None,
    }
}

/// The tables of the type arguments, if each resolves.
pub open spec fn resolve_args(es: Seq<(u64, KeyView, u64)>, args: Seq<ScriptablePath>) -> Option<
    Seq<u64>,
>
    decreases args,
{
    if args.len() == 0 {
        Some(Seq::empty())
    } else {
        match resolve_args(es, args.drop_last()) {
            Some(ids) => match resolve(es, args.last()) {
                Some(id) => Some(ids.push(id)),
                None => None,
            },
            None => None,
        }
    }
}

/// Every table from index `from` on was filed under a key that held no table
/// of its parent yet when it was made.
pub open spec fn made_fresh(es: Seq<(u64, KeyView, u64)>, from: int) -> bool {
    forall|j: int| from <= j < es.len() ==> lookup(#[trigger] es.take(j), es[j].0, es[j].1) is None
}

/// Table `t` is reached along one of the first `n` non-empty prefixes of
/// `keys`.
pub open spec fn on_walk_upto(es: Seq<(u64, KeyView, u64)>, keys: Seq<KeyView>, n: int, t: u64) -> bool {
    exists|m: int| 1 <= m <= n && #[trigger] walk(es, keys.take(m)) == Some(t)
}

/// Table `t` lies on the way of path `p`: on the walk to the path's table
/// (the table itself included), or on the way of one of its type arguments.
pub open spec fn on_way(es: Seq<(u64, KeyView, u64)>, p: ScriptablePath, t: u64) -> bool
    decreases p,
{
    ||| on_way_args(es, p.1@, t)
    ||| match resolve_args(es, p.1@) {
        Some(ids) => on_walk_upto(es, keys_of(p.0@, ids), keys_of(p.0@, ids).len() as int, t),
        None => false,
    }
}

/// Table `t` lies on the way of one of `args`.
pub open spec fn on_way_args(es: Seq<(u64, KeyView, u64)>, args: Seq<ScriptablePath>, t: u64) -> bool
    decreases args,
{
    if args.len() == 0 {
        false
    } else {
        on_way_args(es, args.drop_last(), t) || on_way(es, args.last(), t)
    }
}

/// An upper bound on the tables that registering a path makes.
pub open spec fn path_nodes(p: ScriptablePath) -> nat
    decreases p,
{
    p.0@.len() + 1 + args_nodes(p.1@)
}

pub open spec fn args_nodes(args: Seq<ScriptablePath>) -> nat
    decreases args,
{
    if args.len() == 0 {
        0
    } else {
        args_nodes(args.drop_last()) + path_nodes(args.last())
    }
}

/// The number of tables that registering `p` makes at most, where that
/// number fits in a `u64`.
pub fn path_node_count(p: &ScriptablePath) -> (r: Option<u64>)
    ensures
        match r {
            Some(n) => n == path_nodes(*p),
            None => path_nodes(*p) > u64::MAX,
        },
    decreases p,
{
    proof {
        lemma_nodes_split(*p);
    }
    let args = &p.1;
    let mut total: u64 = 0;
    let mut i: usize = 0;
    assert(args@.take(0) =~= Seq::<ScriptablePath>::empty());
    while i < args.len()
        invariant
            i <= args.len(),
            args == &p.1,
            total == args_nodes(args@.take(i as int)),
        decreases args.len() - i,
    {
        proof {
            assert(decreases_to!(*p => p.1));
            assert(decreases_to!(p.1 => p.1@));
            assert(decreases_to!(p.1@ => p.1@[i as int]));
            assert(args@.take(i + 1).drop_last() =~= args@.take(i as int));
            assert(args@.take(i + 1).last() == args@[i as int]);
            lemma_args_nodes_prefix(args@, i as int + 1);
        }
        match path_node_count(&args[i]) {
            Some(n) => match total.checked_add(n) {
                Some(t) => {
                    total = t;
                },
                None => {
                    return None;
                },
            },
            None => {
                return None;
            },
        }
        i = i + 1;
    }
    assert(args@.take(args.len() as int) =~= args@);
    match total.checked_add(p.0.len() as u64) {
        Some(t) => t.checked_add(1),
        None => None,
    }
}

/// The nodes of a prefix of the arguments are at most those of all of them.
proof fn lemma_args_nodes_prefix(args: Seq<ScriptablePath>, n: int)
    requires
        0 <= n <= args.len(),
    ensures
        args_nodes(args.take(n)) <= args_nodes(args),
    decreases args.len() - n,
{
    if n < args.len() {
        lemma_args_nodes_prefix(args, n + 1);
        assert(args.take(n + 1).drop_last() =~= args.take(n));
    } else {
        assert(args.take(n) =~= args);
    }
}

/// The nested tables below the globals: for each, its parent, its key and
/// its identity; the tables whose keys compare structurally; and the
/// identity the next table made will get (the globals are table 0).
pub struct Namespace {
    entries: Vec<(u64, NsKey, u64)>,
    structural: Vec<u64>,
    next: u64,
}

impl Namespace {
    pub closed spec fn table(&self) -> Seq<(u64, KeyView, u64)> {
        self.entries@.map_values(|e: (u64, NsKey, u64)| (e.0, key_view(e.1), e.2))
    }

    pub closed spec fn structural_tables(&self) -> Seq<u64> {
        self.structural@
    }

    pub closed spec fn next_table(&self) -> u64 {
        self.next
    }

    /// The tables form a tree below the globals: each table is made once,
    /// after its parent.
    pub closed spec fn wf(&self) -> bool {
        tree_wf(self.table(), self.next)
    }

    pub fn new() -> (r: Self)
        ensures
            r.table() == Seq::<(u64, KeyView, u64)>::empty(),
            r.structural_tables() == Seq::<u64>::empty(),
            r.next_table() == 1,
            r.wf(),
    {
        let r = Namespace { entries: Vec::new(), structural: Vec::new(), next: 1 };
        assert(r.table() =~= Seq::<(u64, KeyView, u64)>::empty());
        r
    }

    /// The number of tables below the globals.
    pub fn len(&self) -> (r: usize)
        ensures
            r == self.table().len(),
    {
        self.entries.len()
    }

    /// The `i`-th table made: its parent, its key and its identity.
    pub fn entry(&self, i: usize) -> (r: (u64, &NsKey, u64))
        requires
            i < self.table().len(),
        ensures
            (r.0, key_view(*r.1), r.2) == self.table()[i as int],
    {
        let e = &self.entries[i];
        (e.0, &e.1, e.2)
    }

    /// The identity the next table made will get.
    pub fn next_id(&self) -> (r: u64)
        ensures
            r == self.next_table(),
    {
        self.next
    }

    /// Whether table `t` compares its keys structurally.
    pub fn is_structural(&self, t: u64) -> (r: bool)
        ensures
            r == self.structural_tables().contains(t),
    {
        let mut i: usize = 0;
        while i < self.structural.len()
            invariant
                i <= self.structural@.len(),
                forall|q: int| 0 <= q < i ==> self.structural@[q] != t,
            decreases self.structural.len() - i,
        {
            if self.structural[i] == t {
                assert(self.structural@[i as int] == t);
                return true;
            }
            i = i + 1;
        }
        false
    }

    /// The child of `parent` under `key`, made (empty) where there is none.
    fn child_or_create(&mut self, parent: u64, key: NsKey) -> (r: u64)
        requires
            old(self).next_table() < u64::MAX,
            old(self).wf(),
            parent < old(self).next_table(),
        ensures
            final(self).wf(),
            final(self).structural_tables() == old(self).structural_tables(),
            match lookup(old(self).table(), parent, key_view(key)) {
                Some(c) => r == c && final(self).table() == old(self).table() && final(self).next_table() == old(self).next_table(),
                None => r == old(self).next_table() && final(self).table() == old(self).table().push((parent, key_view(key), r)) && final(self).next_table() == old(self).next_table() + 1,
            },
    {
        let ghost es = self.table();
        let ghost kv = key_view(key);
        let mut i: usize = 0;
        while i < self.entries.len()
            invariant
                i <= self.entries@.len(),
                es == self.table(),
                kv == key_view(key),
                self.wf(),
                self.next == old(self).next,
                self.entries@.len() == es.len(),
                lookup(es.take(i as int), parent, kv) is None,
            decreases self.entries.len() - i,
        {
            assert(es.take(i + 1).drop_last() =~= es.take(i as int));
            let e = &self.entries[i];
            assert(es[i as int] == (e.0, key_view(e.1), e.2));
            if e.0 == parent && same_key(&e.1, &key) {
                proof {
                    assert(lookup(es.take(i + 1), parent, kv) == Some(e.2));
                    lemma_lookup_extends(es, parent, kv, i + 1);
                }
                return e.2;
            }
            i = i + 1;
        }
        assert(es.take(i as int) =~= es);
        let id = self.next;
        self.entries.push((parent, key, id));
        self.next = self.next + 1;
        assert(self.table() =~= es.push((parent, kv, id)));
        assert forall|a: int| 0 <= a < self.table().len() implies (#[trigger] self.table()[a]).0 < self.table()[a].2 && 0 < self.table()[a].2 < self.next by {
            if a < es.len() {
                assert(self.table()[a] == es[a]);
            }
        }
        assert forall|a: int, b: int| 0 <= a < b < self.table().len() implies self.table()[a].2 != self.table()[b].2 by {
            if b == es.len() {
                assert(self.table()[a] == es[a]);
                assert(es[a].2 < id);
            } else {
                assert(self.table()[a] == es[a]);
                assert(self.table()[b] == es[b]);
            }
        }
        proof {
            assert(es.push((parent, kv, id)).drop_last() =~= es);
        }
        id
    }

    fn mark_structural(&mut self, t: u64)
        ensures
            final(self).table() == old(self).table(),
            final(self).next_table() == old(self).next_table(),
            final(self).structural_tables().contains(t),
            forall|x: u64| old(self).structural_tables().contains(x) ==> final(self).structural_tables().contains(x),
    {
        let mut i: usize = 0;
        while i < self.structural.len()
            invariant
                i <= self.structural@.len(),
                self.structural@ == old(self).structural@,
            decreases self.structural.len() - i,
        {
            if self.structural[i] == t {
                assert(self.structural@[i as int] == t);
                return;
            }
            i = i + 1;
        }
        self.structural.push(t);
        assert(self.structural@[self.structural@.len() - 1] == t);
        assert forall|x: u64| old(self).structural@.contains(x) implies self.structural@.contains(x) by {
            let j = choose|j: int| 0 <= j < old(self).structural@.len() && old(self).structural@[j] == x;
            assert(self.structural@[j] == x);
        }
    }

    /// Registers a type path: the paths of its type arguments first, then
    /// the tables along its segments, made where missing, and, for a generic
    /// type, the table under its arguments' tables (in a table that then
    /// compares its keys structurally). Returns the type's table. Every
    /// table it makes lies on the way to the type's table or to one of its
    /// type arguments' tables, and is filed under a key that held no table
    /// yet: only missing tables are made. A path registered before makes
    /// nothing new, and every path registered before keeps its table.
    pub fn register_path(&mut self, p: &ScriptablePath) -> (r: u64)
        requires
            old(self).next_table() + path_nodes(*p) <= u64::MAX,
            old(self).wf(),
        ensures
            final(self).wf(),
            resolve(final(self).table(), *p) == Some(r),
            final(self).table().take(old(self).table().len() as int) == old(self).table(),
            final(self).table().len() >= old(self).table().len(),
            old(self).next_table() <= final(self).next_table() <= old(self).next_table() + path_nodes(*p),
            forall|x: u64| #[trigger] old(self).structural_tables().contains(x) ==> final(self).structural_tables().contains(x),
            forall|q: ScriptablePath| #[trigger] resolve(old(self).table(), q) is Some ==> resolve(final(self).table(), q) == resolve(old(self).table(), q),
            resolve(old(self).table(), *p) is Some ==> final(self).table() == old(self).table() && final(self).next_table() == old(self).next_table() && r == resolve(old(self).table(), *p)->0,
            made_fresh(final(self).table(), old(self).table().len() as int),
            forall|j: int| old(self).table().len() <= j < final(self).table().len() ==> on_way(final(self).table(), *p, (#[trigger] final(self).table()[j]).2),
        decreases p,
    {
        let ghost es0 = self.table();
        let ghost n0 = self.next;
        let ghost s0 = self.structural@;
        let ghost known = resolve(es0, *p) is Some;
        let args = &p.1;
        let mut ids: Vec<u64> = Vec::new();
        let mut i: usize = 0;
        proof {
            lemma_nodes_split(*p);
            assert(args@.skip(0) =~= args@);
            assert(args@.take(0) =~= Seq::<ScriptablePath>::empty());
        }
        while i < args.len()
            invariant
                i <= args.len(),
                args == &p.1,
                es0.len() <= self.table().len(),
                self.table().take(es0.len() as int) == es0,
                n0 <= self.next,
                self.next + args_nodes(args@.skip(i as int)) + p.0@.len() + 1 <= n0 + path_nodes(*p),
                n0 + path_nodes(*p) <= u64::MAX,
                self.wf(),
                resolve_args(self.table(), args@.take(i as int)) == Some(ids@),
                forall|x: u64| s0.contains(x) ==> self.structural@.contains(x),
                known ==> resolve(es0, *p) is Some,
                known ==> self.table() == es0 && self.next == n0,
                known ==> resolve_args(es0, args@) is Some,
                made_fresh(self.table(), es0.len() as int),
                forall|j: int| es0.len() <= j < self.table().len() ==> on_way_args(self.table(), args@.take(i as int), (#[trigger] self.table()[j]).2),
            decreases args.len() - i,
        {
            let ghost before = self.table();
            let ghost sb = self.structural_tables();
            proof {
                lemma_args_nodes_front(args@.skip(i as int));
                assert(args@.skip(i as int)[0] == args@[i as int]);
                assert(args@.skip(i as int).drop_first() =~= args@.skip(i + 1));
                assert(decreases_to!(*p => p.1));
                assert(decreases_to!(p.1 => p.1@));
                assert(decreases_to!(p.1@ => p.1@[i as int]));
                if known {
                    lemma_resolve_args_each(es0, args@, i as int);
                }
            }
            let id = self.register_path(&args[i]);
            proof {
                assert forall|x: u64| s0.contains(x) implies self.structural@.contains(x) by {
                    assert(sb.contains(x));
                    assert(self.structural_tables().contains(x));
                }
                lemma_prefix_of_prefix(es0, before, self.table());
                lemma_resolve_args_stays(before, self.table(), args@.take(i as int));
                assert(args@.take(i + 1).drop_last() =~= args@.take(i as int));
                assert(args@.take(i + 1).last() == args@[i as int]);
                let after = self.table();
                lemma_made_fresh_extends(before, after, es0.len() as int);
                assert forall|j: int| es0.len() <= j < after.len() implies on_way_args(after, args@.take(i + 1), (#[trigger] after[j]).2) by {
                    if j < before.len() {
                        assert(after[j] == before[j]);
                        lemma_on_way_args_stays(before, after, args@.take(i as int), after[j].2);
                    }
                }
            }
            ids.push(id);
            i = i + 1;
        }
        assert(args@.take(args.len() as int) =~= args@);
        let ghost ids_v = ids@;
        let ghost keys = keys_of(p.0@, ids_v);
        let ghost segs = p.0@.map_values(|s: String| KeyView::Name(s@));
        let ghost es1 = self.table();
        let mut current: u64 = 0;
        let mut k: usize = 0;
        assert(keys.take(0) =~= Seq::<KeyView>::empty());
        while k < p.0.len()
            invariant
                k <= p.0@.len(),
                keys == keys_of(p.0@, ids_v),
                segs == p.0@.map_values(|s: String| KeyView::Name(s@)),
                es0.len() <= es1.len(),
                es1.take(es0.len() as int) == es0,
                es1.len() <= self.table().len(),
                self.table().take(es1.len() as int) == es1,
                n0 <= self.next,
                self.next + (p.0@.len() - k) + 1 <= n0 + path_nodes(*p),
                n0 + path_nodes(*p) <= u64::MAX,
                self.wf(),
                resolve_args(es1, args@) == Some(ids_v),
                walk(self.table(), keys.take(k as int)) == Some(current),
                forall|x: u64| s0.contains(x) ==> self.structural@.contains(x),
                known ==> self.table() == es0 && self.next == n0 && es1 == es0,
                known ==> walk(es0, keys) is Some,
                made_fresh(self.table(), es0.len() as int),
                forall|j: int| es0.len() <= j < self.table().len() ==> on_way_args(self.table(), args@, (#[trigger] self.table()[j]).2)
                    || on_walk_upto(self.table(), keys, k as int, self.table()[j].2),
            decreases p.0.len() - k,
        {
            let ghost before = self.table();
            proof {
                assert(keys.take(k + 1).drop_last() =~= keys.take(k as int));
                assert(keys[k as int] == KeyView::Name(p.0@[k as int]@));
                assert(keys.take(k + 1).last() == keys[k as int]);
                if known {
                    lemma_walk_prefix(es0, keys, k + 1);
                }
            }
            proof {
                lemma_walk_bound(self.table(), self.next, keys.take(k as int));
            }
            let name = p.0[k].clone();
            let ghost cur0 = current;
            let ghost kv = KeyView::Name(name@);
            current = self.child_or_create(current, NsKey::Name(name));
            proof {
                assert(self.table().take(before.len() as int) =~= before);
                lemma_walk_stays(before, self.table(), keys.take(k as int));
                lemma_prefix_of_prefix(es1, before, self.table());
            }
            k = k + 1;
            proof {
                let after = self.table();
                assert(walk(after, keys.take(k as int)) == Some(current));
                lemma_fresh_step(before, after, cur0, kv, current, es0.len() as int);
                assert forall|j: int| es0.len() <= j < after.len() implies on_way_args(after, args@, (#[trigger] after[j]).2)
                    || on_walk_upto(after, keys, k as int, after[j].2) by {
                    if j < before.len() {
                        assert(after[j] == before[j]);
                        if on_way_args(before, args@, before[j].2) {
                            lemma_on_way_args_stays(before, after, args@, before[j].2);
                        } else {
                            lemma_walk_upto_stays(before, after, keys, k - 1, before[j].2);
                            lemma_walk_upto_more(after, keys, k - 1, k as int, before[j].2);
                        }
                    } else {
                        assert(walk(after, keys.take(k as int)) == Some(after[j].2));
                    }
                }
            }
        }
        proof {
            let t = self.table();
            assert forall|j: int| es0.len() <= j < t.len() implies on_way_args(t, args@, (#[trigger] t[j]).2)
                || on_walk_upto(t, keys, keys.len() as int, t[j].2) by {
                if !on_way_args(t, args@, t[j].2) {
                    lemma_walk_upto_more(t, keys, k as int, keys.len() as int, t[j].2);
                }
            }
        }
        if ids.len() > 0 {
            let ghost before = self.table();
            proof {
                assert(keys.take(k as int + 1) =~= keys);
                assert(keys.drop_last() =~= keys.take(k as int));
                assert(keys.last() == KeyView::Args(ids_v));
                if known {
                    lemma_walk_prefix(es0, keys, keys.len() as int);
                }
            }
            let ghost sb = self.structural@;
            proof {
                lemma_walk_bound(self.table(), self.next, keys.take(k as int));
            }
            self.mark_structural(current);
            let ghost sm = self.structural@;
            let ghost cur0 = current;
            let ghost kv = KeyView::Args(ids@);
            current = self.child_or_create(current, NsKey::Args(ids));
            proof {
                assert(self.table().take(before.len() as int) =~= before);
                assert forall|x: u64| s0.contains(x) implies self.structural@.contains(x) by {
                    assert(sb.contains(x));
                    assert(sm.contains(x));
                }
                lemma_walk_stays(before, self.table(), keys.take(k as int));
                lemma_prefix_of_prefix(es1, before, self.table());
            }
            proof {
                let after = self.table();
                assert(keys.take(k as int + 1) =~= keys);
                if lookup(before, cur0, kv) is None {
                    assert(after.drop_last() =~= before);
                }
                assert(lookup(after, cur0, kv) == Some(current));
                assert(walk(after, keys.drop_last()) == Some(cur0));
                assert(walk(after, keys) == Some(current));
                lemma_fresh_step(before, after, cur0, kv, current, es0.len() as int);
                assert forall|j: int| es0.len() <= j < after.len() implies on_way_args(after, args@, (#[trigger] after[j]).2)
                    || on_walk_upto(after, keys, keys.len() as int, after[j].2) by {
                    if j < before.len() {
                        assert(after[j] == before[j]);
                        if on_way_args(before, args@, before[j].2) {
                            lemma_on_way_args_stays(before, after, args@, before[j].2);
                        } else {
                            lemma_walk_upto_stays(before, after, keys, keys.len() as int, before[j].2);
                        }
                    } else {
                        assert(keys.take(keys.len() as int) =~= keys);
                        assert(walk(after, keys.take(keys.len() as int)) == Some(after[j].2));
                    }
                }
            }
        } else {
            assert(keys =~= keys.take(k as int));
        }
        proof {
            lemma_resolve_args_stays(es1, self.table(), args@);
            lemma_prefix_of_prefix(es0, es1, self.table());
            assert forall|q: ScriptablePath| #[trigger] resolve(es0, q) is Some implies resolve(self.table(), q) == resolve(es0, q) by {
                lemma_resolve_stays(es0, self.table(), q);
            }
            if known {
                assert(self.table() == es0);
            }
            let t = self.table();
            assert forall|j: int| es0.len() <= j < t.len() implies on_way(t, *p, (#[trigger] t[j]).2) by {
                assert(resolve_args(t, p.1@) == Some(ids_v));
            }
        }
        current
    }
}

/// The entries form a tree below the globals (table 0): every table is
/// made once, with an identity under `next` and above its parent's.
pub open spec fn tree_wf(es: Seq<(u64, KeyView, u64)>, next: u64) -> bool {
    &&& next >= 1
    &&& forall|i: int| 0 <= i < es.len() ==> (#[trigger] es[i]).0 < es[i].2 && 0 < es[i].2 < next
    &&& forall|i: int, j: int| 0 <= i < j < es.len() ==> (#[trigger] es[i]).2 != (#[trigger] es[j]).2
}

proof fn lemma_lookup_index(es: Seq<(u64, KeyView, u64)>, t: u64, key: KeyView) -> (i: int)
    requires
        lookup(es, t, key) is Some,
    ensures
        0 <= i < es.len(),
        es[i].0 == t,
        es[i].1 == key,
        es[i].2 == lookup(es, t, key)->0,
    decreases es.len(),
{
    if lookup(es.drop_last(), t, key) is Some {
        let j = lemma_lookup_index(es.drop_last(), t, key);
        assert(es[j] == es.drop_last()[j]);
        j
    } else {
        es.len() - 1
    }
}

proof fn lemma_walk_bound(es: Seq<(u64, KeyView, u64)>, next: u64, keys: Seq<KeyView>)
    requires
        tree_wf(es, next),
        walk(es, keys) is Some,
    ensures
        walk(es, keys)->0 < next,
        keys.len() > 0 ==> walk(es, keys)->0 > 0,
    decreases keys.len(),
{
    if keys.len() > 0 {
        lemma_walk_bound(es, next, keys.drop_last());
        let t = walk(es, keys.drop_last())->0;
        let i = lemma_lookup_index(es, t, keys.last());
        assert(es[i].0 < es[i].2);
    }
}

proof fn lemma_walks_meet(es: Seq<(u64, KeyView, u64)>, next: u64, k1: Seq<KeyView>, k2: Seq<KeyView>)
    requires
        tree_wf(es, next),
        walk(es, k1) is Some,
        walk(es, k1) == walk(es, k2),
    ensures
        k1 == k2,
    decreases k1.len() + k2.len(),
{
    lemma_walk_bound(es, next, k1);
    lemma_walk_bound(es, next, k2);
    if k1.len() == 0 || k2.len() == 0 {
        assert(k1.len() == 0 && k2.len() == 0);
        assert(k1 =~= k2);
    } else {
        let t1 = walk(es, k1.drop_last())->0;
        let t2 = walk(es, k2.drop_last())->0;
        let i = lemma_lookup_index(es, t1, k1.last());
        let j = lemma_lookup_index(es, t2, k2.last());
        if i != j {
            if i < j {
                assert(es[i].2 != es[j].2);
            } else {
                assert(es[j].2 != es[i].2);
            }
        }
        assert(i == j);
        lemma_walks_meet(es, next, k1.drop_last(), k2.drop_last());
        assert(k1 =~= k2.drop_last().push(k2.last()));
        assert(k2 =~= k2.drop_last().push(k2.last()));
    }
}

/// A table of a well-formed namespace is reached along one key sequence
/// only, so two types on different key sequences never share a static
/// table.
pub proof fn lemma_one_path_per_table(ns: &Namespace, k1: Seq<KeyView>, k2: Seq<KeyView>)
    requires
        ns.wf(),
        walk(ns.table(), k1) is Some,
        walk(ns.table(), k1) == walk(ns.table(), k2),
    ensures
        k1 == k2,
{
    lemma_walks_meet(ns.table(), ns.next_table(), k1, k2);
}

fn same_key(a: &NsKey, b: &NsKey) -> (r: bool)
    ensures
        r == (key_view(*a) == key_view(*b)),
{
    match (a, b) {
        (NsKey::Name(x), NsKey::Name(y)) => *x == *y,
        (NsKey::Args(x), NsKey::Args(y)) => {
            if x.len() != y.len() {
                return false;
            }
            let mut i: usize = 0;
            while i < x.len()
                invariant
                    i <= x.len(),
                    x.len() == y.len(),
                    *a == NsKey::Args(*x),
                    *b == NsKey::Args(*y),
                    forall|q: int| 0 <= q < i ==> x@[q] == y@[q],
                decreases x.len() - i,
            {
                if x[i] != y[i] {
                    return false;
                }
                i = i + 1;
            }
            assert(x@ =~= y@);
            true
        },
        _ => false,
    }
}

proof fn lemma_lookup_extends(es: Seq<(u64, KeyView, u64)>, t: u64, key: KeyView, n: int)
    requires
        0 <= n <= es.len(),
        lookup(es.take(n), t, key) is Some,
    ensures
        lookup(es, t, key) == lookup(es.take(n), t, key),
    decreases es.len() - n,
{
    if n < es.len() {
        assert(es.take(n + 1).drop_last() =~= es.take(n));
        lemma_lookup_extends(es, t, key, n + 1);
    } else {
        assert(es.take(n) =~= es);
    }
}

/// A table found in a prefix of the entries is found in the whole.
proof fn lemma_lookup_stays(a: Seq<(u64, KeyView, u64)>, b: Seq<(u64, KeyView, u64)>, t: u64, key: KeyView)
    requires
        a.len() <= b.len(),
        b.take(a.len() as int) == a,
        lookup(a, t, key) is Some,
    ensures
        lookup(b, t, key) == lookup(a, t, key),
{
    lemma_lookup_extends(b, t, key, a.len() as int);
}

proof fn lemma_walk_stays(a: Seq<(u64, KeyView, u64)>, b: Seq<(u64, KeyView, u64)>, keys: Seq<KeyView>)
    requires
        a.len() <= b.len(),
        b.take(a.len() as int) == a,
        walk(a, keys) is Some,
    ensures
        walk(b, keys) == walk(a, keys),
    decreases keys.len(),
{
    if keys.len() > 0 {
        lemma_walk_stays(a, b, keys.drop_last());
        let t = walk(a, keys.drop_last())->0;
        lemma_lookup_stays(a, b, t, keys.last());
    }
}

proof fn lemma_made_fresh_extends(a: Seq<(u64, KeyView, u64)>, b: Seq<(u64, KeyView, u64)>, from: int)
    requires
        0 <= from <= a.len() <= b.len(),
        b.take(a.len() as int) == a,
        made_fresh(a, from),
        made_fresh(b, a.len() as int),
    ensures
        made_fresh(b, from),
{
    assert forall|j: int| from <= j < b.len() implies lookup(#[trigger] b.take(j), b[j].0, b[j].1) is None by {
        if j < a.len() {
            assert(b.take(j) =~= a.take(j));
            assert(b[j] == a[j]);
        }
    }
}

proof fn lemma_walk_upto_stays(
    a: Seq<(u64, KeyView, u64)>,
    b: Seq<(u64, KeyView, u64)>,
    keys: Seq<KeyView>,
    n: int,
    t: u64,
)
    requires
        a.len() <= b.len(),
        b.take(a.len() as int) == a,
        on_walk_upto(a, keys, n, t),
    ensures
        on_walk_upto(b, keys, n, t),
{
    let m = choose|m: int| 1 <= m <= n && #[trigger] walk(a, keys.take(m)) == Some(t);
    lemma_walk_stays(a, b, keys.take(m));
    assert(walk(b, keys.take(m)) == Some(t));
}

proof fn lemma_on_way_stays(a: Seq<(u64, KeyView, u64)>, b: Seq<(u64, KeyView, u64)>, p: ScriptablePath, t: u64)
    requires
        a.len() <= b.len(),
        b.take(a.len() as int) == a,
        on_way(a, p, t),
    ensures
        on_way(b, p, t),
    decreases p,
{
    assert(decreases_to!(p => p.1));
    assert(decreases_to!(p.1 => p.1@));
    if on_way_args(a, p.1@, t) {
        lemma_on_way_args_stays(a, b, p.1@, t);
    } else {
        let ids = resolve_args(a, p.1@)->0;
        lemma_resolve_args_stays(a, b, p.1@);
        lemma_walk_upto_stays(a, b, keys_of(p.0@, ids), keys_of(p.0@, ids).len() as int, t);
    }
}

proof fn lemma_on_way_args_stays(a: Seq<(u64, KeyView, u64)>, b: Seq<(u64, KeyView, u64)>, args: Seq<ScriptablePath>, t: u64)
    requires
        a.len() <= b.len(),
        b.take(a.len() as int) == a,
        on_way_args(a, args, t),
    ensures
        on_way_args(b, args, t),
    decreases args,
{
    if args.len() > 0 {
        if on_way_args(a, args.drop_last(), t) {
            lemma_on_way_args_stays(a, b, args.drop_last(), t);
        } else {
            assert(decreases_to!(args => args[args.len() - 1]));
            lemma_on_way_stays(a, b, args.last(), t);
        }
    }
}

proof fn lemma_walk_upto_more(es: Seq<(u64, KeyView, u64)>, keys: Seq<KeyView>, n: int, m: int, t: u64)
    requires
        n <= m,
        on_walk_upto(es, keys, n, t),
    ensures
        on_walk_upto(es, keys, m, t),
{
    let w = choose|w: int| 1 <= w <= n && #[trigger] walk(es, keys.take(w)) == Some(t);
    assert(walk(es, keys.take(w)) == Some(t));
}

/// One `child_or_create` step keeps every table made since `from` filed
/// under a key that was free.
proof fn lemma_fresh_step(
    before: Seq<(u64, KeyView, u64)>,
    after: Seq<(u64, KeyView, u64)>,
    parent: u64,
    key: KeyView,
    r: u64,
    from: int,
)
    requires
        0 <= from <= before.len(),
        made_fresh(before, from),
        match lookup(before, parent, key) {
            Some(c) => r == c && after == before,
            None => after == before.push((parent, key, r)),
        },
    ensures
        made_fresh(after, from),
        after.len() >= before.len(),
        after.take(before.len() as int) == before,
{
    assert(after.take(before.len() as int) =~= before);
    if lookup(before, parent, key) is None {
        assert forall|j: int| before.len() <= j < after.len() implies lookup(#[trigger] after.take(j), after[j].0, after[j].1) is None by {
            assert(j == before.len());
            assert(after.take(j) =~= before);
        }
        lemma_made_fresh_extends(before, after, from);
    }
}

proof fn lemma_walk_prefix(es: Seq<(u64, KeyView, u64)>, keys: Seq<KeyView>, n: int)
    requires
        0 <= n <= keys.len(),
        walk(es, keys) is Some,
    ensures
        walk(es, keys.take(n)) is Some,
    decreases keys.len() - n,
{
    if n < keys.len() {
        lemma_walk_prefix(es, keys, n + 1);
        assert(keys.take(n + 1).drop_last() =~= keys.take(n));
    } else {
        assert(keys.take(n) =~= keys);
    }
}

proof fn lemma_resolve_stays(a: Seq<(u64, KeyView, u64)>, b: Seq<(u64, KeyView, u64)>, p: ScriptablePath)
    requires
        a.len() <= b.len(),
        b.take(a.len() as int) == a,
        resolve(a, p) is Some,
    ensures
        resolve(b, p) == resolve(a, p),
    decreases p,
{
    assert(decreases_to!(p => p.1));
    assert(decreases_to!(p.1 => p.1@));
    lemma_resolve_args_stays(a, b, p.1@);
    let ids = resolve_args(a, p.1@)->0;
    lemma_walk_stays(a, b, keys_of(p.0@, ids));
}

proof fn lemma_resolve_args_stays(a: Seq<(u64, KeyView, u64)>, b: Seq<(u64, KeyView, u64)>, args: Seq<ScriptablePath>)
    requires
        a.len() <= b.len(),
        b.take(a.len() as int) == a,
        resolve_args(a, args) is Some,
    ensures
        resolve_args(b, args) == resolve_args(a, args),
    decreases args,
{
    if args.len() > 0 {
        lemma_resolve_args_stays(a, b, args.drop_last());
        assert(decreases_to!(args => args[args.len() - 1]));
        lemma_resolve_stays(a, b, args.last());
    }
}

proof fn lemma_resolve_args_each(es: Seq<(u64, KeyView, u64)>, args: Seq<ScriptablePath>, i: int)
    requires
        0 <= i < args.len(),
        resolve_args(es, args) is Some,
    ensures
        resolve(es, args[i]) is Some,
        resolve_args(es, args.take(i)) is Some,
    decreases args.len(),
{
    if i < args.len() - 1 {
        lemma_resolve_args_each(es, args.drop_last(), i);
        assert(args.drop_last().take(i) =~= args.take(i));
    } else {
        assert(args.drop_last() =~= args.take(i));
    }
}

proof fn lemma_prefix_of_prefix(a: Seq<(u64, KeyView, u64)>, b: Seq<(u64, KeyView, u64)>, c: Seq<(u64, KeyView, u64)>)
    requires
        a.len() <= b.len(),
        b.take(a.len() as int) == a,
        b.len() <= c.len(),
        c.take(b.len() as int) == b,
    ensures
        c.take(a.len() as int) == a,
{
    assert(c.take(a.len() as int) =~= b.take(a.len() as int));
}

proof fn lemma_nodes_split(p: ScriptablePath)
    ensures
        path_nodes(p) == p.0@.len() + 1 + args_nodes(p.1@),
{
}

proof fn lemma_args_nodes_front(args: Seq<ScriptablePath>)
    requires
        args.len() > 0,
    ensures
        args_nodes(args) == path_nodes(args[0]) + args_nodes(args.drop_first()),
    decreases args.len(),
{
    if args.len() > 1 {
        lemma_args_nodes_front(args.drop_last());
        assert(args.drop_last().drop_first() =~= args.drop_first().drop_last());
        assert(args.drop_first().last() == args.last());
    } else {
        assert(args.drop_first() =~= Seq::<ScriptablePath>::empty());
        assert(args.drop_last() =~= Seq::<ScriptablePath>::empty());
    }
}

/// Registering a path keeps the table of every path registered before.
pub proof fn lemma_registered_paths_stay(
    before: Seq<(u64, KeyView, u64)>,
    after: Seq<(u64, KeyView, u64)>,
    q: ScriptablePath,
)
    requires
        before.len() <= after.len(),
        after.take(before.len() as int) == before,
        resolve(before, q) is Some,
    ensures
        resolve(after, q) == resolve(before, q),
{
    lemma_resolve_stays(before, after, q);
}

proof fn lemma_resolve_args_len(es: Seq<(u64, KeyView, u64)>, args: Seq<ScriptablePath>)
    requires
        resolve_args(es, args) is Some,
    ensures
        resolve_args(es, args)->0.len() == args.len(),
    decreases args.len(),
{
    if args.len() > 0 {
        lemma_resolve_args_len(es, args.drop_last());
    }
}

proof fn lemma_resolve_injective(es: Seq<(u64, KeyView, u64)>, next: u64, p: ScriptablePath, q: ScriptablePath)
    requires
        tree_wf(es, next),
        resolve(es, p) is Some,
        resolve(es, p) == resolve(es, q),
    ensures
        same_path(p, q),
    decreases p,
{
    let ip = resolve_args(es, p.1@)->0;
    let iq = resolve_args(es, q.1@)->0;
    lemma_resolve_args_len(es, p.1@);
    lemma_resolve_args_len(es, q.1@);
    let kp = keys_of(p.0@, ip);
    let kq = keys_of(q.0@, iq);
    lemma_walks_meet(es, next, kp, kq);
    assert(kp == kq);
    let np = p.0@.len();
    let nq = q.0@.len();
    assert forall|i: int| 0 <= i < np implies kp[i] == KeyView::Name(p.0@[i]@) by {}
    assert forall|i: int| 0 <= i < nq implies kq[i] == KeyView::Name(q.0@[i]@) by {}
    if ip.len() > 0 {
        assert(kp[np as int] == KeyView::Args(ip));
    }
    if iq.len() > 0 {
        assert(kq[nq as int] == KeyView::Args(iq));
    }
    if ip.len() > 0 && iq.len() == 0 {
        assert(kp.len() == np + 1);
        assert(kq[np as int] == KeyView::Name(q.0@[np as int]@));
        assert(false);
    }
    if ip.len() == 0 && iq.len() > 0 {
        assert(kq.len() == nq + 1);
        assert(kp[nq as int] == KeyView::Name(p.0@[nq as int]@));
        assert(false);
    }
    assert(np == nq);
    assert forall|i: int| 0 <= i < np implies (#[trigger] p.0@[i])@ == q.0@[i]@ by {
        assert(kp[i] == kq[i]);
    }
    if ip.len() > 0 {
        assert(kp[np as int] == kq[np as int]);
        assert(ip == iq);
    } else {
        assert(ip =~= iq);
    }
    assert(decreases_to!(p => p.1));
    assert(decreases_to!(p.1 => p.1@));
    lemma_resolve_args_injective(es, next, p.1@, q.1@);
}

proof fn lemma_resolve_args_injective(
    es: Seq<(u64, KeyView, u64)>,
    next: u64,
    a: Seq<ScriptablePath>,
    b: Seq<ScriptablePath>,
)
    requires
        tree_wf(es, next),
        resolve_args(es, a) is Some,
        resolve_args(es, a) == resolve_args(es, b),
    ensures
        same_args(a, b),
    decreases a,
{
    lemma_resolve_args_len(es, a);
    lemma_resolve_args_len(es, b);
    if a.len() > 0 {
        let ia = resolve_args(es, a)->0;
        let ib = resolve_args(es, b)->0;
        assert(ia == ib);
        assert(b.len() == a.len());
        assert(resolve_args(es, a.drop_last())->0 == ia.drop_last());
        assert(resolve_args(es, b.drop_last())->0 == ib.drop_last());
        lemma_resolve_args_injective(es, next, a.drop_last(), b.drop_last());
        assert(resolve(es, a.last()) == Some(ia.last()));
        assert(resolve(es, b.last()) == Some(ib.last()));
        assert(decreases_to!(a => a[a.len() - 1]));
        lemma_resolve_injective(es, next, a.last(), b.last());
    }
}

/// Two registered types share a table only where their paths read the
/// same: a type's table is its own.
pub proof fn lemma_one_type_per_table(ns: &Namespace, p: ScriptablePath, q: ScriptablePath)
    requires
        ns.wf(),
        resolve(ns.table(), p) is Some,
        resolve(ns.table(), p) == resolve(ns.table(), q),
    ensures
        same_path(p, q),
{
    lemma_resolve_injective(ns.table(), ns.next_table(), p, q);
}

} // verus!
