//! The statics maps of the rhai bindings: for each registered type with a
//! path, a map of its functions and constants, filed under the path's key in
//! the global `type` map.
use vstd::prelude::*;

use crate::path::{ScriptablePath, path_key, path_text};

verus! {

/// A map from names to values, one value per name.
pub struct NamedMap<V> {
    entries: Vec<(String, V)>,
}

impl<V> NamedMap<V> {
    /// The names are distinct.
    pub closed spec fn wf(&self) -> bool {
        forall|i: int, j: int|
            0 <= i < j < self.entries@.len() ==> (#[trigger] self.entries@[i]).0@
                != (#[trigger] self.entries@[j]).0@
    }

    /// The map as a function from names to values.
    pub closed spec fn contents(&self) -> Map<Seq<char>, V> {
        Map::new(
            |k: Seq<char>| exists|i: int| 0 <= i < self.entries@.len() && self.entries@[i].0@ == k,
            |k: Seq<char>|
                self.entries@[choose|i: int|
                    0 <= i < self.entries@.len() && self.entries@[i].0@ == k].1,
        )
    }

    pub fn new() -> (r: Self)
        ensures
            r.wf(),
            r.contents() == Map::<Seq<char>, V>::empty(),
    {
        let r = NamedMap { entries: Vec::new() };
        assert(r.contents() =~= Map::<Seq<char>, V>::empty());
        r
    }

    fn find(&self, name: &String) -> (r: Option<usize>)
        requires
            self.wf(),
        ensures
            match r {
                Some(i) => i < self.entries@.len() && self.entries@[i as int].0@ == name@,
                None => forall|i: int|
                    0 <= i < self.entries@.len() ==> (#[trigger] self.entries@[i]).0@ != name@,
            },
    {
        let mut i: usize = 0;
        while i < self.entries.len()
            invariant
                i <= self.entries@.len(),
                forall|q: int| 0 <= q < i ==> (#[trigger] self.entries@[q]).0@ != name@,
            decreases self.entries.len() - i,
        {
            if self.entries[i].0 == *name {
                return Some(i);
            }
            i = i + 1;
        }
        None
    }

    /// The number of names.
    pub fn len(&self) -> (r: usize)
        requires
            self.wf(),
        ensures
            r == self.contents().dom().len(),
    {
        proof {
            self.lemma_len();
        }
        self.entries.len()
    }

    proof fn lemma_len(&self)
        requires
            self.wf(),
        ensures
            self.contents().dom().len() == self.entries@.len(),
            self.contents().dom().finite(),
        decreases self.entries@.len(),
    {
        let es = self.entries@;
        let keys = Seq::new(es.len(), |i: int| es[i].0@);
        assert forall|a: Seq<char>| #[trigger] self.contents().dom().contains(a) <==> keys.to_set().contains(a) by {
            if self.contents().dom().contains(a) {
                let j = choose|j: int| 0 <= j < es.len() && es[j].0@ == a;
                assert(keys[j] == a);
            }
            if keys.to_set().contains(a) {
                assert(keys.contains(a));
                let j = choose|j: int| 0 <= j < keys.len() && keys[j] == a;
                assert(es[j].0@ == a);
            }
        }
        assert(self.contents().dom() =~= keys.to_set());
        assert(keys.no_duplicates());
        keys.unique_seq_to_set();
    }

    /// The value filed under `name`, if any.
    pub fn get(&self, name: &String) -> (r: Option<&V>)
        requires
            self.wf(),
        ensures
            match r {
                Some(v) => self.contents().dom().contains(name@) && *v == self.contents()[name@],
                None => !self.contents().dom().contains(name@),
            },
    {
        match self.find(name) {
            Some(i) => {
                proof {
                    let k = name@;
                    let j = choose|j: int| 0 <= j < self.entries@.len() && self.entries@[j].0@ == k;
                    assert(j == i);
                }
                Some(&self.entries[i].1)
            },
            None => None,
        }
    }

    /// Files `value` under `name`, in place of any value filed there before.
    pub fn insert(&mut self, name: String, value: V)
        requires
            old(self).wf(),
        ensures
            final(self).wf(),
            final(self).contents() == old(self).contents().insert(name@, value),
    {
        let ghost old_map = self.contents();
        let ghost k = name@;
        match self.find(&name) {
            Some(i) => {
                self.entries.set(i, (name, value));
                proof {
                    assert forall|a: Seq<char>| #[trigger] self.contents().dom().contains(a)
                        <==> old_map.insert(k, value).dom().contains(a) by {
                        if old_map.dom().contains(a) && a != k {
                            let j = choose|j: int|
                                0 <= j < old(self).entries@.len() && old(self).entries@[j].0@ == a;
                            assert(self.entries@[j].0@ == a);
                        }
                        if self.contents().dom().contains(a) {
                            let j = choose|j: int|
                                0 <= j < self.entries@.len() && self.entries@[j].0@ == a;
                            assert(j == i || old(self).entries@[j].0@ == a);
                        }
                        if a == k {
                            assert(self.entries@[i as int].0@ == a);
                        }
                    }
                    assert forall|a: Seq<char>| #[trigger] self.contents().dom().contains(a)
                        implies self.contents()[a] == old_map.insert(k, value)[a] by {
                        let j = choose|j: int|
                            0 <= j < self.entries@.len() && self.entries@[j].0@ == a;
                        if a != k {
                            assert(j != i);
                            assert(old(self).entries@[j].0@ == a);
                        }
                    }
                    assert(self.contents() =~= old_map.insert(k, value));
                }
            },
            None => {
                self.entries.push((name, value));
                proof {
                    let n = old(self).entries@.len();
                    assert forall|a: Seq<char>| #[trigger] self.contents().dom().contains(a)
                        <==> old_map.insert(k, value).dom().contains(a) by {
                        if old_map.dom().contains(a) {
                            let j = choose|j: int|
                                0 <= j < old(self).entries@.len() && old(self).entries@[j].0@ == a;
                            assert(self.entries@[j].0@ == a);
                        }
                        if a == k {
                            assert(self.entries@[n as int].0@ == a);
                        }
                    }
                    assert forall|a: Seq<char>| #[trigger] self.contents().dom().contains(a)
                        implies self.contents()[a] == old_map.insert(k, value)[a] by {
                        let j = choose|j: int|
                            0 <= j < self.entries@.len() && self.entries@[j].0@ == a;
                        if a != k {
                            assert(j != n);
                            assert(old(self).entries@[j].0@ == a);
                        } else {
                            assert(j == n);
                        }
                    }
                    assert(self.contents() =~= old_map.insert(k, value));
                }
            },
        }
    }
}

/// The name of the global map that holds the statics maps.
pub open spec fn type_global_text() -> Seq<char> {
    "type"@
}

/// What the rhai bindings register besides the engine's own functions: the
/// statics map of each type with a path, under the path's key.
pub struct Registration<V> {
    statics_maps: NamedMap<NamedMap<V>>,
}

/// The registration of one type: its path, where it has one, and the
/// statics map being filled for it.
pub struct MemberRegistration<V> {
    statics_map: Option<(ScriptablePath, NamedMap<V>)>,
}

impl<V> Registration<V> {
    pub closed spec fn wf(&self) -> bool {
        self.statics_maps.wf()
    }

    /// The statics maps filed so far, by key.
    pub closed spec fn statics(&self) -> Map<Seq<char>, NamedMap<V>> {
        self.statics_maps.contents()
    }

    pub fn new() -> (r: Self)
        ensures
            r.wf(),
            r.statics() == Map::<Seq<char>, NamedMap<V>>::empty(),
    {
        Registration { statics_maps: NamedMap::new() }
    }

    /// Starts the registration of a type: with a path, an empty statics map
    /// for it; without one, none (its functions are not filed anywhere).
    pub fn type_registration(&self, type_path: Option<ScriptablePath>) -> (r: MemberRegistration<
        V,
    >)
        ensures
            r.path() == type_path,
            type_path is Some ==> r.statics().wf() && r.statics().contents() == Map::<
                Seq<char>,
                V,
            >::empty(),
    {
        match type_path {
            Some(tp) => MemberRegistration { statics_map: Some((tp, NamedMap::new())) },
            None => MemberRegistration { statics_map: None },
        }
    }

    /// The statics map of the type with this key, if one was filed.
    pub fn statics_map(&self, key: &String) -> (r: Option<&NamedMap<V>>)
        requires
            self.wf(),
        ensures
            match r {
                Some(m) => self.statics().dom().contains(key@) && *m == self.statics()[key@],
                None => !self.statics().dom().contains(key@),
            },
    {
        self.statics_maps.get(key)
    }

    /// The globals that scripts see: the map of all statics maps, under the
    /// name `type`.
    pub fn apply(self) -> (r: Vec<(String, NamedMap<NamedMap<V>>)>)
        ensures
            r.len() == 1,
            r@[0].0@ == type_global_text(),
            r@[0].1.contents() == self.statics(),
    {
        let mut scope: Vec<(String, NamedMap<NamedMap<V>>)> = Vec::new();
        scope.push((String::from_str("type"), self.statics_maps));
        scope
    }
}

impl<V> MemberRegistration<V> {
    pub closed spec fn path(&self) -> Option<ScriptablePath> {
        match self.statics_map {
            Some(sm) => Some(sm.0),
            None => None,
        }
    }

    /// The statics map being filled (meaningful only with a path).
    pub closed spec fn statics(&self) -> NamedMap<V> {
        (self.statics_map->0).1
    }

    /// Files a function or constant of the type under `name`; without a
    /// path there is nowhere to file it, and nothing changes.
    pub fn insert_static(&mut self, name: String, value: V)
        requires
            old(self).path() is Some ==> old(self).statics().wf(),
        ensures
            final(self).path() == old(self).path(),
            final(self).path() is Some ==> final(self).statics().wf(),
            final(self).path() is Some ==> final(self).statics().contents() == old(self).statics().contents().insert(name@, value),
    {
        match &mut self.statics_map {
            Some(sm) => {
                sm.1.insert(name, value);
            },
            None => {},
        }
    }

    /// Files the statics map under the key of the type's path; a type
    /// without a path leaves the registration as it was.
    pub fn apply(self, registration: &mut Registration<V>)
        requires
            old(registration).wf(),
        ensures
            final(registration).wf(),
            match self.path() {
                Some(p) => final(registration).statics() == old(registration).statics().insert(
                    path_text(p),
                    self.statics(),
                ),
                None => final(registration).statics() == old(registration).statics(),
            },
    {
        match self.statics_map {
            Some((type_path, statics_map)) => {
                let key = path_key(&type_path);
                registration.statics_maps.insert(key, statics_map);
            },
            None => {},
        }
    }
}

/// Files the statics that every registered type has: `none`, its empty
/// optional value, and `from_array`, which builds a list of it from an
/// array.
pub fn insert_type_statics<V>(member: &mut MemberRegistration<V>, none: V, from_array: V)
    requires
        old(member).path() is Some ==> old(member).statics().wf(),
    ensures
        final(member).path() == old(member).path(),
        final(member).path() is Some ==> final(member).statics().wf(),
        final(member).path() is Some ==> final(member).statics().contents() == old(member).statics().contents().insert("none"@, none).insert("from_array"@, from_array),
{
    member.insert_static(String::from_str("none"), none);
    member.insert_static(String::from_str("from_array"), from_array);
}

} // verus!
