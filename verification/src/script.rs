//! A bundled script, loaded on demand: in a debug build each time it is
//! asked for, in a release build once.
use vstd::prelude::*;

verus! {

/// A script whose text comes from its loader, called each time the text is
/// asked for (so that an edited script file is picked up at once): the
/// debug build's script.
pub struct Script<F> {
    load: F,
}

impl<F: Fn() -> String> Script<F> {
    /// The loader this script calls.
    pub closed spec fn loader(&self) -> F {
        self.load
    }

    pub fn new(load: F) -> (r: Self)
        ensures
            r.loader() == load,
    {
        Script { load }
    }

    /// The script's text, as the loader gives it.
    pub fn get(&self) -> (r: String)
        requires
            call_requires(self.loader(), ()),
        ensures
            call_ensures(self.loader(), (), r),
    {
        (self.load)()
    }
}

/// A script whose text is loaded the first time it is asked for and kept
/// from then on: the release build's script.
pub struct CachedScript<F> {
    load: F,
    text: Option<String>,
    loads: Ghost<nat>,
}

/// What one read of a cached script does, given the text kept and the
/// number of loads before and after it, and the text it returned: with a
/// text kept, it returns that text and loads nothing; without, it loads
/// once; either way the returned text is kept.
pub open spec fn cached_read(
    kept: Option<Seq<char>>,
    loads: nat,
    returned: Seq<char>,
    kept_after: Option<Seq<char>>,
    loads_after: nat,
) -> bool {
    &&& kept_after == Some(returned)
    &&& match kept {
        Some(t) => returned == t && loads_after == loads,
        None => loads_after == loads + 1,
    }
}

impl<F: Fn() -> String> CachedScript<F> {
    /// The loader this script calls.
    pub closed spec fn loader(&self) -> F {
        self.load
    }

    /// The text kept, once it was loaded.
    pub closed spec fn cached(&self) -> Option<Seq<char>> {
        match self.text {
            Some(t) => Some(t@),
            None => None,
        }
    }

    /// How many times the loader has been called.
    pub closed spec fn load_count(&self) -> nat {
        self.loads@
    }

    pub fn new(load: F) -> (r: Self)
        ensures
            r.loader() == load,
            r.cached() is None,
            r.load_count() == 0,
    {
        CachedScript { load, text: None, loads: Ghost(0) }
    }

    /// The script's text: the first time, what the loader gives, which is
    /// kept; every later time, the kept text, without calling the loader.
    pub fn get(&mut self) -> (r: String)
        requires
            old(self).cached() is None ==> call_requires(old(self).loader(), ()),
        ensures
            final(self).loader() == old(self).loader(),
            cached_read(old(self).cached(), old(self).load_count(), r@, final(self).cached(), final(self).load_count()),
            old(self).cached() is None ==> exists|t: String| #[trigger] call_ensures(old(self).loader(), (), t) && t@ == r@,
    {
        match &self.text {
            Some(t) => t.clone(),
            None => {
                let t = (self.load)();
                let r = t.clone();
                self.text = Some(t);
                self.loads = Ghost(self.loads@ + 1);
                r
            },
        }
    }
}

/// Reading a new cached script any number of times, at least once, calls
/// the loader exactly once, at the first read, and every read returns what
/// that first read returned. `returned[i]` is what read `i` returned;
/// `kept[i]` and `loads[i]` are the text kept and the loads made before it
/// (the last entries: after the last read).
pub proof fn lemma_cached_reads(returned: Seq<Seq<char>>, kept: Seq<Option<Seq<char>>>, loads: Seq<nat>)
    requires
        returned.len() >= 1,
        kept.len() == returned.len() + 1,
        loads.len() == returned.len() + 1,
        kept[0] is None,
        loads[0] == 0,
        forall|i: int|
            0 <= i < returned.len() ==> cached_read(
                #[trigger] kept[i],
                loads[i],
                returned[i],
                kept[i + 1],
                loads[i + 1],
            ),
    ensures
        forall|i: int| 0 <= i < returned.len() ==> #[trigger] returned[i] == returned[0],
        forall|i: int| 1 <= i < kept.len() ==> #[trigger] kept[i] == Some(returned[0]) && loads[i] == 1,
{
    assert forall|i: int| 1 <= i < kept.len() implies #[trigger] kept[i] == Some(returned[0]) && loads[i] == 1 by {
        lemma_cached_prefix(returned, kept, loads, i);
    }
    assert forall|i: int| 0 <= i < returned.len() implies #[trigger] returned[i] == returned[0] by {
        if i > 0 {
            lemma_cached_prefix(returned, kept, loads, i);
            assert(cached_read(kept[i], loads[i], returned[i], kept[i + 1], loads[i + 1]));
        }
    }
}

proof fn lemma_cached_prefix(returned: Seq<Seq<char>>, kept: Seq<Option<Seq<char>>>, loads: Seq<nat>, i: int)
    requires
        returned.len() >= 1,
        kept.len() == returned.len() + 1,
        loads.len() == returned.len() + 1,
        kept[0] is None,
        loads[0] == 0,
        forall|i: int|
            0 <= i < returned.len() ==> cached_read(
                #[trigger] kept[i],
                loads[i],
                returned[i],
                kept[i + 1],
                loads[i + 1],
            ),
        1 <= i < kept.len(),
    ensures
        kept[i] == Some(returned[0]) && loads[i] == 1,
    decreases i,
{
    if i > 1 {
        lemma_cached_prefix(returned, kept, loads, i - 1);
    }
    assert(cached_read(kept[i - 1], loads[i - 1], returned[i - 1], kept[i], loads[i]));
    assert(cached_read(kept[0], loads[0], returned[0], kept[1], loads[1]));
}

} // verus!
