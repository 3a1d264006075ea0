//! The queue of actions that scripted setters and methods leave for the
//! game's ledger, each tagged with the item it acts on.
use vstd::prelude::*;

verus! {

/// Queues the actions of a setter or method on the item `id`, in order, each
/// tagged with the item.
pub fn enqueue_actions<A>(queue: &mut Vec<(u64, A)>, id: u64, actions: Vec<A>)
    ensures
        final(queue)@ == old(queue)@ + actions@.map_values(|a: A| (id, a)),
{
    let ghost all = actions@;
    let ghost start = queue@;
    let mut rest = actions;
    let mut i: usize = 0;
    assert(all.len() == rest.len());
    while rest.len() > 0
        invariant
            i + rest@.len() == all.len(),
            all.len() <= usize::MAX,
            rest@ == all.skip(i as int),
            queue@ == start + all.take(i as int).map_values(|a: A| (id, a)),
        decreases rest@.len(),
    {
        let a = rest.remove(0);
        queue.push((id, a));
        assert(all.take(i + 1).map_values(|a: A| (id, a)) =~= all.take(i as int).map_values(
            |a: A| (id, a),
        ).push((id, all[i as int])));
        i = i + 1;
        assert(rest@ =~= all.skip(i as int));
    }
    assert(all.take(i as int) =~= all);
}

/// The actions of a setter or method, applied as the rhai bindings apply
/// them: queued in order; the ledger is flushed (the returned flag) only
/// where there was an action.
pub fn apply_actions<A>(queue: &mut Vec<(u64, A)>, id: u64, actions: Vec<A>) -> (flush: bool)
    ensures
        final(queue)@ == old(queue)@ + actions@.map_values(|a: A| (id, a)),
        flush == (actions@.len() > 0),
{
    let flush = actions.len() > 0;
    enqueue_actions(queue, id, actions);
    flush
}

} // verus!
