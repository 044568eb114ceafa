//! Queues that keep the newest entries.

use std::collections::VecDeque;

use vstd::prelude::*;

verus! {

/// The last `n` entries, or all of them.
pub open spec fn last_n<T>(s: Seq<T>, n: nat) -> Seq<T> {
    if s.len() <= n {
        s
    } else {
        s.skip(s.len() - n)
    }
}

/// Adds an entry at the back, and drops entries at the front until at most `limit` are left.
pub fn push_bounded<T>(queue: &mut VecDeque<T>, item: T, limit: usize)
    ensures
        final(queue)@ == last_n(old(queue)@.push(item), limit as nat),
{
    queue.push_back(item);
    let ghost all = queue@;
    let mut dropped: Ghost<int> = Ghost(0);
    assert(all.skip(0) =~= all);
    while queue.len() > limit
        invariant
            0 <= dropped@ <= all.len(),
            queue@ == all.skip(dropped@),
            dropped@ > 0 ==> all.len() - dropped@ >= limit,
        decreases queue.len(),
    {
        let ghost d = dropped@;
        let _ = queue.pop_front();
        proof {
            assert(queue@ =~= all.skip(d + 1));
            dropped@ = d + 1;
        }
    }
    assert(queue@ =~= last_n(all, limit as nat));
}

/// The entries after one that takes the place of the last, or goes behind it; at most `limit` are
/// kept.
pub open spec fn placed<T>(s: Seq<T>, item: T, replace: bool, limit: nat) -> Seq<T> {
    if replace {
        s.drop_last().push(item)
    } else {
        last_n(s.push(item), limit)
    }
}

/// Puts an entry in the place of the last, or behind it.
pub fn place_bounded<T>(queue: &mut VecDeque<T>, item: T, replace: bool, limit: usize)
    requires
        replace ==> old(queue)@.len() > 0,
    ensures
        final(queue)@ == placed(old(queue)@, item, replace, limit as nat),
{
    if replace {
        let _ = queue.pop_back();
        queue.push_back(item);
        assert(queue@ =~= old(queue)@.drop_last().push(item));
    } else {
        push_bounded(queue, item, limit);
    }
}

/// Takes every entry out, oldest first.
pub fn drain<T>(queue: &mut VecDeque<T>) -> (r: Vec<T>)
    ensures
        r@ == old(queue)@,
        final(queue)@ == Seq::<T>::empty(),
{
    let mut out: Vec<T> = Vec::new();
    let ghost all = queue@;
    assert(out@ + queue@ =~= all);
    while queue.len() > 0
        invariant
            out@ + queue@ == all,
        decreases queue.len(),
    {
        let ghost before = queue@;
        let ghost held = out@;
        if let Some(item) = queue.pop_front() {
            out.push(item);
            assert(out@ + queue@ =~= held + before);
        }
    }
    assert(queue@ =~= Seq::<T>::empty());
    assert(out@ =~= all);
    out
}

/// Takes every entry out and gives back the newest.
pub fn drain_to_last<T>(queue: &mut VecDeque<T>) -> (r: Option<T>)
    ensures
        final(queue)@ == Seq::<T>::empty(),
        r == (if old(queue)@.len() == 0 {
            None
        } else {
            Some(old(queue)@.last())
        }),
{
    let last = queue.pop_back();
    queue.clear();
    last
}

/// The entries after a list of them was added one by one, never more than `limit` at a time.
pub open spec fn pushed_all<T>(s: Seq<T>, items: Seq<T>, limit: nat) -> Seq<T>
    decreases items.len(),
{
    if items.len() == 0 {
        s
    } else {
        last_n(pushed_all(s, items.drop_last(), limit).push(items.last()), limit)
    }
}

/// A bounded queue holds the newest entries of all that were ever added, in order.
pub proof fn law_newest_are_kept<T>(s: Seq<T>, items: Seq<T>, limit: nat)
    requires
        s.len() <= limit,
    ensures
        pushed_all(s, items, limit) == last_n(s + items, limit),
    decreases items.len(),
{
    if items.len() == 0 {
        assert(s + items =~= s);
    } else {
        law_newest_are_kept(s, items.drop_last(), limit);
        let t = s + items.drop_last();
        assert(s + items =~= t.push(items.last()));
        assert(last_n(last_n(t, limit).push(items.last()), limit) =~= last_n(
            t.push(items.last()),
            limit,
        ));
    }
}

/// A list as a queue, in the same order.
pub fn queue_of<T>(items: Vec<T>) -> (r: VecDeque<T>)
    ensures
        r@ == items@,
{
    let mut out: VecDeque<T> = VecDeque::new();
    for item in it: items
        invariant
            out@ == it.seq().take(it.index() as int),
            it.seq() == items@,
    {
        out.push_back(item);
    }
    out
}

/// The last entries of a list are a list of its end: no more than asked for, all where there are no
/// more, and each at the same distance from the end.
pub proof fn law_last_entries<T>(s: Seq<T>, n: nat, k: int)
    requires
        0 <= k < last_n(s, n).len(),
    ensures
        last_n(s, n).len() <= n,
        last_n(s, n).len() == n || last_n(s, n).len() == s.len(),
        last_n(s, n)[last_n(s, n).len() - 1 - k] == s[s.len() - 1 - k],
{
}

/// An entry that is placed is the last one afterwards. In place of another it leaves the number of
/// entries and the others as they are; behind the others it drops the oldest beyond the limit.
pub proof fn law_placed_is_last<T>(s: Seq<T>, item: T, replace: bool, limit: nat)
    requires
        limit > 0,
        s.len() <= limit,
        replace ==> s.len() > 0,
    ensures
        placed(s, item, replace, limit).last() == item,
        placed(s, item, replace, limit).len() <= limit,
        replace ==> placed(s, item, replace, limit) == s.update(s.len() - 1, item),
        !replace && s.len() < limit ==> placed(s, item, replace, limit) == s.push(item),
        !replace && s.len() == limit ==> placed(s, item, replace, limit) == s.drop_first().push(item),
{
    if replace {
        assert(s.drop_last().push(item) =~= s.update(s.len() - 1, item));
    } else if s.len() == limit {
        assert(s.push(item).skip(1) =~= s.drop_first().push(item));
    }
}

} // verus!
