//! The bounded history of successful calculations: oldest first, at most
//! `MAX_HISTORY` entries, the oldest evicted first.

use vstd::prelude::*;

verus! {

/// How many calculations the history keeps.
pub const MAX_HISTORY: usize = 200;

/// One successful calculation.
#[derive(Debug, Clone)]
pub struct CalculatorHistoryEntry {
    /// Radix the input was written in.
    pub radix: u32,
    /// The expression as typed.
    pub input: String,
    /// The expression in decimal notation, as evaluated.
    pub decimal_expr: String,
    /// The result, rendered in `radix`.
    pub output: String,
    /// Why the evaluation failed, where it did.
    pub error: Option<String>,
}

/// The last `MAX_HISTORY` items of `s` (all of them if there are fewer).
pub open spec fn latest<T>(s: Seq<T>) -> Seq<T> {
    if s.len() > MAX_HISTORY {
        s.subrange(s.len() - MAX_HISTORY, s.len() as int)
    } else {
        s
    }
}

/// The history after appending each of `entries` in turn to `h`.
pub open spec fn push_all<T>(h: Seq<T>, entries: Seq<T>) -> Seq<T>
    decreases entries.len(),
{
    if entries.len() == 0 {
        h
    } else {
        push_all(latest(h.push(entries[0])), entries.drop_first())
    }
}

/// Appends `entry` and evicts from the front until at most `MAX_HISTORY` remain.
pub fn push_history(history: &mut std::collections::VecDeque<CalculatorHistoryEntry>, entry: CalculatorHistoryEntry)
    requires
        old(history)@.len() <= MAX_HISTORY,
    ensures
        final(history)@ == latest(old(history)@.push(entry)),
        final(history)@.len() <= MAX_HISTORY,
{
    history.push_back(entry);
    let ghost full = history@;
    while history.len() > MAX_HISTORY
        invariant
            full == old(history)@.push(entry),
            history@.len() <= MAX_HISTORY + 1,
            history@.len() <= full.len(),
            history@.len() >= MAX_HISTORY || history@.len() == full.len(),
            history@ == full.subrange(full.len() - history@.len(), full.len() as int),
        decreases history@.len(),
    {
        history.pop_front();
        assert(history@ =~= full.subrange(full.len() - history@.len(), full.len() as int));
    }
    assert(full.subrange(0, full.len() as int) =~= full);
}

/// Adding one entry to a history that holds the latest entries of `s` leaves
/// the latest entries of `s` followed by that entry.
pub proof fn lemma_latest_push<T>(s: Seq<T>, e: T)
    ensures
        latest(latest(s).push(e)) == latest(s.push(e)),
{
    let t = s.push(e);
    if s.len() > MAX_HISTORY {
        let l = latest(s);
        assert(latest(l.push(e)) =~= latest(t));
    } else {
        assert(latest(s) == s);
    }
}

/// Appending the entries of `entries` one at a time, starting from the
/// latest entries of `h`, keeps the latest entries of `h` followed by
/// `entries`: after any number of calculations the history holds the
/// newest `MAX_HISTORY` of them, oldest first, and the older ones are gone.
pub proof fn lemma_history_keeps_newest<T>(h: Seq<T>, entries: Seq<T>)
    ensures
        push_all(latest(h), entries) == latest(h + entries),
    decreases entries.len(),
{
    if entries.len() == 0 {
        assert(h + entries =~= h);
        if h.len() > MAX_HISTORY {
            assert(latest(latest(h)) =~= latest(h));
        }
    } else {
        let e = entries[0];
        lemma_latest_push(h, e);
        lemma_history_keeps_newest(h.push(e), entries.drop_first());
        assert(h.push(e) + entries.drop_first() =~= h + entries);
    }
}

/// From an empty history, any run of calculations leaves exactly the newest
/// `MAX_HISTORY` of them, in order.
pub proof fn lemma_history_from_empty<T>(entries: Seq<T>)
    ensures
        push_all(Seq::<T>::empty(), entries) == latest(entries),
        push_all(Seq::<T>::empty(), entries).len() == if entries.len() > MAX_HISTORY { MAX_HISTORY as int } else { entries.len() as int },
{
    lemma_history_keeps_newest(Seq::<T>::empty(), entries);
    assert(Seq::<T>::empty() + entries =~= entries);
    assert(latest(Seq::<T>::empty()) =~= Seq::<T>::empty());
}

} // verus!
