//! The ledger: what an accumulator holds, as a mathematical value, with the
//! effect of each call on it and the laws that follow.

use crate::index::KeyView;
use crate::row::FlatRow;
use vstd::multiset::Multiset;
use vstd::prelude::*;

verus! {

/// The rows that wait under one key.
pub struct Bucket {
    pub key: KeyView,
    pub rows: Seq<FlatRow>,
}

/// What an accumulator holds: the keys in the order in which they were first
/// seen, and the rows that wait under each of them.
pub struct Ledger {
    pub order: Seq<KeyView>,
    pub rows: Map<KeyView, Seq<FlatRow>>,
}

impl Ledger {
    /// The ledger of an accumulator that has seen nothing.
    pub open spec fn empty() -> Ledger {
        Ledger { order: Seq::empty(), rows: Map::empty() }
    }

    /// Every key that was seen stands once in the order, and has a buffer.
    pub open spec fn wf(self) -> bool {
        &&& forall|k: KeyView| self.rows.contains_key(k) <==> self.order.contains(k)
        &&& forall|i: int, j: int|
            0 <= i < j < self.order.len() ==> self.order[i] != self.order[j]
    }

    /// The rows that wait under a key; none where the key was never seen.
    pub open spec fn rows_of(self, key: KeyView) -> Seq<FlatRow> {
        if self.rows.contains_key(key) {
            self.rows[key]
        } else {
            Seq::empty()
        }
    }

    /// The ledger after a row has been added under a key.
    pub open spec fn inserted(self, key: KeyView, row: FlatRow) -> Ledger {
        Ledger {
            order: if self.rows.contains_key(key) {
                self.order
            } else {
                self.order.push(key)
            },
            rows: self.rows.insert(key, self.rows_of(key).push(row)),
        }
    }

    /// Whether the buffer of a key is due: it holds rows, and as many as the
    /// threshold asks for.
    pub open spec fn due(self, key: KeyView, threshold: usize) -> bool {
        self.rows_of(key).len() > 0 && self.rows_of(key).len() >= threshold
    }

    /// The ledger after the buffer of a key has been detached: the key keeps
    /// an empty buffer.
    pub open spec fn detached(self, key: KeyView) -> Ledger {
        if self.rows.contains_key(key) {
            Ledger { order: self.order, rows: self.rows.insert(key, Seq::empty()) }
        } else {
            self
        }
    }

    /// The ledger after every buffer has been detached.
    pub open spec fn drained(self) -> Ledger {
        Ledger {
            order: self.order,
            rows: Map::new(
                |k: KeyView| self.rows.contains_key(k),
                |k: KeyView| Seq::<FlatRow>::empty(),
            ),
        }
    }

    /// The buffers that hold rows, in the order in which their keys were
    /// first seen.
    pub open spec fn batches(self) -> Seq<Bucket> {
        batches_of(self.order, self.rows)
    }
}

/// The non-empty buffers of the given keys, in the keys' order.
pub open spec fn batches_of(order: Seq<KeyView>, rows: Map<KeyView, Seq<FlatRow>>) -> Seq<Bucket>
    decreases order.len(),
{
    if order.len() == 0 {
        Seq::empty()
    } else {
        let rest = batches_of(order.drop_last(), rows);
        let key = order.last();
        if rows.contains_key(key) && rows[key].len() > 0 {
            rest.push(Bucket { key: key, rows: rows[key] })
        } else {
            rest
        }
    }
}

/// One call on an accumulator.
pub enum Call {
    Insert { key: KeyView, row: FlatRow },
    MaybeFlush { key: KeyView },
    DrainAll,
}

impl Ledger {
    /// The ledger after a call.
    pub open spec fn after(self, call: Call, threshold: usize) -> Ledger {
        match call {
            Call::Insert { key, row } => self.inserted(key, row),
            Call::MaybeFlush { key } => if self.due(key, threshold) {
                self.detached(key)
            } else {
                self
            },
            Call::DrainAll => self.drained(),
        }
    }

    /// The rows of the given key that a call hands out.
    pub open spec fn handed_out(self, call: Call, threshold: usize, key: KeyView) -> Seq<FlatRow> {
        match call {
            Call::Insert { .. } => Seq::empty(),
            Call::MaybeFlush { key: flushed } => if flushed == key && self.due(key, threshold) {
                self.rows_of(key)
            } else {
                Seq::empty()
            },
            Call::DrainAll => self.rows_of(key),
        }
    }
}

/// The ledger of an accumulator on which the given calls were made, in
/// order, since it was created.
pub open spec fn ledger_after(calls: Seq<Call>, threshold: usize) -> Ledger
    decreases calls.len(),
{
    if calls.len() == 0 {
        Ledger::empty()
    } else {
        ledger_after(calls.drop_last(), threshold).after(calls.last(), threshold)
    }
}

/// All the rows that the calls inserted under a key.
pub open spec fn inserted_under(calls: Seq<Call>, key: KeyView) -> Multiset<FlatRow>
    decreases calls.len(),
{
    if calls.len() == 0 {
        Multiset::empty()
    } else {
        let earlier = inserted_under(calls.drop_last(), key);
        match calls.last() {
            Call::Insert { key: k, row } => if k == key {
                earlier.insert(row)
            } else {
                earlier
            },
            _ => earlier,
        }
    }
}

/// All the rows of a key that the calls handed out.
pub open spec fn returned_for(calls: Seq<Call>, threshold: usize, key: KeyView) -> Multiset<
    FlatRow,
>
    decreases calls.len(),
{
    if calls.len() == 0 {
        Multiset::empty()
    } else {
        returned_for(calls.drop_last(), threshold, key).add(
            ledger_after(calls.drop_last(), threshold).handed_out(
                calls.last(),
                threshold,
                key,
            ).to_multiset(),
        )
    }
}

/// The rows of a key among the given buffers, in order.
pub open spec fn rows_among(batches: Seq<Bucket>, key: KeyView) -> Seq<FlatRow>
    decreases batches.len(),
{
    if batches.len() == 0 {
        Seq::empty()
    } else {
        let earlier = rows_among(batches.drop_last(), key);
        if batches.last().key == key {
            earlier + batches.last().rows
        } else {
            earlier
        }
    }
}

/// Every call leaves a well-formed ledger well-formed.
pub proof fn after_keeps_wf(ledger: Ledger, call: Call, threshold: usize)
    requires
        ledger.wf(),
    ensures
        ledger.after(call, threshold).wf(),
{
    let next = ledger.after(call, threshold);
    match call {
        Call::Insert { key, row } => {
            if ledger.rows.contains_key(key) {
                assert(next.order == ledger.order);
            } else {
                assert forall|k: KeyView| next.rows.contains_key(k) <==> next.order.contains(k) by {
                    if next.order.contains(k) {
                        let i = choose|i: int| 0 <= i < next.order.len() && next.order[i] == k;
                        if i < ledger.order.len() {
                            assert(ledger.order[i] == k);
                            assert(ledger.order.contains(k));
                            assert(ledger.rows.contains_key(k));
                        }
                    }
                    if next.rows.contains_key(k) {
                        if k == key {
                            assert(next.order[ledger.order.len() as int] == k);
                        } else {
                            assert(ledger.rows.contains_key(k));
                            assert(ledger.order.contains(k));
                            let i = choose|i: int|
                                0 <= i < ledger.order.len() && ledger.order[i] == k;
                            assert(next.order[i] == k);
                        }
                    }
                }
                assert forall|i: int, j: int| 0 <= i < j < next.order.len() implies next.order[i]
                    != next.order[j] by {
                    if j == ledger.order.len() {
                        assert(ledger.order[i] == next.order[i]);
                        assert(ledger.order.contains(next.order[i]));
                    } else {
                        assert(ledger.order[i] == next.order[i]);
                        assert(ledger.order[j] == next.order[j]);
                    }
                }
            }
        },
        Call::MaybeFlush { key } => {
        },
        Call::DrainAll => {
        },
    }
}

/// The ledger that a sequence of calls leaves is well-formed.
pub proof fn ledger_after_wf(calls: Seq<Call>, threshold: usize)
    ensures
        ledger_after(calls, threshold).wf(),
    decreases calls.len(),
{
    if calls.len() > 0 {
        ledger_after_wf(calls.drop_last(), threshold);
        after_keeps_wf(ledger_after(calls.drop_last(), threshold), calls.last(), threshold);
    }
}

/// Conservation: at every moment, the rows that were inserted under a key
/// are the rows that were handed out for it together with the rows that
/// still wait under it. No row is lost and none is handed out twice.
pub proof fn flush_conservation(calls: Seq<Call>, threshold: usize, key: KeyView)
    ensures
        inserted_under(calls, key) == returned_for(calls, threshold, key).add(
            ledger_after(calls, threshold).rows_of(key).to_multiset(),
        ),
    decreases calls.len(),
{
    broadcast use vstd::seq_lib::group_to_multiset_ensures;

    let waiting = ledger_after(calls, threshold).rows_of(key);
    let nothing = Seq::<FlatRow>::empty();
    assert(nothing.to_multiset() =~= Multiset::<FlatRow>::empty()) by {
        assert(nothing.to_multiset().len() == 0);
    }
    if calls.len() == 0 {
        assert(waiting =~= nothing);
        assert(inserted_under(calls, key) =~= returned_for(calls, threshold, key).add(
            waiting.to_multiset(),
        ));
    } else {
        let earlier = calls.drop_last();
        let before = ledger_after(earlier, threshold);
        let held = before.rows_of(key);
        flush_conservation(earlier, threshold, key);
        match calls.last() {
            Call::Insert { key: k, row } => {
                if k == key {
                    assert(waiting == held.push(row));
                } else {
                    assert(waiting == held);
                }
            },
            Call::MaybeFlush { key: k } => {
                if k == key && before.due(key, threshold) {
                    assert(waiting =~= nothing);
                } else {
                    assert(waiting == held);
                }
            },
            Call::DrainAll => {
                assert(waiting =~= nothing);
            },
        }
        assert(inserted_under(calls, key) =~= returned_for(calls, threshold, key).add(
            waiting.to_multiset(),
        ));
    }
}

/// Conservation at the end of the stream: once the last call has drained
/// the accumulator, the rows handed out for a key are the rows that were
/// inserted under it.
pub proof fn conservation_after_drain(calls: Seq<Call>, threshold: usize, key: KeyView)
    requires
        calls.len() > 0,
        calls.last() is DrainAll,
    ensures
        returned_for(calls, threshold, key) == inserted_under(calls, key),
        ledger_after(calls, threshold).rows_of(key).len() == 0,
{
    broadcast use vstd::seq_lib::group_to_multiset_ensures;

    flush_conservation(calls, threshold, key);
    let waiting = ledger_after(calls, threshold).rows_of(key);
    assert(waiting =~= Seq::<FlatRow>::empty());
    assert(waiting.to_multiset().len() == 0);
    assert(returned_for(calls, threshold, key) =~= inserted_under(calls, key));
}

/// Whether the buffers are what a drain may return: none of them is empty,
/// and no key stands twice.
pub open spec fn distinct_nonempty(batches: Seq<Bucket>) -> bool {
    &&& forall|i: int| 0 <= i < batches.len() ==> (#[trigger] batches[i]).rows.len() > 0
    &&& forall|i: int, j: int|
        0 <= i < j < batches.len() ==> (#[trigger] batches[i]).key != (#[trigger] batches[j]).key
}

/// What a drain returns: every buffer holds rows, namely those that waited
/// under its key, and every key stands once.
pub proof fn batches_are_distinct_and_nonempty(ledger: Ledger)
    requires
        ledger.wf(),
    ensures
        distinct_nonempty(ledger.batches()),
        forall|i: int|
            0 <= i < ledger.batches().len() ==> ledger.rows.contains_key(
                (#[trigger] ledger.batches()[i]).key,
            ) && ledger.batches()[i].rows == ledger.rows[ledger.batches()[i].key],
{
    batch_facts_of_prefix(ledger, ledger.order.len() as int);
    assert(ledger.order.take(ledger.order.len() as int) == ledger.order);
}

/// The buffers of the first `n` keys: each holds the rows of one of these
/// keys, and no key stands twice.
proof fn batch_facts_of_prefix(ledger: Ledger, n: int)
    requires
        ledger.wf(),
        0 <= n <= ledger.order.len(),
    ensures
        distinct_nonempty(batches_of(ledger.order.take(n), ledger.rows)),
        forall|i: int|
            0 <= i < batches_of(ledger.order.take(n), ledger.rows).len() ==> {
                let b = #[trigger] batches_of(ledger.order.take(n), ledger.rows)[i];
                &&& ledger.rows.contains_key(b.key)
                &&& b.rows == ledger.rows[b.key]
                &&& ledger.order.take(n).contains(b.key)
            },
    decreases n,
{
    let prefix = ledger.order.take(n);
    let all = batches_of(prefix, ledger.rows);
    if n > 0 {
        let shorter = ledger.order.take(n - 1);
        assert(prefix.drop_last() == shorter);
        batch_facts_of_prefix(ledger, n - 1);
        let rest = batches_of(shorter, ledger.rows);
        let last = prefix.last();
        assert(last == ledger.order[n - 1]);
        assert(ledger.order.contains(last));
        assert forall|i: int| 0 <= i < rest.len() implies prefix.contains(
            (#[trigger] rest[i]).key,
        ) && rest[i].key != last by {
            let k = rest[i].key;
            assert(shorter.contains(k));
            let at = choose|at: int| 0 <= at < shorter.len() && shorter[at] == k;
            assert(prefix[at] == k);
            assert(ledger.order[at] == k);
        }
        if ledger.rows[last].len() > 0 {
            let bucket = Bucket { key: last, rows: ledger.rows[last] };
            assert(all == rest.push(bucket));
            assert(prefix[n - 1] == last);
            assert forall|i: int| 0 <= i < all.len() implies {
                let b = #[trigger] all[i];
                &&& b.rows.len() > 0
                &&& ledger.rows.contains_key(b.key)
                &&& b.rows == ledger.rows[b.key]
                &&& prefix.contains(b.key)
            } by {
                if i < rest.len() {
                    assert(all[i] == rest[i]);
                }
            }
            assert forall|i: int, j: int| 0 <= i < j < all.len() implies (#[trigger] all[i]).key
                != (#[trigger] all[j]).key by {
                assert(all[i] == rest[i]);
                if j < rest.len() {
                    assert(all[j] == rest[j]);
                }
            }
        } else {
            assert(all == rest);
        }
    }
}

/// What a drain returns holds, for each key, the rows that waited under it:
/// in one buffer where there are any, and in none where there are not.
pub proof fn batches_hold_waiting_rows(ledger: Ledger, key: KeyView)
    requires
        ledger.wf(),
    ensures
        rows_among(ledger.batches(), key) == ledger.rows_of(key),
{
    batches_of_prefix(ledger, ledger.order.len() as int, key);
    assert(ledger.order.take(ledger.order.len() as int) == ledger.order);
    if !ledger.order.contains(key) {
        assert(ledger.rows_of(key) =~= Seq::<FlatRow>::empty());
    }
}

/// The rows of a key among the buffers of the first `n` keys: those that
/// wait under it if the key is among them, and none if not.
proof fn batches_of_prefix(ledger: Ledger, n: int, key: KeyView)
    requires
        ledger.wf(),
        0 <= n <= ledger.order.len(),
    ensures
        rows_among(batches_of(ledger.order.take(n), ledger.rows), key) == if ledger.order.take(
            n,
        ).contains(key) {
            ledger.rows_of(key)
        } else {
            Seq::<FlatRow>::empty()
        },
    decreases n,
{
    let prefix = ledger.order.take(n);
    if n > 0 {
        let shorter = ledger.order.take(n - 1);
        assert(prefix.drop_last() == shorter);
        batches_of_prefix(ledger, n - 1, key);
        let last = prefix.last();
        let rest = batches_of(shorter, ledger.rows);
        assert(last == ledger.order[n - 1]);
        assert(ledger.order.contains(last));
        assert(ledger.rows.contains_key(last));
        let bucket = Bucket { key: last, rows: ledger.rows[last] };
        if ledger.rows[last].len() > 0 {
            assert(batches_of(prefix, ledger.rows) == rest.push(bucket));
            assert(rest.push(bucket).drop_last() == rest);
            assert(rest.push(bucket).last() == bucket);
        } else {
            assert(batches_of(prefix, ledger.rows) == rest);
        }
        if last == key {
            assert(prefix[n - 1] == key);
            assert(prefix.contains(key));
            assert(!shorter.contains(key)) by {
                if shorter.contains(key) {
                    let i = choose|i: int| 0 <= i < shorter.len() && shorter[i] == key;
                    assert(ledger.order[i] == key);
                }
            }
            if ledger.rows[key].len() > 0 {
                assert(rows_among(rest.push(bucket), key) =~= ledger.rows[key]);
            } else {
                assert(ledger.rows[key] =~= Seq::<FlatRow>::empty());
            }
        } else {
            assert(prefix.contains(key) <==> shorter.contains(key)) by {
                if prefix.contains(key) {
                    let i = choose|i: int| 0 <= i < prefix.len() && prefix[i] == key;
                    assert(shorter[i] == key);
                }
                if shorter.contains(key) {
                    let i = choose|i: int| 0 <= i < shorter.len() && shorter[i] == key;
                    assert(prefix[i] == key);
                }
            }
        }
    } else {
        assert(!prefix.contains(key));
    }
}

} // verus!
