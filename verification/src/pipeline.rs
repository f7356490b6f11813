//! The driver's decisions: a record is flattened, its rows are inserted one
//! by one, a buffer is detached as soon as it is due, and every detached
//! buffer is ordered before it is handed on. What is done with an ordered
//! batch is the caller's business.

use crate::expand::Flatten;
use crate::index::{KeyView, PartitionKey};
use crate::ledger::{
    after_keeps_wf, batches_hold_waiting_rows, rows_among, Bucket, Call, Ledger,
};
use crate::partition::{batches_view, key_of, PartitionAccumulator};
use crate::row::FlatRow;
use crate::shared::SharedAccumulator;
use crate::tree::Record;
use crate::zorder::{ascending, is_stable_sort, keyed, keyed_rows, z_key_of, z_order_records};
use vstd::multiset::Multiset;
use vstd::prelude::*;

verus! {

/// The ledger after the rows were fed to it one by one: each row inserted
/// under its own key, and the buffer of that key detached if it was due then.
pub open spec fn fed(ledger: Ledger, rows: Seq<FlatRow>, threshold: usize) -> Ledger
    decreases rows.len(),
{
    if rows.len() == 0 {
        ledger
    } else {
        let row = rows.last();
        fed(ledger, rows.drop_last(), threshold).after(
            Call::Insert { key: key_of(row), row: row },
            threshold,
        ).after(Call::MaybeFlush { key: key_of(row) }, threshold)
    }
}

/// The buffers that were detached while the rows were fed, in the order in
/// which they came off.
pub open spec fn detached_while_fed(ledger: Ledger, rows: Seq<FlatRow>, threshold: usize) -> Seq<
    Bucket,
>
    decreases rows.len(),
{
    if rows.len() == 0 {
        Seq::empty()
    } else {
        let row = rows.last();
        let key = key_of(row);
        let earlier = detached_while_fed(ledger, rows.drop_last(), threshold);
        let grown = fed(ledger, rows.drop_last(), threshold).inserted(key, row);
        if grown.due(key, threshold) {
            earlier.push(Bucket { key: key, rows: grown.rows_of(key) })
        } else {
            earlier
        }
    }
}

/// The rows among the given ones that belong to a key, in order.
pub open spec fn rows_for_key(rows: Seq<FlatRow>, key: KeyView) -> Seq<FlatRow>
    decreases rows.len(),
{
    if rows.len() == 0 {
        Seq::empty()
    } else {
        let earlier = rows_for_key(rows.drop_last(), key);
        if key_of(rows.last()) == key {
            earlier.push(rows.last())
        } else {
            earlier
        }
    }
}

/// Whether `out` holds the given buffers, in order and under their keys,
/// each with its rows' ordering keys filled in and sorted by them.
pub open spec fn ordered(batches: Seq<Bucket>, out: Seq<(PartitionKey, Vec<FlatRow>)>) -> bool {
    &&& out.len() == batches.len()
    &&& forall|i: int|
        0 <= i < out.len() ==> (#[trigger] out[i]).0@ == batches[i].key && is_stable_sort(
            keyed_rows(batches[i].rows),
            out[i].1@,
        )
}

/// Whether a batch is ready to be handed on under a key: it is not empty,
/// every row in it belongs to the key and carries its own ordering key, and
/// the rows stand in ascending order of that key.
pub open spec fn ready_batch(key: KeyView, rows: Seq<FlatRow>) -> bool {
    &&& rows.len() > 0
    &&& ascending(rows)
    &&& forall|i: int|
        0 <= i < rows.len() ==> key_of(#[trigger] rows[i]) == key && rows[i].z_key == Some(
            z_key_of(rows[i]),
        )
}

/// Whether every batch is ready to be handed on.
pub open spec fn all_ready(out: Seq<(PartitionKey, Vec<FlatRow>)>) -> bool {
    forall|i: int| 0 <= i < out.len() ==> ready_batch((#[trigger] out[i]).0@, out[i].1@)
}

/// An ordered buffer of rows that all belong to one key is ready.
pub proof fn ordered_rows_are_ready(key: KeyView, rows: Seq<FlatRow>, out: Seq<FlatRow>)
    requires
        rows.len() > 0,
        forall|i: int| 0 <= i < rows.len() ==> key_of(#[trigger] rows[i]) == key,
        is_stable_sort(keyed_rows(rows), out),
    ensures
        ready_batch(key, out),
        out.len() == rows.len(),
{
    broadcast use vstd::seq_lib::group_to_multiset_ensures;

    let keyed_all = keyed_rows(rows);
    assert forall|i: int| 0 <= i < out.len() implies key_of(#[trigger] out[i]) == key
        && out[i].z_key == Some(z_key_of(out[i])) by {
        assert(out.contains(out[i]));
        assert(out.to_multiset().count(out[i]) > 0);
        assert(keyed_all.contains(out[i]));
        let j = choose|j: int| 0 <= j < keyed_all.len() && keyed_all[j] == out[i];
        assert(out[i] == keyed(rows[j]));
        assert(key_of(rows[j]) == key);
    }
}

/// Feeding keeps the ledger well-formed.
pub proof fn fed_keeps_wf(ledger: Ledger, rows: Seq<FlatRow>, threshold: usize)
    requires
        ledger.wf(),
    ensures
        fed(ledger, rows, threshold).wf(),
    decreases rows.len(),
{
    if rows.len() > 0 {
        let row = rows.last();
        let earlier = fed(ledger, rows.drop_last(), threshold);
        fed_keeps_wf(ledger, rows.drop_last(), threshold);
        let insert = Call::Insert { key: key_of(row), row: row };
        after_keeps_wf(earlier, insert, threshold);
        after_keeps_wf(
            earlier.after(insert, threshold),
            Call::MaybeFlush { key: key_of(row) },
            threshold,
        );
    }
}

/// Adding a multiset that has one more element adds one more element.
proof fn add_of_insert(a: Multiset<FlatRow>, b: Multiset<FlatRow>, row: FlatRow)
    ensures
        a.add(b.insert(row)) == a.add(b).insert(row),
{
    broadcast use vstd::multiset::group_multiset_axioms;

    assert(a.add(b.insert(row)) =~= a.add(b).insert(row));
}

/// Conservation through the driver: for every key, the rows that waited
/// under it before, together with the rows of that key that were fed, are
/// the rows that came off in detached buffers together with the rows that
/// wait under it afterwards. What then still waits comes off with the
/// drain that ends the stream, so that no row is dropped and none is
/// handed on twice.
pub proof fn feeding_conserves_rows(
    ledger: Ledger,
    rows: Seq<FlatRow>,
    threshold: usize,
    key: KeyView,
)
    ensures
        ledger.rows_of(key).to_multiset().add(rows_for_key(rows, key).to_multiset())
            == rows_among(detached_while_fed(ledger, rows, threshold), key).to_multiset().add(
            fed(ledger, rows, threshold).rows_of(key).to_multiset(),
        ),
    decreases rows.len(),
{
    broadcast use vstd::seq_lib::group_to_multiset_ensures;
    broadcast use vstd::multiset::group_multiset_axioms;

    let nothing = Seq::<FlatRow>::empty();
    assert(nothing.to_multiset() =~= Multiset::<FlatRow>::empty()) by {
        assert(nothing.to_multiset().len() == 0);
    }
    let came_off = rows_among(detached_while_fed(ledger, rows, threshold), key);
    let waiting = fed(ledger, rows, threshold).rows_of(key);
    if rows.len() == 0 {
        assert(came_off =~= nothing);
        assert(rows_for_key(rows, key) =~= nothing);
        assert(ledger.rows_of(key).to_multiset().add(rows_for_key(rows, key).to_multiset())
            =~= came_off.to_multiset().add(waiting.to_multiset()));
    } else {
        let row = rows.last();
        let k = key_of(row);
        let shorter = rows.drop_last();
        feeding_conserves_rows(ledger, shorter, threshold, key);
        let before = fed(ledger, shorter, threshold);
        let grown = before.inserted(k, row);
        let off_before = detached_while_fed(ledger, shorter, threshold);
        let came_off_before = rows_among(off_before, key);
        let waited = before.rows_of(key);
        let fed_before = rows_for_key(shorter, key);
        let start = ledger.rows_of(key).to_multiset();
        assert(start.add(fed_before.to_multiset()) == came_off_before.to_multiset().add(
            waited.to_multiset(),
        ));
        assert(waited.push(row).to_multiset() =~= waited.to_multiset().insert(row));
        assert(fed_before.push(row).to_multiset() =~= fed_before.to_multiset().insert(row));
        if k == key {
            assert(rows_for_key(rows, key) == fed_before.push(row));
        } else {
            assert(rows_for_key(rows, key) == fed_before);
        }
        if grown.due(k, threshold) {
            let bucket = Bucket { key: k, rows: grown.rows_of(k) };
            assert(detached_while_fed(ledger, rows, threshold) == off_before.push(bucket));
            assert(off_before.push(bucket).drop_last() == off_before);
            assert(off_before.push(bucket).last() == bucket);
            if k == key {
                assert(grown.rows_of(k) == waited.push(row));
                assert(came_off == came_off_before + waited.push(row));
                assert(waiting =~= nothing);
                vstd::seq_lib::lemma_multiset_commutative(came_off_before, waited.push(row));
                add_of_insert(start, fed_before.to_multiset(), row);
                add_of_insert(came_off_before.to_multiset(), waited.to_multiset(), row);
                assert(waiting.to_multiset() == Multiset::<FlatRow>::empty());
                assert(came_off.to_multiset().add(Multiset::<FlatRow>::empty())
                    =~= came_off.to_multiset());
                assert(start.add(rows_for_key(rows, key).to_multiset()) =~= came_off.to_multiset().add(
                    waiting.to_multiset(),
                ));
            } else {
                assert(came_off == came_off_before);
                assert(waiting == waited);
            }
        } else {
            assert(came_off == came_off_before);
            if k == key {
                assert(waiting == waited.push(row));
                add_of_insert(start, fed_before.to_multiset(), row);
                add_of_insert(came_off_before.to_multiset(), waited.to_multiset(), row);
                assert(start.add(rows_for_key(rows, key).to_multiset()) =~= came_off.to_multiset().add(
                    waiting.to_multiset(),
                ));
            } else {
                assert(waiting == waited);
            }
        }
    }
}

/// Conservation over a whole stream: when rows are fed to a fresh
/// accumulator and the stream is then ended, the rows of each key that were
/// fed are the rows of that key in the buffers that came off on the way
/// together with those in the buffers of the final drain.
pub proof fn stream_conserves_rows(rows: Seq<FlatRow>, threshold: usize, key: KeyView)
    ensures
        rows_for_key(rows, key).to_multiset() == rows_among(
            detached_while_fed(Ledger::empty(), rows, threshold),
            key,
        ).to_multiset().add(
            rows_among(fed(Ledger::empty(), rows, threshold).batches(), key).to_multiset(),
        ),
{
    broadcast use vstd::seq_lib::group_to_multiset_ensures;
    broadcast use vstd::multiset::group_multiset_axioms;

    let start = Ledger::empty();
    feeding_conserves_rows(start, rows, threshold, key);
    fed_keeps_wf(start, rows, threshold);
    batches_hold_waiting_rows(fed(start, rows, threshold), key);
    assert(start.rows_of(key) =~= Seq::<FlatRow>::empty());
    assert(start.rows_of(key).to_multiset().len() == 0);
    assert(start.rows_of(key).to_multiset().add(rows_for_key(rows, key).to_multiset())
        =~= rows_for_key(rows, key).to_multiset());
}

/// Fills in the ordering keys of every buffer and sorts each by them.
pub fn order_batches(batches: Vec<(PartitionKey, Vec<FlatRow>)>) -> (out: Vec<
    (PartitionKey, Vec<FlatRow>),
>)
    ensures
        ordered(batches_view(batches@), out@),
{
    let mut out = batches;
    let n: usize = out.len();
    let mut i: usize = 0;
    while i < n
        invariant
            i <= n,
            n == batches@.len(),
            out@.len() == n,
            forall|k: int| 0 <= k < n ==> (#[trigger] out@[k]).0@ == batches@[k].0@,
            forall|k: int|
                0 <= k < i ==> is_stable_sort(keyed_rows(batches@[k].1@), (#[trigger] out@[k]).1@),
            forall|k: int| i <= k < n ==> (#[trigger] out@[k]).1@ == batches@[k].1@,
        decreases n - i,
    {
        let mut rows: Vec<FlatRow> = Vec::new();
        std::mem::swap(&mut rows, &mut out[i].1);
        let sorted = z_order_records(rows);
        out[i].1 = sorted;
        i += 1;
    }
    out
}

/// Flattens a record and feeds its rows to the accumulator. Returns the
/// buffers that became due on the way, each ordered.
pub fn ingest(acc: &mut PartitionAccumulator, record: &Record) -> (ready: Vec<
    (PartitionKey, Vec<FlatRow>),
>)
    requires
        old(acc).wf(),
    ensures
        final(acc).wf(),
        final(acc).flush_threshold() == old(acc).flush_threshold(),
        final(acc)@ == fed(old(acc)@, record.rows(), old(acc).flush_threshold()),
        ordered(
            detached_while_fed(old(acc)@, record.rows(), old(acc).flush_threshold()),
            ready@,
        ),
{
    let mut rows = record.flatten();
    let mut ready: Vec<(PartitionKey, Vec<FlatRow>)> = Vec::new();
    let ghost start = acc@;
    let ghost threshold = acc.flush_threshold();
    let ghost all = rows@;
    let n: usize = rows.len();
    let mut i: usize = 0;
    while i < n
        invariant
            i <= n,
            n == all.len(),
            rows@.len() == n,
            acc.wf(),
            acc.flush_threshold() == threshold,
            acc@ == fed(start, all.take(i as int), threshold),
            ordered(detached_while_fed(start, all.take(i as int), threshold), ready@),
            forall|k: int| i <= k < n ==> #[trigger] rows@[k] == all[k],
        decreases n - i,
    {
        let mut row = FlatRow::new();
        std::mem::swap(&mut row, &mut rows[i]);
        proof {
            let next = all.take(i + 1);
            assert(next.drop_last() == all.take(i as int));
            assert(next.last() == row);
        }
        let key = acc.insert(row);
        let ghost grown = acc@;
        let ghost earlier = ready@;
        match acc.maybe_flush(&key) {
            Some(batch) => {
                let sorted = z_order_records(batch);
                ready.push((key, sorted));
                proof {
                    let buffers = detached_while_fed(start, all.take(i + 1), threshold);
                    assert(buffers.last() == Bucket { key: key_of(row), rows: grown.rows_of(key@) });
                    assert forall|k: int| 0 <= k < ready@.len() implies (#[trigger] ready@[k]).0@
                        == buffers[k].key && is_stable_sort(
                        keyed_rows(buffers[k].rows),
                        ready@[k].1@,
                    ) by {
                        if k < earlier.len() {
                            assert(ready@[k] == earlier[k]);
                        }
                    }
                }
            },
            None => {},
        }
        i += 1;
    }
    assert(all.take(n as int) == all);
    ready
}

/// Ends the stream: detaches every buffer that holds rows, and orders each.
pub fn finish(acc: &mut PartitionAccumulator) -> (ready: Vec<(PartitionKey, Vec<FlatRow>)>)
    requires
        old(acc).wf(),
    ensures
        final(acc).wf(),
        final(acc).flush_threshold() == old(acc).flush_threshold(),
        final(acc)@ == old(acc)@.drained(),
        ordered(old(acc)@.batches(), ready@),
{
    let drained = acc.drain_all();
    order_batches(drained)
}

/// Whether a batch was set off by a row: it stands under the row's key and
/// holds the row, with its ordering key filled in.
pub open spec fn set_off_by(batch: (PartitionKey, Vec<FlatRow>), row: FlatRow) -> bool {
    batch.0@ == key_of(row) && batch.1@.contains(keyed(row))
}

/// Whether a batch was set off by one of the given rows.
pub open spec fn set_off_within(batch: (PartitionKey, Vec<FlatRow>), rows: Seq<FlatRow>) -> bool {
    exists|i: int| 0 <= i < rows.len() && #[trigger] set_off_by(batch, rows[i])
}

/// A buffer that ends with a row holds, once it is ordered, that row with
/// its ordering key filled in.
pub proof fn ordered_rows_hold_the_last(rows: Seq<FlatRow>, out: Seq<FlatRow>)
    requires
        rows.len() > 0,
        is_stable_sort(keyed_rows(rows), out),
    ensures
        out.contains(keyed(rows.last())),
{
    broadcast use vstd::seq_lib::group_to_multiset_ensures;

    let keyed_all = keyed_rows(rows);
    let wanted = keyed(rows.last());
    assert(keyed_all[rows.len() - 1] == wanted);
    assert(keyed_all.contains(wanted));
    assert(keyed_all.to_multiset().count(wanted) > 0);
    assert(out.to_multiset().count(wanted) > 0);
}

/// Flattens a record and feeds its rows to an accumulator that other
/// threads use at the same time. Each row is inserted and its buffer
/// detached, if it is then due, in one step. Returns the buffers that came
/// off, each ordered.
///
/// Every batch is ready to be handed on, holds at least as many rows as the
/// threshold asks for, and was set off by a row of this record. There are
/// no more batches than rows. With a threshold of at most one every row
/// sets off a batch, so that the batches answer the rows one by one.
pub fn ingest_shared(acc: &SharedAccumulator, record: &Record) -> (ready: Vec<
    (PartitionKey, Vec<FlatRow>),
>)
    requires
        acc.wf(),
    ensures
        all_ready(ready@),
        forall|i: int|
            0 <= i < ready@.len() ==> (#[trigger] ready@[i]).1@.len() >= acc.flush_threshold(),
        ready@.len() <= record.rows().len(),
        forall|i: int| 0 <= i < ready@.len() ==> set_off_within(#[trigger] ready@[i], record.rows()),
        acc.flush_threshold() <= 1 ==> ready@.len() == record.rows().len(),
        acc.flush_threshold() <= 1 ==> forall|i: int|
            0 <= i < ready@.len() ==> set_off_by(#[trigger] ready@[i], record.rows()[i]),
{
    let mut rows = record.flatten();
    let mut ready: Vec<(PartitionKey, Vec<FlatRow>)> = Vec::new();
    let ghost all = rows@;
    let n: usize = rows.len();
    let mut i: usize = 0;
    while i < n
        invariant
            i <= n,
            n == all.len(),
            all == record.rows(),
            rows@.len() == n,
            acc.wf(),
            all_ready(ready@),
            forall|k: int|
                0 <= k < ready@.len() ==> (#[trigger] ready@[k]).1@.len() >= acc.flush_threshold(),
            forall|k: int| i <= k < n ==> #[trigger] rows@[k] == all[k],
            ready@.len() <= i,
            forall|k: int| 0 <= k < ready@.len() ==> set_off_within(#[trigger] ready@[k], all),
            acc.flush_threshold() <= 1 ==> ready@.len() == i,
            acc.flush_threshold() <= 1 ==> forall|k: int|
                0 <= k < ready@.len() ==> set_off_by(#[trigger] ready@[k], all[k]),
        decreases n - i,
    {
        let mut row = FlatRow::new();
        std::mem::swap(&mut row, &mut rows[i]);
        let ghost given = row;
        assert(given == all[i as int]);
        let (key, flushed) = acc.insert_and_flush(row);
        let ghost earlier = ready@;
        match flushed {
            Some(batch) => {
                let sorted = z_order_records(batch);
                proof {
                    ordered_rows_are_ready(key@, batch@, sorted@);
                    ordered_rows_hold_the_last(batch@, sorted@);
                }
                ready.push((key, sorted));
                proof {
                    let newest = ready@[earlier.len() as int];
                    assert(set_off_by(newest, all[i as int]));
                    assert(set_off_within(newest, all));
                    assert forall|k: int| 0 <= k < ready@.len() implies ready_batch(
                        (#[trigger] ready@[k]).0@,
                        ready@[k].1@,
                    ) && ready@[k].1@.len() >= acc.flush_threshold() && set_off_within(
                        ready@[k],
                        all,
                    ) by {
                        if k < earlier.len() {
                            assert(ready@[k] == earlier[k]);
                        }
                    }
                    if acc.flush_threshold() <= 1 {
                        assert forall|k: int| 0 <= k < ready@.len() implies set_off_by(
                            #[trigger] ready@[k],
                            all[k],
                        ) by {
                            if k < earlier.len() {
                                assert(ready@[k] == earlier[k]);
                            }
                        }
                    }
                }
            },
            None => {},
        }
        i += 1;
    }
    ready
}

/// Ends the stream on a shared accumulator: detaches every buffer that
/// holds rows at the moment of the call, and orders each. Every batch is
/// ready to be handed on, and no key comes twice.
pub fn finish_shared(acc: &SharedAccumulator) -> (ready: Vec<(PartitionKey, Vec<FlatRow>)>)
    requires
        acc.wf(),
    ensures
        all_ready(ready@),
        forall|i: int, j: int|
            0 <= i < j < ready@.len() ==> (#[trigger] ready@[i]).0@ != (#[trigger] ready@[j]).0@,
{
    let drained = acc.drain_all();
    let ghost buffers = batches_view(drained@);
    let ready = order_batches(drained);
    proof {
        assert forall|i: int| 0 <= i < ready@.len() implies ready_batch(
            (#[trigger] ready@[i]).0@,
            ready@[i].1@,
        ) by {
            let b = buffers[i];
            assert(b.rows.len() > 0);
            assert forall|k: int| 0 <= k < b.rows.len() implies key_of(#[trigger] b.rows[k])
                == b.key by {
                assert(key_of(buffers[i].rows[k]) == buffers[i].key);
            }
            ordered_rows_are_ready(b.key, b.rows, ready@[i].1@);
        }
        assert forall|i: int, j: int| 0 <= i < j < ready@.len() implies (#[trigger] ready@[i]).0@
            != (#[trigger] ready@[j]).0@ by {
            assert(buffers[i].key != buffers[j].key);
        }
    }
    ready
}

} // verus!
