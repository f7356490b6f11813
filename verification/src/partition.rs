//! Partitioned accumulation: rows are gathered in one buffer for each
//! partition key, and a buffer is handed out whole when it has reached the
//! threshold, or at the end of the stream.

use crate::index::{index_get, index_insert, index_new, slot_map, KeyIndex, KeyView, PartitionKey};
use crate::ledger::{batches_are_distinct_and_nonempty, batches_of, Bucket, Call, Ledger};
use crate::row::{texts_view, FlatRow};
use vstd::prelude::*;
use vstd::string::StringExecFns;

verus! {

/// The sentinel that stands for a missing component of a key.
pub open spec fn unknown() -> Seq<char> {
    "unknown"@
}

/// A component of a key: the text, or the sentinel where there is none.
pub open spec fn component(text: Option<String>) -> Seq<char> {
    match text {
        Some(s) => s@,
        None => unknown(),
    }
}

/// The key of a row: its category, tag, country code and spatial cell.
pub open spec fn key_of(row: FlatRow) -> KeyView {
    (
        component(row.category),
        component(row.tag),
        component(row.country_code),
        component(row.h3_cell),
    )
}

/// The key of a row that has none of the four components.
pub open spec fn unknown_key() -> KeyView {
    (unknown(), unknown(), unknown(), unknown())
}

/// What a sequence of detached buffers holds.
pub open spec fn batches_view(batches: Seq<(PartitionKey, Vec<FlatRow>)>) -> Seq<Bucket> {
    batches.map_values(|b: (PartitionKey, Vec<FlatRow>)| Bucket { key: b.0@, rows: b.1@ })
}

/// The ledger after all the given rows have been added, each under its own
/// key, in order.
pub open spec fn partitioned(rows: Seq<FlatRow>) -> Ledger
    decreases rows.len(),
{
    if rows.len() == 0 {
        Ledger::empty()
    } else {
        partitioned(rows.drop_last()).inserted(key_of(rows.last()), rows.last())
    }
}

/// A copy of an optional text, or the sentinel where there is none.
pub fn component_text(text: &Option<String>) -> (out: String)
    ensures
        out@ == component(*text),
{
    match text {
        Some(s) => s.clone(),
        None => "unknown".to_owned(),
    }
}

/// The partition key of a row. Missing components become the sentinel
/// `unknown`, so that rows without them gather in one partition.
pub fn assign(row: &FlatRow) -> (key: PartitionKey)
    ensures
        key@ == key_of(*row),
{
    (
        component_text(&row.category),
        component_text(&row.tag),
        component_text(&row.country_code),
        component_text(&row.h3_cell),
    )
}

/// The names of the four directory levels under which a partition is laid
/// out: for each component of the key the column's name, an equals sign and
/// the component.
pub open spec fn segments_of(key: KeyView) -> Seq<Seq<char>> {
    seq![
        "category="@ + key.0,
        "tag="@ + key.1,
        "country_code="@ + key.2,
        "h3_cell="@ + key.3,
    ]
}

/// Builds one directory level: a prefix, then a text.
pub fn segment(prefix: &str, text: &String) -> (out: String)
    ensures
        out@ == prefix@ + text@,
{
    let mut out = prefix.to_owned();
    out.append(text.as_str());
    out
}

/// The names of the directory levels of a partition, outermost first.
pub fn partition_segments(key: &PartitionKey) -> (out: Vec<String>)
    ensures
        texts_view(out@) == segments_of(key@),
{
    let mut out: Vec<String> = Vec::new();
    out.push(segment("category=", &key.0));
    out.push(segment("tag=", &key.1));
    out.push(segment("country_code=", &key.2));
    out.push(segment("h3_cell=", &key.3));
    assert(texts_view(out@) =~= segments_of(key@));
    out
}

/// A copy of a partition key.
pub fn clone_key(key: &PartitionKey) -> (copy: PartitionKey)
    ensures
        copy@ == key@,
{
    (key.0.clone(), key.1.clone(), key.2.clone(), key.3.clone())
}

/// Gathers rows by partition key and hands the buffers out.
pub struct PartitionAccumulator {
    index: KeyIndex,
    keys: Vec<PartitionKey>,
    buffers: Vec<Vec<FlatRow>>,
    threshold: usize,
}

impl View for PartitionAccumulator {
    type V = Ledger;

    closed spec fn view(&self) -> Ledger {
        Ledger {
            order: Seq::new(self.keys@.len(), |i: int| self.keys@[i]@),
            rows: Map::new(
                |k: KeyView| slot_map(self.index).contains_key(k),
                |k: KeyView| self.buffers@[slot_map(self.index)[k] as int]@,
            ),
        }
    }
}

impl PartitionAccumulator {
    /// The index, the keys and the buffers agree: the key at each slot is
    /// the one that the index maps to that slot.
    pub closed spec fn wf(&self) -> bool {
        &&& self.keys@.len() == self.buffers@.len()
        &&& forall|i: int|
            0 <= i < self.keys@.len() ==> slot_map(self.index).contains_key(
                #[trigger] self.keys@[i]@,
            ) && slot_map(self.index)[self.keys@[i]@] == i
        &&& forall|k: KeyView| #[trigger]
            slot_map(self.index).contains_key(k) ==> slot_map(self.index)[k] < self.keys@.len()
                && self.keys@[slot_map(self.index)[k] as int]@ == k
    }

    /// The threshold that the accumulator was made with.
    pub closed spec fn flush_threshold(&self) -> usize {
        self.threshold
    }

    /// A well-formed accumulator has a well-formed ledger.
    pub proof fn ledger_wf(&self)
        requires
            self.wf(),
        ensures
            self@.wf(),
    {
        let ledger = self@;
        assert forall|k: KeyView| ledger.rows.contains_key(k) <==> ledger.order.contains(k) by {
            if ledger.rows.contains_key(k) {
                let slot = slot_map(self.index)[k] as int;
                assert(ledger.order[slot] == k);
            }
            if ledger.order.contains(k) {
                let i = choose|i: int| 0 <= i < ledger.order.len() && ledger.order[i] == k;
                assert(self.keys@[i]@ == k);
            }
        }
        assert forall|i: int, j: int| 0 <= i < j < ledger.order.len() implies ledger.order[i]
            != ledger.order[j] by {
            assert(self.keys@[i]@ == ledger.order[i]);
            assert(self.keys@[j]@ == ledger.order[j]);
        }
    }

    /// An accumulator that holds nothing. A buffer is due when it holds at
    /// least `threshold` rows, and at least one.
    pub fn new(threshold: usize) -> (acc: PartitionAccumulator)
        ensures
            acc.wf(),
            acc@ == Ledger::empty(),
            acc.flush_threshold() == threshold,
    {
        let acc = PartitionAccumulator {
            index: index_new(),
            keys: Vec::new(),
            buffers: Vec::new(),
            threshold,
        };
        proof {
            assert(acc@.order =~= Seq::<KeyView>::empty());
            assert(acc@.rows =~= Map::<KeyView, Seq<FlatRow>>::empty());
        }
        acc
    }

    /// The threshold that the accumulator was made with.
    pub fn threshold(&self) -> (t: usize)
        ensures
            t == self.flush_threshold(),
    {
        self.threshold
    }

    /// The number of rows that wait under a key.
    pub fn pending(&self, key: &PartitionKey) -> (count: usize)
        requires
            self.wf(),
        ensures
            count == self@.rows_of(key@).len(),
    {
        match index_get(&self.index, key) {
            Some(slot) => self.buffers[slot].len(),
            None => 0,
        }
    }

    /// Adds a row to the buffer of the given key. This is the entry for a
    /// caller that projects keys in its own way.
    pub fn insert_under(&mut self, key: PartitionKey, row: FlatRow)
        requires
            old(self).wf(),
        ensures
            final(self).wf(),
            final(self)@ == old(self)@.inserted(key@, row),
            final(self)@ == old(self)@.after(
                (Call::Insert { key: key@, row: row }),
                old(self).flush_threshold(),
            ),
            final(self).flush_threshold() == old(self).flush_threshold(),
    {
        let ghost before = self@;
        let ghost slots = slot_map(self.index);
        match index_get(&self.index, &key) {
            Some(slot) => {
                self.buffers[slot].push(row);
                proof {
                    let after = self@;
                    assert(after.order =~= before.order);
                    assert forall|k: KeyView| #[trigger] after.rows.contains_key(k) implies after.rows[k]
                        == before.inserted(key@, row).rows[k] by {
                        if k != key@ {
                            assert(slots[k] != slot);
                        }
                    }
                    assert(after.rows =~= before.inserted(key@, row).rows);
                }
            },
            None => {
                let slot: usize = self.keys.len();
                let mut rows: Vec<FlatRow> = Vec::new();
                rows.push(row);
                let copy = clone_key(&key);
                self.keys.push(key);
                self.buffers.push(rows);
                index_insert(&mut self.index, copy, slot);
                proof {
                    let after = self@;
                    assert(after.order =~= before.order.push(key@));
                    assert forall|k: KeyView| #[trigger] after.rows.contains_key(k) implies after.rows[k]
                        == before.inserted(key@, row).rows[k] by {
                        if k != key@ {
                            assert(slots.contains_key(k));
                            assert(slots[k] < slot);
                        }
                    }
                    assert(after.rows =~= before.inserted(key@, row).rows);
                }
            },
        }
    }

    /// Adds a row to the buffer of its own key, and returns that key.
    pub fn insert(&mut self, row: FlatRow) -> (key: PartitionKey)
        requires
            old(self).wf(),
        ensures
            final(self).wf(),
            key@ == key_of(row),
            final(self)@ == old(self)@.inserted(key_of(row), row),
            final(self).flush_threshold() == old(self).flush_threshold(),
    {
        let key = assign(&row);
        let copy = clone_key(&key);
        self.insert_under(key, row);
        copy
    }

    /// Detaches the buffer of a key if it is due, and leaves an empty buffer
    /// in its place. Returns nothing, and changes nothing, if it is not due.
    pub fn maybe_flush(&mut self, key: &PartitionKey) -> (flushed: Option<Vec<FlatRow>>)
        requires
            old(self).wf(),
        ensures
            final(self).wf(),
            final(self).flush_threshold() == old(self).flush_threshold(),
            flushed is Some <==> old(self)@.due(key@, old(self).flush_threshold()),
            flushed matches Some(rows) ==> rows@ == old(self)@.rows_of(key@) && final(self)@ == old(
                self,
            )@.detached(key@),
            flushed is None ==> final(self)@ == old(self)@,
            final(self)@ == old(self)@.after(
                (Call::MaybeFlush { key: key@ }),
                old(self).flush_threshold(),
            ),
    {
        let ghost before = self@;
        let ghost slots = slot_map(self.index);
        match index_get(&self.index, key) {
            Some(slot) => {
                let held: usize = self.buffers[slot].len();
                if held > 0 && held >= self.threshold {
                    let mut taken: Vec<FlatRow> = Vec::new();
                    std::mem::swap(&mut taken, &mut self.buffers[slot]);
                    proof {
                        let after = self@;
                        assert(after.order =~= before.order);
                        assert forall|k: KeyView| #[trigger]
                            after.rows.contains_key(k) implies after.rows[k] == before.detached(
                            key@,
                        ).rows[k] by {
                            if k != key@ {
                                assert(slots[k] != slot);
                            }
                        }
                        assert(after.rows =~= before.detached(key@).rows);
                    }
                    Some(taken)
                } else {
                    None
                }
            },
            None => None,
        }
    }

    /// Detaches every buffer that holds rows, in the order in which the keys
    /// were first seen, and leaves every key with an empty buffer.
    pub fn drain_all(&mut self) -> (out: Vec<(PartitionKey, Vec<FlatRow>)>)
        requires
            old(self).wf(),
        ensures
            final(self).wf(),
            final(self).flush_threshold() == old(self).flush_threshold(),
            batches_view(out@) == old(self)@.batches(),
            final(self)@ == old(self)@.drained(),
            final(self)@ == old(self)@.after(Call::DrainAll, old(self).flush_threshold()),
    {
        let ghost before = self@;
        let ghost slots = slot_map(self.index);
        let ghost held = self.buffers@;
        let mut out: Vec<(PartitionKey, Vec<FlatRow>)> = Vec::new();
        let n: usize = self.keys.len();
        let mut i: usize = 0;
        while i < n
            invariant
                i <= n,
                n == self.keys@.len(),
                self.wf(),
                self.threshold == old(self).threshold,
                slot_map(self.index) == slots,
                slots == slot_map(old(self).index),
                self.keys@ == old(self).keys@,
                self.buffers@.len() == n,
                held == old(self).buffers@,
                before == old(self)@,
                forall|k: int| 0 <= k < i ==> (#[trigger] self.buffers@[k])@.len() == 0,
                forall|k: int| i <= k < n ==> #[trigger] self.buffers@[k] == held[k],
                batches_view(out@) == batches_of(before.order.take(i as int), before.rows),
            decreases n - i,
        {
            proof {
                let next = before.order.take(i + 1);
                assert(next.drop_last() == before.order.take(i as int));
                assert(next.last() == self.keys@[i as int]@);
                assert(slots.contains_key(self.keys@[i as int]@));
                assert(before.rows[self.keys@[i as int]@] == held[i as int]@);
            }
            if self.buffers[i].len() > 0 {
                let mut taken: Vec<FlatRow> = Vec::new();
                std::mem::swap(&mut taken, &mut self.buffers[i]);
                let key = clone_key(&self.keys[i]);
                let ghost earlier = out@;
                out.push((key, taken));
                proof {
                    assert(batches_view(out@) =~= batches_view(earlier).push(
                        Bucket { key: key@, rows: taken@ },
                    ));
                }
            }
            i += 1;
        }
        proof {
            assert(before.order.take(n as int) == before.order);
            let after = self@;
            assert(after.order =~= before.order);
            assert forall|k: KeyView| #[trigger] after.rows.contains_key(k) implies after.rows[k]
                == Seq::<FlatRow>::empty() by {
                let slot = slots[k] as int;
                assert(self.buffers@[slot]@.len() == 0);
                assert(self.buffers@[slot]@ =~= Seq::<FlatRow>::empty());
            }
            assert(after.rows =~= before.drained().rows);
        }
        out
    }
}

/// Partitions a batch: gathers the rows by key, and returns the buffers in
/// the order in which their keys first occur, each with its rows in the
/// order in which they were given.
pub fn partition_records(records: Vec<FlatRow>) -> (out: Vec<(PartitionKey, Vec<FlatRow>)>)
    ensures
        batches_view(out@) == partitioned(records@).batches(),
{
    let mut acc = PartitionAccumulator::new(0);
    let mut rest = records;
    let n: usize = rest.len();
    let mut i: usize = 0;
    while i < n
        invariant
            i <= n,
            n == records@.len(),
            rest@.len() == n,
            acc.wf(),
            acc@ == partitioned(records@.take(i as int)),
            forall|k: int| i <= k < n ==> #[trigger] rest@[k] == records@[k],
        decreases n - i,
    {
        let mut row = FlatRow::new();
        std::mem::swap(&mut row, &mut rest[i]);
        proof {
            let next = records@.take(i + 1);
            assert(next.drop_last() == records@.take(i as int));
            assert(next.last() == row);
        }
        let _ = acc.insert(row);
        i += 1;
    }
    assert(records@.take(n as int) == records@);
    acc.drain_all()
}

/// Whether every waiting row stands under its own key.
pub open spec fn routed(ledger: Ledger) -> bool {
    forall|k: KeyView, i: int|
        ledger.rows.contains_key(k) && 0 <= i < ledger.rows[k].len() ==> key_of(
            #[trigger] ledger.rows[k][i],
        ) == k
}

/// Whether every row of every buffer has the buffer's key as its own.
pub open spec fn batches_routed(batches: Seq<Bucket>) -> bool {
    forall|b: int, i: int|
        0 <= b < batches.len() && 0 <= i < batches[b].rows.len() ==> key_of(
            #[trigger] batches[b].rows[i],
        ) == batches[b].key
}

/// Routing is kept by every call that inserts rows under their own keys:
/// rows that stand under their own keys before the call do so after it.
pub proof fn calls_keep_routing(ledger: Ledger, call: Call, threshold: usize)
    requires
        routed(ledger),
        call matches Call::Insert { key, row } ==> key == key_of(row),
    ensures
        routed(ledger.after(call, threshold)),
{
    let next = ledger.after(call, threshold);
    assert forall|k: KeyView, i: int|
        next.rows.contains_key(k) && 0 <= i < next.rows[k].len() implies key_of(
        #[trigger] next.rows[k][i],
    ) == k by {
        match call {
            Call::Insert { key, row } => {
                if k == key {
                    if i < ledger.rows_of(key).len() {
                        assert(next.rows[k][i] == ledger.rows[k][i]);
                    }
                } else {
                    assert(next.rows[k][i] == ledger.rows[k][i]);
                }
            },
            Call::MaybeFlush { key } => {
                if ledger.due(key, threshold) && k != key {
                    assert(next.rows[k][i] == ledger.rows[k][i]);
                } else if !ledger.due(key, threshold) {
                    assert(next.rows[k][i] == ledger.rows[k][i]);
                }
            },
            Call::DrainAll => {
            },
        }
    }
}

/// Where every waiting row stands under its own key, every buffer that a
/// drain returns holds rows of its own key only.
pub proof fn routed_batches(ledger: Ledger)
    requires
        ledger.wf(),
        routed(ledger),
    ensures
        batches_routed(ledger.batches()),
{
    batches_are_distinct_and_nonempty(ledger);
    let batches = ledger.batches();
    assert forall|b: int, i: int|
        0 <= b < batches.len() && 0 <= i < batches[b].rows.len() implies key_of(
        #[trigger] batches[b].rows[i],
    ) == batches[b].key by {
        let k = batches[b].key;
        assert(batches[b].rows[i] == ledger.rows[k][i]);
    }
}

/// A row that has none of the four key components gets the key that is made
/// of the sentinel alone.
pub proof fn missing_components_give_the_unknown_key(row: FlatRow)
    requires
        row.category is None,
        row.tag is None,
        row.country_code is None,
        row.h3_cell is None,
    ensures
        key_of(row) == unknown_key(),
{
}

/// Coalescing: two rows whose keys come out as the sentinel in all four
/// components have one and the same key and so gather in one buffer.
/// Inserting both adds both, in order, to what waits under that key.
pub proof fn unknown_rows_share_a_partition(a: FlatRow, b: FlatRow, ledger: Ledger)
    requires
        key_of(a) == unknown_key(),
        key_of(b) == unknown_key(),
    ensures
        key_of(a) == key_of(b),
        ledger.inserted(key_of(a), a).inserted(key_of(b), b).rows_of(unknown_key())
            == ledger.rows_of(unknown_key()).push(a).push(b),
{
}

/// Rows whose four key components have the same texts, or are missing alike,
/// get the same key.
pub proof fn same_components_same_key(a: FlatRow, b: FlatRow)
    requires
        component(a.category) == component(b.category),
        component(a.tag) == component(b.tag),
        component(a.country_code) == component(b.country_code),
        component(a.h3_cell) == component(b.h3_cell),
    ensures
        key_of(a) == key_of(b),
{
}

} // verus!
