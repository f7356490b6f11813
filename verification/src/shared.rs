//! The accumulator for several threads: one accumulator behind a lock, so
//! that callers need no lock of their own.
//!
//! Every call takes the lock, does its work on the accumulator and gives
//! the lock back. The calls of all threads therefore take effect one after
//! the other, each on the whole accumulator: a detach sees a complete
//! buffer, and a row that arrives afterwards lands in the fresh one. What a
//! call returns is stated as far as it holds whatever the other threads do.

use crate::index::PartitionKey;
use crate::ledger::{batches_are_distinct_and_nonempty, distinct_nonempty, Call};
use crate::partition::{
    batches_routed, batches_view, calls_keep_routing, key_of, routed, routed_batches,
    PartitionAccumulator,
};
use crate::row::FlatRow;
use vstd::prelude::*;
use vstd::rwlock::{RwLock, RwLockPredicate};

verus! {

/// What the lock guards: a well-formed accumulator of a fixed threshold in
/// which every waiting row stands under its own key.
pub struct Guarded {
    pub threshold: usize,
}

impl RwLockPredicate<PartitionAccumulator> for Guarded {
    open spec fn inv(self, acc: PartitionAccumulator) -> bool {
        &&& acc.wf()
        &&& acc.flush_threshold() == self.threshold
        &&& routed(acc@)
    }
}

/// An accumulator that many threads can use at once.
pub struct SharedAccumulator {
    lock: RwLock<PartitionAccumulator, Guarded>,
    threshold: usize,
}

impl SharedAccumulator {
    /// The lock guards accumulators of this accumulator's threshold.
    pub closed spec fn wf(&self) -> bool {
        self.lock.pred() == (Guarded { threshold: self.threshold })
    }

    /// The threshold that the accumulator was made with.
    pub closed spec fn flush_threshold(&self) -> usize {
        self.threshold
    }

    /// An accumulator that holds nothing. A buffer is due when it holds at
    /// least `threshold` rows, and at least one.
    pub fn new(threshold: usize) -> (shared: SharedAccumulator)
        ensures
            shared.wf(),
            shared.flush_threshold() == threshold,
    {
        let acc = PartitionAccumulator::new(threshold);
        SharedAccumulator { lock: RwLock::new(acc, Ghost(Guarded { threshold })), threshold }
    }

    /// The threshold that the accumulator was made with.
    pub fn threshold(&self) -> (t: usize)
        ensures
            t == self.flush_threshold(),
    {
        self.threshold
    }

    /// Adds a row to the buffer of its key, and returns that key.
    pub fn insert(&self, row: FlatRow) -> (key: PartitionKey)
        requires
            self.wf(),
        ensures
            key@ == key_of(row),
    {
        let (mut acc, handle) = self.lock.acquire_write();
        let ghost before = acc@;
        let key = acc.insert(row);
        proof {
            calls_keep_routing(
                before,
                Call::Insert { key: key_of(row), row: row },
                self.threshold,
            );
        }
        handle.release_write(acc);
        key
    }

    /// Adds a row to the buffer of its key and, in the same step, detaches
    /// that buffer if it is then due. No other caller comes between the two,
    /// so a buffer that is returned ends with the row that was given. With a
    /// threshold of at most one every row makes its buffer due, and a buffer
    /// is returned whatever the other threads do.
    pub fn insert_and_flush(&self, row: FlatRow) -> (r: (PartitionKey, Option<Vec<FlatRow>>))
        requires
            self.wf(),
        ensures
            r.0@ == key_of(row),
            r.1 matches Some(rows) ==> {
                &&& rows@.len() > 0
                &&& rows@.len() >= self.flush_threshold()
                &&& rows@.last() == row
                &&& forall|i: int|
                    0 <= i < rows@.len() ==> key_of(#[trigger] rows@[i]) == key_of(row)
            },
            r.1 is None ==> self.flush_threshold() > 1,
    {
        let (mut acc, handle) = self.lock.acquire_write();
        let ghost before = acc@;
        let key = acc.insert(row);
        let ghost grown = acc@;
        proof {
            calls_keep_routing(
                before,
                Call::Insert { key: key_of(row), row: row },
                self.threshold,
            );
            assert(grown.rows_of(key@) == before.rows_of(key@).push(row));
        }
        let flushed = acc.maybe_flush(&key);
        proof {
            calls_keep_routing(grown, Call::MaybeFlush { key: key@ }, self.threshold);
            if flushed is Some {
                let rows = flushed->Some_0;
                assert forall|i: int| 0 <= i < rows@.len() implies key_of(#[trigger] rows@[i])
                    == key_of(row) by {
                    assert(rows@[i] == grown.rows[key@][i]);
                }
            }
        }
        handle.release_write(acc);
        (key, flushed)
    }

    /// The number of rows that waited under a key at the moment of the call.
    pub fn pending(&self, key: &PartitionKey) -> usize
        requires
            self.wf(),
    {
        let handle = self.lock.acquire_read();
        let count = handle.borrow().pending(key);
        handle.release_read();
        count
    }

    /// Detaches the buffer of a key if it is due at the moment of the call.
    ///
    /// A buffer that is returned holds at least one row and at least as many
    /// as the threshold asks for, and only rows of the given key.
    pub fn maybe_flush(&self, key: &PartitionKey) -> (flushed: Option<Vec<FlatRow>>)
        requires
            self.wf(),
        ensures
            flushed matches Some(rows) ==> {
                &&& rows@.len() > 0
                &&& rows@.len() >= self.flush_threshold()
                &&& forall|i: int| 0 <= i < rows@.len() ==> key_of(#[trigger] rows@[i]) == key@
            },
    {
        let (mut acc, handle) = self.lock.acquire_write();
        let ghost before = acc@;
        let flushed = acc.maybe_flush(key);
        proof {
            calls_keep_routing(before, Call::MaybeFlush { key: key@ }, self.threshold);
            if flushed is Some {
                let rows = flushed->Some_0;
                assert forall|i: int| 0 <= i < rows@.len() implies key_of(#[trigger] rows@[i])
                    == key@ by {
                    assert(rows@[i] == before.rows[key@][i]);
                }
            }
        }
        handle.release_write(acc);
        flushed
    }

    /// Detaches every buffer that holds rows at the moment of the call.
    ///
    /// No buffer that is returned is empty, no key is returned twice, and
    /// every buffer holds only rows of its key.
    pub fn drain_all(&self) -> (out: Vec<(PartitionKey, Vec<FlatRow>)>)
        requires
            self.wf(),
        ensures
            distinct_nonempty(batches_view(out@)),
            batches_routed(batches_view(out@)),
    {
        let (mut acc, handle) = self.lock.acquire_write();
        let ghost before = acc@;
        proof {
            acc.ledger_wf();
        }
        let out = acc.drain_all();
        proof {
            calls_keep_routing(before, Call::DrainAll, self.threshold);
            batches_are_distinct_and_nonempty(before);
            routed_batches(before);
        }
        handle.release_write(acc);
        out
    }
}

} // verus!
