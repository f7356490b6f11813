//! Flattening of nested records into rows, partitioned accumulation of the
//! rows with threshold flushes, and spatial-temporal ordering of each batch.
//!
//! The pieces, in the order in which data passes through them:
//!
//! - `assemble` gathers records from the events of a document reader;
//! - `tree` holds the nested record and flattens it, with `expand` for the
//!   rows of a group and the product of groups, and `row` for the flat row;
//!   `car` is a second, smaller tree that is flattened in the same way;
//! - `partition` assigns rows to partitions and gathers them until a buffer
//!   is due, `ledger` says what an accumulator holds and what each call does
//!   to it, `index` is the map from keys to buffers, and `shared` puts an
//!   accumulator behind a lock for several threads;
//! - `zorder` computes the ordering key of a row and sorts a batch by it,
//!   with `number` for the numbers that are read from text;
//! - `pipeline` strings these together for a driver;
//! - `column` reads rows column by column for a sink.
//!
//! Every function states what it returns. The few calls into code that is
//! not verified here stand in `index` and `number`, and one in `zorder`;
//! each says what it takes on trust.

pub mod assemble;
pub mod car;
pub mod column;
pub mod expand;
pub mod index;
pub mod ledger;
pub mod number;
pub mod partition;
pub mod pipeline;
pub mod row;
pub mod shared;
pub mod tree;
pub mod zorder;
