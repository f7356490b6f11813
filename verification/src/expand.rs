//! The two operations that every level of a tree is flattened with: the
//! rows of one repeated group, and the product of the rows of several groups.
//!
//! Both are written once, for any kind of row that can be blank and that can
//! be merged with another row of its kind.

use vstd::arithmetic::div_mod::lemma_fundamental_div_mod_converse;
use vstd::prelude::*;

verus! {

/// A flat row: a record of columns of which each may hold no value.
pub trait Row: Sized {
    /// The row in which every column holds "no value".
    spec fn blank() -> Self;

    /// The row that takes each column from `self` where `self` has a value
    /// there, and from `other` where it has none.
    spec fn merged(self, other: Self) -> Self;

    /// Merging with the blank row on either side changes nothing.
    proof fn blank_is_neutral(row: Self)
        ensures
            row.merged(Self::blank()) == row,
            Self::blank().merged(row) == row,
    ;

    /// A row with no value in any column.
    fn blank_row() -> (row: Self)
        ensures
            row == Self::blank(),
    ;

    /// Merges two rows column by column; `self` wins where both have a value.
    fn merge_with(&self, other: &Self) -> (row: Self)
        ensures
            row == self.merged(*other),
    ;
}

/// A node of a tree that can be flattened into rows.
pub trait Flatten: Sized {
    /// The kind of row that the node flattens into.
    type Row: Row;

    /// The rows that the node flattens into, in order.
    spec fn rows(&self) -> Seq<Self::Row>;

    /// No node flattens into nothing.
    proof fn rows_nonempty(&self)
        ensures
            self.rows().len() >= 1,
    ;

    /// Flattens the node. The result is never empty: a node without any data
    /// still gives one row without values.
    fn flatten(&self) -> (out: Vec<Self::Row>)
        ensures
            out@ == self.rows(),
            out@.len() >= 1,
    ;
}

/// The rows of the children of one group, one child after the other.
pub open spec fn concat_rows<T: Flatten>(children: Seq<T>) -> Seq<T::Row>
    decreases children.len(),
{
    if children.len() == 0 {
        Seq::empty()
    } else {
        concat_rows(children.drop_last()) + children.last().rows()
    }
}

/// The rows that one repeated group contributes: those of its children, or a
/// single blank row where the group is absent or empty.
pub open spec fn group_rows<T: Flatten>(group: Option<Vec<T>>) -> Seq<T::Row> {
    match group {
        Some(children) => if children@.len() == 0 {
            seq![T::Row::blank()]
        } else {
            concat_rows(children@)
        },
        None => seq![T::Row::blank()],
    }
}

/// The number of rows that a group contributes: what the group's length is
/// after an absent or empty group has been given its one blank row.
pub open spec fn group_size<T: Flatten>(group: Option<Vec<T>>) -> nat {
    group_rows(group).len()
}

/// The product of two row sequences: every row of `a`, in order, merged with
/// every row of `b`, in order. The rows of `a` vary slowest.
pub open spec fn cross<R: Row>(a: Seq<R>, b: Seq<R>) -> Seq<R> {
    Seq::new(
        (a.len() * b.len()) as nat,
        |k: int| a[k / (b.len() as int)].merged(b[k % (b.len() as int)]),
    )
}

/// A product has as many rows as its factors' lengths multiplied.
pub proof fn cross_len<R: Row>(a: Seq<R>, b: Seq<R>)
    ensures
        cross(a, b).len() == a.len() * b.len(),
        a.len() >= 1 && b.len() >= 1 ==> cross(a, b).len() >= 1,
{
    if a.len() >= 1 && b.len() >= 1 {
        assert(a.len() * b.len() >= 1) by (nonlinear_arith)
            requires
                a.len() >= 1,
                b.len() >= 1,
        ;
    }
}

/// The row of a product that stands for the `i`-th row of `a` and the `j`-th
/// row of `b`.
pub proof fn cross_index<R: Row>(a: Seq<R>, b: Seq<R>, i: int, j: int)
    requires
        0 <= i < a.len(),
        0 <= j < b.len(),
    ensures
        0 <= i * b.len() + j < cross(a, b).len(),
        cross(a, b)[i * b.len() + j] == a[i].merged(b[j]),
{
    let n = b.len() as int;
    lemma_fundamental_div_mod_converse(i * n + j, n, i, j);
    assert(i * n + j < a.len() * n) by (nonlinear_arith)
        requires
            0 <= i < a.len(),
            0 <= j < n,
    ;
    assert(0 <= i * n + j) by (nonlinear_arith)
        requires
            0 <= i,
            0 <= j,
            0 <= n,
    ;
}

/// A product with a single blank row on either side is the other factor.
pub proof fn cross_blank_is_neutral<R: Row>(rows: Seq<R>)
    ensures
        cross(seq![R::blank()], rows) == rows,
        cross(rows, seq![R::blank()]) == rows,
{
    let unit = seq![R::blank()];
    let n = rows.len() as int;
    assert(1 * n == n && n * 1 == n) by (nonlinear_arith);
    assert(cross(unit, rows).len() == n);
    assert(cross(rows, unit).len() == n);
    assert forall|k: int| 0 <= k < n implies #[trigger] cross(unit, rows)[k] == rows[k] by {
        lemma_fundamental_div_mod_converse(k, n, 0, k);
        assert(cross(unit, rows)[k] == unit[0].merged(rows[k]));
        R::blank_is_neutral(rows[k]);
    }
    assert forall|k: int| 0 <= k < n implies #[trigger] cross(rows, unit)[k] == rows[k] by {
        lemma_fundamental_div_mod_converse(k, 1, k, 0);
        assert(cross(rows, unit)[k] == rows[k].merged(unit[0]));
        R::blank_is_neutral(rows[k]);
    }
    assert(cross(unit, rows) =~= rows);
    assert(cross(rows, unit) =~= rows);
}

/// Every child contributes at least one row, so a group's concatenation is
/// at least as long as the group.
pub proof fn concat_rows_len<T: Flatten>(children: Seq<T>)
    ensures
        concat_rows(children).len() >= children.len(),
    decreases children.len(),
{
    if children.len() > 0 {
        concat_rows_len(children.drop_last());
        children.last().rows_nonempty();
    }
}

/// A group contributes at least one row, whatever it holds.
pub proof fn group_rows_nonempty<T: Flatten>(group: Option<Vec<T>>)
    ensures
        group_rows(group).len() >= 1,
{
    if let Some(children) = group {
        concat_rows_len(children@);
    }
}

/// Determinism: flattening a node twice gives the same rows in the same
/// order, since what comes out is a function of the node alone.
pub proof fn flatten_is_deterministic<T: Flatten>(node: T, first: Vec<T::Row>, second: Vec<T::Row>)
    requires
        first@ == node.rows(),
        second@ == node.rows(),
    ensures
        first@ == second@,
        first@.len() >= 1,
{
    node.rows_nonempty();
}

/// Flattens one repeated group.
pub fn flatten_group<T: Flatten>(group: &Option<Vec<T>>) -> (out: Vec<T::Row>)
    ensures
        out@ == group_rows(*group),
        out@.len() >= 1,
{
    let mut out: Vec<T::Row> = Vec::new();
    if let Some(children) = group {
        let n: usize = children.len();
        let mut i: usize = 0;
        while i < n
            invariant
                i <= n,
                n == children@.len(),
                out@ == concat_rows(children@.take(i as int)),
            decreases n - i,
        {
            let mut part = children[i].flatten();
            out.append(&mut part);
            proof {
                let next = children@.take(i + 1);
                assert(next.drop_last() == children@.take(i as int));
                assert(next.last() == children@[i as int]);
            }
            i += 1;
        }
        proof {
            assert(children@.take(n as int) == children@);
            concat_rows_len(children@);
        }
    }
    if out.len() == 0 {
        out.push(T::Row::blank_row());
    }
    out
}

/// Computes the product of two row sequences.
pub fn cross_rows<R: Row>(a: &Vec<R>, b: &Vec<R>) -> (out: Vec<R>)
    ensures
        out@ == cross(a@, b@),
{
    let mut out: Vec<R> = Vec::new();
    let ghost width = b@.len() as int;
    let mut i: usize = 0;
    while i < a.len()
        invariant
            i <= a.len(),
            width == b@.len(),
            out@.len() == i * width,
            forall|k: int|
                0 <= k < out@.len() ==> #[trigger] out@[k] == a@[k / width].merged(b@[k % width]),
        decreases a.len() - i,
    {
        let mut j: usize = 0;
        while j < b.len()
            invariant
                i < a.len(),
                j <= b.len(),
                width == b@.len(),
                out@.len() == i * width + j,
                forall|k: int|
                    0 <= k < out@.len() ==> #[trigger] out@[k] == a@[k / width].merged(
                        b@[k % width],
                    ),
            decreases b.len() - j,
        {
            proof {
                lemma_fundamental_div_mod_converse(i * width + j, width, i as int, j as int);
            }
            out.push(a[i].merge_with(&b[j]));
            j += 1;
        }
        assert((i + 1) * width == i * width + width) by (nonlinear_arith);
        i += 1;
    }
    assert(out@ =~= cross(a@, b@));
    out
}

} // verus!
