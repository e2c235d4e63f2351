//! Query composition over a store's rows.
//!
//! A query source yields, per row of the store, either a present value or
//! an absence marker: the live-entity view is present at every row, a
//! column view is present where the column holds a value. Sources compose
//! positionally: a pair is present at a row exactly when both members are.
//! The terminal [`query`] converts a source into the list of matching
//! rows, in row order; the values at those rows are read back through the
//! store's row accessors.

use crate::chunk::{lemma_live_counts, Chunk};
use crate::components::{ComponentsMut, ComponentsRef};
use crate::entities::Entities;
use vstd::prelude::*;

verus! {

/// A per-row source over one store, usable for composed iteration.
///
/// Row order is the store's dense row order for every source, which is
/// what makes positional composition correct; the store must not be
/// restructured (spawn or destroy) between acquiring the views and
/// evaluating the query.
pub trait Query<V> {
    /// Whether this source yields a present value at the given row.
    spec fn present_at(&self, chunk: &Chunk<V>, row: int) -> bool;

    /// Whether this source yields a present value at the given row.
    fn present(&self, chunk: &Chunk<V>, row: usize) -> (r: bool)
        requires
            chunk.wf(),
            (row as int) < chunk.num_rows(),
        ensures
            r == self.present_at(chunk, row as int),
    ;
}

impl<V> Query<V> for Entities {
    /// The live-entity view is present at every row.
    open spec fn present_at(&self, chunk: &Chunk<V>, row: int) -> bool {
        true
    }

    fn present(&self, chunk: &Chunk<V>, row: usize) -> (r: bool) {
        true
    }
}

impl<V> Query<V> for ComponentsRef {
    /// A shared column view is present where the column holds a value.
    open spec fn present_at(&self, chunk: &Chunk<V>, row: int) -> bool {
        chunk.registered(self.kind_spec()) && 0 <= row < chunk.cols()[self.kind_spec()].cells.len()
            && chunk.cols()[self.kind_spec()].cells[row] is Some
    }

    fn present(&self, chunk: &Chunk<V>, row: usize) -> (r: bool) {
        proof {
            lemma_live_counts(*chunk);
        }
        match chunk.cell(self, row) {
            Some(_) => true,
            None => false,
        }
    }
}

impl<V> Query<V> for ComponentsMut {
    /// An exclusive column view is present where the column holds a value.
    open spec fn present_at(&self, chunk: &Chunk<V>, row: int) -> bool {
        chunk.registered(self.kind_spec()) && 0 <= row < chunk.cols()[self.kind_spec()].cells.len()
            && chunk.cols()[self.kind_spec()].cells[row] is Some
    }

    fn present(&self, chunk: &Chunk<V>, row: usize) -> (r: bool) {
        proof {
            lemma_live_counts(*chunk);
        }
        match chunk.cell_w(self, row) {
            Some(_) => true,
            None => false,
        }
    }
}

impl<V, A: Query<V>, B: Query<V>> Query<V> for (A, B) {
    /// A pair is present at a row exactly when both members are.
    open spec fn present_at(&self, chunk: &Chunk<V>, row: int) -> bool {
        self.0.present_at(chunk, row) && self.1.present_at(chunk, row)
    }

    fn present(&self, chunk: &Chunk<V>, row: usize) -> (r: bool) {
        let a = self.0.present(chunk, row);
        if a {
            self.1.present(chunk, row)
        } else {
            false
        }
    }
}

/// The rows where the source is present, in ascending row order: the
/// filter-present terminal of a query.
pub fn query<V, Q: Query<V>>(chunk: &Chunk<V>, q: &Q) -> (rows: Vec<usize>)
    requires
        chunk.wf(),
    ensures
        forall|i: int, j: int| 0 <= i < j < rows@.len() ==> rows@[i] < rows@[j],
        forall|i: int| #![trigger rows@[i]] 0 <= i < rows@.len()
            ==> (rows@[i] as int) < chunk.num_rows() && q.present_at(chunk, rows@[i] as int),
        forall|row: int| 0 <= row < chunk.num_rows() && #[trigger] q.present_at(chunk, row)
            ==> rows@.contains(row as usize),
{
    let n = chunk.len();
    let mut rows: Vec<usize> = Vec::new();
    let mut row: usize = 0;
    while row < n
        invariant
            chunk.wf(),
            n == chunk.num_rows(),
            row <= n,
            forall|i: int, j: int| 0 <= i < j < rows@.len() ==> rows@[i] < rows@[j],
            forall|i: int| #![trigger rows@[i]] 0 <= i < rows@.len()
                ==> (rows@[i] as int) < row as int && q.present_at(chunk, rows@[i] as int),
            forall|r: int| 0 <= r < row as int && #[trigger] q.present_at(chunk, r)
                ==> rows@.contains(r as usize),
        decreases n - row,
    {
        if q.present(chunk, row) {
            let ghost pre_rows = rows@;
            rows.push(row);
            proof {
                assert(rows@ =~= pre_rows.push(row));
                assert forall|r: int| 0 <= r < row + 1 && #[trigger] q.present_at(chunk, r)
                    implies rows@.contains(r as usize)
                by {
                    if r < row as int {
                        assert(pre_rows.contains(r as usize));
                        let i = choose|i: int| 0 <= i < pre_rows.len()
                            && pre_rows[i] == r as usize;
                        assert(rows@[i] == r as usize);
                    } else {
                        assert(rows@[rows@.len() - 1] == r as usize);
                    }
                };
            }
        } else {
            proof {
                assert forall|r: int| 0 <= r < row + 1 && #[trigger] q.present_at(chunk, r)
                    implies rows@.contains(r as usize)
                by {
                    assert(r != row as int);
                };
            }
        }
        row = row + 1;
    }
    rows
}

/// Query composition absence rule: a composed pair of sources is present
/// at a row exactly when both members are present at that row, so the
/// rows [`query`] yields for the pair are exactly those present in both.
pub proof fn lemma_pair_absence<V, A: Query<V>, B: Query<V>>(
    pair: &(A, B),
    chunk: &Chunk<V>,
    row: int,
)
    ensures
        pair.present_at(chunk, row) <==> pair.0.present_at(chunk, row) && pair.1.present_at(
            chunk,
            row,
        ),
{
}

} // verus!
