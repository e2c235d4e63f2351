//! A dense column of optional component values.
//!
//! One column exists per registered component kind; row `r` of every column
//! belongs to the entity stored at row `r` of the owning store's entity
//! sequence. An absent value means the entity has no component of that kind.

use vstd::prelude::*;

verus! {

/// A dense, type-homogeneous array of optional values, indexed by row.
pub struct ComponentsImpl<V> {
    cells: Vec<Option<V>>,
}

impl<V> View for ComponentsImpl<V> {
    type V = Seq<Option<V>>;

    closed spec fn view(&self) -> Seq<Option<V>> {
        self.cells@
    }
}

impl<V> ComponentsImpl<V> {
    /// An empty column.
    pub fn new() -> (r: ComponentsImpl<V>)
        ensures
            r@ =~= Seq::empty(),
    {
        ComponentsImpl { cells: Vec::new() }
    }

    /// The number of rows.
    pub fn len(&self) -> (r: usize)
        ensures
            r == self@.len(),
    {
        self.cells.len()
    }

    /// The value at the given row, if the row exists and holds one.
    pub fn get(&self, index: usize) -> (r: Option<&V>)
        ensures
            match r {
                Some(v) => index < self@.len() && self@[index as int] == Some(*v),
                None => index >= self@.len() || self@[index as int] is None,
            },
    {
        match self.cells.get(index) {
            Some(cell) => cell.as_ref(),
            None => None,
        }
    }

    /// Stores (or, with `None`, clears) the value at the given row.
    pub fn set(&mut self, index: usize, value: Option<V>)
        requires
            index < old(self)@.len(),
        ensures
            final(self)@ =~= old(self)@.update(index as int, value),
    {
        self.cells[index] = value;
    }

    /// Appends one row holding the given value.
    pub fn push(&mut self, value: Option<V>)
        ensures
            final(self)@ =~= old(self)@.push(value),
    {
        self.cells.push(value);
    }

    /// Removes the given row by moving the last row into its place.
    pub fn swap_remove(&mut self, index: usize)
        requires
            index < old(self)@.len(),
        ensures
            final(self)@ =~= old(self)@.update(index as int, old(self)@.last()).drop_last(),
    {
        let _ = self.cells.swap_remove(index);
    }

    /// A mutable borrow of the value at the given row, if the row exists
    /// and holds one.
    pub fn get_mut(&mut self, index: usize) -> (r: Option<&mut V>)
        requires
            index < old(self)@.len(),
        ensures
            match r {
                Some(v) => old(self)@[index as int] == Some(*v)
                    && final(self)@ =~= old(self)@.update(index as int, Some(*final(v))),
                None => old(self)@[index as int] is None && final(self)@ == old(self)@,
            },
    {
        self.cells[index].as_mut()
    }

    /// All rows of the column, in row order, for in-place edits.
    pub fn iter_mut(&mut self) -> (r: &mut Vec<Option<V>>)
        ensures
            r@ == old(self)@,
            final(r)@ == final(self)@,
    {
        &mut self.cells
    }

    /// All rows of the column, in row order.
    pub fn iter(&self) -> (r: &Vec<Option<V>>)
        ensures
            r@ == self@,
    {
        &self.cells
    }
}

} // verus!
