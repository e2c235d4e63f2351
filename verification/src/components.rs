//! The component registry: one latched column per registered kind.
//!
//! Component kinds are identified by a `u64` key chosen by the embedding
//! application when the store is built. Each kind owns one dense column of
//! optional values and a non-blocking reader/writer latch: any number of
//! shared views, or exactly one exclusive view, may be outstanding at a
//! time. A conflicting request fails immediately with
//! [`Error::ComponentAlreadyBorrowedMutably`] rather than waiting, and a
//! request for an undeclared kind fails with
//! [`Error::ComponentNotRegistered`].

use crate::column::ComponentsImpl;
use crate::table::{table_entries, SlotTable};
use crate::Error;
use vstd::prelude::*;

verus! {

/// One registered column together with its reader/writer latch.
struct LatchedColumn<V> {
    kind: u64,
    values: ComponentsImpl<V>,
    readers: usize,
    writer: bool,
}

/// The state of one column as the contracts see it: its cells in row order
/// and its latch.
#[verifier::ext_equal]
pub ghost struct ColumnModel<V> {
    pub cells: Seq<Option<V>>,
    pub readers: nat,
    pub writer: bool,
}

spec fn column_model<V>(c: LatchedColumn<V>) -> ColumnModel<V> {
    ColumnModel { cells: c.values@, readers: c.readers as nat, writer: c.writer }
}

/// A shared (read) view of one component kind.
///
/// Obtained from [`crate::chunk::Chunk::components_ref`]; the column's latch
/// counts it as one outstanding reader until it is released.
pub struct ComponentsRef {
    kind: u64,
}

impl ComponentsRef {
    /// The component kind this view grants access to.
    pub closed spec fn kind_spec(self) -> u64 {
        self.kind
    }

    /// The component kind this view grants access to.
    pub fn kind(&self) -> (r: u64)
        ensures
            r == self.kind_spec(),
    {
        self.kind
    }
}

/// An exclusive (write) view of one component kind.
///
/// Obtained from [`crate::chunk::Chunk::components_mut`]; the column's latch
/// marks it as the single outstanding writer until it is released.
pub struct ComponentsMut {
    kind: u64,
}

impl ComponentsMut {
    /// The component kind this view grants access to.
    pub closed spec fn kind_spec(self) -> u64 {
        self.kind
    }

    /// The component kind this view grants access to.
    pub fn kind(&self) -> (r: u64)
        ensures
            r == self.kind_spec(),
    {
        self.kind
    }
}

/// Every registered component column of one store.
pub struct ChunkComponents<V> {
    registry: SlotTable,
    columns: Vec<LatchedColumn<V>>,
}

impl<V> ChunkComponents<V> {
    /// The mapping from registered kind to column storage slot.
    pub closed spec fn registry_map(self) -> Map<u64, usize> {
        table_entries(self.registry)
    }

    spec fn slots(self) -> Seq<LatchedColumn<V>> {
        self.columns@
    }

    /// The registered columns, by kind.
    pub closed spec fn cols(self) -> Map<u64, ColumnModel<V>> {
        Map::new(
            |k: u64| self.registry_map().contains_key(k),
            |k: u64| column_model(self.slots()[self.registry_map()[k] as int]),
        )
    }

    /// Whether the kind was declared when the store was built.
    pub open spec fn registered(self, kind: u64) -> bool {
        self.cols().contains_key(kind)
    }

    /// Whether a shared view of the kind can be granted: the kind is
    /// registered and no exclusive view is outstanding.
    pub open spec fn can_read(self, kind: u64) -> bool {
        self.registered(kind) && !self.cols()[kind].writer
    }

    /// Whether an exclusive view of the kind can be granted: the kind is
    /// registered and no view at all is outstanding.
    pub open spec fn can_write(self, kind: u64) -> bool {
        self.registered(kind) && !self.cols()[kind].writer && self.cols()[kind].readers == 0
    }

    /// Whether no view of any kind is outstanding.
    pub open spec fn all_free(self) -> bool {
        forall|k: u64| #[trigger] self.cols().contains_key(k)
            ==> self.cols()[k].readers == 0 && !self.cols()[k].writer
    }

    /// Every column has exactly this many rows.
    pub open spec fn uniform(self, n: nat) -> bool {
        forall|k: u64| #[trigger] self.cols().contains_key(k) ==> self.cols()[k].cells.len() == n
    }

    /// The kind registry and the column storage are mutually consistent.
    pub closed spec fn wf(self) -> bool {
        &&& forall|k: u64| #[trigger] self.registry_map().contains_key(k)
            ==> (self.registry_map()[k] as int) < self.slots().len()
                && self.slots()[self.registry_map()[k] as int].kind == k
        &&& forall|s: int| #![trigger self.slots()[s]] 0 <= s < self.slots().len()
            ==> self.registry_map().contains_key(self.slots()[s].kind)
                && self.registry_map()[self.slots()[s].kind] as int == s
    }

    /// Whether the kind was declared for this store.
    pub(crate) fn contains_kind(&self, kind: u64) -> (r: bool)
        ensures
            r == self.registered(kind),
    {
        match self.registry.get(kind) {
            Some(_) => true,
            None => false,
        }
    }

    /// The reader count and writer mark of the kind's latch, or `None` if
    /// the kind is not registered.
    pub(crate) fn latch(&self, kind: u64) -> (r: Option<(usize, bool)>)
        requires
            self.wf(),
        ensures
            r matches Some(g) ==> self.registered(kind)
                && g.0 == self.cols()[kind].readers && g.1 == self.cols()[kind].writer,
            r is None <==> !self.registered(kind),
    {
        match self.registry.get(kind) {
            None => None,
            Some(slot) => {
                proof {
                    assert(self.registry_map().contains_key(kind));
                    assert((slot as int) < self.slots().len());
                }
                Some((self.columns[slot].readers, self.columns[slot].writer))
            },
        }
    }

    /// The kind of some column with an outstanding view, or `None` if no
    /// view of any kind is outstanding.
    pub fn busy_kind(&self) -> (r: Option<u64>)
        requires
            self.wf(),
        ensures
            r is None ==> self.all_free(),
            r matches Some(k) ==> self.registered(k)
                && (self.cols()[k].readers > 0 || self.cols()[k].writer),
    {
        let mut s: usize = 0;
        while s < self.columns.len()
            invariant
                self.wf(),
                s <= self.slots().len(),
                forall|i: int| #![trigger self.slots()[i]] 0 <= i < s
                    ==> self.slots()[i].readers == 0 && !self.slots()[i].writer,
            decreases self.slots().len() - s,
        {
            let readers = self.columns[s].readers;
            let writer = self.columns[s].writer;
            if readers > 0 || writer {
                proof {
                    assert(self.registry_map().contains_key(self.slots()[s as int].kind));
                }
                return Some(self.columns[s].kind);
            }
            s = s + 1;
        }
        proof {
            assert forall|k: u64| #[trigger] self.cols().contains_key(k) implies
                self.cols()[k].readers == 0 && !self.cols()[k].writer
            by {
                assert(self.slots()[self.registry_map()[k] as int].kind == k);
            };
        }
        None
    }

    /// Appends one absent row to every registered column.
    pub(crate) fn push_none(&mut self)
        requires
            old(self).wf(),
            old(self).all_free(),
        ensures
            final(self).wf(),
            final(self).all_free(),
            final(self).registry_map() == old(self).registry_map(),
            final(self).cols() =~= old(self).cols().map_values(
                |m: ColumnModel<V>| ColumnModel { cells: m.cells.push(None), ..m },
            ),
    {
        let n = self.columns.len();
        let mut s: usize = 0;
        while s < n
            invariant
                n == self.slots().len(),
                s <= n,
                self.registry_map() == old(self).registry_map(),
                self.slots().len() == old(self).slots().len(),
                forall|i: int| #![trigger self.slots()[i]] 0 <= i < n ==> {
                    &&& self.slots()[i].kind == old(self).slots()[i].kind
                    &&& self.slots()[i].readers == old(self).slots()[i].readers
                    &&& self.slots()[i].writer == old(self).slots()[i].writer
                    &&& (i < s ==> self.slots()[i].values@
                        =~= old(self).slots()[i].values@.push(None))
                    &&& (i >= s ==> self.slots()[i].values@ == old(self).slots()[i].values@)
                },
            decreases n - s,
        {
            self.columns[s].values.push(None);
            s = s + 1;
        }
        proof {
            lemma_same_layout_wf(*old(self), *self);
            assert(final(self).cols() =~= old(self).cols().map_values(
                |m: ColumnModel<V>| ColumnModel { cells: m.cells.push(None), ..m },
            ));
        }
    }

    /// Removes the given row from every registered column by moving each
    /// column's last row into its place.
    pub(crate) fn swap_remove(&mut self, row: usize, Ghost(n_rows): Ghost<nat>)
        requires
            old(self).wf(),
            old(self).all_free(),
            old(self).uniform(n_rows),
            row < n_rows,
        ensures
            final(self).wf(),
            final(self).all_free(),
            final(self).registry_map() == old(self).registry_map(),
            final(self).cols() =~= old(self).cols().map_values(
                |m: ColumnModel<V>| ColumnModel {
                    cells: m.cells.update(row as int, m.cells.last()).drop_last(),
                    ..m
                },
            ),
    {
        let n = self.columns.len();
        let mut s: usize = 0;
        while s < n
            invariant
                n == self.slots().len(),
                s <= n,
                old(self).uniform(n_rows),
                row < n_rows,
                self.registry_map() == old(self).registry_map(),
                self.slots().len() == old(self).slots().len(),
                old(self).wf(),
                forall|i: int| #![trigger self.slots()[i]] 0 <= i < n ==> {
                    &&& self.slots()[i].kind == old(self).slots()[i].kind
                    &&& self.slots()[i].readers == old(self).slots()[i].readers
                    &&& self.slots()[i].writer == old(self).slots()[i].writer
                    &&& (i < s ==> self.slots()[i].values@ =~= old(self).slots()[i].values@.update(
                        row as int,
                        old(self).slots()[i].values@.last(),
                    ).drop_last())
                    &&& (i >= s ==> self.slots()[i].values@ == old(self).slots()[i].values@)
                },
            decreases n - s,
        {
            proof {
                assert(old(self).registry_map().contains_key(old(self).slots()[s as int].kind));
                assert(old(self).cols().contains_key(old(self).slots()[s as int].kind));
                assert(old(self).cols()[old(self).slots()[s as int].kind].cells.len() == n_rows);
            }
            self.columns[s].values.swap_remove(row);
            s = s + 1;
        }
        proof {
            lemma_same_layout_wf(*old(self), *self);
            assert(final(self).cols() =~= old(self).cols().map_values(
                |m: ColumnModel<V>| ColumnModel {
                    cells: m.cells.update(row as int, m.cells.last()).drop_last(),
                    ..m
                },
            ));
        }
    }

    /// Grants a shared view of the kind, or reports why it cannot.
    pub(crate) fn acquire_ref(&mut self, kind: u64) -> (r: Result<ComponentsRef, Error>)
        requires
            old(self).wf(),
            old(self).registered(kind) ==> old(self).cols()[kind].readers < usize::MAX,
        ensures
            final(self).wf(),
            r is Ok <==> old(self).can_read(kind),
            r matches Ok(tok) ==> tok.kind_spec() == kind
                && final(self).cols() =~= old(self).cols().insert(
                    kind,
                    ColumnModel { readers: old(self).cols()[kind].readers + 1, ..old(self).cols()[kind] },
                ),
            (r matches Err(e) && e == Error::ComponentNotRegistered(kind))
                <==> !old(self).registered(kind),
            (r matches Err(e) && e == Error::ComponentAlreadyBorrowedMutably(kind))
                <==> old(self).registered(kind) && old(self).cols()[kind].writer,
            r is Err ==> final(self).cols() == old(self).cols(),
            final(self).registry_map() == old(self).registry_map(),
    {
        let slot = match self.registry.get(kind) {
            None => {
                return Err(Error::ComponentNotRegistered(kind));
            },
            Some(slot) => slot,
        };
        proof {
            assert(self.registry_map().contains_key(kind));
            assert((slot as int) < self.slots().len());
        }
        if self.columns[slot].writer {
            return Err(Error::ComponentAlreadyBorrowedMutably(kind));
        }
        let new_readers = self.columns[slot].readers + 1;
        self.columns[slot].readers = new_readers;
        proof {
            lemma_same_layout_wf(*old(self), *self);
            assert(final(self).cols() =~= old(self).cols().insert(
                kind,
                ColumnModel { readers: old(self).cols()[kind].readers + 1, ..old(self).cols()[kind] },
            ));
        }
        Ok(ComponentsRef { kind })
    }

    /// Grants an exclusive view of the kind, or reports why it cannot.
    pub(crate) fn acquire_mut(&mut self, kind: u64) -> (r: Result<ComponentsMut, Error>)
        requires
            old(self).wf(),
        ensures
            final(self).wf(),
            r is Ok <==> old(self).can_write(kind),
            r matches Ok(tok) ==> tok.kind_spec() == kind
                && final(self).cols() =~= old(self).cols().insert(
                    kind,
                    ColumnModel { writer: true, ..old(self).cols()[kind] },
                ),
            (r matches Err(e) && e == Error::ComponentNotRegistered(kind))
                <==> !old(self).registered(kind),
            (r matches Err(e) && e == Error::ComponentAlreadyBorrowedMutably(kind))
                <==> old(self).registered(kind)
                    && (old(self).cols()[kind].writer || old(self).cols()[kind].readers > 0),
            r is Err ==> final(self).cols() == old(self).cols(),
            final(self).registry_map() == old(self).registry_map(),
    {
        let slot = match self.registry.get(kind) {
            None => {
                return Err(Error::ComponentNotRegistered(kind));
            },
            Some(slot) => slot,
        };
        proof {
            assert(self.registry_map().contains_key(kind));
            assert((slot as int) < self.slots().len());
        }
        if self.columns[slot].writer || self.columns[slot].readers > 0 {
            return Err(Error::ComponentAlreadyBorrowedMutably(kind));
        }
        self.columns[slot].writer = true;
        proof {
            lemma_same_layout_wf(*old(self), *self);
            assert(final(self).cols() =~= old(self).cols().insert(
                kind,
                ColumnModel { writer: true, ..old(self).cols()[kind] },
            ));
        }
        Ok(ComponentsMut { kind })
    }

    /// Releases a shared view: one outstanding reader leaves the latch.
    pub(crate) fn release_ref(&mut self, tok: ComponentsRef)
        requires
            old(self).wf(),
        ensures
            final(self).wf(),
            final(self).registry_map() == old(self).registry_map(),
            final(self).cols() =~= (if old(self).registered(tok.kind_spec())
                && old(self).cols()[tok.kind_spec()].readers > 0 {
                old(self).cols().insert(
                    tok.kind_spec(),
                    ColumnModel {
                        readers: (old(self).cols()[tok.kind_spec()].readers - 1) as nat,
                        ..old(self).cols()[tok.kind_spec()]
                    },
                )
            } else {
                old(self).cols()
            }),
    {
        let kind = tok.kind;
        if let Some(slot) = self.registry.get(kind) {
            proof {
                assert(self.registry_map().contains_key(kind));
                assert((slot as int) < self.slots().len());
            }
            if self.columns[slot].readers > 0 {
                let new_readers = self.columns[slot].readers - 1;
                self.columns[slot].readers = new_readers;
                proof {
                    lemma_same_layout_wf(*old(self), *self);
                    assert(final(self).cols() =~= old(self).cols().insert(
                        kind,
                        ColumnModel {
                            readers: (old(self).cols()[kind].readers - 1) as nat,
                            ..old(self).cols()[kind]
                        },
                    ));
                }
            } else {
                proof {
                    assert(final(self).cols() =~= old(self).cols());
                }
            }
        } else {
            proof {
                assert(final(self).cols() =~= old(self).cols());
            }
        }
    }

    /// Releases an exclusive view: the latch's writer mark is cleared.
    pub(crate) fn release_mut(&mut self, tok: ComponentsMut)
        requires
            old(self).wf(),
        ensures
            final(self).wf(),
            final(self).registry_map() == old(self).registry_map(),
            final(self).cols() =~= (if old(self).registered(tok.kind_spec()) {
                old(self).cols().insert(
                    tok.kind_spec(),
                    ColumnModel { writer: false, ..old(self).cols()[tok.kind_spec()] },
                )
            } else {
                old(self).cols()
            }),
    {
        let kind = tok.kind;
        if let Some(slot) = self.registry.get(kind) {
            proof {
                assert(self.registry_map().contains_key(kind));
                assert((slot as int) < self.slots().len());
            }
            self.columns[slot].writer = false;
            proof {
                lemma_same_layout_wf(*old(self), *self);
                assert(final(self).cols() =~= old(self).cols().insert(
                    kind,
                    ColumnModel { writer: false, ..old(self).cols()[kind] },
                ));
            }
        } else {
            proof {
                assert(final(self).cols() =~= old(self).cols());
            }
        }
    }

    /// The value stored for the kind at the row, if any.
    pub(crate) fn col_get(&self, kind: u64, row: usize) -> (r: Option<&V>)
        requires
            self.wf(),
        ensures
            match r {
                Some(v) => self.registered(kind) && (row as int) < self.cols()[kind].cells.len()
                    && self.cols()[kind].cells[row as int] == Some(*v),
                None => !self.registered(kind)
                    || (row as int) >= self.cols()[kind].cells.len()
                    || self.cols()[kind].cells[row as int] is None,
            },
    {
        match self.registry.get(kind) {
            None => None,
            Some(slot) => {
                proof {
                    assert(self.registry_map().contains_key(kind));
                    assert((slot as int) < self.slots().len());
                }
                self.columns[slot].values.get(row)
            },
        }
    }

    /// Stores (or, with `None`, clears) the value for the kind at the row.
    pub(crate) fn col_set(&mut self, kind: u64, row: usize, value: Option<V>)
        requires
            old(self).wf(),
            old(self).registered(kind),
            (row as int) < old(self).cols()[kind].cells.len(),
        ensures
            final(self).wf(),
            final(self).registry_map() == old(self).registry_map(),
            final(self).cols() =~= old(self).cols().insert(
                kind,
                ColumnModel {
                    cells: old(self).cols()[kind].cells.update(row as int, value),
                    ..old(self).cols()[kind]
                },
            ),
    {
        let slot = self.registry.get(kind).unwrap();
        proof {
            assert(self.registry_map().contains_key(kind));
            assert((slot as int) < self.slots().len());
        }
        self.columns[slot].values.set(row, value);
        proof {
            lemma_same_layout_wf(*old(self), *self);
            assert(final(self).cols() =~= old(self).cols().insert(
                kind,
                ColumnModel {
                    cells: old(self).cols()[kind].cells.update(row as int, value),
                    ..old(self).cols()[kind]
                },
            ));
        }
    }
}

/// Two component stores with the same registry, the same number of columns
/// and the same kind in every slot are either both consistent or both not.
proof fn lemma_same_layout_wf<V>(pre: ChunkComponents<V>, post: ChunkComponents<V>)
    requires
        pre.wf(),
        post.registry_map() == pre.registry_map(),
        post.slots().len() == pre.slots().len(),
        forall|s: int| #![trigger post.slots()[s]] 0 <= s < post.slots().len()
            ==> post.slots()[s].kind == pre.slots()[s].kind,
    ensures
        post.wf(),
{
    assert forall|k: u64| #[trigger] post.registry_map().contains_key(k) implies
        (post.registry_map()[k] as int) < post.slots().len()
            && post.slots()[post.registry_map()[k] as int].kind == k
    by {
        assert(pre.registry_map().contains_key(k));
    };
    assert forall|s: int| #![trigger post.slots()[s]] 0 <= s < post.slots().len() implies
        post.registry_map().contains_key(post.slots()[s].kind)
            && post.registry_map()[post.slots()[s].kind] as int == s
    by {
        assert(pre.slots()[s].kind == post.slots()[s].kind);
    };
}

/// A builder declaring the component kinds of a store before it is built.
pub struct ComponentsBuilder<V> {
    components: ChunkComponents<V>,
}

impl<V> ComponentsBuilder<V> {
    /// The kinds declared so far, each with an empty, free column.
    pub closed spec fn cols(self) -> Map<u64, ColumnModel<V>> {
        self.components.cols()
    }

    /// The number of column slots allocated so far.
    pub closed spec fn slot_count(self) -> nat {
        self.components.slots().len()
    }

    /// All declared columns are empty and their latches are free.
    pub closed spec fn wf(self) -> bool {
        &&& self.components.wf()
        &&& self.components.all_free()
        &&& self.components.uniform(0)
    }

    /// A builder with no component kind declared.
    pub fn new() -> (r: ComponentsBuilder<V>)
        ensures
            r.wf(),
            r.cols() =~= Map::empty(),
            r.slot_count() == 0,
    {
        ComponentsBuilder {
            components: ChunkComponents { registry: SlotTable::new(), columns: Vec::new() },
        }
    }

    /// Declares a component kind. Declaring a kind again resets it to an
    /// empty column.
    pub fn with_component(self, kind: u64) -> (r: ComponentsBuilder<V>)
        requires
            self.wf(),
        ensures
            r.wf(),
            r.cols() =~= self.cols().insert(
                kind,
                ColumnModel { cells: Seq::empty(), readers: 0, writer: false },
            ),
            r.slot_count() <= self.slot_count() + 1,
    {
        let mut this = self;
        let ghost pre = this;
        let fresh = LatchedColumn { kind, values: ComponentsImpl::new(), readers: 0, writer: false };
        match this.components.registry.get(kind) {
            Some(slot) => {
                proof {
                    assert(pre.components.registry_map().contains_key(kind));
                    assert((slot as int) < pre.components.slots().len());
                }
                this.components.columns[slot] = fresh;
                proof {
                    lemma_same_layout_wf(pre.components, this.components);
                }
            },
            None => {
                let slot = this.components.columns.len();
                this.components.columns.push(fresh);
                let _ = this.components.registry.insert(kind, slot);
                proof {
                    assert forall|k: u64|
                        #[trigger] this.components.registry_map().contains_key(k)
                    implies
                        (this.components.registry_map()[k] as int)
                            < this.components.slots().len()
                            && this.components.slots()[
                                this.components.registry_map()[k] as int
                            ].kind == k
                    by {
                        if k != kind {
                            assert(pre.components.registry_map().contains_key(k));
                        }
                    };
                    assert forall|s: int| #![trigger this.components.slots()[s]]
                        0 <= s < this.components.slots().len()
                    implies
                        this.components.registry_map().contains_key(
                            this.components.slots()[s].kind,
                        ) && this.components.registry_map()[
                            this.components.slots()[s].kind
                        ] as int == s
                    by {
                        if s < pre.components.slots().len() {
                            assert(this.components.slots()[s]
                                == pre.components.slots()[s]);
                            assert(pre.components.registry_map().contains_key(
                                pre.components.slots()[s].kind,
                            ));
                            assert(pre.components.slots()[s].kind != kind);
                        }
                    };
                }
            },
        }
        proof {
            assert(this.components.wf());
            assert(this.components.all_free() && this.components.uniform(0)) by {
                assert forall|k: u64| #[trigger] this.components.cols().contains_key(k) implies
                    this.components.cols()[k].readers == 0
                        && !this.components.cols()[k].writer
                        && this.components.cols()[k].cells.len() == 0
                by {
                    if k != kind {
                        assert(pre.components.cols().contains_key(k));
                        assert(this.components.cols()[k] == pre.components.cols()[k]);
                    }
                };
            };
            assert(this.components.cols() =~= pre.components.cols().insert(
                kind,
                ColumnModel { cells: Seq::empty(), readers: 0, writer: false },
            ));
        }
        this
    }

    /// Finishes the declaration and yields the component store.
    pub fn build(self) -> (r: ChunkComponents<V>)
        requires
            self.wf(),
        ensures
            r.wf(),
            r.all_free(),
            r.uniform(0),
            r.cols() == self.cols(),
    {
        self.components
    }
}

} // verus!
