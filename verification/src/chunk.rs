//! The store: entity index, component columns and store-scoped items.
//!
//! A [`Chunk`] is built once, with every component kind and every item kind
//! declared up front, and is then driven by spawns, destroys, component
//! edits and view grants. The structural invariant holds at all times: the
//! entity index and the dense entity sequence are a bijection, and every
//! registered column has exactly one row per live entity.

use crate::components::{
    ChunkComponents, ColumnModel, ComponentsBuilder, ComponentsMut, ComponentsRef,
};
use crate::entities::{ChunkEntities, Entity};
use crate::resources::{ItemMut, ItemRef, ResourceModel, Resources, ResourcesBuilder};
use crate::Error;
use vstd::prelude::*;
use vstd::seq_lib::*;

verus! {

/// One entity-component store.
pub struct Chunk<V> {
    pub(crate) entities: ChunkEntities,
    pub(crate) components: ChunkComponents<V>,
    pub(crate) items: Resources<V>,
}

impl<V> Chunk<V> {
    /// The dense sequence of live entities, in row order.
    pub closed spec fn ids(self) -> Seq<Entity> {
        self.entities.ids()
    }

    /// The mapping from live identifier to its current row.
    pub closed spec fn index_map(self) -> Map<u64, usize> {
        self.entities.index_map()
    }

    /// The identifier the next spawn will return.
    pub closed spec fn next_id(self) -> u64 {
        self.entities.next_id()
    }

    /// The registered component columns, by kind.
    pub closed spec fn cols(self) -> Map<u64, ColumnModel<V>> {
        self.components.cols()
    }

    /// The store-scoped items, by kind.
    pub closed spec fn item_map(self) -> Map<u64, ResourceModel<V>> {
        self.items.res()
    }

    /// The number of live entities, which is also the number of rows of
    /// every registered column.
    pub open spec fn num_rows(self) -> nat {
        self.ids().len()
    }

    /// Whether the entity is live in this store.
    pub open spec fn live(self, e: Entity) -> bool {
        self.index_map().contains_key(e.0)
    }

    /// The row of a live entity.
    pub open spec fn row_of(self, e: Entity) -> int {
        self.index_map()[e.0] as int
    }

    /// Whether the component kind was declared when the store was built.
    pub open spec fn registered(self, kind: u64) -> bool {
        self.cols().contains_key(kind)
    }

    /// Whether a shared view of the component kind can be granted: the
    /// kind is registered and no exclusive view is outstanding.
    pub open spec fn can_read(self, kind: u64) -> bool {
        self.registered(kind) && !self.cols()[kind].writer
    }

    /// Whether an exclusive view of the component kind can be granted: the
    /// kind is registered and no view at all is outstanding.
    pub open spec fn can_write(self, kind: u64) -> bool {
        self.registered(kind) && !self.cols()[kind].writer && self.cols()[kind].readers == 0
    }

    /// Whether no component view of any kind is outstanding.
    pub open spec fn cols_all_free(self) -> bool {
        forall|k: u64| #[trigger] self.cols().contains_key(k)
            ==> self.cols()[k].readers == 0 && !self.cols()[k].writer
    }

    /// The component value the store holds for the entity under the kind,
    /// or `None` if the entity is not live, the kind is not registered, or
    /// the slot is empty.
    pub open spec fn component_of(self, kind: u64, e: Entity) -> Option<V> {
        if self.live(e) && self.registered(kind)
            && 0 <= self.row_of(e) < self.cols()[kind].cells.len() {
            self.cols()[kind].cells[self.row_of(e)]
        } else {
            None
        }
    }

    /// The structural invariant: index and dense sequence are a bijection,
    /// every column has one row per live entity, and the registries are
    /// consistent.
    pub closed spec fn wf(self) -> bool {
        &&& self.entities.wf()
        &&& self.components.wf()
        &&& self.components.uniform(self.num_rows())
        &&& self.items.wf()
    }

    /// The number of live entities.
    pub fn len(&self) -> (r: usize)
        ensures
            r == self.num_rows(),
    {
        self.entities.len()
    }

    /// The identifier the next spawn will return. Identifiers are assigned
    /// monotonically and never reused.
    pub fn next_entity_id(&self) -> (r: u64)
        ensures
            r == self.next_id(),
    {
        self.entities.next_entity_id()
    }

    /// The entity's current row, or `None` if the identifier is unknown or
    /// already destroyed.
    pub fn index(&self, entity: Entity) -> (r: Option<usize>)
        ensures
            r matches Some(row) ==> self.live(entity) && row as int == self.row_of(entity),
            r is None ==> !self.live(entity),
    {
        self.entities.index(entity)
    }

    /// The entity stored at the given row, if the row exists.
    pub fn entity_at(&self, row: usize) -> (r: Option<Entity>)
        ensures
            r matches Some(e) ==> (row as int) < self.ids().len() && self.ids()[row as int] == e,
            r is None ==> (row as int) >= self.ids().len(),
    {
        let v = self.entities.iter();
        if row < v.len() {
            Some(v[row])
        } else {
            None
        }
    }

    /// Allocates the next identifier, appends one absent slot to every
    /// registered column, and inserts the new entity at the trailing row.
    ///
    /// Fails, changing nothing, if any column view is outstanding: a
    /// borrowed column must not silently fall out of step with the entity
    /// count.
    pub fn spawn(&mut self) -> (r: Result<Entity, Error>)
        requires
            old(self).wf(),
            old(self).next_id() < u64::MAX,
        ensures
            final(self).wf(),
            r is Ok <==> old(self).cols_all_free(),
            r matches Ok(e) ==> {
                &&& e.0 == old(self).next_id()
                &&& !old(self).live(e)
                &&& final(self).live(e)
                &&& final(self).ids() =~= old(self).ids().push(e)
                &&& final(self).index_map() =~= old(self).index_map().insert(
                    e.0,
                    old(self).ids().len() as usize,
                )
                &&& final(self).next_id() == old(self).next_id() + 1
                &&& final(self).cols() =~= old(self).cols().map_values(
                    |m: ColumnModel<V>| ColumnModel { cells: m.cells.push(None), ..m },
                )
                &&& final(self).item_map() == old(self).item_map()
            },
            r matches Err(e) ==> (exists|k: u64| #[trigger] old(self).registered(k)
                && e == Error::ComponentAlreadyBorrowedMutably(k)
                && (old(self).cols()[k].readers > 0 || old(self).cols()[k].writer)),
            r is Err ==> unchanged(*old(self), *final(self)),
    {
        if let Some(k) = self.components.busy_kind() {
            proof {
                assert(old(self).cols().contains_key(k));
                assert(old(self).registered(k)
                    && (old(self).cols()[k].readers > 0 || old(self).cols()[k].writer));
            }
            return Err(Error::ComponentAlreadyBorrowedMutably(k));
        }
        proof {
            assert forall|k: u64| #[trigger] old(self).cols().contains_key(k) implies
                old(self).cols()[k].readers == 0 && !old(self).cols()[k].writer
            by {
                assert(self.components.cols().contains_key(k));
            };
        }
        let e = self.entities.spawn();
        self.components.push_none();
        Ok(e)
    }

    /// Destroys a live entity: removes its row from the dense sequence and
    /// from every registered column by swap-with-last-then-pop, and erases
    /// its index entry. The identifier is never valid again.
    ///
    /// Fails with [`Error::InvalidEntity`] if the identifier is unknown,
    /// and, changing nothing, with
    /// [`Error::ComponentAlreadyBorrowedMutably`] if any column view is
    /// outstanding.
    pub fn destroy(&mut self, entity: Entity) -> (r: Result<(), Error>)
        requires
            old(self).wf(),
        ensures
            final(self).wf(),
            (r matches Err(e) && e == Error::InvalidEntity(entity)) <==> !old(self).live(entity),
            r is Ok <==> old(self).live(entity) && old(self).cols_all_free(),
            r matches Err(e) ==> e == Error::InvalidEntity(entity)
                || (exists|k: u64| #[trigger] old(self).registered(k)
                    && e == Error::ComponentAlreadyBorrowedMutably(k)
                    && (old(self).cols()[k].readers > 0 || old(self).cols()[k].writer)),
            r is Err ==> unchanged(*old(self), *final(self)),
            r is Ok ==> destroy_shape(*old(self), *final(self), entity),
    {
        let row = match self.entities.index(entity) {
            None => {
                return Err(Error::InvalidEntity(entity));
            },
            Some(row) => row,
        };
        if let Some(k) = self.components.busy_kind() {
            proof {
                assert(old(self).cols().contains_key(k));
                assert(old(self).registered(k)
                    && (old(self).cols()[k].readers > 0 || old(self).cols()[k].writer));
            }
            return Err(Error::ComponentAlreadyBorrowedMutably(k));
        }
        proof {
            assert forall|k: u64| #[trigger] old(self).cols().contains_key(k) implies
                old(self).cols()[k].readers == 0 && !old(self).cols()[k].writer
            by {
                assert(self.components.cols().contains_key(k));
            };
        }
        let row2 = self.entities.destroy(entity);
        proof {
            assert(row2 == row);
        }
        self.components.swap_remove(row2, Ghost(old(self).num_rows()));
        Ok(())
    }

    /// Attaches (or overwrites) the component of the given kind on a live
    /// entity, acquiring and releasing the column's exclusive latch for the
    /// duration of the edit.
    pub fn add_component(&mut self, kind: u64, entity: Entity, value: V) -> (r: Result<(), Error>)
        requires
            old(self).wf(),
        ensures
            final(self).wf(),
            (r matches Err(e) && e == Error::InvalidEntity(entity)) <==> !old(self).live(entity),
            (r matches Err(e) && e == Error::ComponentNotRegistered(kind))
                <==> old(self).live(entity) && !old(self).registered(kind),
            (r matches Err(e) && e == Error::ComponentAlreadyBorrowedMutably(kind))
                <==> old(self).live(entity) && old(self).registered(kind)
                    && !old(self).can_write(kind),
            r is Ok <==> old(self).live(entity) && old(self).can_write(kind),
            r is Ok ==> final(self).cols() =~= old(self).cols().insert(
                kind,
                ColumnModel {
                    cells: old(self).cols()[kind].cells.update(
                        old(self).row_of(entity),
                        Some(value),
                    ),
                    ..old(self).cols()[kind]
                },
            ),
            r is Err ==> unchanged(*old(self), *final(self)),
            r is Ok ==> entities_and_items_unchanged(*old(self), *final(self)),
    {
        self.set_component(kind, entity, Some(value))
    }

    /// Detaches the component of the given kind from a live entity, under
    /// the same latch discipline as [`Chunk::add_component`]. Detaching an
    /// absent component leaves the slot absent.
    pub fn remove_component(&mut self, kind: u64, entity: Entity) -> (r: Result<(), Error>)
        requires
            old(self).wf(),
        ensures
            final(self).wf(),
            (r matches Err(e) && e == Error::InvalidEntity(entity)) <==> !old(self).live(entity),
            (r matches Err(e) && e == Error::ComponentNotRegistered(kind))
                <==> old(self).live(entity) && !old(self).registered(kind),
            (r matches Err(e) && e == Error::ComponentAlreadyBorrowedMutably(kind))
                <==> old(self).live(entity) && old(self).registered(kind)
                    && !old(self).can_write(kind),
            r is Ok <==> old(self).live(entity) && old(self).can_write(kind),
            r is Ok ==> final(self).cols() =~= old(self).cols().insert(
                kind,
                ColumnModel {
                    cells: old(self).cols()[kind].cells.update(
                        old(self).row_of(entity),
                        None,
                    ),
                    ..old(self).cols()[kind]
                },
            ),
            r is Err ==> unchanged(*old(self), *final(self)),
            r is Ok ==> entities_and_items_unchanged(*old(self), *final(self)),
    {
        self.set_component(kind, entity, None)
    }

    fn set_component(&mut self, kind: u64, entity: Entity, value: Option<V>) -> (r: Result<
        (),
        Error,
    >)
        requires
            old(self).wf(),
        ensures
            final(self).wf(),
            (r matches Err(e) && e == Error::InvalidEntity(entity)) <==> !old(self).live(entity),
            (r matches Err(e) && e == Error::ComponentNotRegistered(kind))
                <==> old(self).live(entity) && !old(self).registered(kind),
            (r matches Err(e) && e == Error::ComponentAlreadyBorrowedMutably(kind))
                <==> old(self).live(entity) && old(self).registered(kind)
                    && !old(self).can_write(kind),
            r is Ok <==> old(self).live(entity) && old(self).can_write(kind),
            r is Ok ==> final(self).cols() =~= old(self).cols().insert(
                kind,
                ColumnModel {
                    cells: old(self).cols()[kind].cells.update(
                        old(self).row_of(entity),
                        value,
                    ),
                    ..old(self).cols()[kind]
                },
            ),
            r is Err ==> unchanged(*old(self), *final(self)),
            r is Ok ==> entities_and_items_unchanged(*old(self), *final(self)),
    {
        let row = match self.entities.index(entity) {
            None => {
                return Err(Error::InvalidEntity(entity));
            },
            Some(row) => row,
        };
        let tok = match self.components.acquire_mut(kind) {
            Err(e) => {
                return Err(e);
            },
            Ok(tok) => tok,
        };
        self.components.col_set(kind, row, value);
        self.components.release_mut(tok);
        proof {
            assert(final(self).cols() =~= old(self).cols().insert(
                kind,
                ColumnModel {
                    cells: old(self).cols()[kind].cells.update(old(self).row_of(entity), value),
                    ..old(self).cols()[kind]
                },
            ));
        }
        Ok(())
    }

    /// Grants a shared view of the component kind; any number may be
    /// outstanding at once, but none while an exclusive view is.
    pub fn components_ref(&mut self, kind: u64) -> (r: Result<ComponentsRef, Error>)
        requires
            old(self).wf(),
            old(self).registered(kind) ==> old(self).cols()[kind].readers < usize::MAX,
        ensures
            final(self).wf(),
            r is Ok <==> old(self).can_read(kind),
            r matches Ok(tok) ==> tok.kind_spec() == kind
                && final(self).cols() =~= old(self).cols().insert(
                    kind,
                    ColumnModel {
                        readers: old(self).cols()[kind].readers + 1,
                        ..old(self).cols()[kind]
                    },
                ),
            (r matches Err(e) && e == Error::ComponentNotRegistered(kind))
                <==> !old(self).registered(kind),
            (r matches Err(e) && e == Error::ComponentAlreadyBorrowedMutably(kind))
                <==> old(self).registered(kind) && old(self).cols()[kind].writer,
            r is Err ==> unchanged(*old(self), *final(self)),
            r is Ok ==> entities_and_items_unchanged(*old(self), *final(self)),
    {
        let r = self.components.acquire_ref(kind);
        proof {
            if r is Err {
                assert(final(self).cols() =~= old(self).cols());
            }
        }
        r
    }

    /// Grants an exclusive view of the component kind; it excludes every
    /// other view of the kind until released.
    pub fn components_mut(&mut self, kind: u64) -> (r: Result<ComponentsMut, Error>)
        requires
            old(self).wf(),
        ensures
            final(self).wf(),
            r is Ok <==> old(self).can_write(kind),
            r matches Ok(tok) ==> tok.kind_spec() == kind
                && final(self).cols() =~= old(self).cols().insert(
                    kind,
                    ColumnModel { writer: true, ..old(self).cols()[kind] },
                ),
            (r matches Err(e) && e == Error::ComponentNotRegistered(kind))
                <==> !old(self).registered(kind),
            (r matches Err(e) && e == Error::ComponentAlreadyBorrowedMutably(kind))
                <==> old(self).registered(kind)
                    && (old(self).cols()[kind].writer || old(self).cols()[kind].readers > 0),
            r is Err ==> unchanged(*old(self), *final(self)),
            r is Ok ==> entities_and_items_unchanged(*old(self), *final(self)),
    {
        let r = self.components.acquire_mut(kind);
        proof {
            if r is Err {
                assert(final(self).cols() =~= old(self).cols());
            }
        }
        r
    }

    /// Releases a shared component view: one reader leaves the kind's latch.
    pub fn release_components_ref(&mut self, tok: ComponentsRef)
        requires
            old(self).wf(),
        ensures
            final(self).wf(),
            final(self).cols() =~= (if old(self).registered(tok.kind_spec())
                && old(self).cols()[tok.kind_spec()].readers > 0 {
                old(self).cols().insert(
                    tok.kind_spec(),
                    ColumnModel {
                        readers: (old(self).cols()[tok.kind_spec()].readers - 1) as nat,
                        ..old(self).cols()[tok.kind_spec()]
                    },
                )
            } else {
                old(self).cols()
            }),
            entities_and_items_unchanged(*old(self), *final(self)),
    {
        self.components.release_ref(tok);
    }

    /// Releases an exclusive component view: the kind's latch is free again.
    pub fn release_components_mut(&mut self, tok: ComponentsMut)
        requires
            old(self).wf(),
        ensures
            final(self).wf(),
            final(self).cols() =~= (if old(self).registered(tok.kind_spec()) {
                old(self).cols().insert(
                    tok.kind_spec(),
                    ColumnModel { writer: false, ..old(self).cols()[tok.kind_spec()] },
                )
            } else {
                old(self).cols()
            }),
            entities_and_items_unchanged(*old(self), *final(self)),
    {
        self.components.release_mut(tok);
    }

    /// The component value for the entity under a shared view, or `None` if
    /// the entity is unknown or the slot is empty. A caller that must tell
    /// the two cases apart checks [`Chunk::index`] itself.
    pub fn get(&self, tok: &ComponentsRef, entity: Entity) -> (r: Option<&V>)
        requires
            self.wf(),
        ensures
            match r {
                Some(v) => self.component_of(tok.kind_spec(), entity) == Some(*v),
                None => self.component_of(tok.kind_spec(), entity) is None,
            },
    {
        self.get_at_kind(tok.kind(), entity)
    }

    /// The component value for the entity under an exclusive view; as
    /// [`Chunk::get`].
    pub fn get_w(&self, tok: &ComponentsMut, entity: Entity) -> (r: Option<&V>)
        requires
            self.wf(),
        ensures
            match r {
                Some(v) => self.component_of(tok.kind_spec(), entity) == Some(*v),
                None => self.component_of(tok.kind_spec(), entity) is None,
            },
    {
        self.get_at_kind(tok.kind(), entity)
    }

    fn get_at_kind(&self, kind: u64, entity: Entity) -> (r: Option<&V>)
        requires
            self.wf(),
        ensures
            match r {
                Some(v) => self.component_of(kind, entity) == Some(*v),
                None => self.component_of(kind, entity) is None,
            },
    {
        let row = match self.entities.index(entity) {
            None => {
                return None;
            },
            Some(row) => row,
        };
        self.components.col_get(kind, row)
    }

    /// The component value stored for a shared view at the given row, if
    /// the row exists and holds one.
    pub fn cell(&self, tok: &ComponentsRef, row: usize) -> (r: Option<&V>)
        requires
            self.wf(),
        ensures
            match r {
                Some(v) => self.registered(tok.kind_spec())
                    && (row as int) < self.cols()[tok.kind_spec()].cells.len()
                    && self.cols()[tok.kind_spec()].cells[row as int] == Some(*v),
                None => !self.registered(tok.kind_spec())
                    || (row as int) >= self.cols()[tok.kind_spec()].cells.len()
                    || self.cols()[tok.kind_spec()].cells[row as int] is None,
            },
    {
        self.components.col_get(tok.kind(), row)
    }

    /// The component value stored for an exclusive view at the given row,
    /// if the row exists and holds one.
    pub fn cell_w(&self, tok: &ComponentsMut, row: usize) -> (r: Option<&V>)
        requires
            self.wf(),
        ensures
            match r {
                Some(v) => self.registered(tok.kind_spec())
                    && (row as int) < self.cols()[tok.kind_spec()].cells.len()
                    && self.cols()[tok.kind_spec()].cells[row as int] == Some(*v),
                None => !self.registered(tok.kind_spec())
                    || (row as int) >= self.cols()[tok.kind_spec()].cells.len()
                    || self.cols()[tok.kind_spec()].cells[row as int] is None,
            },
    {
        self.components.col_get(tok.kind(), row)
    }

    /// Stores (or overwrites) the component for a live entity under an
    /// exclusive view. Fails with [`Error::InvalidEntity`] if the entity is
    /// not live, and with [`Error::ComponentNotRegistered`] if the view
    /// does not match a registered kind of this store.
    pub fn insert(&mut self, tok: &ComponentsMut, entity: Entity, value: V) -> (r: Result<
        (),
        Error,
    >)
        requires
            old(self).wf(),
        ensures
            final(self).wf(),
            (r matches Err(e) && e == Error::InvalidEntity(entity)) <==> !old(self).live(entity),
            (r matches Err(e) && e == Error::ComponentNotRegistered(tok.kind_spec()))
                <==> old(self).live(entity) && !old(self).registered(tok.kind_spec()),
            r is Ok <==> old(self).live(entity) && old(self).registered(tok.kind_spec()),
            r is Ok ==> final(self).cols() =~= old(self).cols().insert(
                tok.kind_spec(),
                ColumnModel {
                    cells: old(self).cols()[tok.kind_spec()].cells.update(
                        old(self).row_of(entity),
                        Some(value),
                    ),
                    ..old(self).cols()[tok.kind_spec()]
                },
            ),
            r is Err ==> unchanged(*old(self), *final(self)),
            r is Ok ==> entities_and_items_unchanged(*old(self), *final(self)),
    {
        self.set_with_token(tok.kind(), entity, Some(value))
    }

    /// Clears the component slot for a live entity under an exclusive view;
    /// as [`Chunk::insert`].
    pub fn remove(&mut self, tok: &ComponentsMut, entity: Entity) -> (r: Result<(), Error>)
        requires
            old(self).wf(),
        ensures
            final(self).wf(),
            (r matches Err(e) && e == Error::InvalidEntity(entity)) <==> !old(self).live(entity),
            (r matches Err(e) && e == Error::ComponentNotRegistered(tok.kind_spec()))
                <==> old(self).live(entity) && !old(self).registered(tok.kind_spec()),
            r is Ok <==> old(self).live(entity) && old(self).registered(tok.kind_spec()),
            r is Ok ==> final(self).cols() =~= old(self).cols().insert(
                tok.kind_spec(),
                ColumnModel {
                    cells: old(self).cols()[tok.kind_spec()].cells.update(
                        old(self).row_of(entity),
                        None,
                    ),
                    ..old(self).cols()[tok.kind_spec()]
                },
            ),
            r is Err ==> unchanged(*old(self), *final(self)),
            r is Ok ==> entities_and_items_unchanged(*old(self), *final(self)),
    {
        self.set_with_token(tok.kind(), entity, None)
    }

    fn set_with_token(&mut self, kind: u64, entity: Entity, value: Option<V>) -> (r: Result<
        (),
        Error,
    >)
        requires
            old(self).wf(),
        ensures
            final(self).wf(),
            (r matches Err(e) && e == Error::InvalidEntity(entity)) <==> !old(self).live(entity),
            (r matches Err(e) && e == Error::ComponentNotRegistered(kind))
                <==> old(self).live(entity) && !old(self).registered(kind),
            r is Ok <==> old(self).live(entity) && old(self).registered(kind),
            r is Ok ==> final(self).cols() =~= old(self).cols().insert(
                kind,
                ColumnModel {
                    cells: old(self).cols()[kind].cells.update(old(self).row_of(entity), value),
                    ..old(self).cols()[kind]
                },
            ),
            r is Err ==> unchanged(*old(self), *final(self)),
            r is Ok ==> entities_and_items_unchanged(*old(self), *final(self)),
    {
        let row = match self.entities.index(entity) {
            None => {
                return Err(Error::InvalidEntity(entity));
            },
            Some(row) => row,
        };
        if !self.has_component_kind(kind) {
            return Err(Error::ComponentNotRegistered(kind));
        }
        self.components.col_set(kind, row, value);
        Ok(())
    }

    /// Whether the component kind was declared for this store.
    pub fn has_component_kind(&self, kind: u64) -> (r: bool)
        ensures
            r == self.registered(kind),
    {
        self.components.contains_kind(kind)
    }

    /// The reader count and writer mark of a component kind's latch, or
    /// `None` if the kind is not registered.
    pub fn col_latch(&self, kind: u64) -> (r: Option<(usize, bool)>)
        requires
            self.wf(),
        ensures
            r matches Some(g) ==> self.registered(kind)
                && g.0 == self.cols()[kind].readers && g.1 == self.cols()[kind].writer,
            r is None <==> !self.registered(kind),
    {
        self.components.latch(kind)
    }

    /// The reader count and writer mark of an item kind's latch, or `None`
    /// if the kind is not registered.
    pub fn item_latch(&self, kind: u64) -> (r: Option<(usize, bool)>)
        requires
            self.wf(),
        ensures
            r matches Some(g) ==> self.item_map().contains_key(kind)
                && g.0 == self.item_map()[kind].readers && g.1 == self.item_map()[kind].writer,
            r is None <==> !self.item_map().contains_key(kind),
    {
        self.items.latch(kind)
    }

    /// Grants a shared view of the store-scoped item kind.
    pub fn item_ref(&mut self, kind: u64) -> (r: Result<ItemRef, Error>)
        requires
            old(self).wf(),
            old(self).item_map().contains_key(kind)
                ==> old(self).item_map()[kind].readers < usize::MAX,
        ensures
            final(self).wf(),
            r is Ok <==> old(self).item_map().contains_key(kind)
                && !old(self).item_map()[kind].writer,
            r matches Ok(tok) ==> tok.kind_spec() == kind
                && final(self).item_map() =~= old(self).item_map().insert(
                    kind,
                    ResourceModel {
                        readers: old(self).item_map()[kind].readers + 1,
                        ..old(self).item_map()[kind]
                    },
                ),
            (r matches Err(e) && e == Error::ResourceNotFound(kind))
                <==> !old(self).item_map().contains_key(kind),
            (r matches Err(e) && e == Error::ResourceAlreadyBorrowedMutably(kind))
                <==> old(self).item_map().contains_key(kind) && old(self).item_map()[kind].writer,
            r is Err ==> final(self).item_map() == old(self).item_map(),
            cols_and_entities_unchanged(*old(self), *final(self)),
    {
        match self.items.acquire_ref(kind) {
            Ok(tok) => Ok(tok.into_item()),
            Err(e) => Err(e),
        }
    }

    /// Grants an exclusive view of the store-scoped item kind.
    pub fn item_mut(&mut self, kind: u64) -> (r: Result<ItemMut, Error>)
        requires
            old(self).wf(),
        ensures
            final(self).wf(),
            r is Ok <==> old(self).item_map().contains_key(kind)
                && !old(self).item_map()[kind].writer && old(self).item_map()[kind].readers == 0,
            r matches Ok(tok) ==> tok.kind_spec() == kind
                && final(self).item_map() =~= old(self).item_map().insert(
                    kind,
                    ResourceModel { writer: true, ..old(self).item_map()[kind] },
                ),
            (r matches Err(e) && e == Error::ResourceNotFound(kind))
                <==> !old(self).item_map().contains_key(kind),
            (r matches Err(e) && e == Error::ResourceAlreadyBorrowedMutably(kind))
                <==> old(self).item_map().contains_key(kind)
                    && (old(self).item_map()[kind].writer
                        || old(self).item_map()[kind].readers > 0),
            r is Err ==> final(self).item_map() == old(self).item_map(),
            cols_and_entities_unchanged(*old(self), *final(self)),
    {
        match self.items.acquire_mut(kind) {
            Ok(tok) => Ok(tok.into_item_mut()),
            Err(e) => Err(e),
        }
    }

    /// Releases a shared item view.
    pub fn release_item_ref(&mut self, tok: ItemRef)
        requires
            old(self).wf(),
        ensures
            final(self).wf(),
            final(self).item_map() =~= (if old(self).item_map().contains_key(tok.kind_spec())
                && old(self).item_map()[tok.kind_spec()].readers > 0 {
                old(self).item_map().insert(
                    tok.kind_spec(),
                    ResourceModel {
                        readers: (old(self).item_map()[tok.kind_spec()].readers - 1) as nat,
                        ..old(self).item_map()[tok.kind_spec()]
                    },
                )
            } else {
                old(self).item_map()
            }),
            cols_and_entities_unchanged(*old(self), *final(self)),
    {
        self.items.release_ref(tok.into_resource());
    }

    /// Releases an exclusive item view.
    pub fn release_item_mut(&mut self, tok: ItemMut)
        requires
            old(self).wf(),
        ensures
            final(self).wf(),
            final(self).item_map() =~= (if old(self).item_map().contains_key(tok.kind_spec()) {
                old(self).item_map().insert(
                    tok.kind_spec(),
                    ResourceModel { writer: false, ..old(self).item_map()[tok.kind_spec()] },
                )
            } else {
                old(self).item_map()
            }),
            cols_and_entities_unchanged(*old(self), *final(self)),
    {
        self.items.release_mut(tok.into_resource_mut());
    }

    /// The item value under a shared view, or `None` if the kind is gone.
    pub fn item_get(&self, tok: &ItemRef) -> (r: Option<&V>)
        requires
            self.wf(),
        ensures
            r matches Some(v) ==> self.item_map().contains_key(tok.kind_spec())
                && self.item_map()[tok.kind_spec()].value == *v,
            r is None ==> !self.item_map().contains_key(tok.kind_spec()),
    {
        self.items.value_of(tok.kind())
    }

    /// The item value under an exclusive view, or `None` if the kind is
    /// gone.
    pub fn item_get_w(&self, tok: &ItemMut) -> (r: Option<&V>)
        requires
            self.wf(),
        ensures
            r matches Some(v) ==> self.item_map().contains_key(tok.kind_spec())
                && self.item_map()[tok.kind_spec()].value == *v,
            r is None ==> !self.item_map().contains_key(tok.kind_spec()),
    {
        self.items.value_of(tok.kind())
    }

    /// Replaces the item value under an exclusive view, reporting whether
    /// the kind was present.
    pub fn item_set(&mut self, tok: &ItemMut, value: V) -> (r: bool)
        requires
            old(self).wf(),
        ensures
            final(self).wf(),
            r == old(self).item_map().contains_key(tok.kind_spec()),
            final(self).item_map() =~= (if old(self).item_map().contains_key(tok.kind_spec()) {
                old(self).item_map().insert(
                    tok.kind_spec(),
                    ResourceModel { value, ..old(self).item_map()[tok.kind_spec()] },
                )
            } else {
                old(self).item_map()
            }),
            cols_and_entities_unchanged(*old(self), *final(self)),
    {
        self.items.set_value(tok.kind(), value)
    }
}

/// Nothing about the store changed: same entities, columns and items.
pub open spec fn unchanged<V>(pre: Chunk<V>, post: Chunk<V>) -> bool {
    &&& post.ids() == pre.ids()
    &&& post.index_map() == pre.index_map()
    &&& post.next_id() == pre.next_id()
    &&& post.cols() == pre.cols()
    &&& post.item_map() == pre.item_map()
}

/// The entity index and the items are as before; only columns changed.
pub open spec fn entities_and_items_unchanged<V>(pre: Chunk<V>, post: Chunk<V>) -> bool {
    &&& post.ids() == pre.ids()
    &&& post.index_map() == pre.index_map()
    &&& post.next_id() == pre.next_id()
    &&& post.item_map() == pre.item_map()
}

/// The entity index and the columns are as before; only items changed.
pub open spec fn cols_and_entities_unchanged<V>(pre: Chunk<V>, post: Chunk<V>) -> bool {
    &&& post.ids() == pre.ids()
    &&& post.index_map() == pre.index_map()
    &&& post.next_id() == pre.next_id()
    &&& post.cols() == pre.cols()
}

/// How a successful destroy reshapes the store: the destroyed entity's row
/// is filled by the previously last row, in the dense sequence, in the
/// index and in every column.
pub open spec fn destroy_shape<V>(pre: Chunk<V>, post: Chunk<V>, entity: Entity) -> bool {
    let row = pre.row_of(entity);
    &&& post.ids() =~= pre.ids().update(row, pre.ids().last()).drop_last()
    &&& post.index_map() =~= (if row + 1 == pre.ids().len() {
        pre.index_map().remove(entity.0)
    } else {
        pre.index_map().remove(entity.0).insert(pre.ids().last().0, row as usize)
    })
    &&& post.cols() =~= pre.cols().map_values(
        |m: ColumnModel<V>| ColumnModel {
            cells: m.cells.update(row, m.cells.last()).drop_last(),
            ..m
        },
    )
    &&& post.next_id() == pre.next_id()
    &&& post.item_map() == pre.item_map()
    &&& !post.live(entity)
}

/// A builder declaring the component kinds and the items of a store.
pub struct ChunkBuilder<V> {
    components: ComponentsBuilder<V>,
    items: ResourcesBuilder<V>,
}

impl<V> ChunkBuilder<V> {
    /// The component kinds declared so far.
    pub closed spec fn cols(self) -> Map<u64, ColumnModel<V>> {
        self.components.cols()
    }

    /// The items declared so far.
    pub closed spec fn item_map(self) -> Map<u64, ResourceModel<V>> {
        self.items.res()
    }

    /// The builder's registries are consistent and every latch is free.
    pub closed spec fn wf(self) -> bool {
        &&& self.components.wf()
        &&& self.items.wf()
    }

    /// The number of column slots declared so far.
    pub closed spec fn component_slot_count(self) -> nat {
        self.components.slot_count()
    }

    /// The number of item slots declared so far.
    pub closed spec fn item_slot_count(self) -> nat {
        self.items.slot_count()
    }

    /// A builder with nothing declared.
    pub fn new() -> (r: ChunkBuilder<V>)
        ensures
            r.wf(),
            r.cols() =~= Map::empty(),
            r.item_map() =~= Map::empty(),
            r.component_slot_count() == 0,
            r.item_slot_count() == 0,
    {
        ChunkBuilder { components: ComponentsBuilder::new(), items: ResourcesBuilder::new() }
    }

    /// Declares a component kind, so that entities of the built store can
    /// carry a value under it.
    pub fn with_component(self, kind: u64) -> (r: ChunkBuilder<V>)
        requires
            self.wf(),
        ensures
            r.wf(),
            r.cols() =~= self.cols().insert(
                kind,
                ColumnModel { cells: Seq::empty(), readers: 0, writer: false },
            ),
            r.item_map() == self.item_map(),
            r.component_slot_count() <= self.component_slot_count() + 1,
            r.item_slot_count() == self.item_slot_count(),
    {
        let ChunkBuilder { components, items } = self;
        let components = components.with_component(kind);
        ChunkBuilder { components, items }
    }

    /// Declares a store-scoped item with its initial value.
    pub fn with_item(self, kind: u64, value: V) -> (r: ChunkBuilder<V>)
        requires
            self.wf(),
        ensures
            r.wf(),
            r.item_map() =~= self.item_map().insert(
                kind,
                ResourceModel { value, readers: 0, writer: false },
            ),
            r.cols() == self.cols(),
            r.item_slot_count() <= self.item_slot_count() + 1,
            r.component_slot_count() == self.component_slot_count(),
    {
        let ChunkBuilder { components, items } = self;
        let items = items.with_resource(kind, value);
        ChunkBuilder { components, items }
    }

    /// Finishes the declaration and yields an empty store.
    pub fn build(self) -> (r: Chunk<V>)
        requires
            self.wf(),
        ensures
            r.wf(),
            r.ids() =~= Seq::empty(),
            r.index_map() =~= Map::empty(),
            r.next_id() == 0,
            r.cols() == self.cols(),
            r.item_map() == self.item_map(),
            r.cols_all_free(),
    {
        let ChunkBuilder { components, items } = self;
        Chunk {
            entities: ChunkEntities::new(),
            components: components.build(),
            items: items.build(),
        }
    }
}

/// After every operation, the count of live entities equals the size of
/// the entity index, and every registered column has exactly that many
/// rows.
pub proof fn lemma_live_counts<V>(c: Chunk<V>)
    requires
        c.wf(),
    ensures
        c.index_map().dom().finite(),
        c.index_map().dom().len() == c.num_rows(),
        forall|k: u64| #[trigger] c.registered(k) ==> c.cols()[k].cells.len() == c.num_rows(),
{
    let s = Seq::new(c.ids().len(), |r: int| c.ids()[r].0);
    assert(s.no_duplicates()) by {
        assert forall|i: int, j: int| 0 <= i < s.len() && 0 <= j < s.len() && i != j implies
            s[i] != s[j]
        by {
            assert(c.index_map()[c.ids()[i].0] as int == i);
            assert(c.index_map()[c.ids()[j].0] as int == j);
        };
    };
    s.unique_seq_to_set();
    assert(c.index_map().dom() =~= s.to_set()) by {
        assert forall|eid: u64| #[trigger] c.index_map().dom().contains(eid) implies
            s.to_set().contains(eid)
        by {
            let r = c.index_map()[eid] as int;
            assert(c.ids()[r].0 == eid);
            assert(s[r] == eid);
        };
        assert forall|eid: u64| #[trigger] s.to_set().contains(eid) implies
            c.index_map().dom().contains(eid)
        by {
            let r = choose|r: int| 0 <= r < s.len() && s[r] == eid;
            assert(c.index_map().contains_key(c.ids()[r].0));
        };
    };
}

/// A live entity's row is a valid position in the dense sequence.
pub proof fn lemma_row_in_range<V>(c: Chunk<V>, e: Entity)
    requires
        c.wf(),
        c.live(e),
    ensures
        0 <= c.row_of(e) < c.num_rows(),
        c.ids()[c.row_of(e)] == e,
{
}

/// Borrow exclusivity: granting a shared view of a component kind leaves
/// the kind readable by further shared views but not writable; granting an
/// exclusive view leaves it neither readable nor writable until release.
///
/// `pre` is a store where the view can be granted, and `post_shared` and
/// `post_exclusive` are stores afterwards, as the ensures of
/// [`Chunk::components_ref`] and [`Chunk::components_mut`] describe them.
pub proof fn lemma_borrow_exclusivity<V>(
    pre: Chunk<V>,
    post_shared: Chunk<V>,
    post_exclusive: Chunk<V>,
    kind: u64,
)
    requires
        pre.can_read(kind) ==> post_shared.cols() =~= pre.cols().insert(
            kind,
            ColumnModel { readers: pre.cols()[kind].readers + 1, ..pre.cols()[kind] },
        ),
        pre.can_write(kind) ==> post_exclusive.cols() =~= pre.cols().insert(
            kind,
            ColumnModel { writer: true, ..pre.cols()[kind] },
        ),
    ensures
        pre.can_read(kind) ==> !post_shared.can_write(kind),
        pre.can_read(kind) ==> post_shared.can_read(kind),
        pre.can_write(kind) ==> !post_exclusive.can_read(kind),
        pre.can_write(kind) ==> !post_exclusive.can_write(kind),
{
}

/// A live identifier is always below the generator, so a destroyed
/// identifier — live once, never re-inserted — can never equal the result
/// of a later spawn, which returns the generator's current value.
pub proof fn lemma_live_below_next<V>(c: Chunk<V>, e: Entity)
    requires
        c.wf(),
        c.live(e),
    ensures
        e.0 < c.next_id(),
{
}

/// A destroyed identifier is never returned by a later spawn: it was
/// below the generator while live, destruction never re-inserts it, the
/// generator never decreases, and a spawn returns the generator's current
/// value.
pub proof fn lemma_destroyed_never_respawned<V>(pre: Chunk<V>, later: Chunk<V>, e: Entity)
    requires
        pre.wf(),
        pre.live(e),
        pre.next_id() <= later.next_id(),
    ensures
        later.next_id() != e.0,
{
    lemma_live_below_next(pre, e);
}

/// Swap-remove correctness: with entities at rows 0, 1 and 2, destroying
/// the middle one moves the last entity to row 1 and leaves row 0 alone.
pub proof fn lemma_swap_remove_rows<V>(pre: Chunk<V>, post: Chunk<V>, a: Entity, b: Entity, c: Entity)
    requires
        pre.wf(),
        pre.live(a) && pre.row_of(a) == 0,
        pre.live(b) && pre.row_of(b) == 1,
        pre.live(c) && pre.row_of(c) == 2,
        pre.num_rows() == 3,
        destroy_shape(pre, post, b),
    ensures
        post.num_rows() == 2,
        post.live(a) && post.row_of(a) == 0,
        post.live(c) && post.row_of(c) == 1,
        !post.live(b),
        forall|k: u64| #[trigger] pre.registered(k) ==> post.cols()[k].cells
            =~= seq![pre.cols()[k].cells[0], pre.cols()[k].cells[2]],
{
    assert(pre.ids()[0] == a && pre.ids()[1] == b && pre.ids()[2] == c);
    assert(pre.ids().last() == c);
    assert(a.0 != b.0 && b.0 != c.0 && a.0 != c.0);
    assert forall|k: u64| #[trigger] pre.registered(k) implies post.cols()[k].cells
        =~= seq![pre.cols()[k].cells[0], pre.cols()[k].cells[2]]
    by {
        assert(pre.cols()[k].cells.len() == 3);
        assert(post.cols()[k].cells
            =~= pre.cols()[k].cells.update(1, pre.cols()[k].cells.last()).drop_last());
    };
}

} // verus!
