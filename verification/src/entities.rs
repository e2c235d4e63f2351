//! Entity identity: opaque handles and the dense-index mapping.
//!
//! A store assigns entity identifiers monotonically and never reuses one.
//! The live entities are kept as a dense sequence (row order) together with
//! an index from identifier to current row; the two are a bijection at all
//! times. Destruction removes a row with swap-with-last-then-pop semantics,
//! so row order is insertion order modulo prior swap-removals.

use crate::table::{table_entries, SlotTable};
use vstd::prelude::*;

verus! {

/// An opaque handle identifying one entity within a store.
///
/// Identifiers are assigned monotonically starting at zero and are never
/// reused within a store's lifetime, even after the entity is destroyed.
#[derive(Copy, Clone, Debug, PartialEq, Eq, Hash, Structural)]
pub struct Entity(pub u64);

/// A system parameter marking the live-entity view; see [`crate::query`].
pub struct Entities;

/// The entity index of one store: the dense sequence of live entities and
/// the mapping from identifier to row.
pub struct ChunkEntities {
    indexes: SlotTable,
    id: Vec<Entity>,
    entity_id_generator: u64,
}

impl ChunkEntities {
    /// The dense sequence of live entities, in row order.
    pub closed spec fn ids(self) -> Seq<Entity> {
        self.id@
    }

    /// The mapping from live identifier to its current row.
    pub closed spec fn index_map(self) -> Map<u64, usize> {
        table_entries(self.indexes)
    }

    /// The identifier the next spawn will return.
    pub closed spec fn next_id(self) -> u64 {
        self.entity_id_generator
    }

    /// Whether the entity is live in this index.
    pub open spec fn live(self, e: Entity) -> bool {
        self.index_map().contains_key(e.0)
    }

    /// The index and the dense sequence are mutually consistent: an
    /// identifier maps to row `r` exactly when row `r` holds it, and every
    /// identifier ever handed out is below the generator.
    pub open spec fn wf(self) -> bool {
        &&& forall|eid: u64| #[trigger] self.index_map().contains_key(eid)
            ==> (self.index_map()[eid] as int) < self.ids().len()
                && self.ids()[self.index_map()[eid] as int].0 == eid
        &&& forall|r: int| #![trigger self.ids()[r]] 0 <= r < self.ids().len()
            ==> self.index_map().contains_key(self.ids()[r].0)
                && self.index_map()[self.ids()[r].0] as int == r
        &&& forall|eid: u64| #[trigger] self.index_map().contains_key(eid)
            ==> eid < self.next_id()
    }

    /// An empty index whose generator starts at zero.
    pub fn new() -> (r: ChunkEntities)
        ensures
            r.ids() =~= Seq::empty(),
            r.index_map() =~= Map::empty(),
            r.next_id() == 0,
            r.wf(),
    {
        ChunkEntities { indexes: SlotTable::new(), id: Vec::new(), entity_id_generator: 0 }
    }

    /// The identifier the next spawn will return.
    pub fn next_entity_id(&self) -> (r: u64)
        ensures
            r == self.next_id(),
    {
        self.entity_id_generator
    }

    /// The number of live entities.
    pub fn len(&self) -> (r: usize)
        ensures
            r == self.ids().len(),
    {
        self.id.len()
    }

    /// Allocates the next identifier and inserts it at the new trailing row.
    ///
    /// The caller appends one absent slot to every component column in the
    /// same operation; see [`crate::chunk::Chunk::spawn`].
    pub fn spawn(&mut self) -> (e: Entity)
        requires
            old(self).wf(),
            old(self).next_id() < u64::MAX,
        ensures
            final(self).wf(),
            e.0 == old(self).next_id(),
            !old(self).live(e),
            final(self).ids() =~= old(self).ids().push(e),
            final(self).index_map() =~= old(self).index_map().insert(
                e.0,
                old(self).ids().len() as usize,
            ),
            final(self).next_id() == old(self).next_id() + 1,
    {
        let e = Entity(self.entity_id_generator);
        let index = self.id.len();
        self.id.push(e);
        let _ = self.indexes.insert(e.0, index);
        self.entity_id_generator = self.entity_id_generator + 1;
        proof {
            assert forall|eid: u64| #[trigger] self.index_map().contains_key(eid) implies
                self.index_map()[eid] < self.ids().len()
                    && self.ids()[self.index_map()[eid] as int].0 == eid
            by {
                if eid != e.0 {
                    assert(old(self).index_map().contains_key(eid));
                }
            };
            assert forall|r: int| #![trigger self.ids()[r]] 0 <= r < self.ids().len() implies
                self.index_map().contains_key(self.ids()[r].0)
                    && self.index_map()[self.ids()[r].0] as int == r
            by {
                if r < old(self).ids().len() {
                    assert(self.ids()[r] == old(self).ids()[r]);
                    assert(old(self).index_map().contains_key(old(self).ids()[r].0)
                        && old(self).index_map()[old(self).ids()[r].0] == r);
                }
            };
        }
        e
    }

    /// The entity's current row, or `None` if the identifier is unknown or
    /// already destroyed.
    pub fn index(&self, entity: Entity) -> (r: Option<usize>)
        ensures
            r matches Some(row) ==> self.live(entity) && self.index_map()[entity.0] == row,
            r is None ==> !self.live(entity),
    {
        self.indexes.get(entity.0)
    }

    /// Removes the entity's row by swap-with-last-then-pop, returning the
    /// row it occupied. The last row moves into the freed slot (unless the
    /// destroyed row was the last), and the index entry is erased.
    ///
    /// The caller applies the same removal to every component column; see
    /// [`crate::chunk::Chunk::destroy`].
    pub fn destroy(&mut self, entity: Entity) -> (row: usize)
        requires
            old(self).wf(),
            old(self).live(entity),
        ensures
            final(self).wf(),
            row == old(self).index_map()[entity.0],
            row < old(self).ids().len(),
            final(self).ids() =~= old(self).ids().update(
                row as int,
                old(self).ids().last(),
            ).drop_last(),
            final(self).index_map() =~= (if row + 1 == old(self).ids().len() {
                old(self).index_map().remove(entity.0)
            } else {
                old(self).index_map().remove(entity.0).insert(old(self).ids().last().0, row)
            }),
            final(self).next_id() == old(self).next_id(),
            !final(self).live(entity),
    {
        let row = self.indexes.remove(entity.0).unwrap();
        proof {
            assert(old(self).ids()[row as int].0 == entity.0);
        }
        let last = *self.id.last().unwrap();
        let _ = self.id.swap_remove(row);
        if row < self.id.len() {
            // The destroyed row was not the trailing one: the previous last
            // entity now lives at `row`.
            let _ = self.indexes.insert(last.0, row);
            proof {
                assert(old(self).ids().last().0 == last.0);
                assert(old(self).index_map()[last.0] == old(self).ids().len() - 1);
                assert(last.0 != entity.0) by {
                    if last.0 == entity.0 {
                        assert(old(self).index_map()[entity.0] == old(self).ids().len() - 1);
                    }
                };
            }
        }
        proof {
            lemma_destroy_wf(*old(self), *self, entity, row as int);
        }
        row
    }

    /// All live entities, in row order.
    pub fn iter(&self) -> (r: &Vec<Entity>)
        ensures
            r@ == self.ids(),
    {
        &self.id
    }
}

/// Swap-with-last-then-pop keeps the index and the dense sequence a
/// bijection.
proof fn lemma_destroy_wf(pre: ChunkEntities, post: ChunkEntities, entity: Entity, row: int)
    requires
        pre.wf(),
        pre.live(entity),
        row == pre.index_map()[entity.0],
        post.ids() =~= pre.ids().update(row, pre.ids().last()).drop_last(),
        post.index_map() =~= (if row + 1 == pre.ids().len() {
            pre.index_map().remove(entity.0)
        } else {
            pre.index_map().remove(entity.0).insert(pre.ids().last().0, row as usize)
        }),
        post.next_id() == pre.next_id(),
    ensures
        post.wf(),
{
    let n = pre.ids().len() as int;
    assert(0 <= row < n);
    assert forall|eid: u64| #[trigger] post.index_map().contains_key(eid) implies
        post.index_map()[eid] < post.ids().len()
            && post.ids()[post.index_map()[eid] as int].0 == eid
    by {
        assert(pre.index_map().contains_key(eid));
        let r = pre.index_map()[eid] as int;
        assert(pre.ids()[r].0 == eid);
        if row + 1 == n {
            assert(r < n - 1);
        } else {
            if eid == pre.ids().last().0 {
                assert(post.index_map()[eid] == row);
            } else {
                assert(r != n - 1);
                assert(r != row);
            }
        }
    };
    assert forall|r: int| 0 <= r < post.ids().len() implies
        post.index_map().contains_key(post.ids()[r].0)
            && post.index_map()[post.ids()[r].0] == r
    by {
        let eid = post.ids()[r].0;
        if r == row {
            assert(eid == pre.ids().last().0);
            assert(pre.index_map().contains_key(pre.ids()[n - 1].0)
                && pre.index_map()[pre.ids()[n - 1].0] == n - 1);
        } else {
            assert(post.ids()[r] == pre.ids()[r]);
            assert(pre.index_map().contains_key(pre.ids()[r].0)
                && pre.index_map()[pre.ids()[r].0] == r);
            assert(eid != entity.0);
            if row + 1 != n {
                assert(eid != pre.ids().last().0) by {
                    if eid == pre.ids().last().0 {
                        assert(pre.index_map().contains_key(pre.ids()[n - 1].0)
                            && pre.index_map()[pre.ids()[n - 1].0] == n - 1);
                        assert(pre.index_map()[eid] == n - 1);
                    }
                };
            }
        }
    };
}

} // verus!

