//! Singleton values keyed by kind, with the same latch discipline as
//! component columns.
//!
//! A [`Resources`] registry holds at most one value per `u64` kind. The
//! same mechanism serves two namespaces: store-independent resources (a
//! registry passed alongside the store) and store-scoped items (a registry
//! owned by the store); a system parameter type distinguishes which one it
//! targets. Access to a value goes through a non-blocking reader/writer
//! latch: a conflicting request fails immediately with
//! [`Error::ResourceAlreadyBorrowedMutably`], and a request for an
//! unregistered kind fails with [`Error::ResourceNotFound`].

use crate::table::{table_entries, SlotTable};
use crate::Error;
use vstd::prelude::*;

verus! {

/// One stored value together with its kind and its reader/writer latch.
struct LatchedValue<V> {
    kind: u64,
    value: V,
    readers: usize,
    writer: bool,
}

/// The state of one resource as the contracts see it: its value and its
/// latch.
#[verifier::ext_equal]
pub ghost struct ResourceModel<V> {
    pub value: V,
    pub readers: nat,
    pub writer: bool,
}

spec fn resource_model<V>(g: LatchedValue<V>) -> ResourceModel<V> {
    ResourceModel { value: g.value, readers: g.readers as nat, writer: g.writer }
}

/// A shared (read) view of one resource kind.
pub struct ResourceRef {
    kind: u64,
}

impl ResourceRef {
    /// The resource kind this view grants access to.
    pub closed spec fn kind_spec(self) -> u64 {
        self.kind
    }

    /// The resource kind this view grants access to.
    pub fn kind(&self) -> (r: u64)
        ensures
            r == self.kind_spec(),
    {
        self.kind
    }
}

/// An exclusive (write) view of one resource kind.
pub struct ResourceMut {
    kind: u64,
}

impl ResourceMut {
    /// The resource kind this view grants access to.
    pub closed spec fn kind_spec(self) -> u64 {
        self.kind
    }

    /// The resource kind this view grants access to.
    pub fn kind(&self) -> (r: u64)
        ensures
            r == self.kind_spec(),
    {
        self.kind
    }
}

/// A shared (read) view of one store-scoped item kind.
pub struct ItemRef {
    kind: u64,
}

impl ItemRef {
    /// The item kind this view grants access to.
    pub closed spec fn kind_spec(self) -> u64 {
        self.kind
    }

    /// The item kind this view grants access to.
    pub fn kind(&self) -> (r: u64)
        ensures
            r == self.kind_spec(),
    {
        self.kind
    }
}

/// An exclusive (write) view of one store-scoped item kind.
pub struct ItemMut {
    kind: u64,
}

impl ItemMut {
    /// The item kind this view grants access to.
    pub closed spec fn kind_spec(self) -> u64 {
        self.kind
    }

    /// The item kind this view grants access to.
    pub fn kind(&self) -> (r: u64)
        ensures
            r == self.kind_spec(),
    {
        self.kind
    }
}

impl ResourceRef {
    pub(crate) fn into_item(self) -> (r: ItemRef)
        ensures
            r.kind_spec() == self.kind_spec(),
    {
        ItemRef { kind: self.kind }
    }
}

impl ResourceMut {
    pub(crate) fn into_item_mut(self) -> (r: ItemMut)
        ensures
            r.kind_spec() == self.kind_spec(),
    {
        ItemMut { kind: self.kind }
    }
}

impl ItemRef {
    pub(crate) fn into_resource(self) -> (r: ResourceRef)
        ensures
            r.kind_spec() == self.kind_spec(),
    {
        ResourceRef { kind: self.kind }
    }
}

impl ItemMut {
    pub(crate) fn into_resource_mut(self) -> (r: ResourceMut)
        ensures
            r.kind_spec() == self.kind_spec(),
    {
        ResourceMut { kind: self.kind }
    }
}

/// A registry of singleton values, one per registered kind.
pub struct Resources<V> {
    registry: SlotTable,
    slots: Vec<LatchedValue<V>>,
}

impl<V> Resources<V> {
    /// The mapping from registered kind to storage slot.
    pub closed spec fn registry_map(self) -> Map<u64, usize> {
        table_entries(self.registry)
    }

    spec fn slots_seq(self) -> Seq<LatchedValue<V>> {
        self.slots@
    }

    /// The registered resources, by kind.
    pub closed spec fn res(self) -> Map<u64, ResourceModel<V>> {
        Map::new(
            |k: u64| self.registry_map().contains_key(k),
            |k: u64| resource_model(self.slots_seq()[self.registry_map()[k] as int]),
        )
    }

    /// Whether a value is stored under the kind.
    pub open spec fn registered(self, kind: u64) -> bool {
        self.res().contains_key(kind)
    }

    /// Whether a shared view of the kind can be granted.
    pub open spec fn can_read(self, kind: u64) -> bool {
        self.registered(kind) && !self.res()[kind].writer
    }

    /// Whether an exclusive view of the kind can be granted.
    pub open spec fn can_write(self, kind: u64) -> bool {
        self.registered(kind) && !self.res()[kind].writer && self.res()[kind].readers == 0
    }

    /// Whether no view of any kind is outstanding.
    pub open spec fn all_free(self) -> bool {
        forall|k: u64| #[trigger] self.res().contains_key(k)
            ==> self.res()[k].readers == 0 && !self.res()[k].writer
    }

    /// The kind registry and the slot storage are mutually consistent: a
    /// kind maps to the slot that carries it, and every slot carries a
    /// registered kind.
    pub closed spec fn wf(self) -> bool {
        &&& forall|k: u64| #[trigger] self.registry_map().contains_key(k)
            ==> (self.registry_map()[k] as int) < self.slots_seq().len()
                && self.slots_seq()[self.registry_map()[k] as int].kind == k
        &&& forall|s: int| #![trigger self.slots_seq()[s]] 0 <= s < self.slots_seq().len()
            ==> self.registry_map().contains_key(self.slots_seq()[s].kind)
                && self.registry_map()[self.slots_seq()[s].kind] as int == s
    }

    /// The number of storage slots allocated so far.
    pub closed spec fn slot_count(self) -> nat {
        self.slots_seq().len()
    }

    /// An empty registry.
    pub fn new() -> (r: Resources<V>)
        ensures
            r.wf(),
            r.res() =~= Map::empty(),
            r.slot_count() == 0,
    {
        Resources { registry: SlotTable::new(), slots: Vec::new() }
    }

    /// Stores the value under the kind, replacing any previous value and
    /// clearing the kind's latch.
    pub fn add_resource(&mut self, kind: u64, value: V)
        requires
            old(self).wf(),
        ensures
            final(self).wf(),
            final(self).res() =~= old(self).res().insert(
                kind,
                ResourceModel { value, readers: 0, writer: false },
            ),
            final(self).slot_count() <= old(self).slot_count() + 1,
    {
        let fresh = LatchedValue { kind, value, readers: 0, writer: false };
        match self.registry.get(kind) {
            Some(slot) => {
                proof {
                    assert(self.registry_map().contains_key(kind));
                }
                self.slots[slot] = fresh;
                proof {
                    lemma_slot_update_res(*old(self), *self, kind);
                    assert(self.res() =~= old(self).res().insert(
                        kind,
                        ResourceModel { value, readers: 0, writer: false },
                    ));
                }
            },
            None => {
                let slot = self.slots.len();
                self.slots.push(fresh);
                let _ = self.registry.insert(kind, slot);
                proof {
                    assert forall|k: u64| #[trigger] self.registry_map().contains_key(k) implies
                        (self.registry_map()[k] as int) < self.slots_seq().len()
                            && self.slots_seq()[self.registry_map()[k] as int].kind == k
                    by {
                        if k != kind {
                            assert(old(self).registry_map().contains_key(k));
                        }
                    };
                    assert forall|s: int| #![trigger self.slots_seq()[s]]
                        0 <= s < self.slots_seq().len()
                    implies
                        self.registry_map().contains_key(self.slots_seq()[s].kind)
                            && self.registry_map()[self.slots_seq()[s].kind] as int == s
                    by {
                        if s < old(self).slots_seq().len() {
                            assert(self.slots_seq()[s] == old(self).slots_seq()[s]);
                            assert(old(self).registry_map().contains_key(
                                old(self).slots_seq()[s].kind,
                            ));
                            assert(old(self).slots_seq()[s].kind != kind);
                        }
                    };
                    assert forall|k: u64| k != kind && #[trigger] old(self).res().contains_key(k)
                    implies self.res().contains_key(k) && self.res()[k] == old(self).res()[k] by {
                        assert((old(self).registry_map()[k] as int) < old(self).slots_seq().len());
                    };
                    assert(self.res() =~= old(self).res().insert(
                        kind,
                        ResourceModel { value, readers: 0, writer: false },
                    ));
                }
            },
        }
    }

    /// Erases the kind and drops its value, moving the last slot into the
    /// freed one. Erasing an unknown kind does nothing.
    pub fn remove_resource(&mut self, kind: u64)
        requires
            old(self).wf(),
        ensures
            final(self).wf(),
            final(self).res() =~= old(self).res().remove(kind),
            final(self).slot_count() <= old(self).slot_count(),
    {
        let slot = match self.registry.remove(kind) {
            None => {
                proof {
                    assert(final(self).res() =~= old(self).res().remove(kind));
                }
                return;
            },
            Some(slot) => slot,
        };
        proof {
            assert(old(self).registry_map().contains_key(kind));
            assert(old(self).slots_seq()[slot as int].kind == kind);
        }
        let _ = self.slots.swap_remove(slot);
        if slot < self.slots.len() {
            // The freed slot was not the trailing one: the previous last
            // value now lives there, and its kind is re-pointed.
            let moved_kind = self.slots[slot].kind;
            proof {
                let last = old(self).slots_seq().len() - 1;
                assert(old(self).slots_seq()[last].kind == moved_kind);
                assert(old(self).registry_map()[moved_kind] as int == last);
                assert(moved_kind != kind);
            }
            let _ = self.registry.insert(moved_kind, slot);
        }
        proof {
            lemma_remove_compaction(*old(self), *self, kind, slot as int);
            assert(final(self).res() =~= old(self).res().remove(kind));
        }
    }

    /// Grants a shared view of the kind, or reports why it cannot.
    pub(crate) fn acquire_ref(&mut self, kind: u64) -> (r: Result<ResourceRef, Error>)
        requires
            old(self).wf(),
            old(self).registered(kind) ==> old(self).res()[kind].readers < usize::MAX,
        ensures
            final(self).wf(),
            r is Ok <==> old(self).can_read(kind),
            r matches Ok(tok) ==> tok.kind_spec() == kind
                && final(self).res() =~= old(self).res().insert(
                    kind,
                    ResourceModel { readers: old(self).res()[kind].readers + 1, ..old(self).res()[kind] },
                ),
            (r matches Err(e) && e == Error::ResourceNotFound(kind))
                <==> !old(self).registered(kind),
            (r matches Err(e) && e == Error::ResourceAlreadyBorrowedMutably(kind))
                <==> old(self).registered(kind) && old(self).res()[kind].writer,
            r is Err ==> final(self).res() == old(self).res(),
    {
        let slot = match self.registry.get(kind) {
            None => {
                return Err(Error::ResourceNotFound(kind));
            },
            Some(slot) => slot,
        };
        proof {
            assert(self.registry_map().contains_key(kind));
        }
        if self.slots[slot].writer {
            return Err(Error::ResourceAlreadyBorrowedMutably(kind));
        }
        let new_readers = self.slots[slot].readers + 1;
        self.slots[slot].readers = new_readers;
        proof {
            lemma_slot_update_res(*old(self), *self, kind);
            assert(final(self).res() =~= old(self).res().insert(
                kind,
                ResourceModel { readers: old(self).res()[kind].readers + 1, ..old(self).res()[kind] },
            ));
        }
        Ok(ResourceRef { kind })
    }

    /// Grants an exclusive view of the kind, or reports why it cannot.
    pub(crate) fn acquire_mut(&mut self, kind: u64) -> (r: Result<ResourceMut, Error>)
        requires
            old(self).wf(),
        ensures
            final(self).wf(),
            r is Ok <==> old(self).can_write(kind),
            r matches Ok(tok) ==> tok.kind_spec() == kind
                && final(self).res() =~= old(self).res().insert(
                    kind,
                    ResourceModel { writer: true, ..old(self).res()[kind] },
                ),
            (r matches Err(e) && e == Error::ResourceNotFound(kind))
                <==> !old(self).registered(kind),
            (r matches Err(e) && e == Error::ResourceAlreadyBorrowedMutably(kind))
                <==> old(self).registered(kind)
                    && (old(self).res()[kind].writer || old(self).res()[kind].readers > 0),
            r is Err ==> final(self).res() == old(self).res(),
    {
        let slot = match self.registry.get(kind) {
            None => {
                return Err(Error::ResourceNotFound(kind));
            },
            Some(slot) => slot,
        };
        proof {
            assert(self.registry_map().contains_key(kind));
        }
        if self.slots[slot].writer || self.slots[slot].readers > 0 {
            return Err(Error::ResourceAlreadyBorrowedMutably(kind));
        }
        self.slots[slot].writer = true;
        proof {
            lemma_slot_update_res(*old(self), *self, kind);
            assert(final(self).res() =~= old(self).res().insert(
                kind,
                ResourceModel { writer: true, ..old(self).res()[kind] },
            ));
        }
        Ok(ResourceMut { kind })
    }

    /// Releases a shared view: one outstanding reader leaves the latch.
    pub(crate) fn release_ref(&mut self, tok: ResourceRef)
        requires
            old(self).wf(),
        ensures
            final(self).wf(),
            final(self).res() =~= (if old(self).registered(tok.kind_spec())
                && old(self).res()[tok.kind_spec()].readers > 0 {
                old(self).res().insert(
                    tok.kind_spec(),
                    ResourceModel {
                        readers: (old(self).res()[tok.kind_spec()].readers - 1) as nat,
                        ..old(self).res()[tok.kind_spec()]
                    },
                )
            } else {
                old(self).res()
            }),
    {
        let kind = tok.kind;
        if let Some(slot) = self.registry.get(kind) {
            proof {
                assert(self.registry_map().contains_key(kind));
            }
            if self.slots[slot].readers > 0 {
                let new_readers = self.slots[slot].readers - 1;
                self.slots[slot].readers = new_readers;
                proof {
                    lemma_slot_update_res(*old(self), *self, kind);
                    assert(final(self).res() =~= old(self).res().insert(
                        kind,
                        ResourceModel {
                            readers: (old(self).res()[kind].readers - 1) as nat,
                            ..old(self).res()[kind]
                        },
                    ));
                }
            } else {
                proof {
                    assert(final(self).res() =~= old(self).res());
                }
            }
        } else {
            proof {
                assert(final(self).res() =~= old(self).res());
            }
        }
    }

    /// Releases an exclusive view: the latch's writer mark is cleared.
    pub(crate) fn release_mut(&mut self, tok: ResourceMut)
        requires
            old(self).wf(),
        ensures
            final(self).wf(),
            final(self).res() =~= (if old(self).registered(tok.kind_spec()) {
                old(self).res().insert(
                    tok.kind_spec(),
                    ResourceModel { writer: false, ..old(self).res()[tok.kind_spec()] },
                )
            } else {
                old(self).res()
            }),
    {
        let kind = tok.kind;
        if let Some(slot) = self.registry.get(kind) {
            proof {
                assert(self.registry_map().contains_key(kind));
            }
            self.slots[slot].writer = false;
            proof {
                lemma_slot_update_res(*old(self), *self, kind);
                assert(final(self).res() =~= old(self).res().insert(
                    kind,
                    ResourceModel { writer: false, ..old(self).res()[kind] },
                ));
            }
        } else {
            proof {
                assert(final(self).res() =~= old(self).res());
            }
        }
    }

    /// The reader count and writer mark of the kind's latch, or `None` if
    /// the kind is not registered.
    pub(crate) fn latch(&self, kind: u64) -> (r: Option<(usize, bool)>)
        requires
            self.wf(),
        ensures
            r matches Some(g) ==> self.registered(kind)
                && g.0 == self.res()[kind].readers && g.1 == self.res()[kind].writer,
            r is None <==> !self.registered(kind),
    {
        match self.registry.get(kind) {
            None => None,
            Some(slot) => {
                proof {
                    assert(self.registry_map().contains_key(kind));
                }
                Some((self.slots[slot].readers, self.slots[slot].writer))
            },
        }
    }

    /// The value stored under the kind, if any.
    pub(crate) fn value_of(&self, kind: u64) -> (r: Option<&V>)
        requires
            self.wf(),
        ensures
            r matches Some(v) ==> self.registered(kind) && self.res()[kind].value == *v,
            r is None ==> !self.registered(kind),
    {
        match self.registry.get(kind) {
            None => None,
            Some(slot) => {
                proof {
                    assert(self.registry_map().contains_key(kind));
                }
                Some(&self.slots[slot].value)
            },
        }
    }

    /// Replaces the value stored under the kind, leaving the latch as it is.
    /// Reports whether the kind was present.
    pub(crate) fn set_value(&mut self, kind: u64, value: V) -> (r: bool)
        requires
            old(self).wf(),
        ensures
            final(self).wf(),
            r == old(self).registered(kind),
            final(self).res() =~= (if old(self).registered(kind) {
                old(self).res().insert(
                    kind,
                    ResourceModel { value, ..old(self).res()[kind] },
                )
            } else {
                old(self).res()
            }),
    {
        match self.registry.get(kind) {
            None => false,
            Some(slot) => {
                proof {
                    assert(self.registry_map().contains_key(kind));
                }
                self.slots[slot].value = value;
                proof {
                    lemma_slot_update_res(*old(self), *self, kind);
                    assert(final(self).res() =~= old(self).res().insert(
                        kind,
                        ResourceModel { value, ..old(self).res()[kind] },
                    ));
                }
                true
            },
        }
    }
}

impl<V> Resources<V> {
    /// Grants a shared view of the resource kind; any number may be
    /// outstanding at once, but none while an exclusive view is.
    pub fn resource_ref(&mut self, kind: u64) -> (r: Result<ResourceRef, Error>)
        requires
            old(self).wf(),
            old(self).registered(kind) ==> old(self).res()[kind].readers < usize::MAX,
        ensures
            final(self).wf(),
            r is Ok <==> old(self).can_read(kind),
            r matches Ok(tok) ==> tok.kind_spec() == kind
                && final(self).res() =~= old(self).res().insert(
                    kind,
                    ResourceModel {
                        readers: old(self).res()[kind].readers + 1,
                        ..old(self).res()[kind]
                    },
                ),
            (r matches Err(e) && e == Error::ResourceNotFound(kind))
                <==> !old(self).registered(kind),
            (r matches Err(e) && e == Error::ResourceAlreadyBorrowedMutably(kind))
                <==> old(self).registered(kind) && old(self).res()[kind].writer,
            r is Err ==> final(self).res() == old(self).res(),
    {
        self.acquire_ref(kind)
    }

    /// Grants an exclusive view of the resource kind; it excludes every
    /// other view of the kind until released.
    pub fn resource_mut(&mut self, kind: u64) -> (r: Result<ResourceMut, Error>)
        requires
            old(self).wf(),
        ensures
            final(self).wf(),
            r is Ok <==> old(self).can_write(kind),
            r matches Ok(tok) ==> tok.kind_spec() == kind
                && final(self).res() =~= old(self).res().insert(
                    kind,
                    ResourceModel { writer: true, ..old(self).res()[kind] },
                ),
            (r matches Err(e) && e == Error::ResourceNotFound(kind))
                <==> !old(self).registered(kind),
            (r matches Err(e) && e == Error::ResourceAlreadyBorrowedMutably(kind))
                <==> old(self).registered(kind)
                    && (old(self).res()[kind].writer || old(self).res()[kind].readers > 0),
            r is Err ==> final(self).res() == old(self).res(),
    {
        self.acquire_mut(kind)
    }

    /// Releases a shared resource view: one reader leaves the latch.
    pub fn release_resource_ref(&mut self, tok: ResourceRef)
        requires
            old(self).wf(),
        ensures
            final(self).wf(),
            final(self).res() =~= (if old(self).registered(tok.kind_spec())
                && old(self).res()[tok.kind_spec()].readers > 0 {
                old(self).res().insert(
                    tok.kind_spec(),
                    ResourceModel {
                        readers: (old(self).res()[tok.kind_spec()].readers - 1) as nat,
                        ..old(self).res()[tok.kind_spec()]
                    },
                )
            } else {
                old(self).res()
            }),
    {
        self.release_ref(tok);
    }

    /// Releases an exclusive resource view: the latch is free again.
    pub fn release_resource_mut(&mut self, tok: ResourceMut)
        requires
            old(self).wf(),
        ensures
            final(self).wf(),
            final(self).res() =~= (if old(self).registered(tok.kind_spec()) {
                old(self).res().insert(
                    tok.kind_spec(),
                    ResourceModel { writer: false, ..old(self).res()[tok.kind_spec()] },
                )
            } else {
                old(self).res()
            }),
    {
        self.release_mut(tok);
    }

    /// The resource value under a shared view, or `None` if the kind is
    /// gone.
    pub fn get(&self, tok: &ResourceRef) -> (r: Option<&V>)
        requires
            self.wf(),
        ensures
            r matches Some(v) ==> self.registered(tok.kind_spec())
                && self.res()[tok.kind_spec()].value == *v,
            r is None ==> !self.registered(tok.kind_spec()),
    {
        self.value_of(tok.kind())
    }

    /// The resource value under an exclusive view, or `None` if the kind
    /// is gone.
    pub fn get_w(&self, tok: &ResourceMut) -> (r: Option<&V>)
        requires
            self.wf(),
        ensures
            r matches Some(v) ==> self.registered(tok.kind_spec())
                && self.res()[tok.kind_spec()].value == *v,
            r is None ==> !self.registered(tok.kind_spec()),
    {
        self.value_of(tok.kind())
    }

    /// Replaces the resource value under an exclusive view, reporting
    /// whether the kind was present.
    pub fn set(&mut self, tok: &ResourceMut, value: V) -> (r: bool)
        requires
            old(self).wf(),
        ensures
            final(self).wf(),
            r == old(self).registered(tok.kind_spec()),
            final(self).res() =~= (if old(self).registered(tok.kind_spec()) {
                old(self).res().insert(
                    tok.kind_spec(),
                    ResourceModel { value, ..old(self).res()[tok.kind_spec()] },
                )
            } else {
                old(self).res()
            }),
    {
        self.set_value(tok.kind(), value)
    }
}

/// Updating the storage slot of one kind, keeping the slot's kind mark,
/// leaves every other kind's resource unchanged and the registry
/// consistent.
proof fn lemma_slot_update_res<V>(pre: Resources<V>, post: Resources<V>, kind: u64)
    requires
        pre.wf(),
        pre.registry_map().contains_key(kind),
        post.registry_map() == pre.registry_map(),
        post.slots_seq().len() == pre.slots_seq().len(),
        forall|s: int| #![trigger post.slots_seq()[s]] 0 <= s < post.slots_seq().len()
            && s != pre.registry_map()[kind] ==> post.slots_seq()[s] == pre.slots_seq()[s],
        post.slots_seq()[pre.registry_map()[kind] as int].kind
            == pre.slots_seq()[pre.registry_map()[kind] as int].kind,
    ensures
        post.wf(),
        forall|k: u64| k != kind && #[trigger] pre.res().contains_key(k)
            ==> post.res().contains_key(k) && post.res()[k] == pre.res()[k],
        forall|k: u64| #[trigger] post.res().contains_key(k) <==> pre.res().contains_key(k),
{
    let target = pre.registry_map()[kind] as int;
    assert forall|k: u64| #[trigger] post.registry_map().contains_key(k) implies
        (post.registry_map()[k] as int) < post.slots_seq().len()
            && post.slots_seq()[post.registry_map()[k] as int].kind == k
    by {
        assert(pre.registry_map().contains_key(k));
        let s = pre.registry_map()[k] as int;
        if s != target {
            assert(post.slots_seq()[s] == pre.slots_seq()[s]);
        }
    };
    assert forall|s: int| #![trigger post.slots_seq()[s]] 0 <= s < post.slots_seq().len() implies
        post.registry_map().contains_key(post.slots_seq()[s].kind)
            && post.registry_map()[post.slots_seq()[s].kind] as int == s
    by {
        if s != target {
            assert(post.slots_seq()[s] == pre.slots_seq()[s]);
        }
        assert(pre.registry_map().contains_key(pre.slots_seq()[s].kind));
    };
    assert forall|k: u64| k != kind && #[trigger] pre.res().contains_key(k) implies
        post.res().contains_key(k) && post.res()[k] == pre.res()[k]
    by {
        assert(pre.registry_map().contains_key(k));
        let s = pre.registry_map()[k] as int;
        assert(pre.slots_seq()[s].kind == k);
        assert(pre.slots_seq()[target].kind == kind);
        assert(s != target);
        assert(post.slots_seq()[s] == pre.slots_seq()[s]);
    };
}

/// Swap-with-last-then-pop over the slot storage, together with erasing
/// the freed kind and re-pointing the moved one, keeps the registry a
/// bijection and removes exactly the freed kind's resource.
proof fn lemma_remove_compaction<V>(pre: Resources<V>, post: Resources<V>, kind: u64, slot: int)
    requires
        pre.wf(),
        pre.registry_map().contains_key(kind),
        slot == pre.registry_map()[kind] as int,
        post.slots_seq() =~= pre.slots_seq().update(slot, pre.slots_seq().last()).drop_last(),
        post.registry_map() =~= (if slot + 1 == pre.slots_seq().len() {
            pre.registry_map().remove(kind)
        } else {
            pre.registry_map().remove(kind).insert(
                pre.slots_seq().last().kind,
                slot as usize,
            )
        }),
    ensures
        post.wf(),
        post.res() =~= pre.res().remove(kind),
{
    let n = pre.slots_seq().len() as int;
    assert(0 <= slot < n);
    assert(pre.slots_seq()[slot].kind == kind);
    let moved = pre.slots_seq().last().kind;
    assert(pre.slots_seq()[n - 1].kind == moved);
    assert(pre.registry_map()[moved] as int == n - 1);
    assert forall|k: u64| #[trigger] post.registry_map().contains_key(k) implies
        (post.registry_map()[k] as int) < post.slots_seq().len()
            && post.slots_seq()[post.registry_map()[k] as int].kind == k
    by {
        assert(pre.registry_map().contains_key(k));
        let s = pre.registry_map()[k] as int;
        assert(pre.slots_seq()[s].kind == k);
        if slot + 1 == n {
            assert(s != slot);
            assert(s < n - 1);
        } else {
            if k == moved {
                assert(post.registry_map()[k] as int == slot);
                assert(post.slots_seq()[slot] == pre.slots_seq()[n - 1]);
            } else {
                assert(s != n - 1);
                assert(s != slot);
            }
        }
    };
    assert forall|s: int| #![trigger post.slots_seq()[s]] 0 <= s < post.slots_seq().len() implies
        post.registry_map().contains_key(post.slots_seq()[s].kind)
            && post.registry_map()[post.slots_seq()[s].kind] as int == s
    by {
        let k = post.slots_seq()[s].kind;
        if s == slot {
            assert(post.slots_seq()[s] == pre.slots_seq()[n - 1]);
            assert(k == moved);
        } else {
            assert(post.slots_seq()[s] == pre.slots_seq()[s]);
            assert(pre.registry_map().contains_key(k) && pre.registry_map()[k] as int == s);
            assert(k != kind);
            if slot + 1 != n {
                assert(k != moved) by {
                    if k == moved {
                        assert(pre.registry_map()[k] as int == n - 1);
                    }
                };
            }
        }
    };
    assert forall|k: u64| #[trigger] post.res().contains_key(k) implies
        post.res()[k] == pre.res()[k]
    by {
        let s = post.registry_map()[k] as int;
        if s == slot && k == moved {
            assert(post.slots_seq()[slot] == pre.slots_seq()[n - 1]);
        } else {
            assert(pre.registry_map()[k] as int == s);
            assert(post.slots_seq()[s] == pre.slots_seq()[s]);
        }
    };
}

/// A builder declaring the initial resources of a registry.
pub struct ResourcesBuilder<V> {
    resources: Resources<V>,
}

impl<V> ResourcesBuilder<V> {
    /// The resources declared so far, each with a free latch.
    pub closed spec fn res(self) -> Map<u64, ResourceModel<V>> {
        self.resources.res()
    }

    /// The declared registry is consistent and every latch is free.
    pub closed spec fn wf(self) -> bool {
        &&& self.resources.wf()
        &&& self.resources.all_free()
    }

    /// The number of storage slots allocated so far.
    pub closed spec fn slot_count(self) -> nat {
        self.resources.slot_count()
    }

    /// A builder with no resource declared.
    pub fn new() -> (r: ResourcesBuilder<V>)
        ensures
            r.wf(),
            r.res() =~= Map::empty(),
            r.slot_count() == 0,
    {
        ResourcesBuilder { resources: Resources::new() }
    }

    /// Declares a resource with its initial value, replacing any earlier
    /// declaration of the kind.
    pub fn with_resource(self, kind: u64, value: V) -> (r: ResourcesBuilder<V>)
        requires
            self.wf(),
        ensures
            r.wf(),
            r.res() =~= self.res().insert(
                kind,
                ResourceModel { value, readers: 0, writer: false },
            ),
            r.slot_count() <= self.slot_count() + 1,
    {
        let mut this = self;
        let ghost pre = this;
        this.resources.add_resource(kind, value);
        proof {
            assert forall|k: u64| #[trigger] this.resources.res().contains_key(k) implies
                this.resources.res()[k].readers == 0 && !this.resources.res()[k].writer
            by {
                if k != kind {
                    assert(pre.resources.res().contains_key(k));
                }
            };
        }
        this
    }

    /// Finishes the declaration and yields the registry.
    pub fn build(self) -> (r: Resources<V>)
        requires
            self.wf(),
        ensures
            r.wf(),
            r.all_free(),
            r.res() == self.res(),
    {
        self.resources
    }
}

} // verus!
