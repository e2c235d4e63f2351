//! The deferred command queue.
//!
//! A system body holds views resolved for its declared parameters, so it
//! cannot restructure the store (spawn, destroy, attach or detach
//! components, edit resources across the board) without invalidating the
//! views held alongside. Such mutations are recorded as [`Command`] values
//! on a [`CommandQueue`] and applied, strictly in enqueue order, once the
//! views are released. A flush stops at the first failing command: earlier
//! effects persist, the failing command's error is reported, and the
//! commands behind it stay queued, unapplied.

use crate::chunk::{destroy_shape, lemma_row_in_range, unchanged, Chunk};
use crate::components::ColumnModel;
use crate::entities::Entity;
use crate::resources::{ResourceModel, Resources};
use crate::Error;
use vstd::prelude::*;

verus! {

/// One deferred mutation, applied later under exclusive access to the
/// store and the resource registry.
pub enum Command<V> {
    /// Spawn one entity.
    Spawn,
    /// Destroy the entity.
    Destroy(Entity),
    /// Attach (or overwrite) the component of the kind on the entity.
    AddComponent(u64, Entity, V),
    /// Detach the component of the kind from the entity.
    RemoveComponent(u64, Entity),
    /// Store the value under the resource kind, replacing any previous
    /// value.
    AddResource(u64, V),
    /// Erase the resource kind.
    RemoveResource(u64),
}

/// The joint state a command is applied against: one store and one
/// resource registry.
#[verifier::ext_equal]
pub ghost struct StoreModel<V> {
    pub ids: Seq<Entity>,
    pub index: Map<u64, usize>,
    pub next: u64,
    pub cols: Map<u64, ColumnModel<V>>,
    pub items: Map<u64, ResourceModel<V>>,
    pub resources: Map<u64, ResourceModel<V>>,
}

/// The joint state of a store and a resource registry.
pub open spec fn store_model<V>(chunk: Chunk<V>, resources: Resources<V>) -> StoreModel<V> {
    StoreModel {
        ids: chunk.ids(),
        index: chunk.index_map(),
        next: chunk.next_id(),
        cols: chunk.cols(),
        items: chunk.item_map(),
        resources: resources.res(),
    }
}

/// Whether no column view of any kind is outstanding in the model.
pub open spec fn model_cols_free<V>(m: StoreModel<V>) -> bool {
    forall|k: u64| #[trigger] m.cols.contains_key(k)
        ==> m.cols[k].readers == 0 && !m.cols[k].writer
}

/// Whether the command fails when applied against the state.
pub open spec fn cmd_fails<V>(m: StoreModel<V>, cmd: Command<V>) -> bool {
    match cmd {
        Command::Spawn => !model_cols_free(m),
        Command::Destroy(e) => !m.index.contains_key(e.0) || !model_cols_free(m),
        Command::AddComponent(kind, e, _) => !m.index.contains_key(e.0)
            || !m.cols.contains_key(kind) || m.cols[kind].writer || m.cols[kind].readers > 0,
        Command::RemoveComponent(kind, e) => !m.index.contains_key(e.0)
            || !m.cols.contains_key(kind) || m.cols[kind].writer || m.cols[kind].readers > 0,
        Command::AddResource(_, _) => false,
        Command::RemoveResource(_) => false,
    }
}

/// Whether the error is one the command may report against the state. For
/// every failure but a busy column latch the error is pinned exactly; a
/// busy latch reports the kind of some busy column.
pub open spec fn cmd_error_ok<V>(m: StoreModel<V>, cmd: Command<V>, e: Error) -> bool {
    match cmd {
        Command::Spawn => exists|k: u64| #[trigger] m.cols.contains_key(k)
            && e == Error::ComponentAlreadyBorrowedMutably(k)
            && (m.cols[k].readers > 0 || m.cols[k].writer),
        Command::Destroy(ent) => if !m.index.contains_key(ent.0) {
            e == Error::InvalidEntity(ent)
        } else {
            exists|k: u64| #[trigger] m.cols.contains_key(k)
                && e == Error::ComponentAlreadyBorrowedMutably(k)
                && (m.cols[k].readers > 0 || m.cols[k].writer)
        },
        Command::AddComponent(kind, ent, _) => cmd_edit_error_ok(m, kind, ent, e),
        Command::RemoveComponent(kind, ent) => cmd_edit_error_ok(m, kind, ent, e),
        Command::AddResource(_, _) => false,
        Command::RemoveResource(_) => false,
    }
}

/// The error a component edit reports: unknown entity first, then
/// unregistered kind, then a busy latch.
pub open spec fn cmd_edit_error_ok<V>(m: StoreModel<V>, kind: u64, ent: Entity, e: Error) -> bool {
    if !m.index.contains_key(ent.0) {
        e == Error::InvalidEntity(ent)
    } else if !m.cols.contains_key(kind) {
        e == Error::ComponentNotRegistered(kind)
    } else {
        e == Error::ComponentAlreadyBorrowedMutably(kind)
    }
}

/// The state after the command, meaningful when the command does not fail.
pub open spec fn apply_model<V>(m: StoreModel<V>, cmd: Command<V>) -> StoreModel<V> {
    match cmd {
        Command::Spawn => StoreModel {
            ids: m.ids.push(Entity(m.next)),
            index: m.index.insert(m.next, m.ids.len() as usize),
            next: (m.next + 1) as u64,
            cols: m.cols.map_values(
                |c: ColumnModel<V>| ColumnModel { cells: c.cells.push(None), ..c },
            ),
            ..m
        },
        Command::Destroy(e) => {
            let row = m.index[e.0] as int;
            StoreModel {
                ids: m.ids.update(row, m.ids.last()).drop_last(),
                index: if row + 1 == m.ids.len() {
                    m.index.remove(e.0)
                } else {
                    m.index.remove(e.0).insert(m.ids.last().0, row as usize)
                },
                cols: m.cols.map_values(
                    |c: ColumnModel<V>| ColumnModel {
                        cells: c.cells.update(row, c.cells.last()).drop_last(),
                        ..c
                    },
                ),
                ..m
            }
        },
        Command::AddComponent(kind, e, v) => StoreModel {
            cols: m.cols.insert(
                kind,
                ColumnModel {
                    cells: m.cols[kind].cells.update(m.index[e.0] as int, Some(v)),
                    ..m.cols[kind]
                },
            ),
            ..m
        },
        Command::RemoveComponent(kind, e) => StoreModel {
            cols: m.cols.insert(
                kind,
                ColumnModel {
                    cells: m.cols[kind].cells.update(m.index[e.0] as int, None),
                    ..m.cols[kind]
                },
            ),
            ..m
        },
        Command::AddResource(kind, v) => StoreModel {
            resources: m.resources.insert(
                kind,
                ResourceModel { value: v, readers: 0, writer: false },
            ),
            ..m
        },
        Command::RemoveResource(kind) => StoreModel { resources: m.resources.remove(kind), ..m },
    }
}

/// The state after draining the queue front to back, stopping at the first
/// failing command.
pub open spec fn flush_model<V>(m: StoreModel<V>, cmds: Seq<Command<V>>) -> StoreModel<V>
    decreases cmds.len(),
{
    if cmds.len() == 0 {
        m
    } else if cmd_fails(m, cmds[0]) {
        m
    } else {
        flush_model(apply_model(m, cmds[0]), cmds.drop_first())
    }
}

/// The position of the first failing command of the queue against the
/// state, if any.
pub open spec fn flush_failure_index<V>(m: StoreModel<V>, cmds: Seq<Command<V>>) -> Option<int>
    decreases cmds.len(),
{
    if cmds.len() == 0 {
        None
    } else if cmd_fails(m, cmds[0]) {
        Some(0int)
    } else {
        match flush_failure_index(apply_model(m, cmds[0]), cmds.drop_first()) {
            None => None,
            Some(i) => Some(i + 1),
        }
    }
}

/// The model-level and the store-level readings of "no column view is
/// outstanding" agree.
proof fn lemma_cols_free_bridge<V>(chunk: Chunk<V>, resources: Resources<V>)
    ensures
        model_cols_free(store_model(chunk, resources)) == chunk.cols_all_free(),
{
    let m = store_model(chunk, resources);
    if chunk.cols_all_free() {
        assert forall|k: u64| #[trigger] m.cols.contains_key(k) implies
            m.cols[k].readers == 0 && !m.cols[k].writer
        by {
            assert(chunk.cols().contains_key(k));
        };
    }
    if model_cols_free(m) {
        assert forall|k: u64| #[trigger] chunk.cols().contains_key(k) implies
            chunk.cols()[k].readers == 0 && !chunk.cols()[k].writer
        by {
            assert(m.cols.contains_key(k));
        };
    }
}

/// Applies one command against the live store and resources.
fn apply<V>(chunk: &mut Chunk<V>, resources: &mut Resources<V>, cmd: Command<V>) -> (r: Result<
    (),
    Error,
>)
    requires
        old(chunk).wf(),
        old(resources).wf(),
        old(chunk).next_id() < u64::MAX,
    ensures
        final(chunk).wf(),
        final(resources).wf(),
        r is Ok <==> !cmd_fails(store_model(*old(chunk), *old(resources)), cmd),
        r is Ok ==> store_model(*final(chunk), *final(resources)) =~= apply_model(
            store_model(*old(chunk), *old(resources)),
            cmd,
        ),
        r matches Err(e) ==> cmd_error_ok(store_model(*old(chunk), *old(resources)), cmd, e)
            && store_model(*final(chunk), *final(resources)) =~= store_model(
            *old(chunk),
            *old(resources),
        ),
        final(chunk).next_id() <= old(chunk).next_id() + 1,
{
    let ghost m0 = store_model(*old(chunk), *old(resources));
    match cmd {
        Command::Spawn => {
            proof {
                lemma_cols_free_bridge(*old(chunk), *old(resources));
            }
            let r = chunk.spawn();
            proof {
                if r is Ok {
                    assert(store_model(*final(chunk), *final(resources)) =~= apply_model(m0, cmd));
                } else {
                    assert(unchanged(*old(chunk), *final(chunk)));
                }
            }
            match r {
                Ok(_) => Ok(()),
                Err(e) => Err(e),
            }
        },
        Command::Destroy(e) => {
            proof {
                lemma_cols_free_bridge(*old(chunk), *old(resources));
            }
            let r = chunk.destroy(e);
            proof {
                if r is Ok {
                    lemma_row_in_range(*old(chunk), e);
                    assert(destroy_shape(*old(chunk), *final(chunk), e));
                    assert(store_model(*final(chunk), *final(resources)) =~= apply_model(m0, cmd));
                }
            }
            r
        },
        Command::AddComponent(kind, e, v) => {
            let r = chunk.add_component(kind, e, v);
            proof {
                if r is Err {
                    assert(unchanged(*old(chunk), *final(chunk)));
                }
            }
            r
        },
        Command::RemoveComponent(kind, e) => {
            let r = chunk.remove_component(kind, e);
            proof {
                if r is Err {
                    assert(unchanged(*old(chunk), *final(chunk)));
                }
            }
            r
        },
        Command::AddResource(kind, v) => {
            resources.add_resource(kind, v);
            Ok(())
        },
        Command::RemoveResource(kind) => {
            resources.remove_resource(kind);
            Ok(())
        },
    }
}

/// An ordered queue of deferred commands, guarded by an exclusive flag of
/// its own: a flush and an outstanding deferred-command handle exclude
/// each other.
pub struct CommandQueue<V> {
    cmds: Vec<Command<V>>,
    locked: bool,
}

/// A handle for recording deferred commands, obtained while the queue's
/// exclusive flag is held; committing it appends the recorded commands to
/// the queue in order.
pub struct Commands<V> {
    staged: Vec<Command<V>>,
}

impl<V> Commands<V> {
    /// The commands recorded through this handle, in order.
    pub closed spec fn staged(self) -> Seq<Command<V>> {
        self.staged@
    }

    /// Records one deferred command.
    pub fn defer(&mut self, command: Command<V>)
        ensures
            final(self).staged() =~= old(self).staged().push(command),
    {
        self.staged.push(command);
    }
}

impl<V> CommandQueue<V> {
    /// The queued commands, front first.
    pub closed spec fn queue(self) -> Seq<Command<V>> {
        self.cmds@
    }

    /// Whether the queue is exclusively held.
    pub closed spec fn locked(self) -> bool {
        self.locked
    }

    /// An empty, unheld queue.
    pub fn new() -> (r: CommandQueue<V>)
        ensures
            r.queue() =~= Seq::empty(),
            !r.locked(),
    {
        CommandQueue { cmds: Vec::new(), locked: false }
    }

    /// Whether the queue is exclusively held.
    pub fn is_locked(&self) -> (r: bool)
        ensures
            r == self.locked(),
    {
        self.locked
    }

    /// The number of queued commands.
    pub fn len(&self) -> (r: usize)
        ensures
            r == self.queue().len(),
    {
        self.cmds.len()
    }

    /// Takes the queue's exclusive flag and hands out a deferred-command
    /// handle. Fails if the flag is already held.
    pub fn deferred_commands(&mut self) -> (r: Result<Commands<V>, Error>)
        ensures
            r is Ok <==> !old(self).locked(),
            r matches Ok(c) ==> c.staged() =~= Seq::empty() && final(self).locked()
                && final(self).queue() == old(self).queue(),
            r matches Err(e) ==> e == Error::CommandQueueAlreadyBorrowedMutably
                && *final(self) == *old(self),
    {
        if self.locked {
            return Err(Error::CommandQueueAlreadyBorrowedMutably);
        }
        self.locked = true;
        Ok(Commands { staged: Vec::new() })
    }

    /// Appends the handle's recorded commands to the queue, in order, and
    /// releases the queue's exclusive flag.
    pub fn commit(&mut self, commands: Commands<V>)
        ensures
            final(self).queue() =~= old(self).queue() + commands.staged(),
            !final(self).locked(),
    {
        let Commands { mut staged } = commands;
        self.cmds.append(&mut staged);
        self.locked = false;
    }

    /// Drains the queue front to back, applying each command against the
    /// store and the resources. Stops at the first failing command: the
    /// effects of earlier commands persist, the failing command's error is
    /// returned, and the commands behind it stay queued. Fails up front,
    /// applying nothing, if the queue's exclusive flag is held.
    pub fn flush(&mut self, chunk: &mut Chunk<V>, resources: &mut Resources<V>) -> (r: Result<
        (),
        Error,
    >)
        requires
            old(chunk).wf(),
            old(resources).wf(),
        ensures
            final(chunk).wf(),
            final(resources).wf(),
            final(self).locked() == old(self).locked(),
            old(chunk).next_id() + old(self).queue().len() > u64::MAX && !old(self).locked()
                ==> (r matches Err(e) && e == Error::InternalStorageError(0)
                    && *final(self) == *old(self)
                    && store_model(*final(chunk), *final(resources)) =~= store_model(
                    *old(chunk),
                    *old(resources),
                )),
            old(self).locked() ==> (r matches Err(e) && e
                == Error::CommandQueueAlreadyBorrowedMutably && *final(self) == *old(self)
                && store_model(*final(chunk), *final(resources)) =~= store_model(
                *old(chunk),
                *old(resources),
            )),
            !old(self).locked() && old(chunk).next_id() + old(self).queue().len() <= u64::MAX
                ==> store_model(*final(chunk), *final(resources)) =~= flush_model(
                store_model(*old(chunk), *old(resources)),
                old(self).queue(),
            ),
            !old(self).locked() && old(chunk).next_id() + old(self).queue().len() <= u64::MAX
                ==> {
                let m0 = store_model(*old(chunk), *old(resources));
                match flush_failure_index(m0, old(self).queue()) {
                    None => r is Ok && final(self).queue() =~= Seq::empty(),
                    Some(i) => r matches Err(e)
                        && final(self).queue() =~= old(self).queue().subrange(
                        i + 1,
                        old(self).queue().len() as int,
                    ) && cmd_error_ok(
                        store_model(*final(chunk), *final(resources)),
                        old(self).queue()[i],
                        e,
                    ),
                }
            },
    {
        if self.locked {
            return Err(Error::CommandQueueAlreadyBorrowedMutably);
        }
        let n = self.cmds.len();
        let headroom = u64::MAX - chunk.next_entity_id();
        if n as u64 > headroom {
            return Err(Error::InternalStorageError(0));
        }
        let ghost m0 = store_model(*old(chunk), *old(resources));
        let ghost cmds0 = self.cmds@;
        let ghost mut p: int = 0;
        while self.cmds.len() > 0
            invariant
                chunk.wf(),
                resources.wf(),
                !self.locked(),
                !old(self).locked(),
                old(chunk).next_id() + old(self).queue().len() <= u64::MAX,
                m0 == store_model(*old(chunk), *old(resources)),
                cmds0 == old(self).queue(),
                0 <= p <= cmds0.len(),
                self.cmds@ =~= cmds0.subrange(p, cmds0.len() as int),
                chunk.next_id() + self.cmds@.len() <= u64::MAX,
                flush_model(m0, cmds0) =~= flush_model(
                    store_model(*chunk, *resources),
                    self.cmds@,
                ),
                flush_failure_index(m0, cmds0) == (match flush_failure_index(
                    store_model(*chunk, *resources),
                    self.cmds@,
                ) {
                    None => None::<int>,
                    Some(j) => Some(j + p),
                }),
            decreases self.cmds.len(),
        {
            let ghost m_before = store_model(*chunk, *resources);
            let ghost rem_before = self.cmds@;
            let cmd = self.cmds.remove(0);
            proof {
                assert(rem_before[0] == cmd);
                assert(self.cmds@ =~= rem_before.drop_first());
            }
            match apply(chunk, resources, cmd) {
                Ok(_) => {
                    proof {
                        assert(!cmd_fails(m_before, cmd));
                        assert(store_model(*chunk, *resources) =~= apply_model(m_before, cmd));
                        assert(flush_model(m_before, rem_before) =~= flush_model(
                            store_model(*chunk, *resources),
                            self.cmds@,
                        ));
                        p = p + 1;
                        assert(self.cmds@ =~= cmds0.subrange(p, cmds0.len() as int));
                    }
                },
                Err(e) => {
                    proof {
                        assert(cmd_fails(m_before, cmd));
                        assert(flush_model(m_before, rem_before) =~= m_before);
                        assert(flush_failure_index(m_before, rem_before) == Some(0int));
                        assert(flush_failure_index(m0, cmds0) == Some(p));
                        assert(cmds0[p] == cmd);
                        assert(store_model(*chunk, *resources) =~= m_before);
                        assert(self.cmds@ =~= cmds0.subrange(p + 1, cmds0.len() as int));
                        assert(cmd_error_ok(store_model(*chunk, *resources), cmds0[p], e));
                    }
                    return Err(e);
                },
            }
        }
        proof {
            assert(flush_model(m0, cmds0) =~= store_model(*chunk, *resources));
            assert(flush_failure_index(m0, cmds0) is None);
        }
        Ok(())
    }
}

/// Command queue ordering and isolation: a flush applies commands in
/// enqueue order; when one fails, the effects of the commands before it
/// persist, it reports its error, and the commands after it are never
/// applied.
pub proof fn lemma_flush_isolation<V>(m: StoreModel<V>, cmds: Seq<Command<V>>)
    ensures
        flush_failure_index(m, cmds) is None ==> forall|j: int| 0 <= j < cmds.len()
            ==> !cmd_fails(flush_model(m, #[trigger] cmds.take(j)), cmds[j]),
        flush_failure_index(m, cmds) matches Some(i) ==> {
            &&& 0 <= i < cmds.len()
            &&& cmd_fails(flush_model(m, cmds.take(i)), cmds[i])
            &&& flush_model(m, cmds) =~= flush_model(m, cmds.take(i))
            &&& forall|j: int| 0 <= j < i
                ==> !cmd_fails(flush_model(m, #[trigger] cmds.take(j)), cmds[j])
        },
    decreases cmds.len(),
{
    if cmds.len() == 0 {
    } else if cmd_fails(m, cmds[0]) {
        assert(cmds.take(0) =~= Seq::empty());
        assert(flush_model(m, cmds.take(0)) == m);
    } else {
        let m1 = apply_model(m, cmds[0]);
        let rest = cmds.drop_first();
        lemma_flush_isolation(m1, rest);
        assert forall|j: int| 0 <= j < cmds.len() implies flush_model(m, #[trigger] cmds.take(j))
            =~= (if j == 0 { m } else { flush_model(m1, rest.take(j - 1)) })
        by {
            if j > 0 {
                assert(cmds.take(j)[0] == cmds[0]);
                assert(cmds.take(j).drop_first() =~= rest.take(j - 1));
                assert(cmds.take(j).len() > 0);
                assert(!cmd_fails(m, cmds.take(j)[0]));
            } else {
                assert(cmds.take(0) =~= Seq::empty());
            }
        };
        assert forall|j: int| 0 < j < cmds.len() implies cmds[j] == rest[j - 1] by {};
    }
}

} // verus!
