//! An entity-component data store with a runtime-checked access layer.
//!
//! A [`Chunk`] owns a set of entities and, for every registered component
//! kind, one dense column of optional values. A parallel [`Resources`]
//! registry holds one singleton value per kind. Access to a column or a
//! resource goes through a non-blocking reader/writer latch: any number of
//! shared views or exactly one exclusive view may be outstanding, and a
//! conflicting request fails immediately instead of waiting. Structural
//! mutation that needs exclusivity over the whole store can be deferred
//! through a [`CommandQueue`] and applied in order once all views are
//! released, typically at the end of a system invocation driven by a
//! [`SystemsContext`].

pub mod chunk;
pub mod column;
pub mod commands;
pub mod components;
pub mod entities;
pub mod query;
pub mod resources;
pub mod systems;
pub mod table;

use vstd::prelude::*;

pub use chunk::{Chunk, ChunkBuilder};
pub use column::ComponentsImpl;
pub use commands::{Command, CommandQueue, Commands};
pub use components::{ComponentsMut, ComponentsRef};
pub use entities::{Entities, Entity};
pub use query::{query, Query};
pub use resources::{ItemMut, ItemRef, ResourceMut, ResourceRef, Resources, ResourcesBuilder};
pub use systems::{ParamDecl, System, SystemsContext};

verus! {

/// Every failure the store can report.
///
/// Component kinds and resource kinds are identified by the `u64` key under
/// which they were registered; the failing kind is carried in the variant.
#[derive(Copy, Clone, Debug, PartialEq, Eq, Structural)]
pub enum Error {
    /// The entity identifier is not present in the live index: it was never
    /// spawned in this store, or it has been destroyed.
    InvalidEntity(Entity),
    /// A fatal internal condition of the component storage: a registered
    /// slot table pointing outside it, which is unreachable through the
    /// public interface. The class is deliberately widened to one more
    /// unrecoverable condition: a flush refused up front because applying
    /// the queue could exhaust the entity identifier space.
    InternalStorageError(u64),
    /// The component kind was never declared when the store was built.
    ComponentNotRegistered(u64),
    /// A view of the component kind could not be granted because a
    /// conflicting view is outstanding.
    ComponentAlreadyBorrowedMutably(u64),
    /// The resource or item kind is not present in the registry.
    ResourceNotFound(u64),
    /// A view of the resource kind could not be granted because a
    /// conflicting view is outstanding.
    ResourceAlreadyBorrowedMutably(u64),
    /// A registered slot table pointed outside the resource storage. This
    /// indicates a broken library invariant and is unreachable through the
    /// public interface.
    CorruptedResource(u64),
    /// No command queue is bound where one is needed. Reserved: no
    /// operation of this library reports it.
    CommandQueueMissing,
    /// The command queue is already exclusively held, by an in-progress
    /// flush or by an outstanding deferred-command handle.
    CommandQueueAlreadyBorrowedMutably,
}

} // verus!
