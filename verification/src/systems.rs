//! System execution: parameter resolution, the body, and the flush.
//!
//! A system declares the views it needs as a list of [`ParamDecl`] values.
//! Per invocation the context resolves one view per declaration, in
//! declaration order, against the bound store, resources and command
//! queue; the first declaration whose view cannot be granted aborts the
//! whole invocation with that declaration's error, before the body runs
//! and with nothing changed. On success the body is invoked exactly once,
//! its deferred commands are committed, and the queue is flushed; a flush
//! failure is reported as the invocation's error.

use crate::chunk::Chunk;
use crate::commands::{
    cmd_error_ok, flush_failure_index, flush_model, store_model, Command, CommandQueue, Commands,
};
use crate::resources::Resources;
use crate::Error;
use vstd::prelude::*;

verus! {

/// One declared system parameter: which view the system needs.
#[derive(Copy, Clone, Debug, PartialEq, Eq, Structural)]
pub enum ParamDecl {
    /// The live-entity view. Always grantable.
    EntitiesView,
    /// A shared view of the component kind.
    ComponentRead(u64),
    /// An exclusive view of the component kind.
    ComponentWrite(u64),
    /// A shared view of the store-scoped item kind.
    ItemRead(u64),
    /// An exclusive view of the store-scoped item kind.
    ItemWrite(u64),
    /// A shared view of the resource kind.
    ResourceRead(u64),
    /// An exclusive view of the resource kind.
    ResourceWrite(u64),
    /// The deferred-command handle; takes the queue's exclusive flag.
    DeferredCommands,
}

/// Whether the declaration takes an exclusive view of the component kind.
pub open spec fn writes_component(d: ParamDecl, kind: u64) -> bool {
    d == ParamDecl::ComponentWrite(kind)
}

/// Whether the declaration takes any view of the component kind.
pub open spec fn touches_component(d: ParamDecl, kind: u64) -> bool {
    d == ParamDecl::ComponentRead(kind) || d == ParamDecl::ComponentWrite(kind)
}

/// Whether the declaration takes an exclusive view of the item kind.
pub open spec fn writes_item(d: ParamDecl, kind: u64) -> bool {
    d == ParamDecl::ItemWrite(kind)
}

/// Whether the declaration takes any view of the item kind.
pub open spec fn touches_item(d: ParamDecl, kind: u64) -> bool {
    d == ParamDecl::ItemRead(kind) || d == ParamDecl::ItemWrite(kind)
}

/// Whether the declaration takes an exclusive view of the resource kind.
pub open spec fn writes_resource(d: ParamDecl, kind: u64) -> bool {
    d == ParamDecl::ResourceWrite(kind)
}

/// Whether the declaration takes any view of the resource kind.
pub open spec fn touches_resource(d: ParamDecl, kind: u64) -> bool {
    d == ParamDecl::ResourceRead(kind) || d == ParamDecl::ResourceWrite(kind)
}

/// Whether the declaration takes the deferred-command handle.
pub open spec fn is_deferred(d: ParamDecl) -> bool {
    d == ParamDecl::DeferredCommands
}

/// The error drawn by the declaration at position `i` when the views of
/// the declarations before it are already held, or `None` if its view can
/// be granted.
pub open spec fn decl_error<V>(
    chunk: Chunk<V>,
    resources: Resources<V>,
    queue: CommandQueue<V>,
    decls: Seq<ParamDecl>,
    i: int,
) -> Option<Error> {
    match decls[i] {
        ParamDecl::EntitiesView => None,
        ParamDecl::ComponentRead(k) => if !chunk.registered(k) {
            Some(Error::ComponentNotRegistered(k))
        } else if chunk.cols()[k].writer || exists|j: int|
            0 <= j < i && writes_component(#[trigger] decls[j], k) {
            Some(Error::ComponentAlreadyBorrowedMutably(k))
        } else {
            None
        },
        ParamDecl::ComponentWrite(k) => if !chunk.registered(k) {
            Some(Error::ComponentNotRegistered(k))
        } else if chunk.cols()[k].writer || chunk.cols()[k].readers > 0 || exists|j: int|
            0 <= j < i && touches_component(#[trigger] decls[j], k) {
            Some(Error::ComponentAlreadyBorrowedMutably(k))
        } else {
            None
        },
        ParamDecl::ItemRead(k) => if !chunk.item_map().contains_key(k) {
            Some(Error::ResourceNotFound(k))
        } else if chunk.item_map()[k].writer || exists|j: int|
            0 <= j < i && writes_item(#[trigger] decls[j], k) {
            Some(Error::ResourceAlreadyBorrowedMutably(k))
        } else {
            None
        },
        ParamDecl::ItemWrite(k) => if !chunk.item_map().contains_key(k) {
            Some(Error::ResourceNotFound(k))
        } else if chunk.item_map()[k].writer || chunk.item_map()[k].readers > 0 || exists|j: int|
            0 <= j < i && touches_item(#[trigger] decls[j], k) {
            Some(Error::ResourceAlreadyBorrowedMutably(k))
        } else {
            None
        },
        ParamDecl::ResourceRead(k) => if !resources.registered(k) {
            Some(Error::ResourceNotFound(k))
        } else if resources.res()[k].writer || exists|j: int|
            0 <= j < i && writes_resource(#[trigger] decls[j], k) {
            Some(Error::ResourceAlreadyBorrowedMutably(k))
        } else {
            None
        },
        ParamDecl::ResourceWrite(k) => if !resources.registered(k) {
            Some(Error::ResourceNotFound(k))
        } else if resources.res()[k].writer || resources.res()[k].readers > 0 || exists|j: int|
            0 <= j < i && touches_resource(#[trigger] decls[j], k) {
            Some(Error::ResourceAlreadyBorrowedMutably(k))
        } else {
            None
        },
        ParamDecl::DeferredCommands => if queue.locked() || exists|j: int|
            0 <= j < i && is_deferred(#[trigger] decls[j]) {
            Some(Error::CommandQueueAlreadyBorrowedMutably)
        } else {
            None
        },
    }
}

/// The first resolution error at or after position `i`, if any.
pub open spec fn first_resolve_error_from<V>(
    chunk: Chunk<V>,
    resources: Resources<V>,
    queue: CommandQueue<V>,
    decls: Seq<ParamDecl>,
    i: int,
) -> Option<Error>
    decreases decls.len() - i,
{
    if i < 0 || i >= decls.len() {
        None
    } else {
        match decl_error(chunk, resources, queue, decls, i) {
            Some(e) => Some(e),
            None => first_resolve_error_from(chunk, resources, queue, decls, i + 1),
        }
    }
}

/// The error of the first declaration whose view cannot be granted, in
/// declaration order, or `None` if the whole list resolves.
pub open spec fn first_resolve_error<V>(
    chunk: Chunk<V>,
    resources: Resources<V>,
    queue: CommandQueue<V>,
    decls: Seq<ParamDecl>,
) -> Option<Error> {
    first_resolve_error_from(chunk, resources, queue, decls, 0)
}

fn any_writes_component(decls: &Vec<ParamDecl>, upto: usize, kind: u64) -> (r: bool)
    requires
        upto <= decls@.len(),
    ensures
        r == exists|j: int| 0 <= j < upto && writes_component(#[trigger] decls@[j], kind),
{
    let mut j: usize = 0;
    while j < upto
        invariant
            upto <= decls@.len(),
            j <= upto,
            forall|j2: int| 0 <= j2 < j ==> !writes_component(#[trigger] decls@[j2], kind),
        decreases upto - j,
    {
        if decls[j] == ParamDecl::ComponentWrite(kind) {
            return true;
        }
        j = j + 1;
    }
    false
}

fn any_touches_component(decls: &Vec<ParamDecl>, upto: usize, kind: u64) -> (r: bool)
    requires
        upto <= decls@.len(),
    ensures
        r == exists|j: int| 0 <= j < upto && touches_component(#[trigger] decls@[j], kind),
{
    let mut j: usize = 0;
    while j < upto
        invariant
            upto <= decls@.len(),
            j <= upto,
            forall|j2: int| 0 <= j2 < j ==> !touches_component(#[trigger] decls@[j2], kind),
        decreases upto - j,
    {
        if decls[j] == ParamDecl::ComponentRead(kind) || decls[j] == ParamDecl::ComponentWrite(
            kind,
        ) {
            return true;
        }
        j = j + 1;
    }
    false
}

fn any_writes_item(decls: &Vec<ParamDecl>, upto: usize, kind: u64) -> (r: bool)
    requires
        upto <= decls@.len(),
    ensures
        r == exists|j: int| 0 <= j < upto && writes_item(#[trigger] decls@[j], kind),
{
    let mut j: usize = 0;
    while j < upto
        invariant
            upto <= decls@.len(),
            j <= upto,
            forall|j2: int| 0 <= j2 < j ==> !writes_item(#[trigger] decls@[j2], kind),
        decreases upto - j,
    {
        if decls[j] == ParamDecl::ItemWrite(kind) {
            return true;
        }
        j = j + 1;
    }
    false
}

fn any_touches_item(decls: &Vec<ParamDecl>, upto: usize, kind: u64) -> (r: bool)
    requires
        upto <= decls@.len(),
    ensures
        r == exists|j: int| 0 <= j < upto && touches_item(#[trigger] decls@[j], kind),
{
    let mut j: usize = 0;
    while j < upto
        invariant
            upto <= decls@.len(),
            j <= upto,
            forall|j2: int| 0 <= j2 < j ==> !touches_item(#[trigger] decls@[j2], kind),
        decreases upto - j,
    {
        if decls[j] == ParamDecl::ItemRead(kind) || decls[j] == ParamDecl::ItemWrite(kind) {
            return true;
        }
        j = j + 1;
    }
    false
}

fn any_writes_resource(decls: &Vec<ParamDecl>, upto: usize, kind: u64) -> (r: bool)
    requires
        upto <= decls@.len(),
    ensures
        r == exists|j: int| 0 <= j < upto && writes_resource(#[trigger] decls@[j], kind),
{
    let mut j: usize = 0;
    while j < upto
        invariant
            upto <= decls@.len(),
            j <= upto,
            forall|j2: int| 0 <= j2 < j ==> !writes_resource(#[trigger] decls@[j2], kind),
        decreases upto - j,
    {
        if decls[j] == ParamDecl::ResourceWrite(kind) {
            return true;
        }
        j = j + 1;
    }
    false
}

fn any_touches_resource(decls: &Vec<ParamDecl>, upto: usize, kind: u64) -> (r: bool)
    requires
        upto <= decls@.len(),
    ensures
        r == exists|j: int| 0 <= j < upto && touches_resource(#[trigger] decls@[j], kind),
{
    let mut j: usize = 0;
    while j < upto
        invariant
            upto <= decls@.len(),
            j <= upto,
            forall|j2: int| 0 <= j2 < j ==> !touches_resource(#[trigger] decls@[j2], kind),
        decreases upto - j,
    {
        if decls[j] == ParamDecl::ResourceRead(kind) || decls[j] == ParamDecl::ResourceWrite(
            kind,
        ) {
            return true;
        }
        j = j + 1;
    }
    false
}

fn any_deferred(decls: &Vec<ParamDecl>, upto: usize) -> (r: bool)
    requires
        upto <= decls@.len(),
    ensures
        r == exists|j: int| 0 <= j < upto && is_deferred(#[trigger] decls@[j]),
{
    let mut j: usize = 0;
    while j < upto
        invariant
            upto <= decls@.len(),
            j <= upto,
            forall|j2: int| 0 <= j2 < j ==> !is_deferred(#[trigger] decls@[j2]),
        decreases upto - j,
    {
        if decls[j] == ParamDecl::DeferredCommands {
            return true;
        }
        j = j + 1;
    }
    false
}

/// Checks, in declaration order, that every declared view can be granted,
/// reporting the first declaration's error otherwise. Acquired views do
/// not survive a failed resolution, so the check leaves everything as it
/// was.
fn resolve_check<V>(
    chunk: &Chunk<V>,
    resources: &Resources<V>,
    queue: &CommandQueue<V>,
    decls: &Vec<ParamDecl>,
) -> (r: Option<Error>)
    requires
        chunk.wf(),
        resources.wf(),
    ensures
        r == first_resolve_error(*chunk, *resources, *queue, decls@),
{
    let mut i: usize = 0;
    while i < decls.len()
        invariant
            chunk.wf(),
            resources.wf(),
            i <= decls@.len(),
            first_resolve_error(*chunk, *resources, *queue, decls@) == first_resolve_error_from(
                *chunk,
                *resources,
                *queue,
                decls@,
                i as int,
            ),
        decreases decls@.len() - i,
    {
        let e_opt: Option<Error> = match decls[i] {
            ParamDecl::EntitiesView => None,
            ParamDecl::ComponentRead(k) => match chunk.col_latch(k) {
                None => Some(Error::ComponentNotRegistered(k)),
                Some((_readers, writer)) => {
                    if writer || any_writes_component(decls, i, k) {
                        Some(Error::ComponentAlreadyBorrowedMutably(k))
                    } else {
                        None
                    }
                },
            },
            ParamDecl::ComponentWrite(k) => match chunk.col_latch(k) {
                None => Some(Error::ComponentNotRegistered(k)),
                Some((readers, writer)) => {
                    if writer || readers > 0 || any_touches_component(decls, i, k) {
                        Some(Error::ComponentAlreadyBorrowedMutably(k))
                    } else {
                        None
                    }
                },
            },
            ParamDecl::ItemRead(k) => match chunk.item_latch(k) {
                None => Some(Error::ResourceNotFound(k)),
                Some((_readers, writer)) => {
                    if writer || any_writes_item(decls, i, k) {
                        Some(Error::ResourceAlreadyBorrowedMutably(k))
                    } else {
                        None
                    }
                },
            },
            ParamDecl::ItemWrite(k) => match chunk.item_latch(k) {
                None => Some(Error::ResourceNotFound(k)),
                Some((readers, writer)) => {
                    if writer || readers > 0 || any_touches_item(decls, i, k) {
                        Some(Error::ResourceAlreadyBorrowedMutably(k))
                    } else {
                        None
                    }
                },
            },
            ParamDecl::ResourceRead(k) => match resources.latch(k) {
                None => Some(Error::ResourceNotFound(k)),
                Some((_readers, writer)) => {
                    if writer || any_writes_resource(decls, i, k) {
                        Some(Error::ResourceAlreadyBorrowedMutably(k))
                    } else {
                        None
                    }
                },
            },
            ParamDecl::ResourceWrite(k) => match resources.latch(k) {
                None => Some(Error::ResourceNotFound(k)),
                Some((readers, writer)) => {
                    if writer || readers > 0 || any_touches_resource(decls, i, k) {
                        Some(Error::ResourceAlreadyBorrowedMutably(k))
                    } else {
                        None
                    }
                },
            },
            ParamDecl::DeferredCommands => {
                if queue.is_locked() || any_deferred(decls, i) {
                    Some(Error::CommandQueueAlreadyBorrowedMutably)
                } else {
                    None
                }
            },
        };
        proof {
            assert(e_opt == decl_error(*chunk, *resources, *queue, decls@, i as int));
        }
        if let Some(e) = e_opt {
            return Some(e);
        }
        i = i + 1;
    }
    None
}

/// A system: a declared parameter list and a body run against the views
/// the list resolves to.
///
/// The embedding application implements this trait; the context promises
/// to invoke the body only with a consistent store and registry, and the
/// body leaves them consistent, which every operation of this library
/// does on its own.
pub trait System<V> {
    /// The declared parameter list as the contracts read it. The default
    /// declares no parameters; an implementation that overrides
    /// [`System::params`] overrides this to match, and a verified
    /// implementation is held to the agreement by the contract of
    /// `params`.
    open spec fn params_spec(&self) -> Seq<ParamDecl> {
        Seq::empty()
    }

    /// The declared parameter list, in resolution order: exactly
    /// [`System::params_spec`].
    fn params(&self) -> (r: Vec<ParamDecl>)
        ensures
            r@ == self.params_spec(),
    ;

    /// The system body, invoked exactly once per successful resolution.
    /// Deferred mutations recorded on the handle are applied after the
    /// body returns.
    fn run(
        &mut self,
        chunk: &mut Chunk<V>,
        resources: &mut Resources<V>,
        commands: &mut Commands<V>,
    )
        requires
            old(chunk).wf(),
            old(resources).wf(),
        ensures
            final(chunk).wf(),
            final(resources).wf(),
    ;
}

/// One permitted outcome of an invocation whose parameter resolution
/// succeeded with the queue free: the system body ran exactly once,
/// turning the bound store and resources into some consistent `c2` and
/// `r2` and recording the commands `staged` on its handle; the recorded
/// commands were committed behind the `pre_queue` already queued; and the
/// queue was then flushed exactly as [`CommandQueue::flush`] specifies,
/// its result becoming the invocation's.
pub open spec fn invocation_outcome<V>(
    c2: Chunk<V>,
    r2: Resources<V>,
    staged: Seq<Command<V>>,
    pre_queue: Seq<Command<V>>,
    post: SystemsContext<V>,
    r: Result<(), Error>,
) -> bool {
    let m1 = store_model(c2, r2);
    let q1 = pre_queue + staged;
    &&& c2.wf()
    &&& r2.wf()
    &&& !post.queue_spec().locked()
    &&& if c2.next_id() + q1.len() > u64::MAX {
        &&& store_model(post.chunk_spec(), post.resources_spec()) =~= m1
        &&& post.queue_spec().queue() =~= q1
        &&& r == Err::<(), Error>(Error::InternalStorageError(0))
    } else {
        &&& store_model(post.chunk_spec(), post.resources_spec()) =~= flush_model(m1, q1)
        &&& match flush_failure_index(m1, q1) {
            None => r is Ok && post.queue_spec().queue() =~= Seq::empty(),
            Some(i) => (r matches Err(e)
                && post.queue_spec().queue() =~= q1.subrange(i + 1, q1.len() as int)
                && cmd_error_ok(
                store_model(post.chunk_spec(), post.resources_spec()),
                q1[i],
                e,
            )),
        }
    }
}

/// Binds one store, one resource registry and one command queue for a
/// sequence of system invocations.
pub struct SystemsContext<V> {
    chunk: Chunk<V>,
    resources: Resources<V>,
    command_queue: CommandQueue<V>,
}

impl<V> SystemsContext<V> {
    /// The bound store.
    pub closed spec fn chunk_spec(self) -> Chunk<V> {
        self.chunk
    }

    /// The bound resource registry.
    pub closed spec fn resources_spec(self) -> Resources<V> {
        self.resources
    }

    /// The bound command queue.
    pub closed spec fn queue_spec(self) -> CommandQueue<V> {
        self.command_queue
    }

    /// The bound store and registry are consistent.
    pub open spec fn wf(self) -> bool {
        self.chunk_spec().wf() && self.resources_spec().wf()
    }

    /// Binds the store, the resources and the queue.
    pub fn new(
        chunk: Chunk<V>,
        resources: Resources<V>,
        command_queue: CommandQueue<V>,
    ) -> (r: SystemsContext<V>)
        requires
            chunk.wf(),
            resources.wf(),
        ensures
            r.wf(),
            r.chunk_spec() == chunk,
            r.resources_spec() == resources,
            r.queue_spec() == command_queue,
    {
        SystemsContext { chunk, resources, command_queue }
    }

    /// The bound store.
    pub fn chunk(&self) -> (r: &Chunk<V>)
        ensures
            *r == self.chunk_spec(),
    {
        &self.chunk
    }

    /// The bound resource registry.
    pub fn resources(&self) -> (r: &Resources<V>)
        ensures
            *r == self.resources_spec(),
    {
        &self.resources
    }

    /// The bound command queue.
    pub fn command_queue(&self) -> (r: &CommandQueue<V>)
        ensures
            *r == self.queue_spec(),
    {
        &self.command_queue
    }

    /// Releases the store, the resources and the queue back to the caller.
    pub fn into_parts(self) -> (r: (Chunk<V>, Resources<V>, CommandQueue<V>))
        ensures
            r.0 == self.chunk_spec(),
            r.1 == self.resources_spec(),
            r.2 == self.queue_spec(),
    {
        let SystemsContext { chunk, resources, command_queue } = self;
        (chunk, resources, command_queue)
    }

    /// One system invocation: resolves the declared parameter list in
    /// declaration order, runs the body once on success, commits the
    /// body's deferred commands, and flushes the queue. The first
    /// declaration whose view cannot be granted aborts the invocation
    /// with that declaration's error, before the body runs and with
    /// nothing changed; a queue already exclusively held aborts it the
    /// same way with the queue's error; a flush failure is reported as
    /// the invocation's error.
    pub fn run<S: System<V>>(&mut self, system: &mut S) -> (r: Result<(), Error>)
        requires
            old(self).wf(),
        ensures
            final(self).wf(),
            first_resolve_error(
                old(self).chunk_spec(),
                old(self).resources_spec(),
                old(self).queue_spec(),
                old(system).params_spec(),
            ) matches Some(e) ==> r == Err::<(), Error>(e) && *final(self) == *old(self),
            first_resolve_error(
                old(self).chunk_spec(),
                old(self).resources_spec(),
                old(self).queue_spec(),
                old(system).params_spec(),
            ) is None && old(self).queue_spec().locked()
                ==> r == Err::<(), Error>(Error::CommandQueueAlreadyBorrowedMutably)
                    && *final(self) == *old(self),
            first_resolve_error(
                old(self).chunk_spec(),
                old(self).resources_spec(),
                old(self).queue_spec(),
                old(system).params_spec(),
            ) is None && !old(self).queue_spec().locked()
                ==> exists|c2: Chunk<V>, r2: Resources<V>, staged: Seq<Command<V>>|
                    #[trigger] invocation_outcome(
                        c2,
                        r2,
                        staged,
                        old(self).queue_spec().queue(),
                        *final(self),
                        r,
                    ),
            r is Ok ==> final(self).queue_spec().queue().len() == 0
                && !final(self).queue_spec().locked(),
    {
        let decls = system.params();
        self.run_with_params(system, &decls)
    }

    /// One system invocation against an explicit declaration list: what
    /// [`SystemsContext::run`] does once the system has named its
    /// parameters. The first declaration whose view cannot be granted
    /// aborts the invocation with exactly that declaration's error, before
    /// the body runs and with nothing changed; on success the body runs
    /// once, its deferred commands are committed, and the queue is
    /// flushed.
    pub fn run_with_params<S: System<V>>(
        &mut self,
        system: &mut S,
        decls: &Vec<ParamDecl>,
    ) -> (r: Result<(), Error>)
        requires
            old(self).wf(),
        ensures
            final(self).wf(),
            first_resolve_error(
                old(self).chunk_spec(),
                old(self).resources_spec(),
                old(self).queue_spec(),
                decls@,
            ) matches Some(e) ==> r == Err::<(), Error>(e) && *final(self) == *old(self),
            first_resolve_error(
                old(self).chunk_spec(),
                old(self).resources_spec(),
                old(self).queue_spec(),
                decls@,
            ) is None && old(self).queue_spec().locked()
                ==> r == Err::<(), Error>(Error::CommandQueueAlreadyBorrowedMutably)
                    && *final(self) == *old(self),
            first_resolve_error(
                old(self).chunk_spec(),
                old(self).resources_spec(),
                old(self).queue_spec(),
                decls@,
            ) is None && !old(self).queue_spec().locked()
                ==> exists|c2: Chunk<V>, r2: Resources<V>, staged: Seq<Command<V>>|
                    #[trigger] invocation_outcome(
                        c2,
                        r2,
                        staged,
                        old(self).queue_spec().queue(),
                        *final(self),
                        r,
                    ),
            r is Ok ==> final(self).queue_spec().queue().len() == 0
                && !final(self).queue_spec().locked(),
    {
        if let Some(e) = resolve_check(&self.chunk, &self.resources, &self.command_queue, decls) {
            return Err(e);
        }
        let ghost pre_queue = old(self).queue_spec().queue();
        let mut commands = match self.command_queue.deferred_commands() {
            Ok(commands) => commands,
            Err(e) => {
                return Err(e);
            },
        };
        system.run(&mut self.chunk, &mut self.resources, &mut commands);
        let ghost c2 = self.chunk;
        let ghost r2 = self.resources;
        let ghost staged = commands.staged();
        self.command_queue.commit(commands);
        match self.command_queue.flush(&mut self.chunk, &mut self.resources) {
            Ok(_) => {
                proof {
                    assert(invocation_outcome(
                        c2,
                        r2,
                        staged,
                        pre_queue,
                        *self,
                        Ok::<(), Error>(()),
                    ));
                }
                Ok(())
            },
            Err(e) => {
                proof {
                    assert(invocation_outcome(
                        c2,
                        r2,
                        staged,
                        pre_queue,
                        *self,
                        Err::<(), Error>(e),
                    ));
                }
                Err(e)
            },
        }
    }
}

impl<V> Chunk<V> {
    /// Binds this store with a resource registry and a command queue into
    /// a context for running systems.
    pub fn with(
        self,
        resources: Resources<V>,
        command_queue: CommandQueue<V>,
    ) -> (r: SystemsContext<V>)
        requires
            self.wf(),
            resources.wf(),
        ensures
            r.wf(),
            r.chunk_spec() == self,
            r.resources_spec() == resources,
            r.queue_spec() == command_queue,
    {
        SystemsContext::new(self, resources, command_queue)
    }
}

} // verus!
