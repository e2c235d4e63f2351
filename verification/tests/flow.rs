use microecs::{
    Chunk, ChunkBuilder, Command, CommandQueue, Commands, Entity, Error, ParamDecl, Resources,
    System,
};

const X: u64 = 1;
const Y: u64 = 2;
const LOG: u64 = 50;

#[test]
fn composed_queries_yield_rows_present_in_every_member() {
    let mut chunk = ChunkBuilder::<i64>::new()
        .with_component(X)
        .with_component(Y)
        .build();
    let e1 = chunk.spawn().unwrap();
    let e2 = chunk.spawn().unwrap();
    let e3 = chunk.spawn().unwrap();

    // X on {e1, e2}; Y on {e2, e3}.
    chunk.add_component(X, e1, 10).unwrap();
    chunk.add_component(X, e2, 20).unwrap();
    chunk.add_component(Y, e2, 200).unwrap();
    chunk.add_component(Y, e3, 300).unwrap();

    let x = chunk.components_ref(X).unwrap();
    let y = chunk.components_ref(Y).unwrap();
    let pair = (x, y);
    let rows = microecs::query(&chunk, &pair);
    let (x, y) = pair;

    // Exactly e2's combined value, nothing else.
    assert_eq!(rows.len(), 1);
    let row = rows[0];
    assert_eq!(chunk.entity_at(row), Some(e2));
    assert_eq!(chunk.cell(&x, row), Some(&20));
    assert_eq!(chunk.cell(&y, row), Some(&200));

    chunk.release_components_ref(x);
    chunk.release_components_ref(y);
}

#[test]
fn exclusive_views_also_serve_queries() {
    let mut chunk = ChunkBuilder::<i64>::new()
        .with_component(X)
        .with_component(Y)
        .build();
    let e1 = chunk.spawn().unwrap();
    let e2 = chunk.spawn().unwrap();
    chunk.add_component(X, e1, 1).unwrap();
    chunk.add_component(X, e2, 2).unwrap();
    chunk.add_component(Y, e2, 20).unwrap();

    let x = chunk.components_ref(X).unwrap();
    let w = chunk.components_mut(Y).unwrap();
    let pair = (x, w);
    let rows = microecs::query(&chunk, &pair);
    let (x, w) = pair;
    assert_eq!(rows.len(), 1);
    assert_eq!(chunk.entity_at(rows[0]), Some(e2));

    // The exclusive member can edit what the query matched.
    chunk.insert(&w, e2, 21).unwrap();
    assert_eq!(chunk.get_w(&w, e2), Some(&21));
    chunk.release_components_ref(x);
    chunk.release_components_mut(w);
}

#[test]
fn the_entities_view_matches_every_row() {
    let mut chunk = ChunkBuilder::<i64>::new().with_component(X).build();
    let _ = chunk.spawn().unwrap();
    let _ = chunk.spawn().unwrap();
    let rows = microecs::query(&chunk, &microecs::Entities);
    assert_eq!(rows, vec![0, 1]);
}

#[test]
fn flushes_apply_commands_in_enqueue_order() {
    let mut chunk = ChunkBuilder::<i64>::new().with_component(X).build();
    let mut resources = Resources::<i64>::new();
    let mut queue = CommandQueue::<i64>::new();
    let e = chunk.spawn().unwrap();

    let mut commands = queue.deferred_commands().unwrap();
    commands.defer(Command::AddComponent(X, e, 1));
    commands.defer(Command::AddComponent(X, e, 2));
    commands.defer(Command::AddComponent(X, e, 3));
    queue.commit(commands);
    assert_eq!(queue.len(), 3);

    queue.flush(&mut chunk, &mut resources).unwrap();
    assert_eq!(queue.len(), 0);

    // The last enqueued write is the one that sticks.
    let x = chunk.components_ref(X).unwrap();
    assert_eq!(chunk.get(&x, e), Some(&3));
    chunk.release_components_ref(x);
}

#[test]
fn a_failing_command_stops_the_flush_and_keeps_earlier_effects() {
    let mut chunk = ChunkBuilder::<i64>::new().with_component(X).build();
    let mut resources = Resources::<i64>::new();
    let mut queue = CommandQueue::<i64>::new();
    let e1 = chunk.spawn().unwrap();
    let e3 = chunk.spawn().unwrap();
    let dead = chunk.spawn().unwrap();
    chunk.destroy(dead).unwrap();

    let mut commands = queue.deferred_commands().unwrap();
    commands.defer(Command::AddComponent(X, e1, 11));
    commands.defer(Command::Destroy(dead));
    commands.defer(Command::AddComponent(X, e3, 33));
    queue.commit(commands);

    // The second command fails; its error is the flush's error.
    assert_eq!(
        queue.flush(&mut chunk, &mut resources),
        Err(Error::InvalidEntity(dead))
    );

    // The first command's effect persists; the third was never applied and
    // stays queued.
    let x = chunk.components_ref(X).unwrap();
    assert_eq!(chunk.get(&x, e1), Some(&11));
    assert_eq!(chunk.get(&x, e3), None);
    chunk.release_components_ref(x);
    assert_eq!(queue.len(), 1);

    // A later flush applies what stayed queued.
    queue.flush(&mut chunk, &mut resources).unwrap();
    assert_eq!(queue.len(), 0);
    let x = chunk.components_ref(X).unwrap();
    assert_eq!(chunk.get(&x, e3), Some(&33));
    chunk.release_components_ref(x);
}

#[test]
fn deferred_spawn_destroy_and_resource_edits_apply_on_flush() {
    let mut chunk = ChunkBuilder::<i64>::new().with_component(X).build();
    let mut resources = Resources::<i64>::new();
    let mut queue = CommandQueue::<i64>::new();
    let doomed = chunk.spawn().unwrap();

    let mut commands = queue.deferred_commands().unwrap();
    commands.defer(Command::Spawn);
    commands.defer(Command::Destroy(doomed));
    commands.defer(Command::AddResource(LOG, 5));
    queue.commit(commands);
    queue.flush(&mut chunk, &mut resources).unwrap();

    assert_eq!(chunk.len(), 1);
    assert_eq!(chunk.index(doomed), None);
    let r = resources.resource_ref(LOG).unwrap();
    assert_eq!(resources.get(&r), Some(&5));
    resources.release_resource_ref(r);

    let mut commands = queue.deferred_commands().unwrap();
    commands.defer(Command::RemoveResource(LOG));
    queue.commit(commands);
    queue.flush(&mut chunk, &mut resources).unwrap();
    assert_eq!(
        resources.resource_ref(LOG).err(),
        Some(Error::ResourceNotFound(LOG))
    );
}

#[test]
fn the_queue_flag_excludes_flushes_and_second_handles() {
    let mut chunk = ChunkBuilder::<i64>::new().build();
    let mut resources = Resources::<i64>::new();
    let mut queue = CommandQueue::<i64>::new();

    let commands = queue.deferred_commands().unwrap();
    assert!(queue.is_locked());
    assert!(matches!(
        queue.deferred_commands(),
        Err(Error::CommandQueueAlreadyBorrowedMutably)
    ));
    assert_eq!(
        queue.flush(&mut chunk, &mut resources),
        Err(Error::CommandQueueAlreadyBorrowedMutably)
    );
    queue.commit(commands);
    assert!(!queue.is_locked());
    queue.flush(&mut chunk, &mut resources).unwrap();
}

/// A system that increments every present X value by one.
struct IncrementX;

impl System<i64> for IncrementX {
    fn params(&self) -> Vec<ParamDecl> {
        vec![ParamDecl::ComponentWrite(X)]
    }

    fn run(
        &mut self,
        chunk: &mut Chunk<i64>,
        _resources: &mut Resources<i64>,
        _commands: &mut Commands<i64>,
    ) {
        let w = chunk.components_mut(X).unwrap();
        let n = chunk.len();
        for row in 0..n {
            let entity = chunk.entity_at(row).unwrap();
            let value = chunk.get_w(&w, entity).copied();
            if let Some(v) = value {
                chunk.insert(&w, entity, v + 1).unwrap();
            }
        }
        chunk.release_components_mut(w);
    }
}

#[test]
fn a_system_run_twice_increments_only_entities_that_carry_x() {
    let mut chunk = ChunkBuilder::<i64>::new().with_component(X).build();
    let with_x = chunk.spawn().unwrap();
    let without_x = chunk.spawn().unwrap();
    let also_x = chunk.spawn().unwrap();
    chunk.add_component(X, with_x, 10).unwrap();
    chunk.add_component(X, also_x, 5).unwrap();

    let mut ctx = chunk.with(Resources::new(), CommandQueue::new());
    ctx.run(&mut IncrementX).unwrap();
    ctx.run(&mut IncrementX).unwrap();
    let (mut chunk, _resources, _queue) = ctx.into_parts();

    let x = chunk.components_ref(X).unwrap();
    assert_eq!(chunk.get(&x, with_x), Some(&12));
    assert_eq!(chunk.get(&x, without_x), None);
    assert_eq!(chunk.get(&x, also_x), Some(&7));
    chunk.release_components_ref(x);
}

/// A system that spawns one entity through the deferred-command handle.
struct SpawnOne;

impl System<i64> for SpawnOne {
    fn params(&self) -> Vec<ParamDecl> {
        vec![ParamDecl::DeferredCommands]
    }

    fn run(
        &mut self,
        _chunk: &mut Chunk<i64>,
        _resources: &mut Resources<i64>,
        commands: &mut Commands<i64>,
    ) {
        commands.defer(Command::Spawn);
    }
}

#[test]
fn deferred_commands_are_flushed_when_the_body_returns() {
    let chunk = ChunkBuilder::<i64>::new().build();
    let mut ctx = chunk.with(Resources::new(), CommandQueue::new());
    ctx.run(&mut SpawnOne).unwrap();
    assert_eq!(ctx.chunk().len(), 1);
    assert_eq!(ctx.command_queue().len(), 0);
}

/// A system whose declared parameters conflict with each other.
struct SelfConflicting;

impl System<i64> for SelfConflicting {
    fn params(&self) -> Vec<ParamDecl> {
        vec![ParamDecl::ComponentRead(X), ParamDecl::ComponentWrite(X)]
    }

    fn run(
        &mut self,
        _chunk: &mut Chunk<i64>,
        _resources: &mut Resources<i64>,
        _commands: &mut Commands<i64>,
    ) {
        panic!("the body must not run when resolution fails");
    }
}

/// A system declaring a component kind the store does not know.
struct WantsUnregistered;

impl System<i64> for WantsUnregistered {
    fn params(&self) -> Vec<ParamDecl> {
        vec![ParamDecl::EntitiesView, ParamDecl::ComponentRead(Y)]
    }

    fn run(
        &mut self,
        _chunk: &mut Chunk<i64>,
        _resources: &mut Resources<i64>,
        _commands: &mut Commands<i64>,
    ) {
        panic!("the body must not run when resolution fails");
    }
}

#[test]
fn the_first_unresolvable_parameter_aborts_the_invocation() {
    let mut chunk = ChunkBuilder::<i64>::new().with_component(X).build();
    let e = chunk.spawn().unwrap();
    chunk.add_component(X, e, 1).unwrap();
    let mut ctx = chunk.with(Resources::new(), CommandQueue::new());

    assert_eq!(
        ctx.run(&mut SelfConflicting),
        Err(Error::ComponentAlreadyBorrowedMutably(X))
    );
    assert_eq!(
        ctx.run(&mut WantsUnregistered),
        Err(Error::ComponentNotRegistered(Y))
    );

    // Nothing changed, and the store is still usable.
    let (mut chunk, _resources, _queue) = ctx.into_parts();
    assert_eq!(chunk.len(), 1);
    let x = chunk.components_ref(X).unwrap();
    assert_eq!(chunk.get(&x, e), Some(&1));
    chunk.release_components_ref(x);
}

/// A system reading a resource and recording its value as a component.
struct CopyScore;

const SCORE_RES: u64 = 77;

impl System<i64> for CopyScore {
    fn params(&self) -> Vec<ParamDecl> {
        vec![
            ParamDecl::EntitiesView,
            ParamDecl::ResourceRead(SCORE_RES),
            ParamDecl::ComponentWrite(X),
            ParamDecl::DeferredCommands,
        ]
    }

    fn run(
        &mut self,
        chunk: &mut Chunk<i64>,
        resources: &mut Resources<i64>,
        commands: &mut Commands<i64>,
    ) {
        let r = resources.resource_ref(SCORE_RES).unwrap();
        let score = *resources.get(&r).unwrap();
        resources.release_resource_ref(r);
        let n = chunk.len();
        for row in 0..n {
            let entity = chunk.entity_at(row).unwrap();
            commands.defer(Command::AddComponent(X, entity, score));
        }
    }
}

#[test]
fn systems_compose_resources_components_and_deferred_commands() {
    let mut chunk = ChunkBuilder::<i64>::new().with_component(X).build();
    let a = chunk.spawn().unwrap();
    let b = chunk.spawn().unwrap();
    let mut resources = Resources::new();
    resources.add_resource(SCORE_RES, 9);

    let mut ctx = chunk.with(resources, CommandQueue::new());
    ctx.run(&mut CopyScore).unwrap();
    let (mut chunk, _resources, _queue) = ctx.into_parts();

    let x = chunk.components_ref(X).unwrap();
    assert_eq!(chunk.get(&x, a), Some(&9));
    assert_eq!(chunk.get(&x, b), Some(&9));
    chunk.release_components_ref(x);
}

/// A system reading one item and one entity view.
struct ReadsItem;

const GAUGE: u64 = 60;

impl System<i64> for ReadsItem {
    fn params(&self) -> Vec<ParamDecl> {
        vec![ParamDecl::EntitiesView, ParamDecl::ItemRead(GAUGE), ParamDecl::ItemWrite(GAUGE)]
    }

    fn run(
        &mut self,
        _chunk: &mut Chunk<i64>,
        _resources: &mut Resources<i64>,
        _commands: &mut Commands<i64>,
    ) {
        panic!("the body must not run when resolution fails");
    }
}

#[test]
fn item_declarations_conflict_within_one_parameter_list() {
    let chunk = ChunkBuilder::<i64>::new().with_item(GAUGE, 0).build();
    let mut ctx = chunk.with(Resources::new(), CommandQueue::new());
    // The shared item view resolves, so the exclusive one after it is the
    // first failing declaration.
    assert_eq!(
        ctx.run(&mut ReadsItem),
        Err(Error::ResourceAlreadyBorrowedMutably(GAUGE))
    );
}

/// A system declaring the deferred-command handle twice.
struct DoubleDeferred;

impl System<i64> for DoubleDeferred {
    fn params(&self) -> Vec<ParamDecl> {
        vec![ParamDecl::DeferredCommands, ParamDecl::DeferredCommands]
    }

    fn run(
        &mut self,
        _chunk: &mut Chunk<i64>,
        _resources: &mut Resources<i64>,
        _commands: &mut Commands<i64>,
    ) {
        panic!("the body must not run when resolution fails");
    }
}

#[test]
fn the_deferred_command_handle_is_granted_once_per_invocation() {
    let chunk = ChunkBuilder::<i64>::new().build();
    let mut ctx = chunk.with(Resources::new(), CommandQueue::new());
    assert_eq!(
        ctx.run(&mut DoubleDeferred),
        Err(Error::CommandQueueAlreadyBorrowedMutably)
    );
}

/// A system wanting a resource the registry does not hold.
struct WantsMissingResource;

impl System<i64> for WantsMissingResource {
    fn params(&self) -> Vec<ParamDecl> {
        vec![ParamDecl::ResourceWrite(LOG)]
    }

    fn run(
        &mut self,
        _chunk: &mut Chunk<i64>,
        _resources: &mut Resources<i64>,
        _commands: &mut Commands<i64>,
    ) {
        panic!("the body must not run when resolution fails");
    }
}

#[test]
fn missing_resources_abort_resolution() {
    let chunk = ChunkBuilder::<i64>::new().build();
    let mut ctx = chunk.with(Resources::new(), CommandQueue::new());
    assert_eq!(
        ctx.run(&mut WantsMissingResource),
        Err(Error::ResourceNotFound(LOG))
    );
}

#[test]
fn deferred_component_removal_applies_on_flush() {
    let mut chunk = ChunkBuilder::<i64>::new().with_component(X).build();
    let mut resources = Resources::<i64>::new();
    let mut queue = CommandQueue::<i64>::new();
    let e = chunk.spawn().unwrap();
    chunk.add_component(X, e, 4).unwrap();

    let mut commands = queue.deferred_commands().unwrap();
    commands.defer(Command::RemoveComponent(X, e));
    queue.commit(commands);
    queue.flush(&mut chunk, &mut resources).unwrap();

    let x = chunk.components_ref(X).unwrap();
    assert_eq!(chunk.get(&x, e), None);
    chunk.release_components_ref(x);
    // The entity itself is still live.
    assert_eq!(chunk.index(e), Some(0));
}

#[test]
fn a_queue_locked_from_outside_aborts_the_invocation() {
    let mut chunk = ChunkBuilder::<i64>::new().with_component(X).build();
    let e = chunk.spawn().unwrap();
    chunk.add_component(X, e, 3).unwrap();

    // Hold the queue's exclusive flag, then bind the queue into a context.
    let mut queue = CommandQueue::<i64>::new();
    let handle = queue.deferred_commands().unwrap();
    let mut ctx = chunk.with(Resources::new(), queue);

    // The system declares no deferred-command parameter, so resolution
    // passes; the invocation still fails on the held queue, before the
    // body runs.
    assert_eq!(
        ctx.run(&mut IncrementX),
        Err(Error::CommandQueueAlreadyBorrowedMutably)
    );
    let (chunk, _resources, mut queue) = ctx.into_parts();
    assert!(queue.is_locked());

    // Releasing the flag makes the same invocation succeed.
    queue.commit(handle);
    let mut ctx = chunk.with(Resources::new(), queue);
    ctx.run(&mut IncrementX).unwrap();
    let (mut chunk, _resources, _queue) = ctx.into_parts();
    let x = chunk.components_ref(X).unwrap();
    assert_eq!(chunk.get(&x, e), Some(&4));
    chunk.release_components_ref(x);
}
