use microecs::{ChunkBuilder, Entity, Error};

const POS: u64 = 1;
const VEL: u64 = 2;
const SCORE: u64 = 10;

#[test]
fn spawn_and_destroy_keep_counts_in_step() {
    let mut chunk = ChunkBuilder::<i64>::new()
        .with_component(POS)
        .with_component(VEL)
        .build();
    assert_eq!(chunk.len(), 0);

    let a = chunk.spawn().unwrap();
    let b = chunk.spawn().unwrap();
    let c = chunk.spawn().unwrap();
    assert_eq!(chunk.len(), 3);
    assert_eq!(chunk.index(a), Some(0));
    assert_eq!(chunk.index(b), Some(1));
    assert_eq!(chunk.index(c), Some(2));

    // Every column has one row per live entity: the trailing row is
    // addressable in each column, one past it is not.
    let pos = chunk.components_ref(POS).unwrap();
    assert!(chunk.entity_at(2).is_some());
    assert!(chunk.entity_at(3).is_none());
    chunk.release_components_ref(pos);

    chunk.destroy(b).unwrap();
    assert_eq!(chunk.len(), 2);
    assert_eq!(chunk.index(a), Some(0));
    assert_eq!(chunk.index(c), Some(1));
    assert!(chunk.entity_at(2).is_none());

    chunk.destroy(a).unwrap();
    chunk.destroy(c).unwrap();
    assert_eq!(chunk.len(), 0);
    assert!(chunk.entity_at(0).is_none());
}

#[test]
fn destroying_the_last_entity_leaves_an_empty_store() {
    let mut chunk = ChunkBuilder::<i64>::new().with_component(POS).build();
    let only = chunk.spawn().unwrap();
    chunk.destroy(only).unwrap();
    assert_eq!(chunk.len(), 0);
    assert_eq!(chunk.index(only), None);
    let next = chunk.spawn().unwrap();
    assert_ne!(next, only);
}

#[test]
fn destroyed_identifiers_stay_invalid_and_are_never_respawned() {
    let mut chunk = ChunkBuilder::<i64>::new().with_component(POS).build();
    let a = chunk.spawn().unwrap();
    let b = chunk.spawn().unwrap();
    chunk.destroy(a).unwrap();

    assert_eq!(chunk.destroy(a), Err(Error::InvalidEntity(a)));
    assert_eq!(chunk.add_component(POS, a, 5), Err(Error::InvalidEntity(a)));
    assert_eq!(chunk.remove_component(POS, a), Err(Error::InvalidEntity(a)));
    assert_eq!(chunk.index(a), None);

    let tok = chunk.components_ref(POS).unwrap();
    assert_eq!(chunk.get(&tok, a), None);
    chunk.release_components_ref(tok);

    // Identifiers are handed out monotonically and never reused.
    let c = chunk.spawn().unwrap();
    let d = chunk.spawn().unwrap();
    assert_ne!(c, a);
    assert_ne!(d, a);
    assert_ne!(c, b);
    assert_ne!(d, b);
}

#[test]
fn swap_remove_moves_the_last_row_into_the_gap() {
    let mut chunk = ChunkBuilder::<i64>::new().with_component(POS).build();
    let a = chunk.spawn().unwrap();
    let b = chunk.spawn().unwrap();
    let c = chunk.spawn().unwrap();
    chunk.add_component(POS, a, 100).unwrap();
    chunk.add_component(POS, c, 300).unwrap();

    chunk.destroy(b).unwrap();

    assert_eq!(chunk.index(a), Some(0));
    assert_eq!(chunk.index(c), Some(1));
    assert_eq!(chunk.entity_at(0), Some(a));
    assert_eq!(chunk.entity_at(1), Some(c));

    let pos = chunk.components_ref(POS).unwrap();
    let rows = microecs::query(&chunk, &pos);
    assert_eq!(rows, vec![0, 1]);
    assert_eq!(chunk.cell(&pos, 0), Some(&100));
    assert_eq!(chunk.cell(&pos, 1), Some(&300));
    chunk.release_components_ref(pos);
}

#[test]
fn conflicting_component_views_are_refused() {
    let mut chunk = ChunkBuilder::<i64>::new().with_component(POS).build();
    let _ = chunk.spawn().unwrap();

    // Two shared views may be outstanding at once.
    let r1 = chunk.components_ref(POS).unwrap();
    let r2 = chunk.components_ref(POS).unwrap();

    // An exclusive view is refused while shared views are outstanding.
    assert_eq!(
        chunk.components_mut(POS).err(),
        Some(Error::ComponentAlreadyBorrowedMutably(POS))
    );
    chunk.release_components_ref(r1);
    assert_eq!(
        chunk.components_mut(POS).err(),
        Some(Error::ComponentAlreadyBorrowedMutably(POS))
    );
    chunk.release_components_ref(r2);

    // With every shared view released, the exclusive view is granted, and
    // then excludes shared views.
    let w = chunk.components_mut(POS).unwrap();
    assert_eq!(
        chunk.components_ref(POS).err(),
        Some(Error::ComponentAlreadyBorrowedMutably(POS))
    );
    assert_eq!(
        chunk.components_mut(POS).err(),
        Some(Error::ComponentAlreadyBorrowedMutably(POS))
    );
    chunk.release_components_mut(w);
    let again = chunk.components_ref(POS).unwrap();
    chunk.release_components_ref(again);
}

#[test]
fn unregistered_component_kinds_are_refused() {
    let mut chunk = ChunkBuilder::<i64>::new().with_component(POS).build();
    let e = chunk.spawn().unwrap();
    assert!(!chunk.has_component_kind(VEL));
    assert_eq!(
        chunk.components_ref(VEL).err(),
        Some(Error::ComponentNotRegistered(VEL))
    );
    assert_eq!(
        chunk.components_mut(VEL).err(),
        Some(Error::ComponentNotRegistered(VEL))
    );
    assert_eq!(
        chunk.add_component(VEL, e, 1),
        Err(Error::ComponentNotRegistered(VEL))
    );
}

#[test]
fn structural_edits_are_refused_while_a_view_is_outstanding() {
    let mut chunk = ChunkBuilder::<i64>::new().with_component(POS).build();
    let a = chunk.spawn().unwrap();

    let tok = chunk.components_ref(POS).unwrap();
    assert_eq!(
        chunk.spawn().err(),
        Some(Error::ComponentAlreadyBorrowedMutably(POS))
    );
    assert_eq!(
        chunk.destroy(a).err(),
        Some(Error::ComponentAlreadyBorrowedMutably(POS))
    );
    assert_eq!(
        chunk.add_component(POS, a, 1).err(),
        Some(Error::ComponentAlreadyBorrowedMutably(POS))
    );
    // Nothing changed.
    assert_eq!(chunk.len(), 1);
    assert_eq!(chunk.index(a), Some(0));
    chunk.release_components_ref(tok);

    chunk.add_component(POS, a, 1).unwrap();
    chunk.destroy(a).unwrap();
}

#[test]
fn exclusive_views_edit_components_in_place() {
    let mut chunk = ChunkBuilder::<i64>::new().with_component(POS).build();
    let a = chunk.spawn().unwrap();
    let b = chunk.spawn().unwrap();

    let w = chunk.components_mut(POS).unwrap();
    chunk.insert(&w, a, 41).unwrap();
    assert_eq!(chunk.get_w(&w, a), Some(&41));
    chunk.insert(&w, a, 42).unwrap();
    assert_eq!(chunk.get_w(&w, a), Some(&42));
    assert_eq!(chunk.get_w(&w, b), None);
    chunk.remove(&w, a).unwrap();
    assert_eq!(chunk.get_w(&w, a), None);
    assert_eq!(
        chunk.insert(&w, Entity(999), 1),
        Err(Error::InvalidEntity(Entity(999)))
    );
    chunk.release_components_mut(w);
}

#[test]
fn items_share_the_latch_discipline() {
    let mut chunk = ChunkBuilder::<i64>::new().with_item(SCORE, 7).build();

    assert_eq!(
        chunk.item_ref(99).err(),
        Some(Error::ResourceNotFound(99))
    );

    let r = chunk.item_ref(SCORE).unwrap();
    assert_eq!(chunk.item_get(&r), Some(&7));
    assert_eq!(
        chunk.item_mut(SCORE).err(),
        Some(Error::ResourceAlreadyBorrowedMutably(SCORE))
    );
    chunk.release_item_ref(r);

    let w = chunk.item_mut(SCORE).unwrap();
    assert!(chunk.item_set(&w, 8));
    assert_eq!(chunk.item_get_w(&w), Some(&8));
    assert_eq!(
        chunk.item_ref(SCORE).err(),
        Some(Error::ResourceAlreadyBorrowedMutably(SCORE))
    );
    chunk.release_item_mut(w);

    let r2 = chunk.item_ref(SCORE).unwrap();
    assert_eq!(chunk.item_get(&r2), Some(&8));
    chunk.release_item_ref(r2);
}

#[test]
fn resources_are_added_replaced_and_removed() {
    let mut resources = microecs::Resources::<i64>::new();
    assert_eq!(
        resources.resource_ref(SCORE).err(),
        Some(Error::ResourceNotFound(SCORE))
    );

    resources.add_resource(SCORE, 1);
    let r = resources.resource_ref(SCORE).unwrap();
    assert_eq!(resources.get(&r), Some(&1));
    assert_eq!(
        resources.resource_mut(SCORE).err(),
        Some(Error::ResourceAlreadyBorrowedMutably(SCORE))
    );
    resources.release_resource_ref(r);

    // Re-adding replaces the value and clears the latch.
    resources.add_resource(SCORE, 2);
    let w = resources.resource_mut(SCORE).unwrap();
    assert_eq!(resources.get_w(&w), Some(&2));
    assert!(resources.set(&w, 3));
    assert_eq!(resources.get_w(&w), Some(&3));
    resources.release_resource_mut(w);

    resources.remove_resource(SCORE);
    assert_eq!(
        resources.resource_ref(SCORE).err(),
        Some(Error::ResourceNotFound(SCORE))
    );
}

#[test]
fn column_values_are_dense_per_row() {
    let mut column = microecs::ComponentsImpl::<i64>::new();
    assert_eq!(column.len(), 0);
    column.push(Some(5));
    column.push(None);
    column.push(Some(7));
    assert_eq!(column.len(), 3);
    assert_eq!(column.get(0), Some(&5));
    assert_eq!(column.get(1), None);
    assert_eq!(column.get(2), Some(&7));
    assert_eq!(column.get(3), None);

    column.set(1, Some(6));
    assert_eq!(column.get(1), Some(&6));

    // Swap-remove fills the gap with the last row.
    column.swap_remove(0);
    assert_eq!(column.len(), 2);
    assert_eq!(column.get(0), Some(&7));
    assert_eq!(column.get(1), Some(&6));

    assert_eq!(column.iter().len(), 2);
    assert_eq!(column.iter()[0], Some(7));

    // In-place edits through the mutable row view.
    column.iter_mut()[0] = Some(8);
    column.iter_mut()[1] = None;
    assert_eq!(column.get(0), Some(&8));
    assert_eq!(column.get(1), None);

    // In-place edit of one present value.
    if let Some(v) = column.get_mut(0) {
        *v += 1;
    }
    assert_eq!(column.get(0), Some(&9));
    assert!(column.get_mut(1).is_none());
}
