//! Queries over the entity store.
//!
//! A query names the kinds of component that an entity must have, each by a
//! shared reference where the caller will read it and by a mutable reference
//! where the caller will write it: `(&Position, &mut Enemy)`. It selects the
//! entities that have a component of every kind named, in the order of their
//! handles. For each of them the caller then takes the components from the
//! columns of the world, each kind from its own column and in the way the
//! query names it.

use crate::entity::Entity;
use crate::world::{Columns, Component, World};
use vstd::prelude::*;

verus! {

/// A set of kinds of component to look for.
pub trait ComponentQuery {
    /// Whether `entity` has a component of every kind that the query names.
    spec fn selects(columns: Columns, entity: int) -> bool;

    /// Whether `entity` has a component of every kind that the query names.
    fn holds(world: &World, entity: Entity) -> (selected: bool)
        requires
            world@.wf(),
            entity < world@.len(),
        ensures
            selected == Self::selects(world@, entity as int),
    ;

    /// The entities that the query selects, in ascending order.
    fn find_entities(world: &World) -> (entities: Vec<Entity>)
        requires
            world@.wf(),
        ensures
            forall|i: int, j: int| 0 <= i < j < entities.len() ==> entities[i] < entities[j],
            forall|entity: Entity|
                entities@.contains(entity) <==> entity < world@.len() && Self::selects(
                    world@,
                    entity as int,
                ),
    {
        let mut entities: Vec<Entity> = Vec::new();
        let count: Entity = world.entities_count();
        let mut entity: Entity = 0;
        while entity < count
            invariant
                world@.wf(),
                count == world@.len(),
                entity <= count,
                forall|i: int, j: int| 0 <= i < j < entities.len() ==> entities[i] < entities[j],
                forall|i: int| 0 <= i < entities.len() ==> entities[i] < entity,
                forall|other: Entity|
                    entities@.contains(other) <==> other < entity && Self::selects(
                        world@,
                        other as int,
                    ),
            decreases count - entity,
        {
            if Self::holds(world, entity) {
                let ghost before = entities@;
                entities.push(entity);
                assert forall|other: Entity|
                    entities@.contains(other) <==> other < entity + 1 && Self::selects(
                        world@,
                        other as int,
                    ) by {
                    if entities@.contains(other) {
                        let i = choose|i: int| 0 <= i < entities@.len() && entities@[i] == other;
                        if i < before.len() {
                            assert(before[i] == other);
                            assert(before.contains(other));
                        }
                    }
                    if other < entity + 1 && Self::selects(world@, other as int) {
                        if other < entity {
                            assert(before.contains(other));
                            let i = choose|i: int| 0 <= i < before.len() && before[i] == other;
                            assert(entities@[i] == other);
                        } else {
                            assert(entities@[before.len() as int] == other);
                        }
                    }
                }
            }
            entity += 1;
        }
        entities
    }
}

/// Whether `entities` lists, in ascending order, exactly the entities that
/// the query `Q` selects.
pub open spec fn is_selection<Q: ComponentQuery>(columns: Columns, entities: Seq<Entity>) -> bool {
    &&& forall|i: int, j: int| 0 <= i < j < entities.len() ==> entities[i] < entities[j]
    &&& forall|entity: Entity|
        entities.contains(entity) <==> entity < columns.len() && Q::selects(columns, entity as int)
}

impl<'a, C: Component> ComponentQuery for &'a C {
    open spec fn selects(columns: Columns, entity: int) -> bool {
        C::column(columns)[entity] is Some
    }

    fn holds(world: &World, entity: Entity) -> (selected: bool) {
        world.get_component::<C>(entity).is_some()
    }
}

impl<'a, C: Component> ComponentQuery for &'a mut C {
    open spec fn selects(columns: Columns, entity: int) -> bool {
        C::column(columns)[entity] is Some
    }

    fn holds(world: &World, entity: Entity) -> (selected: bool) {
        world.get_component::<C>(entity).is_some()
    }
}

impl<A: ComponentQuery, B: ComponentQuery> ComponentQuery for (A, B) {
    open spec fn selects(columns: Columns, entity: int) -> bool {
        A::selects(columns, entity) && B::selects(columns, entity)
    }

    fn holds(world: &World, entity: Entity) -> (selected: bool) {
        A::holds(world, entity) && B::holds(world, entity)
    }
}

impl<A: ComponentQuery, B: ComponentQuery, C: ComponentQuery> ComponentQuery for (A, B, C) {
    open spec fn selects(columns: Columns, entity: int) -> bool {
        A::selects(columns, entity) && B::selects(columns, entity) && C::selects(columns, entity)
    }

    fn holds(world: &World, entity: Entity) -> (selected: bool) {
        A::holds(world, entity) && B::holds(world, entity) && C::holds(world, entity)
    }
}

/// A query leaves out every entity that lacks one of the kinds it names.
/// Where `entities` is what a query for the kind `K` selects, an entity
/// without a component of that kind is not among them; and where it is what
/// a query for `A` and `B`, or for `A`, `B` and `C`, selects, an entity that
/// one of them does not select is not among them.
pub proof fn lemma_query_excludes<K: Component, A: ComponentQuery, B: ComponentQuery, C: ComponentQuery>(
    columns: Columns,
    entities: Seq<Entity>,
    entity: Entity,
)
    ensures
        is_selection::<&K>(columns, entities) && K::column(columns)[entity as int] is None
            ==> !entities.contains(entity),
        is_selection::<&mut K>(columns, entities) && K::column(columns)[entity as int] is None
            ==> !entities.contains(entity),
        is_selection::<(A, B)>(columns, entities) && !(A::selects(columns, entity as int)
            && B::selects(columns, entity as int)) ==> !entities.contains(entity),
        is_selection::<(A, B, C)>(columns, entities) && !(A::selects(columns, entity as int)
            && B::selects(columns, entity as int) && C::selects(columns, entity as int))
            ==> !entities.contains(entity),
{
}

/// Two lists in ascending order that have the same members are the same list.
pub proof fn lemma_ascending_unique(first: Seq<Entity>, second: Seq<Entity>)
    requires
        forall|i: int, j: int| 0 <= i < j < first.len() ==> first[i] < first[j],
        forall|i: int, j: int| 0 <= i < j < second.len() ==> second[i] < second[j],
        forall|entity: Entity| first.contains(entity) <==> second.contains(entity),
    ensures
        first == second,
    decreases first.len(),
{
    if first.len() == 0 {
        if second.len() > 0 {
            assert(second.contains(second[0]));
        }
        assert(first =~= second);
    } else {
        let last = first.last();
        assert(first.contains(last));
        let at = choose|j: int| 0 <= j < second.len() && second[j] == last;
        let other = second.last();
        assert(second.contains(other));
        let back = choose|i: int| 0 <= i < first.len() && first[i] == other;
        if at < second.len() - 1 {
            assert(second[at] < second[second.len() - 1]);
        }
        if back < first.len() - 1 {
            assert(first[back] < first[first.len() - 1]);
        }
        assert(other == last);
        let head = first.drop_last();
        let rest = second.drop_last();
        assert forall|entity: Entity| head.contains(entity) <==> rest.contains(entity) by {
            if head.contains(entity) {
                let i = choose|i: int| 0 <= i < head.len() && head[i] == entity;
                assert(first[i] == entity);
                assert(first[i] < first[first.len() - 1]);
                assert(first.contains(entity));
                let j = choose|j: int| 0 <= j < second.len() && second[j] == entity;
                assert(rest[j] == entity);
            }
            if rest.contains(entity) {
                let j = choose|j: int| 0 <= j < rest.len() && rest[j] == entity;
                assert(second[j] == entity);
                assert(second[j] < second[second.len() - 1]);
                assert(second.contains(entity));
                let i = choose|i: int| 0 <= i < first.len() && first[i] == entity;
                assert(head[i] == entity);
            }
        }
        assert forall|i: int, j: int| 0 <= i < j < head.len() implies head[i] < head[j] by {
            assert(first[i] < first[j]);
        }
        assert forall|i: int, j: int| 0 <= i < j < rest.len() implies rest[i] < rest[j] by {
            assert(second[i] < second[j]);
        }
        lemma_ascending_unique(head, rest);
        assert(first =~= head.push(last));
        assert(second =~= rest.push(last));
    }
}

/// A query has one answer: two lists of what it selects are the same list.
pub proof fn lemma_selection_unique<Q: ComponentQuery>(
    columns: Columns,
    first: Seq<Entity>,
    second: Seq<Entity>,
)
    requires
        is_selection::<Q>(columns, first),
        is_selection::<Q>(columns, second),
    ensures
        first == second,
{
    lemma_ascending_unique(first, second);
}

} // verus!
