//! What the systems share: how a pass walks over the entities that a query
//! selected, and how the player is found.

use crate::components::player::Player;
use crate::components::position::Position;
use crate::entity::Entity;
use crate::query::{is_selection, ComponentQuery};
use crate::world::{Columns, World};
use vstd::prelude::*;

verus! {

/// The first entity that a pass over `entities` has not yet come to when it
/// is about to visit `entities[k]`; the number of entities `count` once it
/// has visited them all.
pub open spec fn frontier(entities: Seq<Entity>, k: int, count: nat) -> int {
    if k < entities.len() {
        entities[k] as int
    } else {
        count as int
    }
}

/// A pass that is about to visit `entities[k]` has left out no entity that
/// the query selects: every entity between the one visited last and the
/// frontier is one that the query does not select.
pub proof fn lemma_frontier<Q: ComponentQuery>(
    columns: Columns,
    entities: Seq<Entity>,
    k: int,
    entity: Entity,
)
    requires
        is_selection::<Q>(columns, entities),
        0 <= k <= entities.len(),
        k > 0 ==> entities[k - 1] < entity,
        entity < frontier(entities, k, columns.len()),
    ensures
        !Q::selects(columns, entity as int),
{
    if Q::selects(columns, entity as int) {
        assert(entity < columns.len()) by {
            if k < entities.len() {
                assert(entities.contains(entities[k]));
            }
        }
        assert(entities.contains(entity));
        let j = choose|j: int| 0 <= j < entities.len() && entities[j] == entity;
        if j < k {
            if j < k - 1 {
                assert(entities[j] < entities[k - 1]);
            }
        } else if j > k {
            assert(entities[k] < entities[j]);
        }
    }
}

/// The frontier of a pass lies within the world and moves forward.
pub proof fn lemma_frontier_grows<Q: ComponentQuery>(columns: Columns, entities: Seq<Entity>, k: int)
    requires
        is_selection::<Q>(columns, entities),
        0 <= k < entities.len(),
    ensures
        entities[k] < columns.len(),
        Q::selects(columns, entities[k] as int),
        entities[k] < frontier(entities, k + 1, columns.len()),
{
    assert(entities.contains(entities[k]));
    if k + 1 < entities.len() {
        assert(entities[k] < entities[k + 1]);
    }
}

/// Whether `entity` is the first entity that the query `Q` selects.
pub open spec fn is_first<Q: ComponentQuery>(columns: Columns, entity: Entity) -> bool {
    &&& entity < columns.len()
    &&& Q::selects(columns, entity as int)
    &&& forall|other: Entity| other < entity ==> !Q::selects(columns, other as int)
}

/// The first entity that the query `Q` selects, if it selects any.
pub open spec fn first<Q: ComponentQuery>(columns: Columns) -> Option<Entity> {
    if exists|entity: Entity| is_first::<Q>(columns, entity) {
        Some(choose|entity: Entity| is_first::<Q>(columns, entity))
    } else {
        None
    }
}

/// No two entities are the first that a query selects.
pub proof fn lemma_first_unique<Q: ComponentQuery>(columns: Columns, entity: Entity)
    requires
        is_first::<Q>(columns, entity),
    ensures
        first::<Q>(columns) == Some(entity),
{
    let chosen = choose|entity: Entity| is_first::<Q>(columns, entity);
    assert(is_first::<Q>(columns, chosen));
    if chosen < entity {
        assert(!Q::selects(columns, chosen as int));
    } else if entity < chosen {
        assert(!Q::selects(columns, entity as int));
    }
}

/// A query selects the same entity first in two worlds in which it selects
/// the same entities.
pub proof fn lemma_first_of_same_selection<Q: ComponentQuery>(one: Columns, other: Columns)
    requires
        one.len() == other.len(),
        forall|entity: int|
            0 <= entity < one.len() ==> Q::selects(one, entity) == Q::selects(other, entity),
    ensures
        first::<Q>(one) == first::<Q>(other),
{
    match first::<Q>(one) {
        Some(entity) => {
            assert(is_first::<Q>(one, entity));
            assert forall|before: Entity| before < entity implies !Q::selects(
                other,
                before as int,
            ) by {
                assert(!Q::selects(one, before as int));
            }
            lemma_first_unique::<Q>(other, entity);
        },
        None => {
            if first::<Q>(other) is Some {
                let entity = first::<Q>(other)->0;
                assert(is_first::<Q>(other, entity));
                assert forall|before: Entity| before < entity implies !Q::selects(
                    one,
                    before as int,
                ) by {
                    assert(!Q::selects(other, before as int));
                }
                assert(is_first::<Q>(one, entity));
            }
        },
    }
}

/// The first entity that the query `Q` selects, if it selects any.
pub fn first_entity<Q: ComponentQuery>(world: &World) -> (found: Option<Entity>)
    requires
        world@.wf(),
    ensures
        found == first::<Q>(world@),
        found matches Some(entity) ==> is_first::<Q>(world@, entity),
{
    let entities: Vec<Entity> = world.query::<Q>();
    if entities.len() == 0 {
        proof {
            assert forall|entity: Entity| !is_first::<Q>(world@, entity) by {
                if is_first::<Q>(world@, entity) {
                    assert(entities@.contains(entity));
                }
            }
        }
        None
    } else {
        let entity: Entity = entities[0];
        proof {
            assert(entities@.contains(entity));
            assert forall|other: Entity| other < entity implies !Q::selects(
                world@,
                other as int,
            ) by {
                if Q::selects(world@, other as int) {
                    assert(entities@.contains(other));
                    let j = choose|j: int| 0 <= j < entities@.len() && entities@[j] == other;
                    if j > 0 {
                        assert(entities@[0] < entities@[j]);
                    }
                }
            }
            lemma_first_unique::<Q>(world@, entity);
        }
        Some(entity)
    }
}

/// The position of the player: that of the first entity that has a position
/// and is a player.
pub open spec fn player_position(columns: Columns) -> Option<Position> {
    match first::<(&Position, &Player)>(columns) {
        Some(entity) => columns.positions[entity as int],
        None => None,
    }
}

/// The player, as [`player_position`] finds it.
pub open spec fn player(columns: Columns) -> Option<Player> {
    match first::<(&Position, &Player)>(columns) {
        Some(entity) => columns.players[entity as int],
        None => None,
    }
}

/// The position of the player and the player, if there is one.
pub fn find_player(world: &World) -> (found: Option<(Position, Player)>)
    requires
        world@.wf(),
    ensures
        match found {
            Some((position, player)) => player_position(world@) == Some(position) && self::player(
                world@,
            ) == Some(player),
            None => player_position(world@) is None && self::player(world@) is None,
        },
{
    match first_entity::<(&Position, &Player)>(world) {
        Some(entity) => {
            let position: Option<&Position> = world.get_component::<Position>(entity);
            let player: Option<&Player> = world.get_component::<Player>(entity);
            match (position, player) {
                (Some(position), Some(player)) => Some((*position, *player)),
                _ => None,
            }
        },
        None => None,
    }
}

} // verus!
