//! What there is to draw.

use crate::components::position::Position;
use crate::components::sprite::{Sprite, SpriteView, TextureId};
use crate::entity::Entity;
use crate::math::{Rect, Vec2};
use crate::query::is_selection;
use crate::world::{Columns, World};
use vstd::prelude::*;

verus! {

/// One sprite to draw: which part of which texture, where and how large.
#[derive(Clone, Copy, Debug, PartialEq, Eq, Structural)]
pub struct DrawRecord {
    pub texture: TextureId,
    pub x: i32,
    pub y: i32,
    /// The part of the texture to draw; the whole of it if there is none.
    pub source: Option<Rect>,
    pub dest_size: Option<Vec2>,
    pub flip_x: bool,
}

/// How the sprite `sprite` of an entity at `position` is drawn.
pub open spec fn drawn(sprite: SpriteView, position: Position) -> DrawRecord {
    DrawRecord {
        texture: sprite.texture,
        x: position.x,
        y: position.y,
        source: sprite.source(),
        dest_size: sprite.dest_size,
        flip_x: sprite.flipped,
    }
}

/// Whether `records` holds what there is to draw of the entities
/// `entities`, one record for each in the same order.
pub open spec fn draws(columns: Columns, entities: Seq<Entity>, records: Seq<DrawRecord>) -> bool {
    &&& records.len() == entities.len()
    &&& forall|k: int|
        0 <= k < entities.len() ==> #[trigger] records[k] == drawn(
            columns.sprites[entities[k] as int]->0@,
            columns.positions[entities[k] as int]->0,
        )
}

/// What there is to draw: one record for each entity that has a sprite and
/// a position, in the order of the entities.
pub fn render_systems(world: &World) -> (records: Vec<DrawRecord>)
    requires
        world@.wf(),
    ensures
        exists|entities: Seq<Entity>|
            is_selection::<(&Sprite, &Position)>(world@, entities) && draws(
                world@,
                entities,
                records@,
            ),
{
    let entities: Vec<Entity> = world.query::<(&Sprite, &Position)>();
    let mut records: Vec<DrawRecord> = Vec::new();
    let mut k: usize = 0;
    while k < entities.len()
        invariant
            k <= entities.len(),
            world@.wf(),
            is_selection::<(&Sprite, &Position)>(world@, entities@),
            draws(world@, entities@.take(k as int), records@),
        decreases entities.len() - k,
    {
        let entity: Entity = entities[k];
        assert(entities@.contains(entity));
        let position: Position = match world.get_component::<Position>(entity) {
            Some(position) => *position,
            None => {
                assert(false);
                return records;
            },
        };
        match world.get_component::<Sprite>(entity) {
            Some(sprite) => {
                let source: Option<Rect> = match &sprite.animation {
                    Some(animation) => Some(animation.frame().source_rect),
                    None => sprite.source_rect,
                };
                records.push(
                    DrawRecord {
                        texture: sprite.texture,
                        x: position.x,
                        y: position.y,
                        source,
                        dest_size: sprite.dest_size,
                        flip_x: sprite.flipped,
                    },
                );
            },
            None => {
                assert(false);
            },
        }
        k += 1;
    }
    assert(entities@.take(k as int) == entities@);
    records
}

} // verus!
