//! The entity store.
//!
//! The world holds one column per kind of component. Every column has one slot
//! per entity, in the order in which the entities were made, and a slot is
//! empty until a component of that kind is attached to the entity. Entities
//! are never removed.
//!
//! The columns are fields of the world, each a value of its own. So a caller
//! can hold a mutable reference into the column of one kind and shared
//! references into the columns of others at the same time, for one entity or
//! for many, and the borrow checker sees that they do not overlap; two
//! references into one column, one of them mutable, it does not let pass.

use crate::animation::{AnimatedSprite, AnimatedSpriteView, Animation};
use crate::components::collider::Collider;
use crate::components::enemy::{Archetype, Enemy};
use crate::components::player::Player;
use crate::components::position::Position;
use crate::components::sprite::{Sprite, SpriteView, TextureId};
use crate::components::velocity::Velocity;
use crate::math::{narrow, spec_narrow, Rect, Vec2, SCALE};
use crate::entity::Entity;
use crate::query::{is_selection, ComponentQuery};
use vstd::prelude::*;

verus! {

/// The width of the world.
pub const WORLD_WIDTH: i32 = 960_000;

/// The height of the world.
pub const WORLD_HEIGHT: i32 = 512_000;

/// What a [`World`] holds, as a mathematical value: for each kind of
/// component the sequence of its slots, indexed by entity.
pub struct Columns {
    pub positions: Seq<Option<Position>>,
    pub velocities: Seq<Option<Velocity>>,
    pub colliders: Seq<Option<Collider>>,
    pub sprites: Seq<Option<Sprite>>,
    pub players: Seq<Option<Player>>,
    pub enemies: Seq<Option<Enemy>>,
}

impl Columns {
    /// The number of entities.
    pub open spec fn len(self) -> nat {
        self.positions.len()
    }

    /// Every column has one slot for each entity.
    pub open spec fn wf(self) -> bool {
        &&& self.velocities.len() == self.len()
        &&& self.colliders.len() == self.len()
        &&& self.sprites.len() == self.len()
        &&& self.players.len() == self.len()
        &&& self.enemies.len() == self.len()
    }

    /// The columns of a world without entities.
    pub open spec fn empty() -> Columns {
        Columns {
            positions: Seq::empty(),
            velocities: Seq::empty(),
            colliders: Seq::empty(),
            sprites: Seq::empty(),
            players: Seq::empty(),
            enemies: Seq::empty(),
        }
    }

    /// The columns after one more entity was made: each has one more slot,
    /// which is empty.
    pub open spec fn add_entity(self) -> Columns {
        Columns {
            positions: self.positions.push(None),
            velocities: self.velocities.push(None),
            colliders: self.colliders.push(None),
            sprites: self.sprites.push(None),
            players: self.players.push(None),
            enemies: self.enemies.push(None),
        }
    }

    /// The columns after `n` more entities were made.
    pub open spec fn add_entities(self, n: nat) -> Columns
        decreases n,
    {
        if n == 0 {
            self
        } else {
            self.add_entities((n - 1) as nat).add_entity()
        }
    }

    /// The columns after `component` was attached to `entity`.
    pub open spec fn attach<C: Component>(self, entity: Entity, component: C) -> Columns {
        C::with_column(self, C::column(self).update(entity as int, Some(component)))
    }
}

/// Handles are given out in order and without gaps. Of a world in which `n`
/// entities were made, starting from none: every column has `n` slots, all of
/// them empty, and the entity made after `k` others, for every `k` below
/// `n`, got the handle `k`, which is the number of entities there were.
pub proof fn lemma_handles_are_contiguous(n: nat)
    ensures
        Columns::empty().add_entities(n).wf(),
        Columns::empty().add_entities(n).len() == n,
        Columns::empty().add_entities(n).positions == Seq::new(n, |i: int| None::<Position>),
        Columns::empty().add_entities(n).velocities == Seq::new(n, |i: int| None::<Velocity>),
        Columns::empty().add_entities(n).colliders == Seq::new(n, |i: int| None::<Collider>),
        Columns::empty().add_entities(n).sprites == Seq::new(n, |i: int| None::<Sprite>),
        Columns::empty().add_entities(n).players == Seq::new(n, |i: int| None::<Player>),
        Columns::empty().add_entities(n).enemies == Seq::new(n, |i: int| None::<Enemy>),
        forall|k: nat| k < n ==> (#[trigger] Columns::empty().add_entities(k)).len() == k,
    decreases n,
{
    let made = Columns::empty().add_entities(n);
    if n > 0 {
        lemma_handles_are_contiguous((n - 1) as nat);
        assert forall|k: nat| k < n implies (#[trigger] Columns::empty().add_entities(k)).len()
            == k by {
            if k < n - 1 {
            }
        }
    }
    assert(made.positions =~= Seq::new(n, |i: int| None::<Position>));
    assert(made.velocities =~= Seq::new(n, |i: int| None::<Velocity>));
    assert(made.colliders =~= Seq::new(n, |i: int| None::<Collider>));
    assert(made.sprites =~= Seq::new(n, |i: int| None::<Sprite>));
    assert(made.players =~= Seq::new(n, |i: int| None::<Player>));
    assert(made.enemies =~= Seq::new(n, |i: int| None::<Enemy>));
}

/// One column of the store: a slot for each entity, which holds the
/// component of one kind that the entity has, if it has one. A column grows
/// with the world it belongs to, and only with it.
pub struct Column<T> {
    slots: Vec<Option<T>>,
}

impl<T> View for Column<T> {
    type V = Seq<Option<T>>;

    closed spec fn view(&self) -> Seq<Option<T>> {
        self.slots@
    }
}

impl<T> Column<T> {
    fn new() -> (column: Column<T>)
        ensures
            column@ == Seq::<Option<T>>::empty(),
    {
        Column { slots: Vec::new() }
    }

    /// Adds an empty slot for one more entity.
    fn push_none(&mut self)
        ensures
            final(self)@ == old(self)@.push(None),
    {
        self.slots.push(None);
    }

    /// The number of slots.
    pub fn len(&self) -> (len: usize)
        ensures
            len == self@.len(),
    {
        self.slots.len()
    }

    /// The component in the slot of `entity`, if there is one.
    pub fn get(&self, entity: Entity) -> (component: Option<&T>)
        requires
            entity < self@.len(),
        ensures
            match component {
                Some(component) => self@[entity as int] == Some(*component),
                None => self@[entity as int] is None,
            },
    {
        self.slots[entity].as_ref()
    }

    /// The component in the slot of `entity`, if there is one, for writing.
    /// What is written through the reference is what the slot holds
    /// afterwards; no other slot changes.
    pub fn get_mut(&mut self, entity: Entity) -> (component: Option<&mut T>)
        requires
            entity < old(self)@.len(),
        ensures
            match component {
                Some(component) => old(self)@[entity as int] == Some(*component) && final(self)@
                    == old(self)@.update(entity as int, Some(*final(component))),
                None => old(self)@[entity as int] is None && final(self)@ == old(self)@,
            },
    {
        if self.slots[entity].is_none() {
            return None;
        }
        self.slots[entity].as_mut()
    }

    /// Puts `component` into the slot of `entity`, in place of what was there.
    pub fn set(&mut self, entity: Entity, component: T)
        requires
            entity < old(self)@.len(),
        ensures
            final(self)@ == old(self)@.update(entity as int, Some(component)),
    {
        self.slots[entity] = Some(component);
    }
}

/// The kinds of component that there are.
#[derive(Clone, Copy, Debug, PartialEq, Eq, Structural)]
pub enum Kind {
    Position,
    Velocity,
    Collider,
    Sprite,
    Player,
    Enemy,
}

/// Whether the column of the kind `kind` is the same in `one` and in `other`.
pub open spec fn same_column(kind: Kind, one: Columns, other: Columns) -> bool {
    match kind {
        Kind::Position => one.positions == other.positions,
        Kind::Velocity => one.velocities == other.velocities,
        Kind::Collider => one.colliders == other.colliders,
        Kind::Sprite => one.sprites == other.sprites,
        Kind::Player => one.players == other.players,
        Kind::Enemy => one.enemies == other.enemies,
    }
}

/// A kind of component: a type of which the world keeps a column.
pub trait Component: Sized {
    /// Which kind this is.
    spec fn kind() -> Kind;

    /// The column of this kind.
    spec fn column(columns: Columns) -> Seq<Option<Self>>;

    /// The columns with `column` in place of the column of this kind.
    spec fn with_column(columns: Columns, column: Seq<Option<Self>>) -> Columns;

    /// What is put in place of the column of this kind is then the column of
    /// this kind, and putting the column in its own place changes nothing.
    /// The columns of the other kinds are kept. In columns that have a slot
    /// for each entity the column of this kind has one too, and they still
    /// have when a column of that length takes its place.
    proof fn lemma_column_laws(columns: Columns, column: Seq<Option<Self>>)
        ensures
            Self::column(Self::with_column(columns, column)) == column,
            Self::with_column(columns, Self::column(columns)) == columns,
            forall|kind: Kind|
                kind != Self::kind() ==> #[trigger] same_column(
                    kind,
                    Self::with_column(columns, column),
                    columns,
                ),
            columns.wf() ==> Self::column(columns).len() == columns.len(),
            columns.wf() && column.len() == columns.len() ==> Self::with_column(
                columns,
                column,
            ).wf() && Self::with_column(columns, column).len() == columns.len(),
    ;

    /// The column of this kind is the same in columns that agree on the
    /// column of the kind that this is.
    proof fn lemma_column_of_its_kind(one: Columns, other: Columns)
        requires
            same_column(Self::kind(), one, other),
        ensures
            Self::column(one) == Self::column(other),
    ;

    /// The column of this kind in `world`.
    fn store(world: &World) -> (column: &Column<Self>)
        ensures
            column@ == Self::column(world@),
            world@.wf() ==> column@.len() == world@.len(),
    ;

    /// The column of this kind in `world`, for writing. No other column
    /// changes with it.
    fn store_mut(world: &mut World) -> (column: &mut Column<Self>)
        ensures
            column@ == Self::column(old(world)@),
            old(world)@.wf() ==> column@.len() == old(world)@.len(),
            final(world)@ == Self::with_column(old(world)@, final(column)@),
            final(column)@ == column@ ==> final(world)@ == old(world)@,
            old(world)@.wf() && final(column)@.len() == column@.len() ==> final(world)@.wf()
                && final(world)@.len() == old(world)@.len(),
    ;
}

/// A component that was attached to an entity is the component of its kind
/// that the entity has, and the world still has a slot for every entity in
/// every column.
pub proof fn lemma_attach_then_get<C: Component>(columns: Columns, entity: Entity, component: C)
    requires
        columns.wf(),
        entity < columns.len(),
    ensures
        C::column(columns.attach(entity, component))[entity as int] == Some(component),
        forall|other: int|
            0 <= other < columns.len() && other != entity ==> C::column(
                columns.attach(entity, component),
            )[other] == C::column(columns)[other],
        columns.attach(entity, component).wf(),
        columns.attach(entity, component).len() == columns.len(),
{
    C::lemma_column_laws(columns, C::column(columns).update(entity as int, Some(component)));
    C::lemma_column_laws(columns, C::column(columns));
}

/// Attaching a component of one kind leaves the components of every other
/// kind as they are.
pub proof fn lemma_attach_keeps_others<A: Component, B: Component>(
    columns: Columns,
    entity: Entity,
    component: A,
)
    requires
        A::kind() != B::kind(),
    ensures
        B::column(columns.attach(entity, component)) == B::column(columns),
{
    A::lemma_column_laws(columns, A::column(columns).update(entity as int, Some(component)));
    assert(same_column(B::kind(), columns.attach(entity, component), columns));
    B::lemma_column_of_its_kind(columns.attach(entity, component), columns);
}

/// The entity store. Each kind of component has a column of its own, so
/// that one kind can be written while others are read.
pub struct World {
    pub positions: Column<Position>,
    pub velocities: Column<Velocity>,
    pub colliders: Column<Collider>,
    pub sprites: Column<Sprite>,
    pub players: Column<Player>,
    pub enemies: Column<Enemy>,
}

impl View for World {
    type V = Columns;

    open spec fn view(&self) -> Columns {
        Columns {
            positions: self.positions@,
            velocities: self.velocities@,
            colliders: self.colliders@,
            sprites: self.sprites@,
            players: self.players@,
            enemies: self.enemies@,
        }
    }
}

impl World {
    /// A world without entities.
    pub fn new() -> (world: World)
        ensures
            world@ == Columns::empty(),
            world@.wf(),
    {
        World {
            positions: Column::new(),
            velocities: Column::new(),
            colliders: Column::new(),
            sprites: Column::new(),
            players: Column::new(),
            enemies: Column::new(),
        }
    }

    /// The number of entities.
    pub fn entities_count(&self) -> (count: Entity)
        ensures
            count == self@.len(),
    {
        self.positions.len()
    }

    /// Makes an entity without components and returns its handle, which is
    /// the number of entities made before it.
    pub fn add_entity(&mut self) -> (id: Entity)
        requires
            old(self)@.wf(),
            old(self)@.len() < usize::MAX,
        ensures
            id == old(self)@.len(),
            final(self)@ == old(self)@.add_entity(),
            final(self)@.wf(),
    {
        let id: Entity = self.positions.len();
        self.positions.push_none();
        self.velocities.push_none();
        self.colliders.push_none();
        self.sprites.push_none();
        self.players.push_none();
        self.enemies.push_none();
        id
    }

    /// Makes an entity and returns a builder that attaches components to it.
    pub fn spawn_entity(&mut self) -> (builder: EntityBuilder<'_>)
        requires
            old(self)@.wf(),
            old(self)@.len() < usize::MAX,
        ensures
            builder.entity_id == old(self)@.len(),
            builder.world@ == old(self)@.add_entity(),
            builder.world@.wf(),
            *final(builder.world) == *final(self),
    {
        let entity_id: Entity = self.add_entity();
        EntityBuilder::new(self, entity_id)
    }

    /// Attaches `component` to `entity`, in place of the component of that
    /// kind that the entity had, if it had one.
    pub fn add_component_to_entity<C: Component>(&mut self, entity: Entity, component: C)
        requires
            old(self)@.wf(),
            entity < old(self)@.len(),
        ensures
            final(self)@ == old(self)@.attach(entity, component),
            final(self)@.wf(),
            final(self)@.len() == old(self)@.len(),
    {
        C::store_mut(self).set(entity, component);
    }

    /// The component of the kind `C` that `entity` has, if any.
    pub fn get_component<C: Component>(&self, entity: Entity) -> (component: Option<&C>)
        requires
            self@.wf(),
            entity < self@.len(),
        ensures
            C::column(self@).len() == self@.len(),
            match component {
                Some(component) => C::column(self@)[entity as int] == Some(*component),
                None => C::column(self@)[entity as int] is None,
            },
    {
        C::store(self).get(entity)
    }

    /// The component of the kind `C` that `entity` has, if any, for writing.
    pub fn get_component_mut<C: Component>(&mut self, entity: Entity) -> (component: Option<&mut C>)
        requires
            old(self)@.wf(),
            entity < old(self)@.len(),
        ensures
            C::column(old(self)@).len() == old(self)@.len(),
            final(self)@.wf(),
            final(self)@.len() == old(self)@.len(),
            match component {
                Some(component) => C::column(old(self)@)[entity as int] == Some(*component)
                    && final(self)@ == old(self)@.attach(entity, *final(component)),
                None => C::column(old(self)@)[entity as int] is None && final(self)@ == old(
                    self,
                )@,
            },
    {
        C::store_mut(self).get_mut(entity)
    }
}

impl World {
    /// The entities that have a component of every kind that the query `T`
    /// names, in ascending order. An entity that lacks one of them is not
    /// among them.
    pub fn query<T: ComponentQuery>(&self) -> (entities: Vec<Entity>)
        requires
            self@.wf(),
        ensures
            is_selection::<T>(self@, entities@),
    {
        T::find_entities(self)
    }
}

impl Component for Position {
    open spec fn kind() -> Kind {
        Kind::Position
    }

    proof fn lemma_column_laws(columns: Columns, column: Seq<Option<Position>>) {
        let put = <Position as Component>::with_column(columns, column);
        assert(put.positions == column);
        assert(<Position as Component>::column(put) == column);
        assert(<Position as Component>::with_column(columns, columns.positions) == columns);
        assert forall|kind: Kind| kind != <Position as Component>::kind() implies #[trigger] same_column(
            kind,
            put,
            columns,
        ) by {
        }
    }

    proof fn lemma_column_of_its_kind(one: Columns, other: Columns) {
        assert(<Position as Component>::kind() == Kind::Position);
        assert(one.positions == other.positions);
    }

    open spec fn column(columns: Columns) -> Seq<Option<Position>> {
        columns.positions
    }

    open spec fn with_column(columns: Columns, column: Seq<Option<Position>>) -> Columns {
        Columns { positions: column, ..columns }
    }

    fn store(world: &World) -> (column: &Column<Position>) {
        &world.positions
    }

    fn store_mut(world: &mut World) -> (column: &mut Column<Position>) {
        &mut world.positions
    }
}

impl Component for Velocity {
    open spec fn kind() -> Kind {
        Kind::Velocity
    }

    proof fn lemma_column_laws(columns: Columns, column: Seq<Option<Velocity>>) {
        let put = <Velocity as Component>::with_column(columns, column);
        assert(put.velocities == column);
        assert(<Velocity as Component>::column(put) == column);
        assert(<Velocity as Component>::with_column(columns, columns.velocities) == columns);
        assert forall|kind: Kind| kind != <Velocity as Component>::kind() implies #[trigger] same_column(
            kind,
            put,
            columns,
        ) by {
        }
    }

    proof fn lemma_column_of_its_kind(one: Columns, other: Columns) {
        assert(<Velocity as Component>::kind() == Kind::Velocity);
        assert(one.velocities == other.velocities);
    }

    open spec fn column(columns: Columns) -> Seq<Option<Velocity>> {
        columns.velocities
    }

    open spec fn with_column(columns: Columns, column: Seq<Option<Velocity>>) -> Columns {
        Columns { velocities: column, ..columns }
    }

    fn store(world: &World) -> (column: &Column<Velocity>) {
        &world.velocities
    }

    fn store_mut(world: &mut World) -> (column: &mut Column<Velocity>) {
        &mut world.velocities
    }
}

impl Component for Collider {
    open spec fn kind() -> Kind {
        Kind::Collider
    }

    proof fn lemma_column_laws(columns: Columns, column: Seq<Option<Collider>>) {
        let put = <Collider as Component>::with_column(columns, column);
        assert(put.colliders == column);
        assert(<Collider as Component>::column(put) == column);
        assert(<Collider as Component>::with_column(columns, columns.colliders) == columns);
        assert forall|kind: Kind| kind != <Collider as Component>::kind() implies #[trigger] same_column(
            kind,
            put,
            columns,
        ) by {
        }
    }

    proof fn lemma_column_of_its_kind(one: Columns, other: Columns) {
        assert(<Collider as Component>::kind() == Kind::Collider);
        assert(one.colliders == other.colliders);
    }

    open spec fn column(columns: Columns) -> Seq<Option<Collider>> {
        columns.colliders
    }

    open spec fn with_column(columns: Columns, column: Seq<Option<Collider>>) -> Columns {
        Columns { colliders: column, ..columns }
    }

    fn store(world: &World) -> (column: &Column<Collider>) {
        &world.colliders
    }

    fn store_mut(world: &mut World) -> (column: &mut Column<Collider>) {
        &mut world.colliders
    }
}

impl Component for Sprite {
    open spec fn kind() -> Kind {
        Kind::Sprite
    }

    proof fn lemma_column_laws(columns: Columns, column: Seq<Option<Sprite>>) {
        let put = <Sprite as Component>::with_column(columns, column);
        assert(put.sprites == column);
        assert(<Sprite as Component>::column(put) == column);
        assert(<Sprite as Component>::with_column(columns, columns.sprites) == columns);
        assert forall|kind: Kind| kind != <Sprite as Component>::kind() implies #[trigger] same_column(
            kind,
            put,
            columns,
        ) by {
        }
    }

    proof fn lemma_column_of_its_kind(one: Columns, other: Columns) {
        assert(<Sprite as Component>::kind() == Kind::Sprite);
        assert(one.sprites == other.sprites);
    }

    open spec fn column(columns: Columns) -> Seq<Option<Sprite>> {
        columns.sprites
    }

    open spec fn with_column(columns: Columns, column: Seq<Option<Sprite>>) -> Columns {
        Columns { sprites: column, ..columns }
    }

    fn store(world: &World) -> (column: &Column<Sprite>) {
        &world.sprites
    }

    fn store_mut(world: &mut World) -> (column: &mut Column<Sprite>) {
        &mut world.sprites
    }
}

impl Component for Player {
    open spec fn kind() -> Kind {
        Kind::Player
    }

    proof fn lemma_column_laws(columns: Columns, column: Seq<Option<Player>>) {
        let put = <Player as Component>::with_column(columns, column);
        assert(put.players == column);
        assert(<Player as Component>::column(put) == column);
        assert(<Player as Component>::with_column(columns, columns.players) == columns);
        assert forall|kind: Kind| kind != <Player as Component>::kind() implies #[trigger] same_column(
            kind,
            put,
            columns,
        ) by {
        }
    }

    proof fn lemma_column_of_its_kind(one: Columns, other: Columns) {
        assert(<Player as Component>::kind() == Kind::Player);
        assert(one.players == other.players);
    }

    open spec fn column(columns: Columns) -> Seq<Option<Player>> {
        columns.players
    }

    open spec fn with_column(columns: Columns, column: Seq<Option<Player>>) -> Columns {
        Columns { players: column, ..columns }
    }

    fn store(world: &World) -> (column: &Column<Player>) {
        &world.players
    }

    fn store_mut(world: &mut World) -> (column: &mut Column<Player>) {
        &mut world.players
    }
}

impl Component for Enemy {
    open spec fn kind() -> Kind {
        Kind::Enemy
    }

    proof fn lemma_column_laws(columns: Columns, column: Seq<Option<Enemy>>) {
        let put = <Enemy as Component>::with_column(columns, column);
        assert(put.enemies == column);
        assert(<Enemy as Component>::column(put) == column);
        assert(<Enemy as Component>::with_column(columns, columns.enemies) == columns);
        assert forall|kind: Kind| kind != <Enemy as Component>::kind() implies #[trigger] same_column(
            kind,
            put,
            columns,
        ) by {
        }
    }

    proof fn lemma_column_of_its_kind(one: Columns, other: Columns) {
        assert(<Enemy as Component>::kind() == Kind::Enemy);
        assert(one.enemies == other.enemies);
    }

    open spec fn column(columns: Columns) -> Seq<Option<Enemy>> {
        columns.enemies
    }

    open spec fn with_column(columns: Columns, column: Seq<Option<Enemy>>) -> Columns {
        Columns { enemies: column, ..columns }
    }

    fn store(world: &World) -> (column: &Column<Enemy>) {
        &world.enemies
    }

    fn store_mut(world: &mut World) -> (column: &mut Column<Enemy>) {
        &mut world.enemies
    }
}

/// Attaches components to an entity that was just made.
pub struct EntityBuilder<'a> {
    pub world: &'a mut World,
    pub entity_id: usize,
}

impl<'a> EntityBuilder<'a> {
    /// A builder for the entity `entity_id` of `world`.
    pub fn new(world: &'a mut World, entity_id: usize) -> (builder: Self)
        ensures
            *builder.world == *old(world),
            builder.entity_id == entity_id,
            *final(builder.world) == *final(world),
    {
        Self { world, entity_id }
    }

    /// Attaches `component` to the entity.
    pub fn with<ComponentType: Component>(self, component: ComponentType) -> (builder: Self)
        requires
            old(self.world)@.wf(),
            self.entity_id < old(self.world)@.len(),
        ensures
            builder.entity_id == self.entity_id,
            builder.world@ == old(self.world)@.attach(self.entity_id, component),
            builder.world@.wf(),
            builder.world@.len() == old(self.world)@.len(),
            *final(builder.world) == *final(self.world),
    {
        self.world.add_component_to_entity(self.entity_id, component);
        self
    }
}

/// An animated decoration as the map describes it.
#[derive(Clone, Copy, Debug, PartialEq, Eq, Structural)]
pub struct MapObject {
    /// The left edge of the object on the map.
    pub world_x: i32,
    /// The lower edge of the object on the map.
    pub world_y: i32,
    /// The width of a tile of the sprite sheet.
    pub world_w: i32,
    /// The height of a tile of the sprite sheet.
    pub world_h: i32,
    pub source_rect: Rect,
    pub dest_size: Vec2,
    /// The row of the sprite sheet that holds the frames.
    pub row: u32,
    /// The number of frames.
    pub frames: u32,
}

/// The extent `extent` in whole pixels: what goes beyond is cut off, and
/// a negative extent is none.
pub open spec fn spec_whole_pixels(extent: i32) -> i32 {
    if extent <= 0 {
        0
    } else {
        (extent - extent % SCALE) as i32
    }
}

/// Computes [`spec_whole_pixels`].
#[verifier::when_used_as_spec(spec_whole_pixels)]
pub fn whole_pixels(extent: i32) -> (whole: i32)
    ensures
        whole == spec_whole_pixels(extent),
{
    if extent <= 0 {
        0
    } else {
        extent - extent % SCALE
    }
}

/// The clips of the sprite sheet of a player.
pub open spec fn player_clips() -> Seq<Animation> {
    seq![
        Animation { row: 0, frames: 6, fps: 4 },
        Animation { row: 3, frames: 6, fps: 4 },
        Animation { row: 4, frames: 6, fps: 4 },
        Animation { row: 1, frames: 6, fps: 4 },
        Animation { row: 5, frames: 6, fps: 4 },
        Animation { row: 2, frames: 6, fps: 4 },
        Animation { row: 6, frames: 4, fps: 4 },
        Animation { row: 7, frames: 4, fps: 4 },
        Animation { row: 8, frames: 4, fps: 4 },
        Animation { row: 9, frames: 3, fps: 4 },
    ]
}

/// The sprite of a player that was just spawned.
pub open spec fn player_sprite(texture: TextureId) -> SpriteView {
    SpriteView {
        texture,
        source_rect: Some(Rect { x: 0, y: 0, w: 48_000, h: 48_000 }),
        animation: Some(AnimatedSpriteView::fresh(48_000, 48_000, player_clips(), true)),
        dest_size: Some(Vec2 { x: 48_000, y: 48_000 }),
        flipped: false,
        last_animation: 0,
    }
}

/// The collider of a player.
pub open spec fn player_collider() -> Collider {
    Collider {
        collision_offset: Vec2 { x: 17_000, y: 38_000 },
        collision_size: Vec2 { x: 14_000, y: 5_000 },
        sprite_padding: Vec2 { x: 18_000, y: 20_000 },
        visible_size: Vec2 { x: 18_000, y: 26_000 },
    }
}

/// The sprite of an enemy of the kind `archetype` that was just spawned.
pub open spec fn enemy_sprite(archetype: Archetype, texture: TextureId) -> SpriteView {
    SpriteView {
        texture,
        source_rect: Some(Rect { x: 0, y: 0, w: 32_000, h: 32_000 }),
        animation: Some(archetype.sheet()),
        dest_size: Some(archetype.dest_size()),
        flipped: false,
        last_animation: 0,
    }
}

/// The sprite of a decoration that was just made from `object`: it plays
/// the one clip of the object at eight frames per second.
pub open spec fn object_sprite(object: MapObject, texture: TextureId) -> SpriteView {
    SpriteView {
        texture,
        source_rect: Some(object.source_rect),
        animation: Some(
            AnimatedSpriteView::fresh(
                whole_pixels(object.world_w),
                whole_pixels(object.world_h),
                seq![Animation { row: object.row, frames: object.frames, fps: 8 }],
                true,
            ),
        ),
        dest_size: Some(object.dest_size),
        flipped: false,
        last_animation: 0,
    }
}

impl Columns {
    /// Whether `after` are these columns after an entity was spawned with
    /// the sprite `sprite`. All columns but that of the sprites are as in
    /// `rest`, which says what else the new entity has. The column of the
    /// sprites has one more slot than it had, which holds a sprite that is
    /// `sprite`, and is the same otherwise.
    pub open spec fn spawned(self, after: Columns, sprite: SpriteView, rest: Columns) -> bool {
        &&& after == (Columns { sprites: after.sprites, ..rest })
        &&& after.sprites.len() == self.len() + 1
        &&& after.sprites.take(self.len() as int) == self.sprites
        &&& after.sprites[self.len() as int] matches Some(made) && made@ == sprite
    }
}

impl World {
    /// Makes a decoration from what the map says of it: an entity with an
    /// animated sprite, with its lower edge where the map has the object.
    /// Returns the entity.
    pub fn add_object(&mut self, object: &MapObject, texture: TextureId) -> (id: Entity)
        requires
            old(self)@.wf(),
            old(self)@.len() < usize::MAX,
            object.frames > 0,
        ensures
            id == old(self)@.len(),
            final(self)@.wf(),
            old(self)@.spawned(
                final(self)@,
                object_sprite(*object, texture),
                old(self)@.add_entity().attach(
                    id,
                    Position {
                        x: object.world_x,
                        y: spec_narrow(object.world_y - object.dest_size.y),
                    },
                ),
            ),
    {
        let entity_id: Entity = self.add_entity();
        self.add_component_to_entity(
            entity_id,
            Position {
                x: object.world_x,
                y: narrow(object.world_y as i128 - object.dest_size.y as i128),
            },
        );
        let mut clips: Vec<Animation> = Vec::new();
        clips.push(Animation { row: object.row, frames: object.frames, fps: 8 });
        assert(clips@ =~= seq![Animation { row: object.row, frames: object.frames, fps: 8 }]);
        let ghost rest = self@;
        self.add_component_to_entity(
            entity_id,
            Sprite {
                texture,
                source_rect: Some(object.source_rect),
                dest_size: Some(object.dest_size),
                animation: Some(
                    AnimatedSprite::new(
                        whole_pixels(object.world_w),
                        whole_pixels(object.world_h),
                        clips,
                        true,
                    ),
                ),
                flipped: false,
                last_animation: 0,
            },
        );
        assert(self@.sprites.take(rest.len() - 1) =~= old(self)@.sprites);
        entity_id
    }

    /// Spawns an enemy of the kind that goes by the name `enemy` at the
    /// given place. It is drawn with `texture`. Returns the entity.
    pub fn spawn_enemy(&mut self, x: i32, y: i32, enemy: &str, texture: TextureId) -> (id: Entity)
        requires
            old(self)@.wf(),
            old(self)@.len() < usize::MAX,
        ensures
            id == old(self)@.len(),
            final(self)@.wf(),
            old(self)@.spawned(
                final(self)@,
                enemy_sprite(Archetype::spec_from_name(enemy@), texture),
                old(self)@.add_entity().attach(id, Position { x, y }).attach(
                    id,
                    Archetype::spec_from_name(enemy@).collider(),
                ).attach(id, Archetype::spec_from_name(enemy@).stats()).attach(
                    id,
                    Velocity { x: 8_000, y: 8_000 },
                ),
            ),
    {
        let archetype: Archetype = Archetype::from_name(enemy);
        let ghost start = self@;
        let builder = self.spawn_entity();
        let id: Entity = builder.entity_id;
        let builder = builder.with(
            Sprite {
                texture,
                source_rect: Some(Rect::new(0, 0, 32_000, 32_000)),
                dest_size: Some(archetype.dest_size()),
                animation: archetype.animation(),
                flipped: false,
                last_animation: 0,
            },
        );
        let ghost sprites = builder.world@.sprites;
        let builder = builder.with(Position { x, y }).with(archetype.collider()).with(
            archetype.stats(),
        ).with(Velocity { x: 8_000, y: 8_000 });
        assert(builder.world@.sprites == sprites);
        assert(sprites.take(start.len() as int) =~= start.sprites);
        id
    }

    /// Spawns the player at the given place. It is drawn with `texture`.
    /// Returns the entity.
    pub fn spawn_player(&mut self, x: i32, y: i32, texture: TextureId) -> (id: Entity)
        requires
            old(self)@.wf(),
            old(self)@.len() < usize::MAX,
        ensures
            id == old(self)@.len(),
            final(self)@.wf(),
            old(self)@.spawned(
                final(self)@,
                player_sprite(texture),
                old(self)@.add_entity().attach(id, Position { x, y }).attach(
                    id,
                    Velocity::zero(),
                ).attach(id, player_collider()).attach(id, Player::stock()),
            ),
    {
        let mut clips: Vec<Animation> = Vec::new();
        clips.push(Animation { row: 0, frames: 6, fps: 4 });
        clips.push(Animation { row: 3, frames: 6, fps: 4 });
        clips.push(Animation { row: 4, frames: 6, fps: 4 });
        clips.push(Animation { row: 1, frames: 6, fps: 4 });
        clips.push(Animation { row: 5, frames: 6, fps: 4 });
        clips.push(Animation { row: 2, frames: 6, fps: 4 });
        clips.push(Animation { row: 6, frames: 4, fps: 4 });
        clips.push(Animation { row: 7, frames: 4, fps: 4 });
        clips.push(Animation { row: 8, frames: 4, fps: 4 });
        clips.push(Animation { row: 9, frames: 3, fps: 4 });
        assert(clips@ =~= player_clips());
        let ghost start = self@;
        let builder = self.spawn_entity();
        let id: Entity = builder.entity_id;
        let builder = builder.with(
            Sprite {
                texture,
                source_rect: Some(Rect::new(0, 0, 48_000, 48_000)),
                dest_size: Some(Vec2::new(48_000, 48_000)),
                animation: Some(AnimatedSprite::new(48_000, 48_000, clips, true)),
                flipped: false,
                last_animation: 0,
            },
        );
        let ghost sprites = builder.world@.sprites;
        let builder = builder.with(Position { x, y }).with(Velocity::default()).with(
            Collider {
                collision_offset: Vec2::new(17_000, 38_000),
                collision_size: Vec2::new(14_000, 5_000),
                sprite_padding: Vec2::new(18_000, 20_000),
                visible_size: Vec2::new(18_000, 26_000),
            },
        ).with(Player::default());
        assert(builder.world@.sprites == sprites);
        assert(sprites.take(start.len() as int) =~= start.sprites);
        id
    }
}

} // verus!
