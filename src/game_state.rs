use vstd::prelude::*;

use crate::entity::{
    entity_at, occupant, placement, relocated, relocation, Entities, EntitiesError, Entity,
    EntityID, Object,
};
use crate::game_view::GameView;
use crate::player::{Owned, PlayerId};
use crate::terrain::{Coordinates, Direction, Location, Terrain, Tile};

verus! {

/// Why a move was refused.
#[derive(Debug, PartialEq, Clone, Copy)]
pub enum InvalidMove<'t> {
    NotWalkable(Location<'t>),
    LocationAlreadyTaken(Location<'t>, EntityID),
    Immovable,
    OutOfMap,
}

/// Why an order was refused.
#[derive(Debug, PartialEq, Clone, Copy)]
pub enum GameRuleViolation<'t> {
    InvalidMove(EntityID, Direction, InvalidMove<'t>),
    EntityNotOwned(EntityID, PlayerId),
    EntityDoesNotExist(EntityID),
}

/// A command for one entity.
#[derive(Debug, PartialEq, Eq, Structural, Clone, Copy)]
pub enum Order {
    Move(EntityID, Direction),
}

/// The entities after `player` moves entity `entity_id` one step in
/// `direction`, or the rule the move breaks. The checks come in this order:
/// the entity exists, it is a unit, the unit is the player's, the step stays
/// on the grid, and the cell stepped onto is walkable and free.
pub open spec fn move_outcome<'t>(
    entities: Seq<Entity<'t>>,
    player: PlayerId,
    entity_id: EntityID,
    direction: Direction,
) -> Result<Seq<Entity<'t>>, GameRuleViolation<'t>> {
    if entity_id.0 >= entities.len() {
        Err(GameRuleViolation::EntityDoesNotExist(entity_id))
    } else {
        let entity = entities[entity_id.0 as int];
        match entity.object {
            Object::Unit(owner, _) => if owner != player {
                Err(GameRuleViolation::EntityNotOwned(entity_id, player))
            } else {
                match entity.location.spec_in_direction(direction) {
                    None => Err(
                        GameRuleViolation::InvalidMove(entity_id, direction, InvalidMove::OutOfMap),
                    ),
                    Some(target) => match relocation(entities, entity_id, target) {
                        Ok(moved) => Ok(moved),
                        Err(EntitiesError::LocationNotWalkable(l)) => Err(
                            GameRuleViolation::InvalidMove(
                                entity_id,
                                direction,
                                InvalidMove::NotWalkable(l),
                            ),
                        ),
                        Err(EntitiesError::LocationAlreadyOccupied(l, by)) => Err(
                            GameRuleViolation::InvalidMove(
                                entity_id,
                                direction,
                                InvalidMove::LocationAlreadyTaken(l, by),
                            ),
                        ),
                    },
                }
            },
            _ => Err(GameRuleViolation::InvalidMove(entity_id, direction, InvalidMove::Immovable)),
        }
    }
}

/// The entities after the orders are carried out one after another, each
/// against the entities as the orders before it left them, together with
/// each refused order and the rule it broke, in order.
pub open spec fn apply_orders<'t>(entities: Seq<Entity<'t>>, orders: Seq<Owned<Order>>) -> (
    Seq<Entity<'t>>,
    Seq<(Owned<Order>, GameRuleViolation<'t>)>,
)
    decreases orders.len(),
{
    if orders.len() == 0 {
        (entities, seq![])
    } else {
        let (before, violations) = apply_orders(entities, orders.drop_last());
        let order = orders.last();
        match order.1 {
            Order::Move(entity_id, direction) => match move_outcome(
                before,
                order.0,
                entity_id,
                direction,
            ) {
                Ok(after) => (after, violations),
                Err(violation) => (before, violations.push((order, violation))),
            },
        }
    }
}

/// One round of a game: a terrain and the entities on it.
#[derive(Debug)]
pub struct GameState<'t> {
    pub(crate) name: String,
    pub(crate) round: u32,
    pub(crate) terrain: &'t Terrain,
    pub(crate) entities: Entities<'t>,
}

impl<'t> GameState<'t> {
    /// The entities are consistent and all stand on this game's terrain.
    pub open(crate) spec fn wf(&self) -> bool {
        &&& self.entities.wf()
        &&& self.entities.on_terrain(*self.terrain)
        &&& self.terrain.wf()
    }

    pub open(crate) spec fn spec_name(&self) -> Seq<char> {
        self.name@
    }

    pub open(crate) spec fn spec_round(&self) -> u32 {
        self.round
    }

    pub open(crate) spec fn spec_terrain(&self) -> Terrain {
        *self.terrain
    }

    /// The entities, in order of handle.
    pub open(crate) spec fn spec_entities(&self) -> Seq<Entity<'t>> {
        self.entities.spec_entities()
    }

    pub fn name(&self) -> (r: &str)
        ensures
            r@ == self.spec_name(),
    {
        self.name.as_str()
    }

    pub fn round(&self) -> (r: u32)
        ensures
            r == self.spec_round(),
    {
        self.round
    }

    pub fn terrain(&self) -> (r: &'t Terrain)
        ensures
            *r == self.spec_terrain(),
    {
        self.terrain
    }

    /// The read-only view of this game for `player`.
    pub fn view_for<'g>(&'g self, player: PlayerId) -> (r: GameView<'t, 'g>)
        requires
            self.wf(),
        ensures
            r.wf(),
            *r.game == *self,
            r.player == player,
    {
        GameView::new(self, player)
    }

    /// All entities, in order of handle.
    pub fn entities(&self) -> (r: &[Entity<'t>])
        ensures
            r@ == self.spec_entities(),
    {
        self.entities.iter()
    }

    /// The entity standing on `location`, a cell of this game's terrain.
    pub fn get_entity_by_location(&self, location: Location<'t>) -> (r: Option<&Entity<'t>>)
        requires
            self.wf(),
            location.wf(),
        ensures
            match r {
                Some(e) => entity_at(self.spec_entities(), location.key()) == Some(*e),
                None => entity_at(self.spec_entities(), location.key()) is None,
            },
    {
        self.entities.get_by_location(location)
    }

    /// Carries out one move order of `player`, or reports the rule it
    /// breaks and changes nothing.
    pub fn move_entity(&mut self, player: PlayerId, entity_id: EntityID, direction: Direction) -> (r:
        Result<(), GameRuleViolation<'t>>)
        requires
            old(self).wf(),
        ensures
            final(self).wf(),
            final(self).spec_name() == old(self).spec_name(),
            final(self).spec_round() == old(self).spec_round(),
            final(self).spec_terrain() == old(self).spec_terrain(),
            match move_outcome(old(self).spec_entities(), player, entity_id, direction) {
                Ok(entities) => r is Ok && final(self).spec_entities() == entities,
                Err(violation) => r == Err::<(), GameRuleViolation<'t>>(violation) && *final(self)
                    == *old(self),
            },
            // Buildings and resource piles never move.
            entity_id.0 < old(self).spec_entities().len() && !(old(self).spec_entities()[entity_id.0 as int].object is Unit)
                ==> r == Err::<(), GameRuleViolation<'t>>(
                GameRuleViolation::InvalidMove(entity_id, direction, InvalidMove::Immovable),
            ) && *final(self) == *old(self),
            // Nobody moves another player's unit.
            entity_id.0 < old(self).spec_entities().len() && old(self).spec_entities()[entity_id.0 as int].object is Unit
                && old(self).spec_entities()[entity_id.0 as int].object->Unit_0 != player
                ==> r == Err::<(), GameRuleViolation<'t>>(
                GameRuleViolation::EntityNotOwned(entity_id, player),
            ) && *final(self) == *old(self),
            // A step off the grid is refused.
            entity_id.0 < old(self).spec_entities().len() && old(self).spec_entities()[entity_id.0 as int].object is Unit
                && old(self).spec_entities()[entity_id.0 as int].object->Unit_0 == player
                && old(self).spec_entities()[entity_id.0 as int].location.spec_in_direction(direction) is None
                ==> r == Err::<(), GameRuleViolation<'t>>(
                GameRuleViolation::InvalidMove(entity_id, direction, InvalidMove::OutOfMap),
            ) && *final(self) == *old(self),
            // A step onto a wall or an occupied cell is refused.
            entity_id.0 < old(self).spec_entities().len() && old(self).spec_entities()[entity_id.0 as int].location.spec_in_direction(direction) is Some
                && (old(self).spec_entities()[entity_id.0 as int].location.spec_in_direction(direction)->0.tile != Tile::Empty
                || occupant(old(self).spec_entities(), old(self).spec_entities()[entity_id.0 as int].location.spec_in_direction(direction)->0.key()) is Some)
                ==> r is Err && *final(self) == *old(self),
    {
        let entity = match self.entities.get(entity_id) {
            Some(entity) => *entity,
            None => {
                return Err(GameRuleViolation::EntityDoesNotExist(entity_id));
            },
        };
        match entity.object {
            Object::Unit(owner, _) => {
                if owner != player {
                    return Err(GameRuleViolation::EntityNotOwned(entity_id, player));
                }
            },
            _ => {
                return Err(
                    GameRuleViolation::InvalidMove(entity_id, direction, InvalidMove::Immovable),
                );
            },
        }
        let new_location = match entity.location.in_direction(direction) {
            Some(location) => location,
            None => {
                return Err(
                    GameRuleViolation::InvalidMove(entity_id, direction, InvalidMove::OutOfMap),
                );
            },
        };
        assert(entity == self.spec_entities()[entity_id.0 as int]);
        assert(entity.location.spec_terrain() == self.spec_terrain());
        match self.entities.set_location(entity_id, new_location) {
            Ok(()) => Ok(()),
            Err(EntitiesError::LocationNotWalkable(location)) => Err(
                GameRuleViolation::InvalidMove(
                    entity_id,
                    direction,
                    InvalidMove::NotWalkable(location),
                ),
            ),
            Err(EntitiesError::LocationAlreadyOccupied(location, by_entity_id)) => Err(
                GameRuleViolation::InvalidMove(
                    entity_id,
                    direction,
                    InvalidMove::LocationAlreadyTaken(location, by_entity_id),
                ),
            ),
        }
    }

    /// Carries out the orders one after another, each against the state the
    /// orders before it left. A refused order changes nothing and does not
    /// stop the others; the refused orders come back with the rule each
    /// broke, in order.
    pub fn apply(&mut self, orders: Vec<Owned<Order>>) -> (r: Vec<
        (Owned<Order>, GameRuleViolation<'t>),
    >)
        requires
            old(self).wf(),
        ensures
            final(self).wf(),
            final(self).spec_name() == old(self).spec_name(),
            final(self).spec_round() == old(self).spec_round(),
            final(self).spec_terrain() == old(self).spec_terrain(),
            (final(self).spec_entities(), r@) == apply_orders(old(self).spec_entities(), orders@),
    {
        let mut violations: Vec<(Owned<Order>, GameRuleViolation<'t>)> = Vec::new();
        let mut i: usize = 0;
        while i < orders.len()
            invariant
                i <= orders@.len(),
                self.wf(),
                self.spec_name() == old(self).spec_name(),
                self.spec_round() == old(self).spec_round(),
                self.spec_terrain() == old(self).spec_terrain(),
                (self.spec_entities(), violations@) == apply_orders(
                    old(self).spec_entities(),
                    orders@.take(i as int),
                ),
            decreases orders@.len() - i,
        {
            let order = orders[i];
            assert(orders@.take(i + 1).drop_last() == orders@.take(i as int));
            match order.1 {
                Order::Move(entity_id, direction) => {
                    match self.move_entity(order.0, entity_id, direction) {
                        Ok(()) => {},
                        Err(violation) => {
                            violations.push((order, violation));
                        },
                    }
                },
            }
            i = i + 1;
        }
        assert(orders@.take(orders@.len() as int) == orders@);
        violations
    }
}

/// Why an entity could not be placed while setting up a game.
#[derive(Debug, PartialEq, Clone, Copy)]
pub enum GameStateBuilderError<'t> {
    OutOfMap(Coordinates),
    EntityPlaceError(EntitiesError<'t>),
}

/// Sets up the entities of a game on a terrain; each round then starts from
/// a copy of them.
#[derive(Debug)]
pub struct GameStateBuilder<'t> {
    pub(crate) name: String,
    pub(crate) terrain: &'t Terrain,
    pub(crate) entities: Entities<'t>,
}

impl<'t> GameStateBuilder<'t> {
    /// The entities are consistent and all stand on the builder's terrain.
    pub open(crate) spec fn wf(&self) -> bool {
        &&& self.entities.wf()
        &&& self.entities.on_terrain(*self.terrain)
        &&& self.terrain.wf()
    }

    pub open(crate) spec fn spec_name(&self) -> Seq<char> {
        self.name@
    }

    pub open(crate) spec fn spec_terrain(&self) -> Terrain {
        *self.terrain
    }

    /// The entities placed so far, in order of handle.
    pub open(crate) spec fn spec_entities(&self) -> Seq<Entity<'t>> {
        self.entities.spec_entities()
    }

    /// The location of the terrain's cell at `c`.
    pub open(crate) spec fn location_at(&self, c: Coordinates) -> Location<'t> {
        Location { terrain: self.terrain, coordinates: c, tile: self.terrain.tile_at(c) }
    }

    /// A builder named `name` with no entities yet on `terrain`.
    pub fn new(name: String, terrain: &'t Terrain) -> (r: GameStateBuilder<'t>)
        ensures
            r.wf(),
            r.spec_name() == name@,
            r.spec_terrain() == *terrain,
            r.spec_entities() == Seq::<Entity<'t>>::empty(),
    {
        proof {
            use_type_invariant(terrain);
        }
        GameStateBuilder { name, terrain, entities: Entities::new() }
    }

    /// Puts a new entity holding `object` on the cell at `coordinates`.
    /// Fails, changing nothing, when the coordinates are off the terrain or
    /// the entity may not stand there.
    pub fn place(&mut self, coordinates: Coordinates, object: Object) -> (r: Result<
        (),
        GameStateBuilderError<'t>,
    >)
        requires
            old(self).wf(),
        ensures
            final(self).wf(),
            final(self).spec_name() == old(self).spec_name(),
            final(self).spec_terrain() == old(self).spec_terrain(),
            !old(self).spec_terrain().in_bounds(coordinates) ==> r == Err::<
                (),
                GameStateBuilderError<'t>,
            >(GameStateBuilderError::OutOfMap(coordinates)) && *final(self) == *old(self),
            old(self).spec_terrain().in_bounds(coordinates) ==> match placement(
                old(self).spec_entities(),
                old(self).location_at(coordinates),
                object,
            ) {
                Ok(entities) => r is Ok && final(self).spec_entities() == entities,
                Err(e) => r == Err::<(), GameStateBuilderError<'t>>(
                    GameStateBuilderError::EntityPlaceError(e),
                ) && *final(self) == *old(self),
            },
    {
        let location = match self.terrain.location(coordinates) {
            Some(location) => location,
            None => {
                return Err(GameStateBuilderError::OutOfMap(coordinates));
            },
        };
        assert(location == self.location_at(coordinates));
        match self.entities.place(location, object) {
            Ok(_) => Ok(()),
            Err(e) => Err(GameStateBuilderError::EntityPlaceError(e)),
        }
    }

    /// A new game for round `round`, holding its own copy of the entities.
    pub fn build_for_round(&self, round: u32) -> (r: GameState<'t>)
        requires
            self.wf(),
        ensures
            r.wf(),
            r.spec_name() == self.spec_name(),
            r.spec_round() == round,
            r.spec_terrain() == self.spec_terrain(),
            r.spec_entities() == self.spec_entities(),
    {
        GameState {
            name: self.name.clone(),
            round,
            terrain: self.terrain,
            entities: self.entities.snapshot(),
        }
    }
}

/// Two orders in one batch that send two units onto the same free cell:
/// whichever comes first moves, and the other is refused because the cell
/// is taken by then. Swapping the two orders swaps the outcome.
pub proof fn lemma_first_order_wins<'t>(
    game: GameState<'t>,
    a: Owned<Order>,
    a_id: EntityID,
    a_direction: Direction,
    b: Owned<Order>,
    b_id: EntityID,
    b_direction: Direction,
    destination: Location<'t>,
)
    requires
        game.wf(),
        a.1 == Order::Move(a_id, a_direction),
        b.1 == Order::Move(b_id, b_direction),
        a_id != b_id,
        a_id.0 < game.spec_entities().len(),
        b_id.0 < game.spec_entities().len(),
        game.spec_entities()[a_id.0 as int].object is Unit,
        game.spec_entities()[a_id.0 as int].object->Unit_0 == a.0,
        game.spec_entities()[b_id.0 as int].object is Unit,
        game.spec_entities()[b_id.0 as int].object->Unit_0 == b.0,
        game.spec_entities()[a_id.0 as int].location.spec_in_direction(a_direction) == Some(
            destination,
        ),
        game.spec_entities()[b_id.0 as int].location.spec_in_direction(b_direction) == Some(
            destination,
        ),
        destination.tile == Tile::Empty,
        occupant(game.spec_entities(), destination.key()) is None,
    ensures
        apply_orders(game.spec_entities(), seq![a, b]) == (
            relocated(game.spec_entities(), a_id.0 as int, destination),
            seq![
                (
                    b,
                    GameRuleViolation::InvalidMove(
                        b_id,
                        b_direction,
                        InvalidMove::LocationAlreadyTaken(destination, a_id),
                    ),
                ),
            ],
        ),
        apply_orders(game.spec_entities(), seq![b, a]) == (
            relocated(game.spec_entities(), b_id.0 as int, destination),
            seq![
                (
                    a,
                    GameRuleViolation::InvalidMove(
                        a_id,
                        a_direction,
                        InvalidMove::LocationAlreadyTaken(destination, b_id),
                    ),
                ),
            ],
        ),
{
    lemma_second_order_refused(game, a, a_id, a_direction, b, b_id, b_direction, destination);
    lemma_second_order_refused(game, b, b_id, b_direction, a, a_id, a_direction, destination);
}

proof fn lemma_second_order_refused<'t>(
    game: GameState<'t>,
    a: Owned<Order>,
    a_id: EntityID,
    a_direction: Direction,
    b: Owned<Order>,
    b_id: EntityID,
    b_direction: Direction,
    destination: Location<'t>,
)
    requires
        game.wf(),
        a.1 == Order::Move(a_id, a_direction),
        b.1 == Order::Move(b_id, b_direction),
        a_id != b_id,
        a_id.0 < game.spec_entities().len(),
        b_id.0 < game.spec_entities().len(),
        game.spec_entities()[a_id.0 as int].object is Unit,
        game.spec_entities()[a_id.0 as int].object->Unit_0 == a.0,
        game.spec_entities()[b_id.0 as int].object is Unit,
        game.spec_entities()[b_id.0 as int].object->Unit_0 == b.0,
        game.spec_entities()[a_id.0 as int].location.spec_in_direction(a_direction) == Some(
            destination,
        ),
        game.spec_entities()[b_id.0 as int].location.spec_in_direction(b_direction) == Some(
            destination,
        ),
        destination.tile == Tile::Empty,
        occupant(game.spec_entities(), destination.key()) is None,
    ensures
        apply_orders(game.spec_entities(), seq![a, b]) == (
            relocated(game.spec_entities(), a_id.0 as int, destination),
            seq![
                (
                    b,
                    GameRuleViolation::InvalidMove(
                        b_id,
                        b_direction,
                        InvalidMove::LocationAlreadyTaken(destination, a_id),
                    ),
                ),
            ],
        ),
{
    let entities = game.spec_entities();
    let moved = relocated(entities, a_id.0 as int, destination);
    let orders = seq![a, b];
    assert(orders.drop_last() =~= seq![a]);
    assert(seq![a].drop_last() =~= Seq::<Owned<Order>>::empty());
    assert(apply_orders(entities, Seq::<Owned<Order>>::empty()) == (
        entities,
        Seq::<(Owned<Order>, GameRuleViolation<'t>)>::empty(),
    ));
    assert(move_outcome(entities, a.0, a_id, a_direction) == Ok::<
        Seq<Entity<'t>>,
        GameRuleViolation<'t>,
    >(moved));
    assert(apply_orders(entities, seq![a]) == (
        moved,
        Seq::<(Owned<Order>, GameRuleViolation<'t>)>::empty(),
    ));
    assert(moved[b_id.0 as int] == entities[b_id.0 as int]);
    assert(moved[a_id.0 as int].location == destination);
    assert(entity_at(moved, destination.key()) == Some(moved[a_id.0 as int])) by {
        assert forall|i: int|
            0 <= i < moved.len() && (#[trigger] moved[i]).location.key() == destination.key()
            implies i == a_id.0 as int by {
            if i != a_id.0 as int {
                assert(moved[i] == entities[i]);
            }
        }
    }
    assert(moved[a_id.0 as int].id == a_id);
}

} // verus!
