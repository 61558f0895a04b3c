use micro_rts::ai::{EmptyPersistentState, IdleAI, TestAI, AI};
use micro_rts::entity::{
    Building, Entities, EntitiesError, EntityID, Object, Resource, Unit,
};
use micro_rts::game_state::{
    GameRuleViolation, GameState, GameStateBuilder, GameStateBuilderError, InvalidMove, Order,
};
use micro_rts::player::{Owned, PlayerId};
use micro_rts::terrain::{Coordinates, Dimension, Direction, Terrain, TerrainBuilder, Tile};

const MARIO: PlayerId = PlayerId(0);
const LUIGI: PlayerId = PlayerId(1);

fn open_terrain(width: usize, height: usize) -> Terrain {
    TerrainBuilder::new(Dimension::new(width).unwrap(), Dimension::new(height).unwrap()).build()
}

fn walled_terrain() -> Terrain {
    TerrainBuilder::new(Dimension::new(4).unwrap(), Dimension::new(4).unwrap())
        .place(Coordinates(1, 1), Tile::Wall)
        .unwrap()
        .build()
}

fn coordinates_of(game: &GameState<'_>, id: EntityID) -> Coordinates {
    game.entities()[id.0].location.coordinates
}

fn snapshot(game: &GameState<'_>) -> Vec<(EntityID, Coordinates)> {
    game.entities()
        .iter()
        .map(|e| (e.id, e.location.coordinates))
        .collect()
}

#[test]
fn placement_keeps_one_entity_per_cell() {
    let terrain = walled_terrain();
    let mut entities = Entities::new();
    let cell = terrain.location(Coordinates(2, 2)).unwrap();
    assert_eq!(
        entities.place(cell, Object::Resources(Resource(10))),
        Ok(EntityID(0))
    );
    assert_eq!(
        entities.place(cell, Object::Unit(MARIO, Unit::Worker)),
        Err(EntitiesError::LocationAlreadyOccupied(cell, EntityID(0)))
    );
    let wall = terrain.location(Coordinates(1, 1)).unwrap();
    assert_eq!(
        entities.place(wall, Object::Unit(MARIO, Unit::Worker)),
        Err(EntitiesError::LocationNotWalkable(wall))
    );
    let other = terrain.location(Coordinates(0, 3)).unwrap();
    assert_eq!(
        entities.place(other, Object::Unit(LUIGI, Unit::Heavy)),
        Ok(EntityID(1))
    );
    assert_eq!(entities.iter().len(), 2);
    assert_eq!(entities.get_by_location(cell).unwrap().id, EntityID(0));
    assert_eq!(entities.get_by_location(other).unwrap().id, EntityID(1));
    assert!(entities
        .get_by_location(terrain.location(Coordinates(3, 3)).unwrap())
        .is_none());
    assert_eq!(entities.get(EntityID(1)).unwrap().location, other);
    assert!(entities.get(EntityID(2)).is_none());
}

#[test]
fn relocation_moves_the_index_entry() {
    let terrain = open_terrain(3, 3);
    let mut entities = Entities::new();
    let start = terrain.location(Coordinates(0, 0)).unwrap();
    let next = terrain.location(Coordinates(0, 1)).unwrap();
    let blocker = terrain.location(Coordinates(0, 2)).unwrap();
    let unit = entities.place(start, Object::Unit(MARIO, Unit::Light)).unwrap();
    let rock = entities.place(blocker, Object::Resources(Resource(3))).unwrap();

    assert_eq!(entities.set_location(unit, next), Ok(()));
    assert_eq!(entities.get_by_location(next).unwrap().id, unit);
    assert!(entities.get_by_location(start).is_none());
    assert_eq!(entities.get(unit).unwrap().location, next);

    assert_eq!(
        entities.set_location(unit, blocker),
        Err(EntitiesError::LocationAlreadyOccupied(blocker, rock))
    );
    assert_eq!(entities.get(unit).unwrap().location, next);
    assert_eq!(entities.get_by_location(next).unwrap().id, unit);
}

fn small_game<'t>(terrain: &'t Terrain) -> GameStateBuilder<'t> {
    let mut builder = GameStateBuilder::new(String::from("test"), terrain);
    builder
        .place(Coordinates(0, 0), Object::Unit(MARIO, Unit::Worker))
        .unwrap();
    builder
        .place(Coordinates(2, 0), Object::Unit(LUIGI, Unit::Worker))
        .unwrap();
    builder
        .place(Coordinates(3, 3), Object::Building(MARIO, Building::Base(Resource(10))))
        .unwrap();
    builder
        .place(Coordinates(0, 3), Object::Resources(Resource(7)))
        .unwrap();
    builder
        .place(Coordinates(2, 1), Object::Building(LUIGI, Building::Barracks))
        .unwrap();
    builder
}

#[test]
fn buildings_and_resources_are_immovable() {
    let terrain = walled_terrain();
    let builder = small_game(&terrain);
    let mut game = builder.build_for_round(0);
    let before = snapshot(&game);
    assert_eq!(
        game.move_entity(MARIO, EntityID(2), Direction::Left),
        Err(GameRuleViolation::InvalidMove(
            EntityID(2),
            Direction::Left,
            InvalidMove::Immovable
        ))
    );
    assert_eq!(
        game.move_entity(MARIO, EntityID(3), Direction::Up),
        Err(GameRuleViolation::InvalidMove(
            EntityID(3),
            Direction::Up,
            InvalidMove::Immovable
        ))
    );
    assert_eq!(
        game.move_entity(LUIGI, EntityID(4), Direction::Down),
        Err(GameRuleViolation::InvalidMove(
            EntityID(4),
            Direction::Down,
            InvalidMove::Immovable
        ))
    );
    assert_eq!(snapshot(&game), before);
}

#[test]
fn another_players_unit_cannot_be_moved() {
    let terrain = walled_terrain();
    let mut game = small_game(&terrain).build_for_round(0);
    let before = snapshot(&game);
    assert_eq!(
        game.move_entity(LUIGI, EntityID(0), Direction::Right),
        Err(GameRuleViolation::EntityNotOwned(EntityID(0), LUIGI))
    );
    assert_eq!(
        game.move_entity(PlayerId(7), EntityID(1), Direction::Right),
        Err(GameRuleViolation::EntityNotOwned(EntityID(1), PlayerId(7)))
    );
    assert_eq!(snapshot(&game), before);
}

#[test]
fn walls_occupied_cells_and_edges_stop_a_move() {
    let terrain = walled_terrain();
    let mut game = small_game(&terrain).build_for_round(0);
    let before = snapshot(&game);
    assert_eq!(
        game.move_entity(MARIO, EntityID(0), Direction::Up),
        Err(GameRuleViolation::InvalidMove(
            EntityID(0),
            Direction::Up,
            InvalidMove::OutOfMap
        ))
    );
    assert_eq!(
        game.move_entity(MARIO, EntityID(0), Direction::Left),
        Err(GameRuleViolation::InvalidMove(
            EntityID(0),
            Direction::Left,
            InvalidMove::OutOfMap
        ))
    );
    assert_eq!(
        game.move_entity(LUIGI, EntityID(1), Direction::Down),
        Err(GameRuleViolation::InvalidMove(
            EntityID(1),
            Direction::Down,
            InvalidMove::LocationAlreadyTaken(
                terrain.location(Coordinates(2, 1)).unwrap(),
                EntityID(4)
            )
        ))
    );
    assert_eq!(game.move_entity(MARIO, EntityID(0), Direction::Down), Ok(()));
    let after_step = snapshot(&game);
    assert_eq!(
        game.move_entity(MARIO, EntityID(0), Direction::Right),
        Err(GameRuleViolation::InvalidMove(
            EntityID(0),
            Direction::Right,
            InvalidMove::NotWalkable(terrain.location(Coordinates(1, 1)).unwrap())
        ))
    );
    assert_eq!(snapshot(&game), after_step);
    assert_ne!(after_step, before);
    assert_eq!(
        game.move_entity(MARIO, EntityID(9), Direction::Right),
        Err(GameRuleViolation::EntityDoesNotExist(EntityID(9)))
    );
}

#[test]
fn first_of_two_orders_for_one_cell_wins() {
    let terrain = open_terrain(3, 1);
    let mut builder = GameStateBuilder::new(String::from("race"), &terrain);
    builder
        .place(Coordinates(0, 0), Object::Unit(MARIO, Unit::Worker))
        .unwrap();
    builder
        .place(Coordinates(2, 0), Object::Unit(LUIGI, Unit::Worker))
        .unwrap();
    let a = Owned(MARIO, Order::Move(EntityID(0), Direction::Right));
    let b = Owned(LUIGI, Order::Move(EntityID(1), Direction::Left));
    let middle = terrain.location(Coordinates(1, 0)).unwrap();

    let mut game = builder.build_for_round(0);
    let refused = game.apply(vec![a, b]);
    assert_eq!(refused.len(), 1);
    assert_eq!(refused[0].0 .0, LUIGI);
    assert_eq!(
        refused[0].1,
        GameRuleViolation::InvalidMove(
            EntityID(1),
            Direction::Left,
            InvalidMove::LocationAlreadyTaken(middle, EntityID(0))
        )
    );
    assert_eq!(coordinates_of(&game, EntityID(0)), Coordinates(1, 0));
    assert_eq!(coordinates_of(&game, EntityID(1)), Coordinates(2, 0));

    let mut game = builder.build_for_round(1);
    let refused = game.apply(vec![b, a]);
    assert_eq!(refused.len(), 1);
    assert_eq!(refused[0].0 .0, MARIO);
    assert_eq!(
        refused[0].1,
        GameRuleViolation::InvalidMove(
            EntityID(0),
            Direction::Right,
            InvalidMove::LocationAlreadyTaken(middle, EntityID(1))
        )
    );
    assert_eq!(coordinates_of(&game, EntityID(0)), Coordinates(0, 0));
    assert_eq!(coordinates_of(&game, EntityID(1)), Coordinates(1, 0));
}

#[test]
fn apply_reports_every_refusal_and_goes_on() {
    let terrain = walled_terrain();
    let mut game = small_game(&terrain).build_for_round(3);
    let refused = game.apply(vec![
        Owned(MARIO, Order::Move(EntityID(0), Direction::Up)),
        Owned(MARIO, Order::Move(EntityID(0), Direction::Down)),
        Owned(LUIGI, Order::Move(EntityID(0), Direction::Down)),
        Owned(LUIGI, Order::Move(EntityID(1), Direction::Right)),
        Owned(MARIO, Order::Move(EntityID(3), Direction::Up)),
    ]);
    assert_eq!(
        refused.iter().map(|(order, violation)| (order.0, *violation)).collect::<Vec<_>>(),
        vec![
            (
                MARIO,
                GameRuleViolation::InvalidMove(EntityID(0), Direction::Up, InvalidMove::OutOfMap)
            ),
            (LUIGI, GameRuleViolation::EntityNotOwned(EntityID(0), LUIGI)),
            (
                MARIO,
                GameRuleViolation::InvalidMove(EntityID(3), Direction::Up, InvalidMove::Immovable)
            ),
        ]
    );
    assert_eq!(coordinates_of(&game, EntityID(0)), Coordinates(0, 1));
    assert_eq!(coordinates_of(&game, EntityID(1)), Coordinates(3, 0));
    assert_eq!(game.round(), 3);
    assert_eq!(game.name(), "test");
}

#[test]
fn builder_reports_bad_placements_and_rounds_are_independent() {
    let terrain = walled_terrain();
    let mut builder = small_game(&terrain);
    assert_eq!(
        builder.place(Coordinates(4, 0), Object::Resources(Resource(1))),
        Err(GameStateBuilderError::OutOfMap(Coordinates(4, 0)))
    );
    let wall = terrain.location(Coordinates(1, 1)).unwrap();
    assert_eq!(
        builder.place(Coordinates(1, 1), Object::Resources(Resource(1))),
        Err(GameStateBuilderError::EntityPlaceError(
            EntitiesError::LocationNotWalkable(wall)
        ))
    );
    let taken = terrain.location(Coordinates(0, 0)).unwrap();
    assert_eq!(
        builder.place(Coordinates(0, 0), Object::Resources(Resource(1))),
        Err(GameStateBuilderError::EntityPlaceError(
            EntitiesError::LocationAlreadyOccupied(taken, EntityID(0))
        ))
    );

    let mut first = builder.build_for_round(0);
    first.move_entity(MARIO, EntityID(0), Direction::Down).unwrap();
    let second = builder.build_for_round(1);
    assert_eq!(coordinates_of(&first, EntityID(0)), Coordinates(0, 1));
    assert_eq!(coordinates_of(&second, EntityID(0)), Coordinates(0, 0));
    assert_eq!(second.round(), 1);
    assert_eq!(second.entities().len(), 5);
    assert_eq!(
        second
            .get_entity_by_location(terrain.location(Coordinates(3, 3)).unwrap())
            .unwrap()
            .id,
        EntityID(2)
    );
}

#[test]
fn view_lists_own_units_and_resources() {
    let terrain = walled_terrain();
    let game = small_game(&terrain).build_for_round(0);
    let view = game.view_for(MARIO);
    let units = view.my_units();
    assert_eq!(units.len(), 1);
    assert_eq!(units[0].entity_id, EntityID(0));
    assert_eq!(units[0].unit, Unit::Worker);
    assert_eq!(units[0].navigator.location.coordinates, Coordinates(0, 0));
    let piles = view.resources();
    assert_eq!(piles.len(), 1);
    assert_eq!(piles[0].entity_id, EntityID(3));
    assert_eq!(piles[0].resource, Resource(7));
    assert_eq!(view.entities().len(), 5);
    assert_eq!(game.view_for(LUIGI).my_units()[0].entity_id, EntityID(1));
    assert!(game.view_for(PlayerId(5)).my_units().is_empty());
}

#[test]
fn navigator_sees_walls_and_entities() {
    let terrain = walled_terrain();
    let game = small_game(&terrain).build_for_round(0);
    let view = game.view_for(MARIO);
    let home = view.navigator(terrain.location(Coordinates(0, 0)).unwrap());
    assert!(!home.walkable());
    assert_eq!(home.entity.unwrap().id, EntityID(0));
    let right = home.in_direction(Direction::Right).unwrap();
    assert!(right.walkable());
    assert!(home.in_direction(Direction::Up).is_none());
    let wall = right.in_direction(Direction::Down).unwrap();
    assert!(!wall.walkable());
    assert!(wall.entity.is_none());
    assert_eq!(home.direction_to(&right), Some(Direction::Right));
    assert_eq!(home.direction_to(&home), None);
}

fn path_cost(terrain: &Terrain) -> Option<(Vec<Coordinates>, u64)> {
    let mut builder = GameStateBuilder::new(String::from("paths"), terrain);
    builder
        .place(Coordinates(0, 0), Object::Unit(MARIO, Unit::Worker))
        .unwrap();
    builder
        .place(Coordinates(7, 7), Object::Resources(Resource(10)))
        .unwrap();
    let game = builder.build_for_round(0);
    let view = game.view_for(MARIO);
    let units = view.my_units();
    let piles = view.resources();
    units[0]
        .navigator
        .find_path_dijkstra(&piles[0].navigator)
        .map(|(path, cost)| {
            (
                path.iter().map(|n| n.location.coordinates).collect(),
                cost,
            )
        })
}

fn adjacent(a: Coordinates, b: Coordinates) -> bool {
    (a.0 == b.0 && (a.1 + 1 == b.1 || b.1 + 1 == a.1))
        || (a.1 == b.1 && (a.0 + 1 == b.0 || b.0 + 1 == a.0))
}

#[test]
fn open_grid_path_costs_thirteen() {
    let terrain = open_terrain(8, 8);
    let (path, cost) = path_cost(&terrain).unwrap();
    assert_eq!(cost, 13);
    assert_eq!(path.len(), 14);
    assert_eq!(path[0], Coordinates(0, 0));
    assert!(adjacent(*path.last().unwrap(), Coordinates(7, 7)));
    for pair in path.windows(2) {
        assert!(adjacent(pair[0], pair[1]));
    }
}

#[test]
fn wall_diagonal_never_shortens_the_path() {
    let open = open_terrain(8, 8);
    let walled = TerrainBuilder::terrain_8x8_wall1();
    let (_, open_cost) = path_cost(&open).unwrap();
    let (path, walled_cost) = path_cost(&walled).unwrap();
    assert!(walled_cost >= open_cost);
    assert_eq!(walled_cost, 13);
    for c in path {
        assert_eq!(walled.location(c).unwrap().tile, Tile::Empty);
    }
}

#[test]
fn enclosed_target_has_no_path() {
    let terrain = TerrainBuilder::new(Dimension::new(5).unwrap(), Dimension::new(5).unwrap())
        .place(Coordinates(3, 4), Tile::Wall)
        .unwrap()
        .place(Coordinates(4, 3), Tile::Wall)
        .unwrap()
        .place(Coordinates(3, 3), Tile::Wall)
        .unwrap()
        .build();
    let mut builder = GameStateBuilder::new(String::from("closed"), &terrain);
    builder
        .place(Coordinates(0, 0), Object::Unit(MARIO, Unit::Worker))
        .unwrap();
    builder
        .place(Coordinates(4, 4), Object::Resources(Resource(1)))
        .unwrap();
    let game = builder.build_for_round(0);
    let view = game.view_for(MARIO);
    let units = view.my_units();
    let piles = view.resources();
    assert!(units[0]
        .navigator
        .find_path_dijkstra(&piles[0].navigator)
        .is_none());
}

#[test]
fn start_next_to_target_needs_no_step() {
    let terrain = open_terrain(3, 3);
    let mut builder = GameStateBuilder::new(String::from("near"), &terrain);
    builder
        .place(Coordinates(1, 1), Object::Unit(MARIO, Unit::Worker))
        .unwrap();
    builder
        .place(Coordinates(1, 2), Object::Resources(Resource(1)))
        .unwrap();
    let game = builder.build_for_round(0);
    let view = game.view_for(MARIO);
    let units = view.my_units();
    let piles = view.resources();
    let (path, cost) = units[0]
        .navigator
        .find_path_dijkstra(&piles[0].navigator)
        .unwrap();
    assert_eq!(cost, 0);
    assert_eq!(path.len(), 1);
    assert_eq!(path[0].location.coordinates, Coordinates(1, 1));
}

#[test]
fn test_ai_steps_workers_towards_the_nearest_pile() {
    let terrain = open_terrain(6, 1);
    let mut builder = GameStateBuilder::new(String::from("ai"), &terrain);
    builder
        .place(Coordinates(0, 0), Object::Resources(Resource(5)))
        .unwrap();
    builder
        .place(Coordinates(3, 0), Object::Unit(MARIO, Unit::Worker))
        .unwrap();
    builder
        .place(Coordinates(4, 0), Object::Unit(MARIO, Unit::Heavy))
        .unwrap();
    builder
        .place(Coordinates(5, 0), Object::Resources(Resource(5)))
        .unwrap();
    let game = builder.build_for_round(0);
    let mut state = EmptyPersistentState;
    let orders = TestAI.update(&mut state, game.view_for(MARIO));
    assert_eq!(orders, vec![Order::Move(EntityID(1), Direction::Left)]);
    assert!(IdleAI.update(&mut state, game.view_for(MARIO)).is_empty());
    assert!(TestAI.update(&mut state, game.view_for(LUIGI)).is_empty());
}
