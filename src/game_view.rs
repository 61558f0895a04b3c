use vstd::prelude::*;

use crate::entity::{entity_at, Entity, EntityID, Object, Resource, Unit};
use crate::game_state::GameState;
use crate::player::PlayerId;
use crate::terrain::{clockwise_from, Coordinates, Direction, Location, Tile};

verus! {

/// Whether `a` and `b` are orthogonal neighbours.
pub open spec fn adjacent(a: Coordinates, b: Coordinates) -> bool {
    ||| a.0 == b.0 && (a.1 + 1 == b.1 || b.1 + 1 == a.1)
    ||| a.1 == b.1 && (a.0 + 1 == b.0 || b.0 + 1 == a.0)
}

/// Whether a walker may enter the cell at `c`: it is on the grid, walkable,
/// and nobody stands there.
pub open spec fn is_open<'t>(game: GameState<'t>, c: Coordinates) -> bool {
    &&& game.spec_terrain().in_bounds(c)
    &&& game.spec_terrain().tile_at(c) == Tile::Empty
    &&& entity_at(game.spec_entities(), game.spec_terrain().index_of(c)) is None
}

/// Whether a walker heading for `target` may enter the cell at `c`: it must
/// be open, unless it is the target itself.
pub open spec fn may_enter<'t>(game: GameState<'t>, c: Coordinates, target: Coordinates) -> bool {
    &&& game.spec_terrain().in_bounds(c)
    &&& is_open(game, c) || c == target
}

/// `path` leads, one step at a time, from `start` to a cell next to
/// `target`, entering only cells it may enter.
pub open spec fn is_route<'t>(
    game: GameState<'t>,
    start: Coordinates,
    target: Coordinates,
    path: Seq<Coordinates>,
) -> bool {
    &&& path.len() > 0
    &&& path[0] == start
    &&& adjacent(path.last(), target)
    &&& forall|i: int|
        #![trigger path[i + 1]]
        0 <= i < path.len() - 1 ==> adjacent(path[i], path[i + 1]) && may_enter(
            game,
            path[i + 1],
            target,
        )
}

/// `path` is a route with the fewest steps.
pub open spec fn is_cheapest_route<'t>(
    game: GameState<'t>,
    start: Coordinates,
    target: Coordinates,
    path: Seq<Coordinates>,
) -> bool {
    &&& is_route(game, start, target, path)
    &&& forall|p: Seq<Coordinates>| #[trigger]
        is_route(game, start, target, p) ==> path.len() <= p.len()
}

/// More obstacles never make the way shorter. Take two games on grids of
/// one size where every cell open in `blocked` is also open in `clear`
/// (`blocked` has the same walls and entities and perhaps more). Every route
/// through `blocked` is a route through `clear`; so a cheapest route through
/// `clear` is never longer than a cheapest route through `blocked`, and when
/// `clear` has no route, `blocked` has none either.
pub proof fn lemma_obstacles_never_shorten<'t>(
    clear: GameState<'t>,
    blocked: GameState<'t>,
    start: Coordinates,
    target: Coordinates,
)
    requires
        forall|c: Coordinates|
            #[trigger] blocked.spec_terrain().in_bounds(c) == clear.spec_terrain().in_bounds(c),
        forall|c: Coordinates| #[trigger] is_open(blocked, c) ==> is_open(clear, c),
    ensures
        forall|p: Seq<Coordinates>|
            #[trigger] is_route(blocked, start, target, p) ==> is_route(clear, start, target, p),
        forall|p: Seq<Coordinates>, q: Seq<Coordinates>|
            #[trigger] is_cheapest_route(clear, start, target, p) && #[trigger] is_cheapest_route(
                blocked,
                start,
                target,
                q,
            ) ==> p.len() <= q.len(),
{
    assert forall|p: Seq<Coordinates>| #[trigger]
        is_route(blocked, start, target, p) implies is_route(clear, start, target, p) by {
        assert forall|i: int| #![trigger p[i + 1]] 0 <= i < p.len() - 1 implies adjacent(
            p[i],
            p[i + 1],
        ) && may_enter(clear, p[i + 1], target) by {
            assert(may_enter(blocked, p[i + 1], target));
            assert(blocked.spec_terrain().in_bounds(p[i + 1]));
        }
    }
}

/// The cells a sequence of navigators stands on.
pub open spec fn coordinates_of<'t, 'g>(path: Seq<Navigator<'t, 'g>>) -> Seq<Coordinates> {
    path.map_values(|n: Navigator<'t, 'g>| n.location.coordinates)
}

/// A grid position given as a pair.
pub open spec fn as_coordinates(p: (usize, usize)) -> Coordinates {
    Coordinates(p.0, p.1)
}

/// Relies on `pathfinding::directed::dijkstra::dijkstra`: it returns a path
/// of least total cost from `start` to a node that passes the success test,
/// both ends included, with that cost, or `None` when no such node can be
/// reached. The successors handed to it are `GameView::successors`, exactly
/// the cells a walker may enter next, each at cost 1; the success test is
/// `is_next_to` the target. So its paths are the routes of `is_route`, and
/// the cost is the number of steps.
#[verifier::external_body]
fn cheapest_route<'t, 'g>(view: &GameView<'t, 'g>, start: (usize, usize), target: (usize, usize)) -> (r:
    Option<(Vec<(usize, usize)>, u64)>)
    requires
        view.wf(),
        view.game.spec_terrain().in_bounds(as_coordinates(start)),
    ensures
        match r {
            Some((path, cost)) => {
                &&& is_cheapest_route(
                    *view.game,
                    as_coordinates(start),
                    as_coordinates(target),
                    path@.map_values(|p: (usize, usize)| as_coordinates(p)),
                )
                &&& cost == path@.len() - 1
            },
            None => forall|p: Seq<Coordinates>|
                !#[trigger] is_route(*view.game, as_coordinates(start), as_coordinates(target), p),
        },
{
    pathfinding::directed::dijkstra::dijkstra(
        &start,
        |from| view.successors(*from, target),
        |node| is_next_to(*node, target),
    )
}

/// Whether `a` and `b` are orthogonal neighbours.
fn is_next_to(a: (usize, usize), b: (usize, usize)) -> (r: bool)
    ensures
        r == adjacent(as_coordinates(a), as_coordinates(b)),
{
    (a.0 == b.0 && ((a.1 < b.1 && b.1 - a.1 == 1) || (b.1 < a.1 && a.1 - b.1 == 1))) || (a.1
        == b.1 && ((a.0 < b.0 && b.0 - a.0 == 1) || (b.0 < a.0 && a.0 - b.0 == 1)))
}

/// A player's read-only view of a game.
#[derive(Debug, Clone, Copy)]
pub struct GameView<'t, 'g> {
    pub game: &'g GameState<'t>,
    pub player: PlayerId,
}

/// A unit of the viewing player.
#[derive(Debug, Clone, Copy)]
pub struct MyUnit<'t, 'g> {
    pub entity_id: EntityID,
    pub unit: Unit,
    pub navigator: Navigator<'t, 'g>,
}

/// A pile of resources.
#[derive(Debug, Clone, Copy)]
pub struct Resources<'t, 'g> {
    pub entity_id: EntityID,
    pub resource: Resource,
    pub navigator: Navigator<'t, 'g>,
}

/// The entities of `entities` that are units of `player`, in order.
pub open spec fn units_of<'t>(entities: Seq<Entity<'t>>, player: PlayerId) -> Seq<Entity<'t>>
    decreases entities.len(),
{
    if entities.len() == 0 {
        seq![]
    } else {
        let rest = units_of(entities.drop_last(), player);
        match entities.last().object {
            Object::Unit(owner, _) => if owner == player {
                rest.push(entities.last())
            } else {
                rest
            },
            _ => rest,
        }
    }
}

/// The entities of `entities` that are resource piles, in order.
pub open spec fn resources_of<'t>(entities: Seq<Entity<'t>>) -> Seq<Entity<'t>>
    decreases entities.len(),
{
    if entities.len() == 0 {
        seq![]
    } else {
        let rest = resources_of(entities.drop_last());
        match entities.last().object {
            Object::Resources(_) => rest.push(entities.last()),
            _ => rest,
        }
    }
}

impl<'t, 'g> GameView<'t, 'g> {
    /// The viewed game is consistent.
    pub open spec fn wf(&self) -> bool {
        self.game.wf()
    }

    pub fn new(game: &'g GameState<'t>, player: PlayerId) -> (r: GameView<'t, 'g>)
        requires
            game.wf(),
        ensures
            r.wf(),
            *r.game == *game,
            r.player == player,
    {
        GameView { game, player }
    }

    /// A navigator on `location`, a cell of the game's terrain, seeing the
    /// entity that stands there now.
    pub fn navigator(&self, location: Location<'t>) -> (r: Navigator<'t, 'g>)
        requires
            self.wf(),
            location.wf(),
            location.spec_terrain() == self.game.spec_terrain(),
        ensures
            r.wf(),
            r.game_view == *self,
            r.location == location,
    {
        let entity = match self.game.get_entity_by_location(location) {
            Some(entity) => Some(*entity),
            None => None,
        };
        Navigator { game_view: *self, location, entity }
    }

    /// All entities, in order of handle.
    pub fn entities(&self) -> (r: &'g [Entity<'t>])
        ensures
            r@ == self.game.spec_entities(),
    {
        self.game.entities()
    }

    /// The viewing player's units, in order of handle, each with a navigator
    /// on its cell.
    pub fn my_units(&self) -> (r: Vec<MyUnit<'t, 'g>>)
        requires
            self.wf(),
        ensures
            r@.len() == units_of(self.game.spec_entities(), self.player).len(),
            forall|i: int|
                #![trigger r@[i]]
                0 <= i < r@.len() ==> {
                    let e = units_of(self.game.spec_entities(), self.player)[i];
                    &&& r@[i].entity_id == e.id
                    &&& e.object == Object::Unit(self.player, r@[i].unit)
                    &&& r@[i].navigator.location == e.location
                    &&& r@[i].navigator.game_view == *self
                    &&& r@[i].navigator.wf()
                },
    {
        let entities = self.game.entities();
        let ghost all = entities@;
        let mut units: Vec<MyUnit<'t, 'g>> = Vec::new();
        let mut i: usize = 0;
        while i < entities.len()
            invariant
                self.wf(),
                entities@ == all,
                all == self.game.spec_entities(),
                i <= all.len(),
                units@.len() == units_of(all.take(i as int), self.player).len(),
                forall|j: int|
                    #![trigger units@[j]]
                    0 <= j < units@.len() ==> {
                        let e = units_of(all.take(i as int), self.player)[j];
                        &&& units@[j].entity_id == e.id
                        &&& e.object == Object::Unit(self.player, units@[j].unit)
                        &&& units@[j].navigator.location == e.location
                        &&& units@[j].navigator.game_view == *self
                        &&& units@[j].navigator.wf()
                    },
            decreases all.len() - i,
        {
            let entity = entities[i];
            assert(all.take(i + 1).drop_last() == all.take(i as int));
            assert(all.take(i + 1).last() == entity);
            match entity.object {
                Object::Unit(owner, unit) => {
                    if owner == self.player {
                        assert(entity.location.spec_terrain() == self.game.spec_terrain());
                        let navigator = self.navigator(entity.location);
                        units.push(MyUnit { entity_id: entity.id, unit, navigator });
                    }
                },
                _ => {},
            }
            i = i + 1;
        }
        assert(all.take(all.len() as int) == all);
        units
    }

    /// The resource piles, in order of handle, each with a navigator on its
    /// cell.
    pub fn resources(&self) -> (r: Vec<Resources<'t, 'g>>)
        requires
            self.wf(),
        ensures
            r@.len() == resources_of(self.game.spec_entities()).len(),
            forall|i: int|
                #![trigger r@[i]]
                0 <= i < r@.len() ==> {
                    let e = resources_of(self.game.spec_entities())[i];
                    &&& r@[i].entity_id == e.id
                    &&& e.object == Object::Resources(r@[i].resource)
                    &&& r@[i].navigator.location == e.location
                    &&& r@[i].navigator.game_view == *self
                    &&& r@[i].navigator.wf()
                },
    {
        let entities = self.game.entities();
        let ghost all = entities@;
        let mut piles: Vec<Resources<'t, 'g>> = Vec::new();
        let mut i: usize = 0;
        while i < entities.len()
            invariant
                self.wf(),
                entities@ == all,
                all == self.game.spec_entities(),
                i <= all.len(),
                piles@.len() == resources_of(all.take(i as int)).len(),
                forall|j: int|
                    #![trigger piles@[j]]
                    0 <= j < piles@.len() ==> {
                        let e = resources_of(all.take(i as int))[j];
                        &&& piles@[j].entity_id == e.id
                        &&& e.object == Object::Resources(piles@[j].resource)
                        &&& piles@[j].navigator.location == e.location
                        &&& piles@[j].navigator.game_view == *self
                        &&& piles@[j].navigator.wf()
                    },
            decreases all.len() - i,
        {
            let entity = entities[i];
            assert(all.take(i + 1).drop_last() == all.take(i as int));
            assert(all.take(i + 1).last() == entity);
            match entity.object {
                Object::Resources(resource) => {
                    assert(entity.location.spec_terrain() == self.game.spec_terrain());
                    let navigator = self.navigator(entity.location);
                    piles.push(Resources { entity_id: entity.id, resource, navigator });
                },
                _ => {},
            }
            i = i + 1;
        }
        assert(all.take(all.len() as int) == all);
        piles
    }

    /// The cells next to `from` that a walker heading for `target` may
    /// enter, each at a cost of one step.
    fn successors(&self, from: (usize, usize), target: (usize, usize)) -> (r: Vec<
        ((usize, usize), u64),
    >)
        requires
            self.wf(),
        ensures
            forall|i: int|
                0 <= i < r@.len() ==> (#[trigger] r@[i]).1 == 1 && adjacent(
                    as_coordinates(from),
                    as_coordinates(r@[i].0),
                ) && may_enter(*self.game, as_coordinates(r@[i].0), as_coordinates(target)),
            self.game.spec_terrain().in_bounds(as_coordinates(from)) ==> forall|c: Coordinates|
                adjacent(as_coordinates(from), c) && #[trigger] may_enter(
                    *self.game,
                    c,
                    as_coordinates(target),
                ) ==> exists|i: int| 0 <= i < r@.len() && as_coordinates((#[trigger] r@[i]).0) == c,
    {
        let mut next: Vec<((usize, usize), u64)> = Vec::new();
        let location = match self.game.terrain().location(Coordinates(from.0, from.1)) {
            Some(location) => location,
            None => {
                return next;
            },
        };
        let mut directions = Direction::clockwise();
        loop
            invariant
                self.wf(),
                location.is_at(self.game.spec_terrain(), as_coordinates(from)),
                directions.remaining().len() <= 4,
                forall|i: int|
                    0 <= i < next@.len() ==> (#[trigger] next@[i]).1 == 1 && adjacent(
                        as_coordinates(from),
                        as_coordinates(next@[i].0),
                    ) && may_enter(*self.game, as_coordinates(next@[i].0), as_coordinates(target)),
                forall|d: Direction|
                    #[trigger] clockwise_rank(d) < 4 - directions.remaining().len() ==> match location.spec_in_direction(d) {
                        Some(l) => may_enter(*self.game, l.coordinates, as_coordinates(target))
                            ==> exists|i: int|
                            0 <= i < next@.len() && as_coordinates((#[trigger] next@[i]).0)
                                == l.coordinates,
                        None => true,
                    },
            decreases directions.remaining().len(),
        {
            proof {
                lemma_clockwise_rank(directions.direction);
            }
            let ghost before = next@;
            let ghost done = 4 - directions.remaining().len();
            match directions.next() {
                Some(direction) => {
                    assert(clockwise_rank(direction) == done);
                    match location.in_direction(direction) {
                        Some(neighbour) => {
                            let navigator = self.navigator(neighbour);
                            let c = neighbour.coordinates;
                            if navigator.walkable() || (c.0 == target.0 && c.1 == target.1) {
                                next.push(((c.0, c.1), 1));
                                assert(as_coordinates(next@[next@.len() - 1].0) == c);
                            }
                        },
                        None => {},
                    }
                    assert forall|d: Direction|
                        #[trigger] clockwise_rank(d) < 4 - directions.remaining().len() implies match location.spec_in_direction(d) {
                        Some(l) => may_enter(*self.game, l.coordinates, as_coordinates(target))
                            ==> exists|i: int|
                            0 <= i < next@.len() && as_coordinates((#[trigger] next@[i]).0)
                                == l.coordinates,
                        None => true,
                    } by {
                        if clockwise_rank(d) < done {
                            if let Some(l) = location.spec_in_direction(d) {
                                if may_enter(*self.game, l.coordinates, as_coordinates(target)) {
                                    let i = choose|i: int|
                                        0 <= i < before.len() && as_coordinates(
                                            (#[trigger] before[i]).0,
                                        ) == l.coordinates;
                                    assert(next@[i] == before[i]);
                                }
                            }
                        } else {
                            assert(d == direction);
                        }
                    }
                },
                None => {
                    proof {
                        assert forall|c: Coordinates|
                            adjacent(as_coordinates(from), c) && #[trigger] may_enter(
                                *self.game,
                                c,
                                as_coordinates(target),
                            ) implies exists|i: int|
                            0 <= i < next@.len() && as_coordinates((#[trigger] next@[i]).0) == c by {
                            let d = lemma_direction_of_step(as_coordinates(from), c);
                            assert(clockwise_rank(d) < 4);
                        }
                    }
                    return next;
                },
            }
        }
    }
}

/// The place of `d` in the clockwise order from `Up`.
pub open spec fn clockwise_rank(d: Direction) -> int {
    match d {
        Direction::Up => 0,
        Direction::Right => 1,
        Direction::Down => 2,
        Direction::Left => 3,
    }
}

proof fn lemma_clockwise_rank(from: Option<Direction>)
    ensures
        clockwise_from(from).len() <= 4,
        clockwise_from(from).len() > 0 ==> clockwise_rank(clockwise_from(from)[0]) == 4
            - clockwise_from(from).len(),
{
}

/// A step onto a neighbouring cell goes in one of the four directions.
proof fn lemma_direction_of_step(a: Coordinates, c: Coordinates) -> (d: Direction)
    requires
        adjacent(a, c),
    ensures
        a.spec_in_direction(d) == Some(c),
{
    if c.0 == a.0 && c.1 + 1 == a.1 {
        Direction::Up
    } else if c.0 == a.0 {
        Direction::Down
    } else if c.0 + 1 == a.0 {
        Direction::Left
    } else {
        Direction::Right
    }
}

/// A cell seen through a game view, together with the entity that stood on
/// it when the navigator was made.
#[derive(Debug, Clone, Copy)]
pub struct Navigator<'t, 'g> {
    pub game_view: GameView<'t, 'g>,
    pub location: Location<'t>,
    pub entity: Option<Entity<'t>>,
}

impl<'t, 'g> PartialEq for Navigator<'t, 'g> {
    fn eq(&self, other: &Navigator<'t, 'g>) -> (r: bool)
        ensures
            r == (self.location.coordinates == other.location.coordinates),
    {
        self.location.coordinates == other.location.coordinates
    }
}

impl<'t, 'g> vstd::std_specs::cmp::PartialEqSpecImpl for Navigator<'t, 'g> {
    open spec fn obeys_eq_spec() -> bool {
        true
    }

    open spec fn eq_spec(&self, other: &Navigator<'t, 'g>) -> bool {
        self.location.coordinates == other.location.coordinates
    }
}

impl<'t, 'g> Navigator<'t, 'g> {
    /// The navigator's cell belongs to the view's game, and the entity it
    /// carries is the one standing there.
    pub open spec fn wf(&self) -> bool {
        &&& self.game_view.wf()
        &&& self.location.wf()
        &&& self.location.spec_terrain() == self.game_view.game.spec_terrain()
        &&& match self.entity {
            Some(e) => entity_at(self.game_view.game.spec_entities(), self.location.key()) == Some(
                e,
            ),
            None => entity_at(self.game_view.game.spec_entities(), self.location.key()) is None,
        }
    }

    /// A navigator on the neighbouring cell in `direction`, or `None` at the
    /// edge of the grid.
    pub fn in_direction(&self, direction: Direction) -> (r: Option<Navigator<'t, 'g>>)
        requires
            self.wf(),
        ensures
            match self.location.spec_in_direction(direction) {
                Some(l) => r matches Some(n) && n.location == l && n.game_view == self.game_view
                    && n.wf(),
                None => r.is_none(),
            },
    {
        match self.location.in_direction(direction) {
            Some(location) => Some(self.game_view.navigator(location)),
            None => None,
        }
    }

    /// A cheapest route from this cell to a cell next to `to`'s, entering
    /// only walkable, unoccupied cells or `to`'s cell itself, as navigators
    /// from this cell onwards, with its number of steps; `None` when there is
    /// no such route.
    pub fn find_path_dijkstra(&self, to: &Navigator<'t, 'g>) -> (r: Option<
        (Vec<Navigator<'t, 'g>>, u64),
    >)
        requires
            self.wf(),
            to.wf(),
            to.game_view == self.game_view,
        ensures
            match r {
                Some((path, cost)) => {
                    &&& is_cheapest_route(
                        *self.game_view.game,
                        self.location.coordinates,
                        to.location.coordinates,
                        coordinates_of(path@),
                    )
                    &&& cost == path@.len() - 1
                    &&& forall|i: int|
                        0 <= i < path@.len() ==> (#[trigger] path@[i]).wf() && path@[i].game_view
                            == self.game_view
                },
                None => forall|p: Seq<Coordinates>|
                    !#[trigger] is_route(
                        *self.game_view.game,
                        self.location.coordinates,
                        to.location.coordinates,
                        p,
                    ),
            },
    {
        let start = (self.location.coordinates.0, self.location.coordinates.1);
        let target = (to.location.coordinates.0, to.location.coordinates.1);
        assert(as_coordinates(start) == self.location.coordinates);
        assert(as_coordinates(target) == to.location.coordinates);
        match cheapest_route(&self.game_view, start, target) {
            None => None,
            Some((cells, cost)) => {
                let ghost route = cells@.map_values(|p: (usize, usize)| as_coordinates(p));
                let terrain = self.game_view.game.terrain();
                let mut path: Vec<Navigator<'t, 'g>> = Vec::new();
                let mut i: usize = 0;
                while i < cells.len()
                    invariant
                        self.wf(),
                        *terrain == self.game_view.game.spec_terrain(),
                        route == cells@.map_values(|p: (usize, usize)| as_coordinates(p)),
                        is_route(
                            *self.game_view.game,
                            self.location.coordinates,
                            to.location.coordinates,
                            route,
                        ),
                        i <= cells@.len(),
                        path@.len() == i,
                        forall|j: int|
                            0 <= j < i ==> (#[trigger] path@[j]).wf() && path@[j].game_view
                                == self.game_view && path@[j].location.coordinates == route[j],
                    decreases cells@.len() - i,
                {
                    let c = Coordinates(cells[i].0, cells[i].1);
                    assert(route[i as int] == c);
                    assert(terrain.in_bounds(c)) by {
                        if i > 0 {
                            assert(may_enter(
                                *self.game_view.game,
                                route[(i - 1) + 1],
                                to.location.coordinates,
                            ));
                        }
                    }
                    let location = terrain.location(c).unwrap();
                    path.push(self.game_view.navigator(location));
                    i = i + 1;
                }
                assert(coordinates_of(path@) =~= route);
                assert(is_cheapest_route(
                    *self.game_view.game,
                    self.location.coordinates,
                    to.location.coordinates,
                    coordinates_of(path@),
                ));
                assert(cost == path@.len() - 1);
                assert(forall|i: int|
                    0 <= i < path@.len() ==> (#[trigger] path@[i]).wf() && path@[i].game_view
                        == self.game_view);
                Some((path, cost))
            },
        }
    }

    /// The coarse bearing from this cell to `to`'s; `None` on the same cell.
    pub fn direction_to(&self, to: &Navigator<'t, 'g>) -> (r: Option<Direction>)
        ensures
            r == self.location.coordinates.spec_direction_to(to.location.coordinates),
            r.is_none() <==> self.location.coordinates == to.location.coordinates,
    {
        self.location.direction_to(to.location)
    }

    /// Whether a unit could step onto this cell: its tile is walkable and no
    /// entity stood there when the navigator was made.
    pub fn walkable(&self) -> (r: bool)
        ensures
            r == (self.entity.is_none() && self.location.tile == Tile::Empty),
    {
        self.entity.is_none() && self.location.walkable()
    }
}

} // verus!
