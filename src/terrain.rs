use vstd::prelude::*;

verus! {

/// A grid position: column first, then row. Row 0 is the top of the grid.
#[derive(Debug, PartialEq, Eq, Structural, Hash, Clone, Copy)]
pub struct Coordinates(pub usize, pub usize);

/// One of the four compass directions a unit can step in.
#[derive(Debug, PartialEq, Eq, Structural, Hash, Clone, Copy)]
pub enum Direction {
    Up,
    Right,
    Down,
    Left,
}

impl Coordinates {
    /// The coordinates one step away, or `None` when the step would leave
    /// the range of `usize` (no wrap-around).
    pub open spec fn spec_in_direction(self, direction: Direction) -> Option<Coordinates> {
        match direction {
            Direction::Up => if self.1 > 0 {
                Some(Coordinates(self.0, (self.1 - 1) as usize))
            } else {
                None
            },
            Direction::Right => if self.0 < usize::MAX {
                Some(Coordinates((self.0 + 1) as usize, self.1))
            } else {
                None
            },
            Direction::Down => if self.1 < usize::MAX {
                Some(Coordinates(self.0, (self.1 + 1) as usize))
            } else {
                None
            },
            Direction::Left => if self.0 > 0 {
                Some(Coordinates((self.0 - 1) as usize, self.1))
            } else {
                None
            },
        }
    }

    /// The coarse bearing from `self` to `to`: the dominant axis of the
    /// offset `(dx, dy)`, with ties on a diagonal resolved in the order
    /// Down, Right, Up, Left. `None` when both are the same cell.
    pub open spec fn spec_direction_to(self, to: Coordinates) -> Option<Direction> {
        let dx = to.0 - self.0;
        let dy = to.1 - self.1;
        if dx == 0 && dy == 0 {
            None
        } else if dx + dy >= 0 && dy > dx {
            Some(Direction::Down)
        } else if dy <= dx && dx + dy > 0 {
            Some(Direction::Right)
        } else if dx + dy <= 0 && dy < dx {
            Some(Direction::Up)
        } else {
            Some(Direction::Left)
        }
    }

    pub fn in_direction(&self, direction: Direction) -> (r: Option<Coordinates>)
        ensures
            r == self.spec_in_direction(direction),
    {
        match direction {
            Direction::Up => if self.1 > 0 {
                Some(Coordinates(self.0, self.1 - 1))
            } else {
                None
            },
            Direction::Right => if self.0 < usize::MAX {
                Some(Coordinates(self.0 + 1, self.1))
            } else {
                None
            },
            Direction::Down => if self.1 < usize::MAX {
                Some(Coordinates(self.0, self.1 + 1))
            } else {
                None
            },
            Direction::Left => if self.0 > 0 {
                Some(Coordinates(self.0 - 1, self.1))
            } else {
                None
            },
        }
    }

    pub fn direction_to(&self, to: Coordinates) -> (r: Option<Direction>)
        ensures
            r == self.spec_direction_to(to),
            r.is_none() <==> *self == to,
    {
        if self.0 == to.0 && self.1 == to.1 {
            return None;
        }
        // Sums of two `usize` values always fit in `u128`.
        let sx: u128 = self.0 as u128;
        let sy: u128 = self.1 as u128;
        let tx: u128 = to.0 as u128;
        let ty: u128 = to.1 as u128;
        Some(
            if ty + tx >= sy + sx && ty + sx > tx + sy {
                Direction::Down
            } else if ty + sx <= tx + sy && ty + tx > sy + sx {
                Direction::Right
            } else if ty + tx <= sy + sx && ty + sx < tx + sy {
                Direction::Up
            } else {
                Direction::Left
            },
        )
    }
}

/// The directions in clockwise order, starting from `from`.
pub open spec fn clockwise_from(from: Option<Direction>) -> Seq<Direction> {
    match from {
        None => seq![],
        Some(Direction::Up) => seq![Direction::Up, Direction::Right, Direction::Down, Direction::Left],
        Some(Direction::Right) => seq![Direction::Right, Direction::Down, Direction::Left],
        Some(Direction::Down) => seq![Direction::Down, Direction::Left],
        Some(Direction::Left) => seq![Direction::Left],
    }
}

impl Direction {
    /// All four directions, clockwise from `Up`.
    pub fn clockwise() -> (r: DirectionClockwiseIter)
        ensures
            r.remaining() == seq![Direction::Up, Direction::Right, Direction::Down, Direction::Left],
    {
        DirectionClockwiseIter { direction: Some(Direction::Up) }
    }
}

/// Walks the directions clockwise, once.
#[derive(Debug)]
pub struct DirectionClockwiseIter {
    pub(crate) direction: Option<Direction>,
}

impl DirectionClockwiseIter {
    /// The directions still to come.
    pub open(crate) spec fn remaining(&self) -> Seq<Direction> {
        clockwise_from(self.direction)
    }

    pub fn next(&mut self) -> (r: Option<Direction>)
        ensures
            old(self).remaining().len() == 0 ==> r.is_none() && final(self).remaining()
                == old(self).remaining(),
            old(self).remaining().len() > 0 ==> r == Some(old(self).remaining()[0])
                && final(self).remaining() == old(self).remaining().drop_first(),
    {
        let next_direction = match self.direction {
            Some(Direction::Up) => Some(Direction::Right),
            Some(Direction::Right) => Some(Direction::Down),
            Some(Direction::Down) => Some(Direction::Left),
            Some(Direction::Left) => None,
            None => None,
        };
        let ret = self.direction;
        self.direction = next_direction;
        proof {
            if ret.is_some() {
                assert(self.remaining() =~= old(self).remaining().drop_first());
            }
        }
        ret
    }
}


/// What a grid cell is made of.
#[derive(Debug, PartialEq, Eq, Structural, Hash, Clone, Copy)]
pub enum Tile {
    Empty,
    Wall,
}

/// A rectangular grid of tiles, stored row by row. It is built once by a
/// `TerrainBuilder` and never changes afterwards.
#[derive(Debug)]
pub struct Terrain {
    pub(crate) width: usize,
    pub(crate) height: usize,
    pub(crate) tiles: Vec<Tile>,
}

/// Whether `c` lies inside a `width` by `height` grid.
pub open spec fn within(width: nat, height: nat, c: Coordinates) -> bool {
    c.0 < width && c.1 < height
}

/// The position of cell `c` in a row-by-row layout of rows `width` long.
pub open spec fn cell_index(width: nat, c: Coordinates) -> int {
    c.1 * width + c.0
}

/// A grid layout is sound when both sides are positive and every cell has a tile.
pub open spec fn grid_wf(width: nat, height: nat, tiles: Seq<Tile>) -> bool {
    &&& width > 0
    &&& height > 0
    &&& tiles.len() == width * height
    &&& width * height <= usize::MAX
}

/// The cells of a grid take the positions `0 .. width * height` of its layout.
pub proof fn lemma_cell_index_bounds(width: nat, height: nat, c: Coordinates)
    requires
        within(width, height, c),
    ensures
        0 <= cell_index(width, c) < width * height,
{
    assert(c.1 * width + c.0 < width * height) by (nonlinear_arith)
        requires
            c.0 < width,
            c.1 < height,
    ;
}

/// Distinct cells of a grid have distinct positions in its layout.
pub proof fn lemma_cell_index_injective(width: nat, height: nat, a: Coordinates, b: Coordinates)
    requires
        within(width, height, a),
        within(width, height, b),
        cell_index(width, a) == cell_index(width, b),
    ensures
        a == b,
{
    if a.1 < b.1 {
        assert(a.1 * width + a.0 < b.1 * width + b.0) by (nonlinear_arith)
            requires
                a.0 < width,
                a.1 < b.1,
        ;
    } else if b.1 < a.1 {
        assert(b.1 * width + b.0 < a.1 * width + a.0) by (nonlinear_arith)
            requires
                b.0 < width,
                b.1 < a.1,
        ;
    }
}

impl Terrain {
    pub open(crate) spec fn spec_width(&self) -> nat {
        self.width as nat
    }

    pub open(crate) spec fn spec_height(&self) -> nat {
        self.height as nat
    }

    /// The tiles, row by row.
    pub open(crate) spec fn spec_tiles(&self) -> Seq<Tile> {
        self.tiles@
    }

    #[verifier::type_invariant]
    pub(crate) open spec fn inv(&self) -> bool {
        grid_wf(self.width as nat, self.height as nat, self.tiles@)
    }

    /// Both sides are positive and every cell has a tile.
    pub open spec fn wf(&self) -> bool {
        grid_wf(self.spec_width(), self.spec_height(), self.spec_tiles())
    }

    pub open spec fn in_bounds(&self, c: Coordinates) -> bool {
        within(self.spec_width(), self.spec_height(), c)
    }

    pub open spec fn index_of(&self, c: Coordinates) -> int {
        cell_index(self.spec_width(), c)
    }

    pub open spec fn tile_at(&self, c: Coordinates) -> Tile {
        self.spec_tiles()[self.index_of(c)]
    }

    pub fn width(&self) -> (r: usize)
        ensures
            r == self.spec_width(),
            r > 0,
    {
        proof {
            use_type_invariant(self);
        }
        self.width
    }

    pub fn height(&self) -> (r: usize)
        ensures
            r == self.spec_height(),
            r > 0,
    {
        proof {
            use_type_invariant(self);
        }
        self.height
    }

    /// The location of the cell at `coordinates`, or `None` outside the grid.
    pub fn location(&self, coordinates: Coordinates) -> (r: Option<Location<'_>>)
        ensures
            self.wf(),
            r.is_some() <==> self.in_bounds(coordinates),
            r matches Some(l) ==> l.is_at(*self, coordinates),
    {
        proof {
            use_type_invariant(self);
        }
        if coordinates.0 < self.width && coordinates.1 < self.height {
            proof {
                lemma_cell_index_bounds(self.width as nat, self.height as nat, coordinates);
            }
            let tile = self.tiles[coordinates.1 * self.width + coordinates.0];
            Some(Location { terrain: self, coordinates, tile })
        } else {
            None
        }
    }

    /// The rows of the grid, top to bottom.
    pub fn rows(&self) -> (r: RowIter<'_>)
        ensures
            r.spec_terrain() == *self,
            r.next_row() == 0,
    {
        RowIter { terrain: self, next_row: 0 }
    }
}

/// One cell of a particular terrain. Two locations of one terrain are the
/// same cell exactly when their coordinates agree, so the coordinates serve
/// as the cell's identity.
#[derive(Debug, Clone, Copy)]
pub struct Location<'t> {
    pub terrain: &'t Terrain,
    pub coordinates: Coordinates,
    pub tile: Tile,
}

impl<'t> PartialEq for Location<'t> {
    fn eq(&self, other: &Location<'t>) -> (r: bool)
        ensures
            r == (self.coordinates == other.coordinates),
    {
        self.coordinates == other.coordinates
    }
}

impl<'t> vstd::std_specs::cmp::PartialEqSpecImpl for Location<'t> {
    open spec fn obeys_eq_spec() -> bool {
        true
    }

    open spec fn eq_spec(&self, other: &Location<'t>) -> bool {
        self.coordinates == other.coordinates
    }
}

impl<'t> Location<'t> {
    pub open spec fn spec_terrain(self) -> Terrain {
        *self.terrain
    }

    /// `self` is the cell of `terrain` at `c`, carrying that cell's tile.
    pub open spec fn is_at(self, terrain: Terrain, c: Coordinates) -> bool {
        &&& self.spec_terrain() == terrain
        &&& terrain.in_bounds(c)
        &&& self.coordinates == c
        &&& self.tile == terrain.tile_at(c)
    }

    /// A location that its terrain handed out.
    pub open spec fn wf(self) -> bool {
        self.spec_terrain().wf() && self.is_at(self.spec_terrain(), self.coordinates)
    }

    /// The cell's identity: its place in the terrain's row-by-row layout.
    pub open spec fn key(self) -> int {
        self.spec_terrain().index_of(self.coordinates)
    }

    /// The same terrain's cell at `c`.
    pub open spec fn with_coordinates(self, c: Coordinates) -> Location<'t> {
        Location { terrain: self.terrain, coordinates: c, tile: self.spec_terrain().tile_at(c) }
    }

    /// The neighbouring cell in `direction`, if the grid has one there.
    pub open spec fn spec_in_direction(self, direction: Direction) -> Option<Location<'t>> {
        match self.coordinates.spec_in_direction(direction) {
            Some(c) => if self.spec_terrain().in_bounds(c) {
                Some(self.with_coordinates(c))
            } else {
                None
            },
            None => None,
        }
    }

    /// The neighbours found along `directions`, in that order, each with the
    /// direction that leads to it.
    pub open spec fn neighbours_along(self, directions: Seq<Direction>) -> Seq<
        (Direction, Location<'t>),
    >
        decreases directions.len(),
    {
        if directions.len() == 0 {
            seq![]
        } else {
            let rest = self.neighbours_along(directions.drop_first());
            match self.spec_in_direction(directions[0]) {
                Some(l) => seq![(directions[0], l)] + rest,
                None => rest,
            }
        }
    }

    /// The cell's neighbours, clockwise from `Up`.
    pub open spec fn spec_neighbours(self) -> Seq<(Direction, Location<'t>)> {
        self.neighbours_along(
            seq![Direction::Up, Direction::Right, Direction::Down, Direction::Left],
        )
    }

    /// The cell's identity, as computed at run time.
    pub fn key_of(&self) -> (r: usize)
        requires
            self.wf(),
        ensures
            r == self.key(),
    {
        proof {
            use_type_invariant(self.terrain);
            lemma_cell_index_bounds(
                self.spec_terrain().spec_width(),
                self.spec_terrain().spec_height(),
                self.coordinates,
            );
        }
        self.coordinates.1 * self.terrain.width + self.coordinates.0
    }

    pub fn neighbours(&self) -> (r: NeighboursIter<'t>)
        ensures
            r.remaining() == self.spec_neighbours(),
    {
        NeighboursIter { location: *self, directions: Direction::clockwise() }
    }

    pub fn in_direction(&self, direction: Direction) -> (r: Option<Location<'t>>)
        ensures
            r == self.spec_in_direction(direction),
    {
        match self.coordinates.in_direction(direction) {
            Some(c) => self.terrain.location(c),
            None => None,
        }
    }

    pub fn direction_to(&self, to: Location<'t>) -> (r: Option<Direction>)
        ensures
            r == self.coordinates.spec_direction_to(to.coordinates),
            r.is_none() <==> self.coordinates == to.coordinates,
    {
        self.coordinates.direction_to(to.coordinates)
    }

    /// Whether the cell's tile can be walked on; entities are not considered.
    pub fn walkable(&self) -> (r: bool)
        ensures
            r == (self.tile == Tile::Empty),
    {
        match self.tile {
            Tile::Empty => true,
            _ => false,
        }
    }
}

/// Walks the neighbours of a location, clockwise from `Up`, skipping the
/// directions that leave the grid.
pub struct NeighboursIter<'t> {
    pub(crate) location: Location<'t>,
    pub(crate) directions: DirectionClockwiseIter,
}

impl<'t> NeighboursIter<'t> {
    /// The neighbours still to come.
    pub open(crate) spec fn remaining(&self) -> Seq<(Direction, Location<'t>)> {
        self.location.neighbours_along(self.directions.remaining())
    }

    pub fn next(&mut self) -> (r: Option<(Direction, Location<'t>)>)
        ensures
            old(self).remaining().len() == 0 ==> r.is_none() && final(self).remaining().len() == 0,
            old(self).remaining().len() > 0 ==> r == Some(old(self).remaining()[0])
                && final(self).remaining() == old(self).remaining().drop_first(),
    {
        loop
            invariant
                self.location == old(self).location,
                self.remaining() == old(self).remaining(),
            decreases self.directions.remaining().len(),
        {
            match self.directions.next() {
                Some(direction) => {
                    match self.location.in_direction(direction) {
                        Some(location) => {
                            return Some((direction, location));
                        },
                        None => {},
                    }
                },
                None => {
                    return None;
                },
            }
        }
    }
}


/// A positive grid side length.
pub struct Dimension(pub(crate) usize);

impl Dimension {
    #[verifier::type_invariant]
    pub(crate) open spec fn inv(&self) -> bool {
        self.0 > 0
    }

    pub open(crate) spec fn spec_value(&self) -> nat {
        self.0 as nat
    }

    /// A dimension of `dimension` cells; zero is refused.
    pub fn new(dimension: usize) -> (r: Option<Dimension>)
        ensures
            r.is_some() <==> dimension > 0,
            r matches Some(d) ==> d.spec_value() == dimension,
    {
        if dimension > 0 {
            Some(Dimension(dimension))
        } else {
            None
        }
    }

    /// The number of cells.
    pub fn unwrap(self) -> (r: usize)
        ensures
            r == self.spec_value(),
            r > 0,
    {
        proof {
            use_type_invariant(&self);
        }
        self.0
    }
}

/// Why a tile could not be placed.
#[derive(Debug, PartialEq, Eq, Structural, Clone, Copy)]
pub enum TerrainBuilderError {
    OutOfTerrain(Coordinates),
    CoordinatesAlreadyOccupied(Coordinates, Tile),
}

/// A grid under construction: every cell starts `Empty`, and each cell may
/// be given another tile once.
pub struct TerrainBuilder {
    pub(crate) width: usize,
    pub(crate) height: usize,
    pub(crate) tiles: Vec<Tile>,
}

impl TerrainBuilder {
    #[verifier::type_invariant]
    pub(crate) open spec fn inv(&self) -> bool {
        grid_wf(self.width as nat, self.height as nat, self.tiles@)
    }

    pub open(crate) spec fn spec_width(&self) -> nat {
        self.width as nat
    }

    pub open(crate) spec fn spec_height(&self) -> nat {
        self.height as nat
    }

    pub open(crate) spec fn spec_tiles(&self) -> Seq<Tile> {
        self.tiles@
    }

    pub open spec fn in_bounds(&self, c: Coordinates) -> bool {
        within(self.spec_width(), self.spec_height(), c)
    }

    pub open spec fn tile_at(&self, c: Coordinates) -> Tile {
        self.spec_tiles()[cell_index(self.spec_width(), c)]
    }

    /// A `width` by `height` grid of `Empty` tiles. The grid must fit in memory.
    pub fn new(width: Dimension, height: Dimension) -> (r: TerrainBuilder)
        requires
            width.spec_value() * height.spec_value() <= usize::MAX,
        ensures
            r.spec_width() == width.spec_value(),
            r.spec_height() == height.spec_value(),
            r.spec_tiles() == Seq::new(r.spec_width() * r.spec_height(), |i: int| Tile::Empty),
    {
        let width = width.unwrap();
        let height = height.unwrap();
        assert(width * height >= width) by (nonlinear_arith)
            requires
                height > 0,
        ;
        let cells: usize = width * height;
        let mut tiles: Vec<Tile> = Vec::new();
        while tiles.len() < cells
            invariant
                tiles.len() <= cells,
                forall|i: int| 0 <= i < tiles.len() ==> tiles@[i] == Tile::Empty,
            decreases cells - tiles.len(),
        {
            tiles.push(Tile::Empty);
        }
        let r = TerrainBuilder { width, height, tiles };
        assert(r.spec_tiles() =~= Seq::new(r.spec_width() * r.spec_height(), |i: int| Tile::Empty));
        r
    }

    /// Gives the cell at `coordinates` the tile `tile`. Fails on a cell
    /// outside the grid, and on a cell that already holds a non-`Empty` tile,
    /// reporting the tile found there.
    pub fn place(self, coordinates: Coordinates, tile: Tile) -> (r: Result<
        TerrainBuilder,
        TerrainBuilderError,
    >)
        ensures
            !self.in_bounds(coordinates) ==> r == Err::<TerrainBuilder, TerrainBuilderError>(
                TerrainBuilderError::OutOfTerrain(coordinates),
            ),
            self.in_bounds(coordinates) && self.tile_at(coordinates) != Tile::Empty ==> r == Err::<
                TerrainBuilder,
                TerrainBuilderError,
            >(TerrainBuilderError::CoordinatesAlreadyOccupied(coordinates, self.tile_at(coordinates))),
            self.in_bounds(coordinates) && self.tile_at(coordinates) == Tile::Empty ==> (r matches Ok(
                b,
            ) && b.spec_width() == self.spec_width() && b.spec_height() == self.spec_height()
                && b.spec_tiles() == self.spec_tiles().update(
                cell_index(self.spec_width(), coordinates),
                tile,
            )),
    {
        proof {
            use_type_invariant(&self);
        }
        if coordinates.0 >= self.width || coordinates.1 >= self.height {
            return Err(TerrainBuilderError::OutOfTerrain(coordinates));
        }
        proof {
            lemma_cell_index_bounds(self.width as nat, self.height as nat, coordinates);
        }
        let index = coordinates.1 * self.width + coordinates.0;
        let current = self.tiles[index];
        if current != Tile::Empty {
            return Err(TerrainBuilderError::CoordinatesAlreadyOccupied(coordinates, current));
        }
        let TerrainBuilder { width, height, mut tiles } = self;
        tiles.set(index, tile);
        Ok(TerrainBuilder { width, height, tiles })
    }

    /// The finished terrain.
    pub fn build(self) -> (r: Terrain)
        ensures
            r.spec_width() == self.spec_width(),
            r.spec_height() == self.spec_height(),
            r.spec_tiles() == self.spec_tiles(),
    {
        proof {
            use_type_invariant(&self);
        }
        Terrain { width: self.width, height: self.height, tiles: self.tiles }
    }

    /// An open 8 by 8 grid crossed by a diagonal of four walls, at
    /// (2, 5), (3, 4), (4, 3) and (5, 2).
    pub fn terrain_8x8_wall1() -> (r: Terrain)
        ensures
            r.spec_width() == 8,
            r.spec_height() == 8,
            forall|c: Coordinates|
                #![trigger r.tile_at(c)]
                r.in_bounds(c) ==> r.tile_at(c) == (if c.0 + c.1 == 7 && 2 <= c.0 <= 5 {
                    Tile::Wall
                } else {
                    Tile::Empty
                }),
    {
        let b = TerrainBuilder::new(Dimension::new(8).unwrap(), Dimension::new(8).unwrap());
        let b = b.place(Coordinates(2, 5), Tile::Wall).unwrap();
        let b = b.place(Coordinates(3, 4), Tile::Wall).unwrap();
        let b = b.place(Coordinates(4, 3), Tile::Wall).unwrap();
        let b = b.place(Coordinates(5, 2), Tile::Wall).unwrap();
        let r = b.build();
        assert forall|c: Coordinates| #[trigger] r.in_bounds(c) implies r.tile_at(c) == (if c.0
            + c.1 == 7 && 2 <= c.0 <= 5 {
            Tile::Wall
        } else {
            Tile::Empty
        }) by {
            let i = cell_index(8, c);
            assert(i == c.1 * 8 + c.0);
        }
        r
    }
}

/// A cell takes one override only. Once a builder has accepted a
/// non-`Empty` tile at `c`, that tile stays there, and the cell no longer
/// counts as `Empty`; so by the contract of `place`, any second tile for `c`
/// is refused with `CoordinatesAlreadyOccupied(c, first)`.
pub proof fn lemma_first_placement_kept(
    before: TerrainBuilder,
    after: TerrainBuilder,
    c: Coordinates,
    first: Tile,
)
    requires
        before.in_bounds(c),
        before.tile_at(c) == Tile::Empty,
        first != Tile::Empty,
        after.spec_width() == before.spec_width(),
        after.spec_height() == before.spec_height(),
        after.spec_tiles() == before.spec_tiles().update(cell_index(before.spec_width(), c), first),
        grid_wf(before.spec_width(), before.spec_height(), before.spec_tiles()),
    ensures
        after.in_bounds(c),
        after.tile_at(c) == first,
        after.tile_at(c) != Tile::Empty,
{
    lemma_cell_index_bounds(before.spec_width(), before.spec_height(), c);
}

/// Walks the rows of a terrain from top to bottom.
pub struct RowIter<'t> {
    pub(crate) terrain: &'t Terrain,
    pub(crate) next_row: usize,
}

impl<'t> RowIter<'t> {
    pub open(crate) spec fn spec_terrain(&self) -> Terrain {
        *self.terrain
    }

    /// The number of the row that comes next.
    pub open(crate) spec fn next_row(&self) -> nat {
        self.next_row as nat
    }

    pub fn next(&mut self) -> (r: Option<Row<'t>>)
        ensures
            final(self).spec_terrain() == old(self).spec_terrain(),
            old(self).next_row() < old(self).spec_terrain().spec_height() ==> {
                &&& r matches Some(row) && row.spec_terrain() == old(self).spec_terrain()
                    && row.row_no == old(self).next_row()
                &&& final(self).next_row() == old(self).next_row() + 1
            },
            old(self).next_row() >= old(self).spec_terrain().spec_height() ==> r.is_none()
                && final(self).next_row() == old(self).next_row(),
    {
        if self.next_row < self.terrain.height {
            let row = Row { terrain: self.terrain, row_no: self.next_row };
            self.next_row = self.next_row + 1;
            Some(row)
        } else {
            None
        }
    }
}

/// One row of a terrain.
pub struct Row<'t> {
    pub terrain: &'t Terrain,
    pub row_no: usize,
}

impl<'t> Row<'t> {
    pub open spec fn spec_terrain(&self) -> Terrain {
        *self.terrain
    }

    /// The locations of the row, left to right.
    pub fn into_iter(self) -> (r: RowLocationsIter<'t>)
        ensures
            r.spec_terrain() == self.spec_terrain(),
            r.row_no() == self.row_no,
            r.next_col() == 0,
    {
        RowLocationsIter { terrain: self.terrain, row_no: self.row_no, next_col: 0 }
    }
}

/// Walks the locations of one row from left to right.
pub struct RowLocationsIter<'t> {
    pub(crate) terrain: &'t Terrain,
    pub(crate) row_no: usize,
    pub(crate) next_col: usize,
}

impl<'t> RowLocationsIter<'t> {
    pub open(crate) spec fn spec_terrain(&self) -> Terrain {
        *self.terrain
    }

    pub open(crate) spec fn row_no(&self) -> nat {
        self.row_no as nat
    }

    /// The column of the location that comes next.
    pub open(crate) spec fn next_col(&self) -> nat {
        self.next_col as nat
    }

    /// The coordinates of the location that comes next.
    pub open(crate) spec fn next_coordinates(&self) -> Coordinates {
        Coordinates(self.next_col, self.row_no)
    }

    pub fn next(&mut self) -> (r: Option<Location<'t>>)
        ensures
            final(self).spec_terrain() == old(self).spec_terrain(),
            final(self).row_no() == old(self).row_no(),
            old(self).spec_terrain().in_bounds(
                old(self).next_coordinates(),
            ) ==> {
                &&& r matches Some(l) && l.is_at(
                    old(self).spec_terrain(),
                    old(self).next_coordinates(),
                )
                &&& final(self).next_col() == old(self).next_col() + 1
            },
            !old(self).spec_terrain().in_bounds(
                old(self).next_coordinates(),
            ) ==> r.is_none() && final(self).next_col() == old(self).next_col(),
    {
        let location = self.terrain.location(Coordinates(self.next_col, self.row_no));
        if location.is_some() {
            self.next_col = self.next_col + 1;
        }
        location
    }
}

} // verus!
