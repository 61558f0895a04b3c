use std::collections::HashMap;
use vstd::prelude::*;
use vstd::set_lib::{lemma_int_range, lemma_len_subset, set_int_range};

use crate::player::PlayerId;
use crate::terrain::{lemma_cell_index_bounds, Coordinates, Location, Terrain, Tile};

verus! {

broadcast use vstd::std_specs::hash::group_hash_axioms;

/// The kinds of unit.
#[derive(Debug, PartialEq, Eq, Structural, Clone, Copy)]
pub enum Unit {
    Worker,
    Light,
    Heavy,
}

/// An amount of resources.
#[derive(Debug, PartialEq, Eq, Structural, Clone, Copy)]
pub struct Resource(pub u64);

/// The kinds of building; a base keeps a stock of resources.
#[derive(Debug, PartialEq, Eq, Structural, Clone, Copy)]
pub enum Building {
    Base(Resource),
    Barracks,
}

/// What an entity is. Only units move.
#[derive(Debug, PartialEq, Eq, Structural, Clone, Copy)]
pub enum Object {
    Unit(PlayerId, Unit),
    Building(PlayerId, Building),
    Resources(Resource),
}

/// The handle of an entity. Handles are handed out in increasing order and
/// never reused.
#[derive(Debug, PartialEq, Eq, Structural, Hash, Clone, Copy)]
pub struct EntityID(pub usize);

/// A placed object.
#[derive(Debug, PartialEq, Clone, Copy)]
pub struct Entity<'t> {
    pub id: EntityID,
    pub location: Location<'t>,
    pub object: Object,
}

/// Why an entity cannot stand on a location.
#[derive(Debug, PartialEq, Clone, Copy)]
pub enum EntitiesError<'t> {
    LocationNotWalkable(Location<'t>),
    LocationAlreadyOccupied(Location<'t>, EntityID),
}

/// The entity standing on the cell with key `key`, if any.
pub open spec fn entity_at<'t>(entities: Seq<Entity<'t>>, key: int) -> Option<Entity<'t>> {
    if exists|i: int| 0 <= i < entities.len() && (#[trigger] entities[i]).location.key() == key {
        Some(
            entities[choose|i: int|
                0 <= i < entities.len() && (#[trigger] entities[i]).location.key() == key],
        )
    } else {
        None
    }
}

/// The handle of the entity standing on the cell with key `key`, if any.
pub open spec fn occupant<'t>(entities: Seq<Entity<'t>>, key: int) -> Option<EntityID> {
    match entity_at(entities, key) {
        Some(e) => Some(e.id),
        None => None,
    }
}

/// Entity `i` of `entities` moved to `location`, the others as they were.
pub open spec fn relocated<'t>(entities: Seq<Entity<'t>>, i: int, location: Location<'t>) -> Seq<
    Entity<'t>,
> {
    entities.update(i, Entity { location, ..entities[i] })
}

/// Whether an entity may stand on `location`, given the others: the
/// cell must be walkable and free.
pub open spec fn admission<'t>(entities: Seq<Entity<'t>>, location: Location<'t>) -> Result<
    (),
    EntitiesError<'t>,
> {
    if location.tile != Tile::Empty {
        Err(EntitiesError::LocationNotWalkable(location))
    } else {
        match occupant(entities, location.key()) {
            Some(by) => Err(EntitiesError::LocationAlreadyOccupied(location, by)),
            None => Ok(()),
        }
    }
}

/// The entities after a new entity holding `object` is put on `location`,
/// or why it may not be.
pub open spec fn placement<'t>(entities: Seq<Entity<'t>>, location: Location<'t>, object: Object) -> Result<
    Seq<Entity<'t>>,
    EntitiesError<'t>,
> {
    match admission(entities, location) {
        Ok(_) => Ok(
            entities.push(Entity { id: EntityID(entities.len() as usize), location, object }),
        ),
        Err(e) => Err(e),
    }
}

/// The entities after entity `entity_id` moves to `location`, or why it
/// may not.
pub open spec fn relocation<'t>(
    entities: Seq<Entity<'t>>,
    entity_id: EntityID,
    location: Location<'t>,
) -> Result<Seq<Entity<'t>>, EntitiesError<'t>> {
    match admission(entities, location) {
        Ok(_) => Ok(relocated(entities, entity_id.0 as int, location)),
        Err(e) => Err(e),
    }
}

/// The store of all entities: the entities themselves, by handle, and an
/// index from each occupied cell to the entity on it.
#[derive(Debug)]
pub struct Entities<'t> {
    pub(crate) entities: Vec<Entity<'t>>,
    pub(crate) location_index: HashMap<usize, EntityID>,
}

impl<'t> Entities<'t> {
    /// The entities, in order of handle.
    pub open(crate) spec fn spec_entities(&self) -> Seq<Entity<'t>> {
        self.entities@
    }

    /// The index from cell keys to the entity standing there.
    pub open(crate) spec fn spec_index(&self) -> Map<usize, EntityID> {
        self.location_index@
    }

    /// The handles are the positions, every entity stands on a cell of its
    /// terrain, and the index holds exactly one entry per entity: the cell
    /// it stands on, leading back to it.
    pub open spec fn wf(&self) -> bool {
        let entities = self.spec_entities();
        let index = self.spec_index();
        &&& entities.len() <= usize::MAX
        &&& forall|i: int|
            #![trigger entities[i]]
            0 <= i < entities.len() ==> {
                &&& entities[i].id == EntityID(i as usize)
                &&& entities[i].location.wf()
                &&& index.contains_key(entities[i].location.key() as usize)
                &&& index[entities[i].location.key() as usize] == EntityID(i as usize)
            }
        &&& forall|k: usize|
            #![trigger index[k]]
            index.contains_key(k) ==> {
                &&& index[k].0 < entities.len()
                &&& entities[index[k].0 as int].location.key() == k
            }
    }

    /// Every entity stands on a cell of `terrain`.
    pub open spec fn on_terrain(&self, terrain: Terrain) -> bool {
        forall|i: int|
            0 <= i < self.spec_entities().len() ==> (#[trigger] self.spec_entities()[i]).location.spec_terrain()
                == terrain
    }

    /// No two entities stand on the same cell.
    pub proof fn lemma_one_per_cell(&self, i: int, j: int)
        requires
            self.wf(),
            0 <= i < self.spec_entities().len(),
            0 <= j < self.spec_entities().len(),
            self.spec_entities()[i].location.key() == self.spec_entities()[j].location.key(),
        ensures
            i == j,
    {
        let k = self.spec_entities()[i].location.key() as usize;
        assert(self.spec_index()[k] == EntityID(i as usize));
        assert(self.spec_index()[k] == EntityID(j as usize));
    }

    /// The index agrees with the entities: a cell's entry names the entity
    /// standing on it, and a cell without an entry has nobody on it.
    pub proof fn lemma_index_agrees(&self, key: usize)
        requires
            self.wf(),
        ensures
            self.spec_index().contains_key(key) ==> entity_at(self.spec_entities(), key as int)
                == Some(self.spec_entities()[self.spec_index()[key].0 as int]),
            !self.spec_index().contains_key(key) ==> entity_at(self.spec_entities(), key as int)
                is None,
    {
        let entities = self.spec_entities();
        if self.spec_index().contains_key(key) {
            let i = self.spec_index()[key].0 as int;
            assert(entities[i].location.key() == key);
            let j = choose|j: int|
                0 <= j < entities.len() && (#[trigger] entities[j]).location.key() == key;
            self.lemma_one_per_cell(i, j);
        } else {
            if exists|i: int| 0 <= i < entities.len() && (#[trigger] entities[i]).location.key() == key {
                let i = choose|i: int|
                    0 <= i < entities.len() && (#[trigger] entities[i]).location.key() == key;
                assert(self.spec_index().contains_key(entities[i].location.key() as usize));
            }
        }
    }

    /// Each entity has a cell of its own, so while some cell of the terrain
    /// is free there are fewer entities than cells.
    pub proof fn lemma_fewer_than_cells(&self, terrain: Terrain, free: Coordinates)
        requires
            self.wf(),
            self.on_terrain(terrain),
            terrain.wf(),
            terrain.in_bounds(free),
            occupant(self.spec_entities(), terrain.index_of(free)) is None,
        ensures
            self.spec_entities().len() < terrain.spec_width() * terrain.spec_height(),
    {
        let entities = self.spec_entities();
        let cells = terrain.spec_width() * terrain.spec_height();
        let keys = entities.map_values(|e: Entity<'t>| e.location.key());
        assert(keys.no_duplicates()) by {
            assert forall|i: int, j: int|
                0 <= i < keys.len() && 0 <= j < keys.len() && i != j implies keys[i]
                != keys[j] by {
                if keys[i] == keys[j] {
                    self.lemma_one_per_cell(i, j);
                }
            }
        }
        keys.unique_seq_to_set();
        let free_key = terrain.index_of(free);
        let taken = keys.to_set();
        assert(!taken.contains(free_key)) by {
            if taken.contains(free_key) {
                let i = choose|i: int| 0 <= i < keys.len() && keys[i] == free_key;
                assert(entities[i].location.key() == free_key);
            }
        }
        let range = set_int_range(0, cells as int);
        lemma_int_range(0, cells as int);
        assert(taken.insert(free_key).subset_of(range)) by {
            assert forall|k: int| #[trigger] taken.insert(free_key).contains(k) implies range.contains(
                k,
            ) by {
                if k == free_key {
                    lemma_cell_index_bounds(terrain.spec_width(), terrain.spec_height(), free);
                } else {
                    let i = choose|i: int| 0 <= i < keys.len() && keys[i] == k;
                    assert(entities[i].location.spec_terrain() == terrain);
                    lemma_cell_index_bounds(
                        terrain.spec_width(),
                        terrain.spec_height(),
                        entities[i].location.coordinates,
                    );
                }
            }
        }
        lemma_len_subset(taken.insert(free_key), range);
    }

    /// An empty store.
    pub fn new() -> (r: Entities<'t>)
        ensures
            r.wf(),
            r.spec_entities() == Seq::<Entity<'t>>::empty(),
    {
        Entities { entities: Vec::new(), location_index: HashMap::new() }
    }

    /// Puts a new entity holding `object` on `location`, under the next
    /// handle. Fails, changing nothing, when the cell is not walkable or
    /// already occupied.
    pub fn place(&mut self, location: Location<'t>, object: Object) -> (r: Result<
        EntityID,
        EntitiesError<'t>,
    >)
        requires
            old(self).wf(),
            location.wf(),
            old(self).on_terrain(location.spec_terrain()),
        ensures
            final(self).wf(),
            final(self).on_terrain(location.spec_terrain()),
            match placement(old(self).spec_entities(), location, object) {
                Ok(entities) => {
                    &&& r == Ok::<EntityID, EntitiesError<'t>>(
                        EntityID(old(self).spec_entities().len() as usize),
                    )
                    &&& final(self).spec_entities() == entities
                },
                Err(e) => r == Err::<EntityID, EntitiesError<'t>>(e) && *final(self) == *old(self),
            },
    {
        if !location.walkable() {
            return Err(EntitiesError::LocationNotWalkable(location));
        }
        let key = location.key_of();
        proof {
            self.lemma_index_agrees(key);
        }
        match self.location_index.get(&key) {
            Some(entity_id) => {
                return Err(EntitiesError::LocationAlreadyOccupied(location, *entity_id));
            },
            None => {},
        }
        proof {
            self.lemma_fewer_than_cells(location.spec_terrain(), location.coordinates);
        }
        let ghost before = *self;
        let entity_id = EntityID(self.entities.len());
        self.entities.push(Entity { id: entity_id, location, object });
        self.location_index.insert(key, entity_id);
        proof {
            let entities = self.spec_entities();
            let index = self.spec_index();
            assert forall|i: int| #![trigger entities[i]] 0 <= i < entities.len() implies {
                &&& entities[i].id == EntityID(i as usize)
                &&& entities[i].location.wf()
                &&& index.contains_key(entities[i].location.key() as usize)
                &&& index[entities[i].location.key() as usize] == EntityID(i as usize)
            } by {
                if i < before.spec_entities().len() {
                    assert(before.spec_entities()[i] == entities[i]);
                    assert(before.spec_index().contains_key(entities[i].location.key() as usize));
                }
            }
            assert forall|k: usize| #![trigger index[k]] index.contains_key(k) implies {
                &&& index[k].0 < entities.len()
                &&& entities[index[k].0 as int].location.key() == k
            } by {
                if k != key {
                    assert(before.spec_index().contains_key(k));
                    assert(before.spec_index()[k] == index[k]);
                }
            }
        }
        Ok(entity_id)
    }

    /// The entity with handle `entity_id`, if there is one.
    pub fn get(&self, entity_id: EntityID) -> (r: Option<&Entity<'t>>)
        ensures
            entity_id.0 < self.spec_entities().len() ==> r == Some(
                &self.spec_entities()[entity_id.0 as int],
            ),
            entity_id.0 >= self.spec_entities().len() ==> r.is_none(),
    {
        if entity_id.0 < self.entities.len() {
            Some(&self.entities[entity_id.0])
        } else {
            None
        }
    }

    /// The entity standing on `location`, if any.
    pub fn get_by_location(&self, location: Location<'t>) -> (r: Option<&Entity<'t>>)
        requires
            self.wf(),
            location.wf(),
        ensures
            match r {
                Some(e) => entity_at(self.spec_entities(), location.key()) == Some(*e),
                None => entity_at(self.spec_entities(), location.key()) is None,
            },
    {
        let key = location.key_of();
        proof {
            self.lemma_index_agrees(key);
        }
        match self.location_index.get(&key) {
            Some(entity_id) => Some(&self.entities[entity_id.0]),
            None => None,
        }
    }

    /// Moves entity `entity_id` to `location`, updating the index in the same
    /// step. Fails, changing nothing, when the cell is not walkable or already
    /// occupied, checked against the store as it is now.
    pub fn set_location(&mut self, entity_id: EntityID, location: Location<'t>) -> (r: Result<
        (),
        EntitiesError<'t>,
    >)
        requires
            old(self).wf(),
            entity_id.0 < old(self).spec_entities().len(),
            location.wf(),
            old(self).on_terrain(location.spec_terrain()),
        ensures
            final(self).wf(),
            final(self).on_terrain(location.spec_terrain()),
            match relocation(old(self).spec_entities(), entity_id, location) {
                Ok(entities) => {
                    let previous = old(self).spec_entities()[entity_id.0 as int].location;
                    &&& r is Ok
                    &&& final(self).spec_entities() == entities
                    &&& final(self).spec_index().contains_key(location.key() as usize)
                    &&& final(self).spec_index()[location.key() as usize] == entity_id
                    &&& !final(self).spec_index().contains_key(previous.key() as usize)
                },
                Err(e) => r == Err::<(), EntitiesError<'t>>(e) && *final(self) == *old(self),
            },
    {
        if !location.walkable() {
            return Err(EntitiesError::LocationNotWalkable(location));
        }
        let key = location.key_of();
        proof {
            self.lemma_index_agrees(key);
        }
        match self.location_index.get(&key) {
            Some(by_entity_id) => {
                return Err(EntitiesError::LocationAlreadyOccupied(location, *by_entity_id));
            },
            None => {},
        }
        let ghost before = *self;
        let mut entity = self.entities[entity_id.0];
        let previous_key = entity.location.key_of();
        assert(before.spec_index().contains_key(previous_key));
        self.location_index.remove(&previous_key);
        self.location_index.insert(key, entity_id);
        entity.location = location;
        self.entities.set(entity_id.0, entity);
        proof {
            let entities = self.spec_entities();
            let index = self.spec_index();
            assert(entities == relocated(before.spec_entities(), entity_id.0 as int, location));
            assert forall|i: int| #![trigger entities[i]] 0 <= i < entities.len() implies {
                &&& entities[i].id == EntityID(i as usize)
                &&& entities[i].location.wf()
                &&& index.contains_key(entities[i].location.key() as usize)
                &&& index[entities[i].location.key() as usize] == EntityID(i as usize)
            } by {
                if i != entity_id.0 {
                    assert(before.spec_entities()[i] == entities[i]);
                    assert(before.spec_index().contains_key(entities[i].location.key() as usize));
                    if entities[i].location.key() == previous_key {
                        before.lemma_one_per_cell(i, entity_id.0 as int);
                    }
                }
            }
            assert forall|k: usize| #![trigger index[k]] index.contains_key(k) implies {
                &&& index[k].0 < entities.len()
                &&& entities[index[k].0 as int].location.key() == k
            } by {
                if k != key {
                    assert(before.spec_index().contains_key(k));
                    assert(before.spec_index()[k] == index[k]);
                }
            }
        }
        Ok(())
    }

    /// All entities, in order of handle.
    pub fn iter(&self) -> (r: &[Entity<'t>])
        ensures
            r@ == self.spec_entities(),
    {
        self.entities.as_slice()
    }

    /// An independent copy of the store.
    pub fn snapshot(&self) -> (r: Entities<'t>)
        requires
            self.wf(),
        ensures
            r.wf(),
            r.spec_entities() == self.spec_entities(),
            r.spec_index() == self.spec_index(),
    {
        let mut entities: Vec<Entity<'t>> = Vec::new();
        let mut i: usize = 0;
        while i < self.entities.len()
            invariant
                i <= self.spec_entities().len(),
                entities@ == self.spec_entities().subrange(0, i as int),
            decreases self.spec_entities().len() - i,
        {
            entities.push(self.entities[i]);
            i = i + 1;
            assert(entities@ =~= self.spec_entities().subrange(0, i as int));
        }
        assert(entities@ =~= self.spec_entities());
        Entities { entities, location_index: self.location_index.clone() }
    }
}

} // verus!
