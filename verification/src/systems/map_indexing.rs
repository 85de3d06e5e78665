//! Spatial indexing: which cells are blocked, and who stands on each.

use vstd::prelude::*;
use crate::components::Entity;
use crate::map::{TileMap, TileType};
use crate::world::{EntityData, Slots, World};

verus! {

/// Does the entity of this record stand on the cell `idx` of the map?
pub open spec fn stands_on(map: &TileMap, d: EntityData, idx: int) -> bool {
    d.live && d.position.is_some() && map.cell_index(d.position.unwrap()) == Some(idx)
}

/// The entities with an id below `k` that stand on the cell `idx`, by ascending id.
pub open spec fn occupants(map: &TileMap, w: Slots, idx: int, k: int) -> Seq<Entity>
    decreases k,
{
    if k <= 0 {
        Seq::empty()
    } else if k <= w.len() && stands_on(map, w[k - 1], idx) {
        occupants(map, w, idx, k - 1).push(Entity { id: (k - 1) as usize })
    } else {
        occupants(map, w, idx, k - 1)
    }
}

/// Does an entity with an id below `k` that blocks its tile stand on the cell `idx`?
pub open spec fn obstructed(map: &TileMap, w: Slots, idx: int, k: int) -> bool {
    exists|i: int|
        0 <= i < k && i < w.len() && stands_on(map, #[trigger] w[i], idx) && w[i].blocks_tile.is_some()
}

/// Are the blocked flags and the occupant lists of `map` those that follow
/// from its tiles and from the entities of `w`, whatever they were before?
pub open spec fn indexed(map: &TileMap, w: Slots) -> bool {
    &&& forall|idx: int|
        0 <= idx < map.size() ==> #[trigger] map.blocked_tiles@[idx] == (map.tiles@[idx]
            == TileType::Wall || obstructed(map, w, idx, w.len() as int))
    &&& forall|idx: int|
        0 <= idx < map.size() ==> (#[trigger] map.tile_content@[idx])@ == occupants(
            map,
            w,
            idx,
            w.len() as int,
        )
}

pub struct MapIndexing {}

impl MapIndexing {
    /// Rebuilds the blocked flags and the occupant lists: a cell is blocked
    /// where its tile is a wall or an entity on it blocks its tile, and its
    /// occupants are the entities whose position it is. An entity whose
    /// position is off the map stands on no cell.
    pub fn run(&mut self, map: &mut TileMap, world: &World)
        requires
            old(map).wf(),
        ensures
            final(map).wf(),
            *final(map) == (TileMap {
                blocked_tiles: final(map).blocked_tiles,
                tile_content: final(map).tile_content,
                ..*old(map)
            }),
            indexed(final(map), world@),
    {
        map.update_blocked_tiles();
        map.clear_content_index();
        let n = world.slots.len();
        let mut i: usize = 0;
        proof {
            assert forall|idx: int| 0 <= idx < map.size() implies occupants(old(map), world@, idx, 0)
                =~= Seq::<Entity>::empty() by {}
        }
        while i < n
            invariant
                n == world@.len(),
                i <= n,
                map.wf(),
                *map == (TileMap {
                    blocked_tiles: map.blocked_tiles,
                    tile_content: map.tile_content,
                    ..*old(map)
                }),
                forall|idx: int|
                    0 <= idx < map.size() ==> #[trigger] map.blocked_tiles@[idx] == (old(map).tiles@[idx]
                        == TileType::Wall || obstructed(old(map), world@, idx, i as int)),
                forall|idx: int|
                    0 <= idx < map.size() ==> (#[trigger] map.tile_content@[idx])@ == occupants(
                        old(map),
                        world@,
                        idx,
                        i as int,
                    ),
            decreases n - i,
        {
            let ghost before = *map;
            let ghost d = world@[i as int];
            if world.slots[i].live {
                if let Some(p) = world.slots[i].position {
                    if map.is_inside_map(p.x, p.y) {
                        let idx = map.xy_idx(p.x, p.y);
                        if world.slots[i].blocks_tile.is_some() {
                            map.blocked_tiles[idx] = true;
                        }
                        map.tile_content[idx].push(Entity { id: i });
                        assert(stands_on(old(map), d, idx as int));
                    }
                }
            }
            proof {
                assert forall|idx: int| 0 <= idx < map.size() implies #[trigger] map.blocked_tiles@[idx]
                    == (old(map).tiles@[idx] == TileType::Wall || obstructed(
                    old(map),
                    world@,
                    idx,
                    i + 1,
                )) by {
                    let was = before.blocked_tiles@[idx];
                    if obstructed(old(map), world@, idx, i as int) {
                        let j = choose|j: int|
                            0 <= j < i && j < world@.len() && stands_on(old(map), #[trigger] world@[j], idx)
                                && world@[j].blocks_tile.is_some();
                        assert(0 <= j < i + 1 && stands_on(old(map), world@[j], idx));
                    }
                    if obstructed(old(map), world@, idx, i + 1) {
                        let j = choose|j: int|
                            0 <= j < i + 1 && j < world@.len() && stands_on(old(map), #[trigger] world@[j], idx)
                                && world@[j].blocks_tile.is_some();
                        if j < i {
                            assert(obstructed(old(map), world@, idx, i as int));
                        }
                    }
                    if stands_on(old(map), d, idx) && d.blocks_tile.is_some() {
                        assert(obstructed(old(map), world@, idx, i + 1));
                    }
                }
                assert forall|idx: int| 0 <= idx < map.size() implies (
                #[trigger] map.tile_content@[idx])@ == occupants(old(map), world@, idx, i + 1) by {
                    let was = before.tile_content@[idx];
                }
            }
            i += 1;
        }
        proof {
            assert forall|idx: int| 0 <= idx < map.size() implies #[trigger] map.blocked_tiles@[idx]
                == (map.tiles@[idx] == TileType::Wall || obstructed(map, world@, idx, n as int)) by {
                lemma_obstructed_by_size(map, old(map), world@, idx, n as int);
            }
            assert forall|idx: int| 0 <= idx < map.size() implies (#[trigger] map.tile_content@[idx])@
                == occupants(map, world@, idx, n as int) by {
                lemma_occupants_by_size(map, old(map), world@, idx, n as int);
            }
        }
    }
}

/// Whether a cell is obstructed depends on the map through its width and height alone.
pub proof fn lemma_obstructed_by_size(a: &TileMap, b: &TileMap, w: Slots, idx: int, k: int)
    requires
        a.width == b.width,
        a.height == b.height,
    ensures
        obstructed(a, w, idx, k) == obstructed(b, w, idx, k),
{
    if obstructed(a, w, idx, k) {
        let j = choose|j: int|
            0 <= j < k && j < w.len() && stands_on(a, #[trigger] w[j], idx) && w[j].blocks_tile.is_some();
        assert(stands_on(b, w[j], idx));
    }
    if obstructed(b, w, idx, k) {
        let j = choose|j: int|
            0 <= j < k && j < w.len() && stands_on(b, #[trigger] w[j], idx) && w[j].blocks_tile.is_some();
        assert(stands_on(a, w[j], idx));
    }
}

/// The occupants of a cell depend on the map through its width and height alone.
pub proof fn lemma_occupants_by_size(a: &TileMap, b: &TileMap, w: Slots, idx: int, k: int)
    requires
        a.width == b.width,
        a.height == b.height,
    ensures
        occupants(a, w, idx, k) == occupants(b, w, idx, k),
    decreases k,
{
    if k > 0 {
        lemma_occupants_by_size(a, b, w, idx, k - 1);
    }
}

/// Indexing is a function of the tiles and the entities: two maps of the
/// same size with the same tiles, each indexed for the same entities, agree
/// on every blocked flag and on every occupant list, whatever either held
/// before.
pub proof fn lemma_indexing_forgets(a: &TileMap, b: &TileMap, w: Slots)
    requires
        a.wf(),
        b.wf(),
        a.width == b.width,
        a.height == b.height,
        a.tiles@ == b.tiles@,
        indexed(a, w),
        indexed(b, w),
    ensures
        a.blocked_tiles@ == b.blocked_tiles@,
        a.tile_content@.len() == b.tile_content@.len(),
        forall|idx: int| 0 <= idx < a.size() ==> (#[trigger] a.tile_content@[idx])@ == b.tile_content@[idx]@,
{
    assert forall|idx: int| 0 <= idx < a.size() implies a.blocked_tiles@[idx] == b.blocked_tiles@[idx] by {
        lemma_obstructed_by_size(a, b, w, idx, w.len() as int);
    }
    assert forall|idx: int| 0 <= idx < a.size() implies (#[trigger] a.tile_content@[idx])@
        == b.tile_content@[idx]@ by {
        lemma_occupants_by_size(a, b, w, idx, w.len() as int);
        let other = b.tile_content@[idx];
    }
    assert(a.blocked_tiles@ =~= b.blocked_tiles@);
}

} // verus!
