//! Procedural generation: rooms that do not touch, joined by L-shaped corridors.

use vstd::prelude::*;
use rltk::RandomNumberGenerator;
use crate::components::Entity;
use crate::map::{
    explains, lemma_index_injective, hi, lo, on_corridor, on_hline, on_vline, TileMap, TileType,
    MAP_HEIGHT, MAP_SIZE, MAP_WIDTH, MAX_PLACEMENTS, MAX_ROOMS, MAX_ROOM_SIZE, MIN_ROOM_SIZE,
};
use crate::random::{range, roll_dice};
use crate::rect::Rect;

verus! {

impl TileMap {
    /// Is the corridor from room `i - 1` to room `i`, taken in the given order,
    /// floor all along?
    pub open spec fn linked(&self, i: int, horizontal_first: bool) -> bool {
        forall|x: int, y: int|
            self.in_bounds(x, y) && on_corridor(
                self.rooms@[i - 1].spec_center(),
                self.rooms@[i].spec_center(),
                horizontal_first,
                x,
                y,
            ) ==> #[trigger] self.tile_at(x, y) == TileType::Floor
    }

    /// What holds of every generated map: no two rooms touch, the floor of
    /// each room is floor, each room but the first is joined to the one
    /// before it by a corridor of floor, and there is no floor but these.
    pub open spec fn generated(&self) -> bool {
        &&& self.wf()
        &&& forall|i: int, j: int|
            0 <= i < j < self.rooms@.len() ==> !(#[trigger] self.rooms@[i]).overlaps(
                #[trigger] self.rooms@[j],
            )
        &&& forall|i: int, x: int, y: int|
            0 <= i < self.rooms@.len() && self.in_bounds(x, y) && (#[trigger] self.rooms@[i]).covers(x, y)
                ==> #[trigger] self.tile_at(x, y) == TileType::Floor
        &&& forall|i: int|
            1 <= i < self.rooms@.len() ==> #[trigger] self.linked(i, true) || self.linked(i, false)
        &&& forall|x: int, y: int|
            self.in_bounds(x, y) ==> (#[trigger] self.tile_at(x, y) == TileType::Wall || (self.tile_at(x, y)
                == TileType::Floor && exists|i: int| explains(self.rooms@, i, x, y)))
    }

    /// Is `room` one that the generator draws: of the configured size, and
    /// far enough from the edge that a wall stays around its floor?
    pub open spec fn drawn_room(room: Rect) -> bool {
        &&& MIN_ROOM_SIZE <= room.x2 - room.x1 < MAX_ROOM_SIZE
        &&& MIN_ROOM_SIZE <= room.y2 - room.y1 < MAX_ROOM_SIZE
        &&& 0 <= room.x1
        &&& room.x2 <= MAP_WIDTH - 2
        &&& 0 <= room.y1
        &&& room.y2 <= MAP_HEIGHT - 2
    }

    /// Does `room` touch a room of the map?
    pub open spec fn touches_a_room(&self, room: Rect) -> bool {
        exists|i: int| 0 <= i < self.rooms@.len() && room.overlaps(#[trigger] self.rooms@[i])
    }

    /// A map of the standard size that is all wall.
    pub fn blank(depth: i32) -> (map: TileMap)
        ensures
            map.wf(),
            map.pristine(),
            map.width == MAP_WIDTH,
            map.height == MAP_HEIGHT,
            map.depth == depth,
            map.rooms@.len() == 0,
            forall|i: int| 0 <= i < map.tiles@.len() ==> #[trigger] map.tiles@[i] == TileType::Wall,
    {
        let mut tiles: Vec<TileType> = Vec::new();
        let mut revealed_tiles: Vec<bool> = Vec::new();
        let mut visible_tiles: Vec<bool> = Vec::new();
        let mut blocked_tiles: Vec<bool> = Vec::new();
        let mut tile_content: Vec<Vec<Entity>> = Vec::new();
        let mut i: usize = 0;
        while i < MAP_SIZE
            invariant
                i <= MAP_SIZE,
                tiles@.len() == i,
                revealed_tiles@.len() == i,
                visible_tiles@.len() == i,
                blocked_tiles@.len() == i,
                tile_content@.len() == i,
                forall|j: int| 0 <= j < i ==> #[trigger] tiles@[j] == TileType::Wall,
                forall|j: int| 0 <= j < i ==> !#[trigger] revealed_tiles@[j],
                forall|j: int| 0 <= j < i ==> !#[trigger] visible_tiles@[j],
                forall|j: int| 0 <= j < i ==> !#[trigger] blocked_tiles@[j],
                forall|j: int| 0 <= j < i ==> (#[trigger] tile_content@[j])@.len() == 0,
            decreases MAP_SIZE - i,
        {
            tiles.push(TileType::Wall);
            revealed_tiles.push(false);
            visible_tiles.push(false);
            blocked_tiles.push(false);
            tile_content.push(Vec::new());
            i += 1;
        }
        TileMap {
            tiles,
            rooms: Vec::new(),
            width: MAP_WIDTH,
            height: MAP_HEIGHT,
            revealed_tiles,
            visible_tiles,
            blocked_tiles,
            tile_content,
            depth,
        }
    }

    /// Turns the cell `(x, y)` into floor.
    fn dig(&mut self, x: i32, y: i32)
        requires
            old(self).wf(),
            old(self).in_bounds(x as int, y as int),
        ensures
            final(self).wf(),
            final(self).same_but_tiles(old(self)),
            forall|px: int, py: int|
                final(self).in_bounds(px, py) ==> #[trigger] final(self).tile_at(px, py) == (if px == x
                    && py == y {
                    TileType::Floor
                } else {
                    old(self).tile_at(px, py)
                }),
    {
        let idx = self.xy_idx(x, y);
        self.tiles[idx] = TileType::Floor;
        proof {
            assert forall|px: int, py: int| self.in_bounds(px, py) implies #[trigger] self.tile_at(
                px,
                py,
            ) == (if px == x && py == y {
                TileType::Floor
            } else {
                old(self).tile_at(px, py)
            }) by {
                crate::map::lemma_index_in_range(self.width as int, self.height as int, px, py);
                if self.index(px, py) == idx as int {
                    lemma_index_injective(self.width as int, px, py, x as int, y as int);
                }
            }
        }
    }

    fn apply_horizontal_tunnel(&mut self, x1: i32, x2: i32, y: i32)
        requires
            old(self).wf(),
            old(self).in_bounds(x1 as int, y as int),
            old(self).in_bounds(x2 as int, y as int),
        ensures
            final(self).wf(),
            final(self).same_but_tiles(old(self)),
            forall|px: int, py: int|
                final(self).in_bounds(px, py) ==> #[trigger] final(self).tile_at(px, py) == (if on_hline(
                    x1 as int,
                    x2 as int,
                    y as int,
                    px,
                    py,
                ) {
                    TileType::Floor
                } else {
                    old(self).tile_at(px, py)
                }),
    {
        let first = if x1 <= x2 { x1 } else { x2 };
        let last = if x1 <= x2 { x2 } else { x1 };
        let mut x: i32 = first;
        while x <= last
            invariant
                first == lo(x1 as int, x2 as int),
                last == hi(x1 as int, x2 as int),
                first <= x <= last + 1,
                0 <= first,
                last < self.width,
                0 <= y < self.height,
                self.wf(),
                self.same_but_tiles(old(self)),
                forall|px: int, py: int|
                    self.in_bounds(px, py) ==> #[trigger] self.tile_at(px, py) == (if py == y && first
                        <= px < x {
                        TileType::Floor
                    } else {
                        old(self).tile_at(px, py)
                    }),
            decreases last + 1 - x,
        {
            self.dig(x, y);
            x += 1;
        }
    }

    fn apply_vertical_tunnel(&mut self, y1: i32, y2: i32, x: i32)
        requires
            old(self).wf(),
            old(self).in_bounds(x as int, y1 as int),
            old(self).in_bounds(x as int, y2 as int),
        ensures
            final(self).wf(),
            final(self).same_but_tiles(old(self)),
            forall|px: int, py: int|
                final(self).in_bounds(px, py) ==> #[trigger] final(self).tile_at(px, py) == (if on_vline(
                    y1 as int,
                    y2 as int,
                    x as int,
                    px,
                    py,
                ) {
                    TileType::Floor
                } else {
                    old(self).tile_at(px, py)
                }),
    {
        let first = if y1 <= y2 { y1 } else { y2 };
        let last = if y1 <= y2 { y2 } else { y1 };
        let mut y: i32 = first;
        while y <= last
            invariant
                first == lo(y1 as int, y2 as int),
                last == hi(y1 as int, y2 as int),
                first <= y <= last + 1,
                0 <= first,
                last < self.height,
                0 <= x < self.width,
                self.wf(),
                self.same_but_tiles(old(self)),
                forall|px: int, py: int|
                    self.in_bounds(px, py) ==> #[trigger] self.tile_at(px, py) == (if px == x && first
                        <= py < y {
                        TileType::Floor
                    } else {
                        old(self).tile_at(px, py)
                    }),
            decreases last + 1 - y,
        {
            self.dig(x, y);
            y += 1;
        }
    }

    /// Turns the floor of `room` into floor.
    fn apply_room_to_map(&mut self, room: &Rect)
        requires
            old(self).wf(),
            old(self).room_fits(*room),
        ensures
            final(self).wf(),
            final(self).same_but_tiles(old(self)),
            forall|px: int, py: int|
                final(self).in_bounds(px, py) ==> #[trigger] final(self).tile_at(px, py) == (if room.covers(
                    px,
                    py,
                ) {
                    TileType::Floor
                } else {
                    old(self).tile_at(px, py)
                }),
    {
        let mut y: i32 = room.y1 + 1;
        while y <= room.y2
            invariant
                self.room_fits(*room),
                room.y1 < y <= room.y2 + 1,
                self.wf(),
                self.same_but_tiles(old(self)),
                forall|px: int, py: int|
                    self.in_bounds(px, py) ==> #[trigger] self.tile_at(px, py) == (if room.x1 < px
                        <= room.x2 && room.y1 < py < y {
                        TileType::Floor
                    } else {
                        old(self).tile_at(px, py)
                    }),
            decreases room.y2 + 1 - y,
        {
            let mut x: i32 = room.x1 + 1;
            while x <= room.x2
                invariant
                    self.room_fits(*room),
                    room.y1 < y <= room.y2,
                    room.x1 < x <= room.x2 + 1,
                    self.wf(),
                    self.same_but_tiles(old(self)),
                    forall|px: int, py: int|
                        self.in_bounds(px, py) ==> #[trigger] self.tile_at(px, py) == (if room.x1 < px
                            <= room.x2 && (room.y1 < py < y || (py == y && px < x)) {
                            TileType::Floor
                        } else {
                            old(self).tile_at(px, py)
                        }),
                decreases room.x2 + 1 - x,
            {
                self.dig(x, y);
                x += 1;
            }
            y += 1;
        }
    }

    pub fn intersects_any(&self, room: &Rect) -> (b: bool)
        ensures
            b == self.touches_a_room(*room),
    {
        let mut i: usize = 0;
        while i < self.rooms.len()
            invariant
                i <= self.rooms@.len(),
                forall|j: int| 0 <= j < i ==> !room.overlaps(#[trigger] self.rooms@[j]),
            decreases self.rooms@.len() - i,
        {
            if room.intersect(&self.rooms[i]) {
                return true;
            }
            i += 1;
        }
        false
    }

    /// Adds `room` to the map unless it leaves the map or touches a room
    /// that is there. The cells of its floor become floor, and so do the cells
    /// of the corridor from the centre of the room added last to its own.
    pub fn add_room(&mut self, room: Rect, horizontal_first: bool) -> (added: bool)
        requires
            old(self).wf(),
        ensures
            final(self).wf(),
            added == (old(self).room_fits(room) && !old(self).touches_a_room(room)),
            !added ==> *final(self) == *old(self),
            added ==> {
                &&& final(self).same_but_tiles(
                    &TileMap { rooms: final(self).rooms, ..*old(self) },
                )
                &&& final(self).rooms@ == old(self).rooms@.push(room)
                &&& forall|px: int, py: int|
                    final(self).in_bounds(px, py) ==> #[trigger] final(self).tile_at(px, py) == (
                    if room.covers(px, py) || (old(self).rooms@.len() > 0 && on_corridor(
                        old(self).rooms@.last().spec_center(),
                        room.spec_center(),
                        horizontal_first,
                        px,
                        py,
                    )) {
                        TileType::Floor
                    } else {
                        old(self).tile_at(px, py)
                    })
            },
    {
        let fits = 0 <= room.x1 && room.x1 <= room.x2 && room.x2 < self.width && 0 <= room.y1
            && room.y1 <= room.y2 && room.y2 < self.height;
        if !fits || self.intersects_any(&room) {
            return false;
        }
        self.apply_room_to_map(&room);
        let ghost with_room = *self;
        let ghost with_first = *self;
        if self.rooms.len() > 0 {
            let to = room.center();
            let from = self.rooms[self.rooms.len() - 1].center();
            proof {
                assert(self.room_fits(self.rooms@[self.rooms@.len() - 1]));
            }
            if horizontal_first {
                self.apply_horizontal_tunnel(from.x, to.x, from.y);
                proof {
                    with_first = *self;
                }
                self.apply_vertical_tunnel(from.y, to.y, to.x);
            } else {
                self.apply_vertical_tunnel(from.y, to.y, from.x);
                proof {
                    with_first = *self;
                }
                self.apply_horizontal_tunnel(from.x, to.x, to.y);
            }
        }
        let ghost with_both = *self;
        self.rooms.push(room);
        proof {
            assert forall|px: int, py: int| self.in_bounds(px, py) implies #[trigger] self.tile_at(
                px,
                py,
            ) == (if room.covers(px, py) || (old(self).rooms@.len() > 0 && on_corridor(
                old(self).rooms@.last().spec_center(),
                room.spec_center(),
                horizontal_first,
                px,
                py,
            )) {
                TileType::Floor
            } else {
                old(self).tile_at(px, py)
            }) by {
                let a = with_room.tile_at(px, py);
                let b = with_first.tile_at(px, py);
                let c = with_both.tile_at(px, py);
                assert(self.tile_at(px, py) == c);
            }
            assert forall|i: int| 0 <= i < self.rooms@.len() implies self.room_fits(
                #[trigger] self.rooms@[i],
            ) by {
                if i < old(self).rooms@.len() {
                    assert(self.rooms@[i] == old(self).rooms@[i]);
                }
            }
        }
        true
    }

    /// Draws rooms until the map has `MAX_ROOMS` of them, or `MAX_PLACEMENTS`
    /// rooms were drawn. A room that touches one already placed is dropped.
    /// The first room drawn is always placed.
    pub fn new_rooms_and_corridors(rng: &mut RandomNumberGenerator, depth: i32) -> (map: TileMap)
        ensures
            map.generated(),
            map.pristine(),
            map.width == MAP_WIDTH,
            map.height == MAP_HEIGHT,
            map.depth == depth,
            1 <= map.rooms@.len() <= MAX_ROOMS,
            forall|i: int| 0 <= i < map.rooms@.len() ==> Self::drawn_room(#[trigger] map.rooms@[i]),
    {
        let mut map = TileMap::blank(depth);
        let mut placements: u32 = 0;
        proof {
            assert forall|x: int, y: int| map.in_bounds(x, y) implies #[trigger] map.tile_at(x, y)
                == TileType::Wall by {
                crate::map::lemma_index_in_range(map.width as int, map.height as int, x, y);
            }
        }
        while map.rooms.len() < MAX_ROOMS && placements < MAX_PLACEMENTS
            invariant
                map.generated(),
                map.pristine(),
                map.width == MAP_WIDTH,
                map.height == MAP_HEIGHT,
                map.depth == depth,
                map.rooms@.len() <= MAX_ROOMS,
                forall|i: int| 0 <= i < map.rooms@.len() ==> Self::drawn_room(#[trigger] map.rooms@[i]),
                placements >= 1 ==> map.rooms@.len() >= 1,
                placements <= MAX_PLACEMENTS,
            decreases MAX_PLACEMENTS - placements,
        {
            placements += 1;
            let width = range(rng, MIN_ROOM_SIZE, MAX_ROOM_SIZE);
            let height = range(rng, MIN_ROOM_SIZE, MAX_ROOM_SIZE);
            let x = roll_dice(rng, 1, MAP_WIDTH - width - 1) - 1;
            let y = roll_dice(rng, 1, MAP_HEIGHT - height - 1) - 1;
            let new_room = Rect::new(x, y, width, height);
            if !map.intersects_any(&new_room) {
                let horizontal_first = if map.rooms.len() > 0 {
                    range(rng, 0, 2) == 1
                } else {
                    false
                };
                let ghost before = map;
                let added = map.add_room(new_room, horizontal_first);
                proof {
                    assert(added);
                    lemma_add_room_keeps_generated(before, map, new_room, horizontal_first);
                    assert forall|i: int| 0 <= i < map.rooms@.len() implies Self::drawn_room(
                        #[trigger] map.rooms@[i],
                    ) by {
                        if i < before.rooms@.len() {
                            assert(map.rooms@[i] == before.rooms@[i]);
                        }
                    }
                }
            }
        }
        map
    }
}

/// A map that was generated stays so when a room that fits and touches none
/// is added to it.
pub proof fn lemma_add_room_keeps_generated(
    before: TileMap,
    after: TileMap,
    room: Rect,
    horizontal_first: bool,
)
    requires
        before.generated(),
        before.room_fits(room),
        !before.touches_a_room(room),
        after.wf(),
        after.same_but_tiles(&TileMap { rooms: after.rooms, ..before }),
        after.rooms@ == before.rooms@.push(room),
        forall|px: int, py: int|
            after.in_bounds(px, py) ==> #[trigger] after.tile_at(px, py) == (if room.covers(px, py) || (
            before.rooms@.len() > 0 && on_corridor(
                before.rooms@.last().spec_center(),
                room.spec_center(),
                horizontal_first,
                px,
                py,
            )) {
                TileType::Floor
            } else {
                before.tile_at(px, py)
            }),
    ensures
        after.generated(),
        after.pristine() == before.pristine(),
{
    let n = before.rooms@.len() as int;
    assert forall|i: int, j: int| 0 <= i < j < after.rooms@.len() implies !(
    #[trigger] after.rooms@[i]).overlaps(#[trigger] after.rooms@[j]) by {
        if j < n {
            assert(after.rooms@[i] == before.rooms@[i]);
            assert(after.rooms@[j] == before.rooms@[j]);
        } else {
            assert(after.rooms@[i] == before.rooms@[i]);
            assert(!room.overlaps(before.rooms@[i]));
        }
    }
    assert forall|i: int, x: int, y: int|
        0 <= i < after.rooms@.len() && after.in_bounds(x, y) && (#[trigger] after.rooms@[i]).covers(
            x,
            y,
        ) implies #[trigger] after.tile_at(x, y) == TileType::Floor by {
        if i < n {
            assert(after.rooms@[i] == before.rooms@[i]);
            assert(before.tile_at(x, y) == TileType::Floor);
        }
    }
    assert forall|i: int| 1 <= i < after.rooms@.len() implies #[trigger] after.linked(i, true)
        || after.linked(i, false) by {
        if i < n {
            assert(after.rooms@[i] == before.rooms@[i]);
            assert(after.rooms@[i - 1] == before.rooms@[i - 1]);
            if before.linked(i, true) {
                assert forall|x: int, y: int|
                    after.in_bounds(x, y) && on_corridor(
                        after.rooms@[i - 1].spec_center(),
                        after.rooms@[i].spec_center(),
                        true,
                        x,
                        y,
                    ) implies #[trigger] after.tile_at(x, y) == TileType::Floor by {
                    assert(before.tile_at(x, y) == TileType::Floor);
                }
                assert(after.linked(i, true));
            } else {
                assert(before.linked(i, false));
                assert forall|x: int, y: int|
                    after.in_bounds(x, y) && on_corridor(
                        after.rooms@[i - 1].spec_center(),
                        after.rooms@[i].spec_center(),
                        false,
                        x,
                        y,
                    ) implies #[trigger] after.tile_at(x, y) == TileType::Floor by {
                    assert(before.tile_at(x, y) == TileType::Floor);
                }
                assert(after.linked(i, false));
            }
        } else {
            assert(after.rooms@[i] == room);
            assert(after.rooms@[i - 1] == before.rooms@.last());
            assert(after.linked(i, horizontal_first));
        }
    }
    assert forall|x: int, y: int| after.in_bounds(x, y) implies (#[trigger] after.tile_at(x, y)
        == TileType::Wall || (after.tile_at(x, y) == TileType::Floor && exists|i: int|
        explains(after.rooms@, i, x, y))) by {
        if room.covers(x, y) || (n > 0 && on_corridor(
            before.rooms@.last().spec_center(),
            room.spec_center(),
            horizontal_first,
            x,
            y,
        )) {
            assert(after.rooms@[n] == room);
            if n > 0 {
                assert(after.rooms@[n - 1] == before.rooms@.last());
            }
            assert(explains(after.rooms@, n, x, y));
        } else {
            assert(before.in_bounds(x, y));
            assert(after.tile_at(x, y) == before.tile_at(x, y));
            if before.tile_at(x, y) == TileType::Floor {
                let i = choose|i: int| explains(before.rooms@, i, x, y);
                assert(after.rooms@[i] == before.rooms@[i]);
                if i >= 1 {
                    assert(after.rooms@[i - 1] == before.rooms@[i - 1]);
                }
                assert(explains(after.rooms@, i, x, y));
            }
        }
    }
}

} // verus!
