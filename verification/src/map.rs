//! The map: a grid of tiles, what is known of it, and who stands where.

use vstd::prelude::*;
use crate::components::{Entity, Position};
use crate::rect::Rect;

verus! {

pub const MAP_WIDTH: i32 = 15;

pub const MAP_HEIGHT: i32 = 15;

pub const MAX_ROOMS: usize = 2;

pub const MAP_SIZE: usize = 225;

pub const MIN_ROOM_SIZE: i32 = 3;

pub const MAX_ROOM_SIZE: i32 = 6;

/// How many rooms the generator draws before it settles for the rooms it has.
pub const MAX_PLACEMENTS: u32 = 1000000;

/// Cost of a step along a row or a column, in hundredths.
pub const COST_STRAIGHT: u32 = 100;

/// Cost of a diagonal step, in hundredths.
pub const COST_DIAGONAL: u32 = 145;

#[derive(Clone, Copy, Debug, PartialEq, Eq, Structural)]
pub enum TileType {
    Floor,
    Wall,
    DownStairs,
}

pub struct TileMap {
    pub tiles: Vec<TileType>,
    pub rooms: Vec<Rect>,
    pub width: i32,
    pub height: i32,
    pub revealed_tiles: Vec<bool>,
    pub visible_tiles: Vec<bool>,
    pub blocked_tiles: Vec<bool>,
    pub tile_content: Vec<Vec<Entity>>,
    pub depth: i32,
}

pub proof fn lemma_index_in_range(w: int, h: int, x: int, y: int)
    requires
        0 <= x < w,
        0 <= y < h,
    ensures
        0 <= y * w + x < w * h,
{
    assert(0 <= y * w + x < w * h) by (nonlinear_arith)
        requires
            0 <= x < w,
            0 <= y < h,
    ;
}

pub proof fn lemma_index_injective(w: int, x1: int, y1: int, x2: int, y2: int)
    requires
        0 <= x1 < w,
        0 <= x2 < w,
        y1 * w + x1 == y2 * w + x2,
    ensures
        x1 == x2,
        y1 == y2,
{
    assert(y1 == y2) by (nonlinear_arith)
        requires
            0 <= x1 < w,
            0 <= x2 < w,
            y1 * w + x1 == y2 * w + x2,
    ;
}

/// The smaller of two numbers.
pub open spec fn lo(a: int, b: int) -> int {
    if a <= b {
        a
    } else {
        b
    }
}

/// The larger of two numbers.
pub open spec fn hi(a: int, b: int) -> int {
    if a <= b {
        b
    } else {
        a
    }
}

/// Is `(px, py)` on the row `y` between the columns `x1` and `x2`?
pub open spec fn on_hline(x1: int, x2: int, y: int, px: int, py: int) -> bool {
    py == y && lo(x1, x2) <= px <= hi(x1, x2)
}

/// Is `(px, py)` on the column `x` between the rows `y1` and `y2`?
pub open spec fn on_vline(y1: int, y2: int, x: int, px: int, py: int) -> bool {
    px == x && lo(y1, y2) <= py <= hi(y1, y2)
}

/// Is `(px, py)` on the L-shaped corridor from `from` to `to`? It starts along
/// the row of `from` where `horizontal_first`, along its column otherwise.
pub open spec fn on_corridor(
    from: Position,
    to: Position,
    horizontal_first: bool,
    px: int,
    py: int,
) -> bool {
    if horizontal_first {
        on_hline(from.x as int, to.x as int, from.y as int, px, py) || on_vline(
            from.y as int,
            to.y as int,
            to.x as int,
            px,
            py,
        )
    } else {
        on_vline(from.y as int, to.y as int, from.x as int, px, py) || on_hline(
            from.x as int,
            to.x as int,
            to.y as int,
            px,
            py,
        )
    }
}

/// Does room `i` of `rooms`, or a corridor that could lead to it from the room
/// before, account for a floor at `(x, y)`?
pub open spec fn explains(rooms: Seq<Rect>, i: int, x: int, y: int) -> bool {
    0 <= i < rooms.len() && (rooms[i].covers(x, y) || (i >= 1 && (on_corridor(
        rooms[i - 1].spec_center(),
        rooms[i].spec_center(),
        true,
        x,
        y,
    ) || on_corridor(rooms[i - 1].spec_center(), rooms[i].spec_center(), false, x, y))))
}

impl TileMap {
    pub open spec fn in_bounds(&self, x: int, y: int) -> bool {
        0 <= x < self.width && 0 <= y < self.height
    }

    /// The row-major index of the cell `(x, y)`.
    pub open spec fn index(&self, x: int, y: int) -> int {
        y * self.width + x
    }

    /// The cell with the index `idx`.
    pub open spec fn cell(&self, idx: int) -> Position {
        Position { x: (idx % self.width as int) as i32, y: (idx / self.width as int) as i32 }
    }

    /// The index of the cell `p`, where the map has such a cell.
    pub open spec fn cell_index(&self, p: Position) -> Option<int> {
        if self.in_bounds(p.x as int, p.y as int) {
            Some(self.index(p.x as int, p.y as int))
        } else {
            None
        }
    }

    pub open spec fn size(&self) -> int {
        self.width * self.height
    }

    /// Does the rectangle lie on the map?
    pub open spec fn room_fits(&self, r: Rect) -> bool {
        0 <= r.x1 <= r.x2 < self.width && 0 <= r.y1 <= r.y2 < self.height
    }

    /// The grid has a cell, each per-cell array has one entry per cell, and
    /// every room lies on the map.
    pub open spec fn wf(&self) -> bool {
        &&& 0 < self.width
        &&& 0 < self.height
        &&& self.width * self.height <= i32::MAX
        &&& self.tiles@.len() == self.size()
        &&& self.revealed_tiles@.len() == self.size()
        &&& self.visible_tiles@.len() == self.size()
        &&& self.blocked_tiles@.len() == self.size()
        &&& self.tile_content@.len() == self.size()
        &&& forall|i: int| 0 <= i < self.rooms@.len() ==> self.room_fits(#[trigger] self.rooms@[i])
    }

    pub open spec fn tile_at(&self, x: int, y: int) -> TileType {
        self.tiles@[self.index(x, y)]
    }

    /// Nothing is revealed, visible or blocked, and no cell has an occupant.
    pub open spec fn pristine(&self) -> bool {
        &&& forall|i: int| 0 <= i < self.revealed_tiles@.len() ==> !#[trigger] self.revealed_tiles@[i]
        &&& forall|i: int| 0 <= i < self.visible_tiles@.len() ==> !#[trigger] self.visible_tiles@[i]
        &&& forall|i: int| 0 <= i < self.blocked_tiles@.len() ==> !#[trigger] self.blocked_tiles@[i]
        &&& forall|i: int| 0 <= i < self.tile_content@.len() ==> (#[trigger] self.tile_content@[i])@.len() == 0
    }

    /// Every field but `tiles` is the same in both maps, and `tiles` is as long.
    pub open spec fn same_but_tiles(&self, other: &TileMap) -> bool {
        &&& self.tiles@.len() == other.tiles@.len()
        &&& self.rooms == other.rooms
        &&& self.width == other.width
        &&& self.height == other.height
        &&& self.revealed_tiles == other.revealed_tiles
        &&& self.visible_tiles == other.visible_tiles
        &&& self.blocked_tiles == other.blocked_tiles
        &&& self.tile_content == other.tile_content
        &&& self.depth == other.depth
    }

    pub fn is_inside_map(&self, x: i32, y: i32) -> (b: bool)
        ensures
            b == self.in_bounds(x as int, y as int),
    {
        x >= 0 && x < self.width && y >= 0 && y < self.height
    }

    pub fn xy_idx(&self, x: i32, y: i32) -> (idx: usize)
        requires
            self.wf(),
            self.in_bounds(x as int, y as int),
        ensures
            idx == self.index(x as int, y as int),
            idx < self.size(),
    {
        proof {
            lemma_index_in_range(self.width as int, self.height as int, x as int, y as int);
            assert(0 <= y * self.width <= y * self.width + x) by (nonlinear_arith)
                requires
                    0 <= x,
                    0 <= y,
                    0 < self.width,
            ;
        }
        (y as usize) * (self.width as usize) + (x as usize)
    }

    pub fn idx_from_pos(&self, pos: Position) -> (idx: usize)
        requires
            self.wf(),
            self.in_bounds(pos.x as int, pos.y as int),
        ensures
            Some(idx as int) == self.cell_index(pos),
            idx < self.size(),
    {
        self.xy_idx(pos.x, pos.y)
    }

    pub fn pos_from_idx(&self, idx: usize) -> (pos: Position)
        requires
            self.wf(),
            idx < self.size(),
        ensures
            pos == self.cell(idx as int),
            self.cell_index(pos) == Some(idx as int),
    {
        let w = self.width as usize;
        proof {
            let q = idx as int / self.width as int;
            let r = idx as int % self.width as int;
            vstd::arithmetic::div_mod::lemma_fundamental_div_mod(idx as int, self.width as int);
            assert(0 <= q < self.height) by (nonlinear_arith)
                requires
                    0 < self.width,
                    0 <= idx < self.width * self.height,
                    idx == self.width * q + r,
                    0 <= r < self.width,
            ;
            assert(self.width * q == q * self.width) by (nonlinear_arith);
        }
        Position { x: (idx % w) as i32, y: (idx / w) as i32 }
    }

    /// Is `(x, y)` a cell behind the first row and the first column that is
    /// not blocked?
    pub fn is_exit_valid(&self, x: i32, y: i32) -> (b: bool)
        requires
            self.wf(),
        ensures
            b == (1 <= x < self.width && 1 <= y < self.height && !self.blocked_tiles@[self.index(
                x as int,
                y as int,
            )]),
    {
        if x < 1 || x > self.width - 1 || y < 1 || y > self.height - 1 {
            return false;
        }
        let idx = self.xy_idx(x, y);
        !self.blocked_tiles[idx]
    }

    pub fn is_floor_available(&self, x: i32, y: i32) -> (b: bool)
        requires
            self.wf(),
        ensures
            b == (self.in_bounds(x as int, y as int) && !self.blocked_tiles@[self.index(
                x as int,
                y as int,
            )]),
    {
        self.is_inside_map(x, y) && !self.blocked_tiles[self.xy_idx(x, y)]
    }
}

impl TileMap {
    /// For each cell, whether its tile is a wall.
    pub open spec fn walls(&self) -> Seq<bool> {
        self.tiles@.map_values(|t: TileType| t == TileType::Wall)
    }

    /// Makes the walls, and nothing else, blocked.
    pub fn update_blocked_tiles(&mut self)
        requires
            old(self).wf(),
        ensures
            final(self).blocked_tiles@ == old(self).walls(),
            *final(self) == (TileMap { blocked_tiles: final(self).blocked_tiles, ..*old(self) }),
    {
        let n = self.tiles.len();
        let mut i: usize = 0;
        while i < n
            invariant
                n == self.tiles@.len(),
                n == self.blocked_tiles@.len(),
                i <= n,
                *self == (TileMap { blocked_tiles: self.blocked_tiles, ..*old(self) }),
                forall|j: int| 0 <= j < i ==> self.blocked_tiles@[j] == (self.tiles@[j] == TileType::Wall),
            decreases n - i,
        {
            self.blocked_tiles[i] = self.tiles[i] == TileType::Wall;
            i += 1;
        }
        assert(self.blocked_tiles@ =~= old(self).walls());
    }

    /// Empties the occupant list of every cell.
    pub fn clear_content_index(&mut self)
        requires
            old(self).wf(),
        ensures
            final(self).tile_content@.len() == old(self).tile_content@.len(),
            forall|i: int|
                0 <= i < final(self).tile_content@.len() ==> (#[trigger] final(self).tile_content@[i])@
                    == Seq::<Entity>::empty(),
            *final(self) == (TileMap { tile_content: final(self).tile_content, ..*old(self) }),
    {
        let n = self.tile_content.len();
        let mut i: usize = 0;
        while i < n
            invariant
                n == self.tile_content@.len(),
                i <= n,
                *self == (TileMap { tile_content: self.tile_content, ..*old(self) }),
                forall|j: int| 0 <= j < i ==> (#[trigger] self.tile_content@[j])@ == Seq::<Entity>::empty(),
            decreases n - i,
        {
            self.tile_content[i] = Vec::new();
            i += 1;
        }
    }

    /// The step from the cell `idx` by `(dx, dy)`: its goal and `cost`, if the
    /// goal is a cell of the map that is not blocked.
    pub open spec fn exit_toward(&self, idx: int, dx: int, dy: int, cost: u32) -> Seq<(usize, u32)> {
        let x = self.cell(idx).x + dx;
        let y = self.cell(idx).y + dy;
        if self.in_bounds(x, y) && !self.blocked_tiles@[self.index(x, y)] {
            seq![(self.index(x, y) as usize, cost)]
        } else {
            Seq::empty()
        }
    }

    /// The steps that lead away from the cell `idx`: west, east, north, south,
    /// then the four diagonals. A diagonal step is open whatever stands
    /// beside it.
    pub open spec fn exits(&self, idx: int) -> Seq<(usize, u32)> {
        self.exit_toward(idx, -1, 0, COST_STRAIGHT) + self.exit_toward(idx, 1, 0, COST_STRAIGHT)
            + self.exit_toward(idx, 0, -1, COST_STRAIGHT) + self.exit_toward(
            idx,
            0,
            1,
            COST_STRAIGHT,
        ) + self.exit_toward(idx, -1, -1, COST_DIAGONAL) + self.exit_toward(
            idx,
            1,
            -1,
            COST_DIAGONAL,
        ) + self.exit_toward(idx, -1, 1, COST_DIAGONAL) + self.exit_toward(
            idx,
            1,
            1,
            COST_DIAGONAL,
        )
    }

    fn push_exit(&self, exits: &mut Vec<(usize, u32)>, idx: usize, dx: i32, dy: i32, cost: u32)
        requires
            self.wf(),
            idx < self.size(),
            -1 <= dx <= 1,
            -1 <= dy <= 1,
        ensures
            final(exits)@ == old(exits)@ + self.exit_toward(idx as int, dx as int, dy as int, cost),
    {
        let here = self.pos_from_idx(idx);
        let x = here.x + dx;
        let y = here.y + dy;
        if self.is_floor_available(x, y) {
            exits.push((self.xy_idx(x, y), cost));
        }
        assert(exits@ =~= old(exits)@ + self.exit_toward(idx as int, dx as int, dy as int, cost));
    }

    fn get_available_floors(&self, idx: usize) -> (floors: Vec<(usize, u32)>)
        requires
            self.wf(),
            idx < self.size(),
        ensures
            floors@ == self.exits(idx as int),
    {
        let mut floors: Vec<(usize, u32)> = Vec::new();
        assert(floors@ =~= Seq::empty());
        self.push_exit(&mut floors, idx, -1, 0, COST_STRAIGHT);
        self.push_exit(&mut floors, idx, 1, 0, COST_STRAIGHT);
        self.push_exit(&mut floors, idx, 0, -1, COST_STRAIGHT);
        self.push_exit(&mut floors, idx, 0, 1, COST_STRAIGHT);
        self.push_exit(&mut floors, idx, -1, -1, COST_DIAGONAL);
        self.push_exit(&mut floors, idx, 1, -1, COST_DIAGONAL);
        self.push_exit(&mut floors, idx, -1, 1, COST_DIAGONAL);
        self.push_exit(&mut floors, idx, 1, 1, COST_DIAGONAL);
        assert(floors@ =~= self.exits(idx as int));
        floors
    }

    /// The cells that one step leads to from the cell `idx`, each with the
    /// cost of the step. A cell off the map has no exits.
    pub fn get_available_exits(&self, idx: usize) -> (exits: Vec<(usize, u32)>)
        requires
            self.wf(),
        ensures
            exits@ == (if idx < self.size() {
                self.exits(idx as int)
            } else {
                Seq::empty()
            }),
    {
        if idx < self.tiles.len() {
            self.get_available_floors(idx)
        } else {
            Vec::new()
        }
    }
}

} // verus!
