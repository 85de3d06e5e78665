//! Line of sight, computed by `rltk`'s shadow casting.

use vstd::prelude::*;
use crate::components::Position;
use crate::map::{lemma_index_injective, TileMap, TileType};

verus! {

/// `rltk::Point`, in which the map hands its dimensions to the shadow casting.
#[verifier::external_type_specification]
#[verifier::external_body]
pub struct ExPoint(rltk::Point);

/// The widest range, to either side of zero, that is handed to the shadow
/// casting: it reserves room for `4 * range * range` cells before it starts.
pub const MAX_SIGHT: i32 = 1000;

/// The cells that `rltk::field_of_view` finds visible from `(x, y)` within
/// `range`, on a grid `width` wide and `height` high whose cell with the
/// row-major index `i` stops the light where `opaque[i]`.
pub uninterp spec fn lit_cells(
    x: int,
    y: int,
    range: int,
    width: int,
    height: int,
    opaque: Seq<bool>,
) -> Set<Position>;

/// The point that `rltk::Point::new` makes of two `i32`: the one with these
/// coordinates.
pub uninterp spec fn point_at(x: int, y: int) -> rltk::Point;

/// `rltk::Point::new` on two `i32`, which keeps both as they are.
#[verifier::external_body]
fn point(x: i32, y: i32) -> (p: rltk::Point)
    ensures
        p == point_at(x as int, y as int),
{
    rltk::Point::new(x, y)
}

impl rltk::BaseMap for TileMap {
    /// Walls stop the light. An index off the map is not opaque.
    fn is_opaque(&self, idx: usize) -> (opaque: bool)
        ensures
            opaque == (idx < self.tiles@.len() && self.walls()[idx as int]),
    {
        idx < self.tiles.len() && self.tiles[idx] == TileType::Wall
    }
}

impl rltk::Algorithm2D for TileMap {
    /// The width and the height of the map, as a point.
    fn dimensions(&self) -> (size: rltk::Point)
        ensures
            size == point_at(self.width as int, self.height as int),
    {
        point(self.width, self.height)
    }
}

/// `rltk::field_of_view`, which reads of the map its dimensions and, for the
/// cells on it, `is_opaque`. It returns each visible cell once, none of them
/// off the map, in an order that is not fixed. It needs its origin on the
/// map, and leaves `i32` or exhausts the memory on a huge range.
#[verifier::external_body]
fn field_of_view(map: &TileMap, origin: Position, range: i32) -> (cells: Vec<Position>)
    requires
        map.wf(),
        map.in_bounds(origin.x as int, origin.y as int),
        -MAX_SIGHT <= range <= MAX_SIGHT,
    ensures
        cells@.to_set() == lit_cells(
            origin.x as int,
            origin.y as int,
            range as int,
            map.width as int,
            map.height as int,
            map.walls(),
        ),
        forall|i: int| 0 <= i < cells@.len() ==> map.in_bounds(cells@[i].x as int, cells@[i].y as int),
{
    rltk::field_of_view(rltk::Point::new(origin.x, origin.y), range, map)
        .into_iter()
        .map(|p| Position { x: p.x, y: p.y })
        .collect()
}

impl TileMap {
    /// For each cell, whether it belongs to `lit`.
    pub open spec fn flags_of(&self, lit: Set<Position>) -> Seq<bool> {
        Seq::new(self.size() as nat, |j: int| lit.contains(self.cell(j)))
    }

    /// The cells with an index below `k` whose flag is set, by ascending index.
    pub open spec fn marked(&self, flags: Seq<bool>, k: int) -> Seq<Position>
        decreases k,
    {
        if k <= 0 {
            Seq::empty()
        } else if k <= flags.len() && flags[k - 1] {
            self.marked(flags, k - 1).push(self.cell(k - 1))
        } else {
            self.marked(flags, k - 1)
        }
    }

    /// Can the field of view from `origin` within `range` be computed?
    pub open spec fn can_look(&self, origin: Position, range: int) -> bool {
        self.in_bounds(origin.x as int, origin.y as int) && -MAX_SIGHT <= range <= MAX_SIGHT
    }

    /// For each cell, whether it is visible from `origin` within `range`. No
    /// cell is where the origin is off the map or the range beyond `MAX_SIGHT`.
    pub open spec fn glow(&self, origin: Position, range: int) -> Seq<bool> {
        if self.can_look(origin, range) {
            self.flags_of(
                lit_cells(
                    origin.x as int,
                    origin.y as int,
                    range,
                    self.width as int,
                    self.height as int,
                    self.walls(),
                ),
            )
        } else {
            Seq::new(self.size() as nat, |j: int| false)
        }
    }

    /// The cells that are visible from `origin` within `range`, by ascending index.
    pub open spec fn view_from(&self, origin: Position, range: int) -> Seq<Position> {
        self.marked(self.glow(origin, range), self.size())
    }

    /// Turns what the shadow casting found into one flag per cell.
    pub fn flags_for(&self, found: &Vec<Position>) -> (lit: Vec<bool>)
        requires
            self.wf(),
            forall|i: int| 0 <= i < found@.len() ==> self.in_bounds(found@[i].x as int, found@[i].y as int),
        ensures
            lit@ == self.flags_of(found@.to_set()),
    {
        let n = self.tiles.len();
        let mut lit: Vec<bool> = Vec::new();
        let mut i: usize = 0;
        while i < n
            invariant
                i <= n,
                lit@.len() == i,
                forall|j: int| 0 <= j < i ==> !lit@[j],
            decreases n - i,
        {
            lit.push(false);
            i += 1;
        }
        let mut k: usize = 0;
        while k < found.len()
            invariant
                self.wf(),
                n == self.size(),
                lit@.len() == n,
                k <= found@.len(),
                forall|i: int| 0 <= i < found@.len() ==> self.in_bounds(found@[i].x as int, found@[i].y as int),
                forall|j: int|
                    0 <= j < n ==> (#[trigger] lit@[j] <==> exists|i: int|
                        0 <= i < k && self.cell_index(#[trigger] found@[i]) == Some(j)),
            decreases found@.len() - k,
        {
            let p = found[k];
            let idx = self.xy_idx(p.x, p.y);
            let ghost before = lit@;
            lit[idx] = true;
            proof {
                assert forall|j: int| 0 <= j < n implies (#[trigger] lit@[j] <==> exists|i: int|
                    0 <= i < k + 1 && self.cell_index(#[trigger] found@[i]) == Some(j)) by {
                    if j == idx {
                        assert(self.cell_index(found@[k as int]) == Some(j));
                    } else if before[j] {
                        let i = choose|i: int| 0 <= i < k && self.cell_index(#[trigger] found@[i]) == Some(j);
                        assert(0 <= i < k + 1 && self.cell_index(found@[i]) == Some(j));
                    } else {
                        if exists|i: int| 0 <= i < k + 1 && self.cell_index(#[trigger] found@[i]) == Some(j) {
                            let i = choose|i: int| 0 <= i < k + 1 && self.cell_index(#[trigger] found@[i]) == Some(j);
                            assert(i < k);
                        }
                    }
                }
            }
            k += 1;
        }
        proof {
            assert forall|j: int| 0 <= j < n implies lit@[j] == found@.to_set().contains(
                self.cell(j),
            ) by {
                self.lemma_cell_round_trip(j);
                let here = self.cell(j);
                if lit@[j] {
                    let i = choose|i: int|
                        0 <= i < found@.len() && self.cell_index(#[trigger] found@[i]) == Some(j);
                    lemma_index_injective(
                        self.width as int,
                        found@[i].x as int,
                        found@[i].y as int,
                        here.x as int,
                        here.y as int,
                    );
                    assert(found@[i] == here);
                    assert(found@.contains(here));
                } else if found@.contains(here) {
                    let i = choose|i: int| 0 <= i < found@.len() && found@[i] == here;
                    assert(self.cell_index(found@[i]) == Some(j));
                }
            }
            assert(lit@ =~= self.flags_of(found@.to_set()));
        }
        lit
    }

    /// The cells whose flag is set, by ascending index.
    pub fn cells_marked(&self, flags: &Vec<bool>) -> (cells: Vec<Position>)
        requires
            self.wf(),
            flags@.len() == self.size(),
        ensures
            cells@ == self.marked(flags@, self.size()),
    {
        let n = self.tiles.len();
        let mut cells: Vec<Position> = Vec::new();
        let mut idx: usize = 0;
        while idx < n
            invariant
                self.wf(),
                n == self.size(),
                flags@.len() == n,
                idx <= n,
                cells@ == self.marked(flags@, idx as int),
            decreases n - idx,
        {
            if flags[idx] {
                let here = self.pos_from_idx(idx);
                cells.push(here);
            }
            idx += 1;
        }
        cells
    }

    /// For each cell, whether it is visible from `origin` within `range`.
    pub fn lit_from(&self, origin: Position, range: i32) -> (lit: Vec<bool>)
        requires
            self.wf(),
        ensures
            lit@ == self.glow(origin, range as int),
    {
        if self.is_inside_map(origin.x, origin.y) && -MAX_SIGHT <= range && range <= MAX_SIGHT {
            let found = field_of_view(self, origin, range);
            self.flags_for(&found)
        } else {
            let n = self.tiles.len();
            let mut lit: Vec<bool> = Vec::new();
            let mut i: usize = 0;
            while i < n
                invariant
                    i <= n,
                    lit@.len() == i,
                    forall|j: int| 0 <= j < i ==> !lit@[j],
                decreases n - i,
            {
                lit.push(false);
                i += 1;
            }
            assert(lit@ =~= self.glow(origin, range as int));
            lit
        }
    }

    /// The field of view from `origin` within `range`.
    pub fn visible_from(&self, origin: Position, range: i32) -> (cells: Vec<Position>)
        requires
            self.wf(),
        ensures
            cells@ == self.view_from(origin, range as int),
    {
        let lit = self.lit_from(origin, range);
        self.cells_marked(&lit)
    }

    /// The cell with the index `j` lies on the map, and `j` is its index.
    pub proof fn lemma_cell_round_trip(&self, j: int)
        requires
            self.wf(),
            0 <= j < self.size(),
        ensures
            self.cell_index(self.cell(j)) == Some(j),
    {
        let q = j / self.width as int;
        let r = j % self.width as int;
        vstd::arithmetic::div_mod::lemma_fundamental_div_mod(j, self.width as int);
        assert(0 <= q < self.height) by (nonlinear_arith)
            requires
                0 < self.width,
                0 <= j < self.width * self.height,
                j == self.width * q + r,
                0 <= r < self.width,
        ;
        assert(self.width * q == q * self.width) by (nonlinear_arith);
    }

    /// Every cell of `marked` lies on the map and carries a set flag.
    pub proof fn lemma_marked_cells(&self, flags: Seq<bool>, k: int, i: int)
        requires
            self.wf(),
            flags.len() == self.size(),
            0 <= k <= self.size(),
            0 <= i < self.marked(flags, k).len(),
        ensures
            self.cell_index(self.marked(flags, k)[i]).is_some(),
            0 <= self.cell_index(self.marked(flags, k)[i]).unwrap() < k,
            flags[self.cell_index(self.marked(flags, k)[i]).unwrap()],
        decreases k,
    {
        if k > 0 {
            let rest = self.marked(flags, k - 1);
            if flags[k - 1] && i == rest.len() {
                self.lemma_cell_round_trip(k - 1);
            } else {
                self.lemma_marked_cells(flags, k - 1, i);
            }
        }
    }
}

} // verus!
