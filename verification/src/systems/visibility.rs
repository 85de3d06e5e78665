//! Visibility: what each entity sees, and what the player has seen of the map.

use vstd::prelude::*;
use crate::components::Viewshed;
use crate::map::TileMap;
use crate::world::{EntityData, Slots, World};

verus! {

/// Is this the record of an entity whose view is out of date?
pub open spec fn looks_anew(d: EntityData) -> bool {
    d.live && d.viewshed.is_some() && d.position.is_some() && d.viewshed.unwrap().dirty
}

/// What a visibility pass makes of a record: an entity whose view is out of
/// date sees the field of view from its position within its range, and its
/// view is up to date. Nothing else changes.
pub open spec fn refreshed(map: &TileMap, before: EntityData, after: EntityData) -> bool {
    if looks_anew(before) {
        &&& after == (EntityData { viewshed: after.viewshed, ..before })
        &&& after.viewshed.is_some()
        &&& after.viewshed.unwrap().range == before.viewshed.unwrap().range
        &&& !after.viewshed.unwrap().dirty
        &&& after.viewshed.unwrap().visible_tiles@ == map.view_from(
            before.position.unwrap(),
            before.viewshed.unwrap().range as int,
        )
    } else {
        after == before
    }
}

/// The visible and the revealed flags of the map once the entities with an id
/// below `k` have looked: each player whose view was out of date replaces the
/// visible flags by its own field of view and adds it to the revealed flags.
pub open spec fn shown(map: &TileMap, w: Slots, k: int) -> (Seq<bool>, Seq<bool>)
    decreases k,
{
    if k <= 0 {
        (map.visible_tiles@, map.revealed_tiles@)
    } else {
        let prev = shown(map, w, k - 1);
        if k <= w.len() && looks_anew(w[k - 1]) && w[k - 1].player.is_some() {
            let lit = map.glow(w[k - 1].position.unwrap(), w[k - 1].viewshed.unwrap().range as int);
            (lit, Seq::new(lit.len(), |j: int| prev.1[j] || lit[j]))
        } else {
            prev
        }
    }
}

/// What a visibility pass over the entities `w0` on the map `m0` leaves.
pub open spec fn visibility_post(m0: &TileMap, w0: Slots, m1: &TileMap, w1: Slots) -> bool {
    &&& *m1 == (TileMap { visible_tiles: m1.visible_tiles, revealed_tiles: m1.revealed_tiles, ..*m0 })
    &&& m1.visible_tiles@ == shown(m0, w0, w0.len() as int).0
    &&& m1.revealed_tiles@ == shown(m0, w0, w0.len() as int).1
    &&& w1.len() == w0.len()
    &&& forall|i: int| 0 <= i < w0.len() ==> refreshed(m0, #[trigger] w0[i], w1[i])
}

pub struct Visibility {}

impl Visibility {
    /// Recomputes the view of every entity whose view is out of date.
    pub fn run(&mut self, world: &mut World, map: &mut TileMap)
        requires
            old(map).wf(),
        ensures
            final(map).wf(),
            visibility_post(old(map), old(world)@, final(map), final(world)@),
    {
        let n = world.slots.len();
        let size = map.tiles.len();
        let mut i: usize = 0;
        while i < n
            invariant
                n == world@.len(),
                n == old(world)@.len(),
                size == map.size(),
                i <= n,
                map.wf(),
                *map == (TileMap {
                    visible_tiles: map.visible_tiles,
                    revealed_tiles: map.revealed_tiles,
                    ..*old(map)
                }),
                map.visible_tiles@ == shown(old(map), old(world)@, i as int).0,
                map.revealed_tiles@ == shown(old(map), old(world)@, i as int).1,
                forall|j: int| 0 <= j < i ==> refreshed(old(map), #[trigger] old(world)@[j], world@[j]),
                forall|j: int| i <= j < n ==> world@[j] == old(world)@[j],
            decreases n - i,
        {
            let mut stale: Option<i32> = None;
            if world.slots[i].live && world.slots[i].position.is_some() {
                match &world.slots[i].viewshed {
                    Some(v) => {
                        if v.dirty {
                            stale = Some(v.range);
                        }
                    },
                    None => {},
                }
            }
            if let Some(range) = stale {
                let p = world.slots[i].position.unwrap();
                let lit = map.lit_from(p, range);
                let cells = map.cells_marked(&lit);
                proof {
                    lemma_glow_by_terrain(map, old(map), p, range as int);
                    lemma_marked_by_size(map, old(map), lit@, size as int);
                }
                world.slots[i].viewshed = Some(Viewshed { visible_tiles: cells, range, dirty: false });
                if world.slots[i].player.is_some() {
                    let ghost known = map.revealed_tiles@;
                    let mut j: usize = 0;
                    while j < size
                        invariant
                            size == map.size(),
                            lit@.len() == size,
                            known.len() == size,
                            j <= size,
                            map.wf(),
                            *map == (TileMap {
                                visible_tiles: map.visible_tiles,
                                revealed_tiles: map.revealed_tiles,
                                ..*old(map)
                            }),
                            map.visible_tiles@ == shown(old(map), old(world)@, i as int).0,
                            forall|c: int| 0 <= c < j ==> #[trigger] map.revealed_tiles@[c] == (known[c] || lit@[c]),
                            forall|c: int| j <= c < size ==> #[trigger] map.revealed_tiles@[c] == known[c],
                        decreases size - j,
                    {
                        if lit[j] {
                            map.revealed_tiles[j] = true;
                        }
                        j += 1;
                    }
                    map.visible_tiles = lit;
                    assert(map.revealed_tiles@ =~= shown(old(map), old(world)@, i + 1).1);
                }
            }
            i += 1;
        }
    }
}

/// The flags of a field of view depend on the map through its size and its tiles alone.
pub proof fn lemma_glow_by_terrain(a: &TileMap, b: &TileMap, origin: crate::components::Position, range: int)
    requires
        a.width == b.width,
        a.height == b.height,
        a.tiles@ == b.tiles@,
    ensures
        a.glow(origin, range) == b.glow(origin, range),
{
    assert(a.walls() == b.walls());
    assert(a.glow(origin, range) =~= b.glow(origin, range));
}

/// The cells that a set of flags marks depend on the map through its width alone.
pub proof fn lemma_marked_by_size(a: &TileMap, b: &TileMap, flags: Seq<bool>, k: int)
    requires
        a.width == b.width,
    ensures
        a.marked(flags, k) == b.marked(flags, k),
    decreases k,
{
    if k > 0 {
        lemma_marked_by_size(a, b, flags, k - 1);
    }
}

/// Where no view is out of date, no player changes the flags of the map.
pub proof fn lemma_shown_when_settled(map: &TileMap, w: Slots, k: int)
    requires
        forall|i: int| 0 <= i < w.len() ==> !looks_anew(#[trigger] w[i]),
    ensures
        shown(map, w, k) == (map.visible_tiles@, map.revealed_tiles@),
    decreases k,
{
    if k > 0 {
        lemma_shown_when_settled(map, w, k - 1);
    }
}

/// A visibility pass over entities none of whose views is out of date
/// changes neither the entities nor the map.
pub proof fn lemma_visibility_settled(m0: &TileMap, w0: Slots, m1: &TileMap, w1: Slots)
    requires
        visibility_post(m0, w0, m1, w1),
        forall|i: int| 0 <= i < w0.len() ==> !looks_anew(#[trigger] w0[i]),
    ensures
        w1 == w0,
        m1.visible_tiles@ == m0.visible_tiles@,
        m1.revealed_tiles@ == m0.revealed_tiles@,
        (TileMap { visible_tiles: m0.visible_tiles, revealed_tiles: m0.revealed_tiles, ..*m1 }) == *m0,
{
    lemma_shown_when_settled(m0, w0, w0.len() as int);
    assert(w1 =~= w0);
}

/// Visibility is idempotent: of two passes in succession, with nothing done
/// to the entities in between, the second changes nothing.
pub proof fn lemma_visibility_idempotent(
    m0: &TileMap,
    w0: Slots,
    m1: &TileMap,
    w1: Slots,
    m2: &TileMap,
    w2: Slots,
)
    requires
        visibility_post(m0, w0, m1, w1),
        visibility_post(m1, w1, m2, w2),
    ensures
        w2 == w1,
        m2.visible_tiles@ == m1.visible_tiles@,
        m2.revealed_tiles@ == m1.revealed_tiles@,
        (TileMap { visible_tiles: m1.visible_tiles, revealed_tiles: m1.revealed_tiles, ..*m2 }) == *m1,
{
    assert forall|i: int| 0 <= i < w1.len() implies !looks_anew(#[trigger] w1[i]) by {
        assert(refreshed(m0, w0[i], w1[i]));
    }
    lemma_visibility_settled(m1, w1, m2, w2);
}

} // verus!
