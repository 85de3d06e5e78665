//! The factories of the entities, and the filling of rooms.

use vstd::prelude::*;
use rltk::RandomNumberGenerator;
use crate::components::{
    AreaOfEffect, BlocksTile, CombatStats, Confusion, Consumable, Entity, InflictsDamage, Item,
    Monster, Name, Player, Position, ProvidesHealing, Ranged, Renderable, Rgb, Viewshed,
};
use crate::map::{TileMap, TileType};
use crate::random::{range, roll_dice};
use crate::rect::Rect;
use crate::world::{EntityData, Slots, World};

verus! {

pub const MAX_MONSTERS: i32 = 4;

pub const MIN_MONSTERS: i32 = 0;

pub const MAX_ITEMS: i32 = 2;

pub const MIN_ITEMS: i32 = 0;

/// How many cells are drawn for one spawn point before it is given up.
pub const MAX_DRAWS: u32 = 100000;

pub open spec fn black() -> Rgb {
    Rgb { r: 0, g: 0, b: 0 }
}

/// Is `after` the world `before` with one more entity, whose record is `d`?
pub open spec fn one_more(before: Slots, after: Slots, e: Entity, d: EntityData) -> bool {
    &&& e.id == before.len()
    &&& after.len() == before.len() + 1
    &&& after[e.id as int] == d
    &&& forall|j: int| 0 <= j < before.len() ==> #[trigger] after[j] == before[j]
}

/// Does the record carry this name and a view of this range that is yet to
/// be computed?
pub open spec fn named(d: EntityData, name: Seq<char>) -> bool {
    d.name.is_some() && d.name.unwrap().name@ == name
}

pub open spec fn unseeing(d: EntityData, range: int) -> bool {
    &&& d.viewshed.is_some()
    &&& d.viewshed.unwrap().visible_tiles@.len() == 0
    &&& d.viewshed.unwrap().range == range
    &&& d.viewshed.unwrap().dirty
}

/// Is this the record of a fresh player at `pos`?
pub open spec fn is_player(d: EntityData, pos: Position) -> bool {
    &&& named(d, "Player"@)
    &&& unseeing(d, 8)
    &&& d == (EntityData {
        name: d.name,
        viewshed: d.viewshed,
        player: Some(Player {  }),
        position: Some(pos),
        renderable: Some(
            Renderable { glyph: 64, fg: Rgb { r: 254, g: 231, b: 97 }, bg: black(), index: 100 },
        ),
        combat_stats: Some(CombatStats { max_hp: 30, hp: 30, defense: 2, power: 5 }),
        ..EntityData::spec_blank()
    })
}

/// Is this the record of a fresh monster at `pos`?
pub open spec fn is_monster(d: EntityData, pos: Position, glyph: u8, name: Seq<char>) -> bool {
    &&& named(d, name)
    &&& unseeing(d, 8)
    &&& d == (EntityData {
        name: d.name,
        viewshed: d.viewshed,
        monster: Some(Monster {  }),
        blocks_tile: Some(BlocksTile {  }),
        position: Some(pos),
        renderable: Some(
            Renderable { glyph, fg: Rgb { r: 228, g: 59, b: 68 }, bg: black(), index: 10 },
        ),
        combat_stats: Some(CombatStats { max_hp: 16, hp: 16, defense: 1, power: 3 }),
        ..EntityData::spec_blank()
    })
}

/// The part that all items share: a name, a position, a glyph, and the
/// marks of an item that is used up by its use.
pub open spec fn item_base(d: EntityData, pos: Position, glyph: u8, fg: Rgb) -> EntityData {
    EntityData {
        name: d.name,
        position: Some(pos),
        renderable: Some(Renderable { glyph, fg, bg: black(), index: 10 }),
        item: Some(Item {  }),
        consumable: Some(Consumable {  }),
        ..EntityData::spec_blank()
    }
}

pub open spec fn is_health_potion(d: EntityData, pos: Position) -> bool {
    &&& named(d, "Health Potion"@)
    &&& d == (EntityData {
        provides_healing: Some(ProvidesHealing { heal_amount: 8 }),
        ..item_base(d, pos, 173, Rgb { r: 255, g: 0, b: 255 })
    })
}

pub open spec fn is_magic_missile_scroll(d: EntityData, pos: Position) -> bool {
    &&& named(d, "Magic Missile Scroll"@)
    &&& d == (EntityData {
        ranged: Some(Ranged { range: 6 }),
        inflicts_damage: Some(InflictsDamage { damage: 8 }),
        ..item_base(d, pos, 83, Rgb { r: 0, g: 255, b: 255 })
    })
}

pub open spec fn is_fireball_scroll(d: EntityData, pos: Position) -> bool {
    &&& named(d, "Fireball Scroll"@)
    &&& d == (EntityData {
        ranged: Some(Ranged { range: 6 }),
        inflicts_damage: Some(InflictsDamage { damage: 20 }),
        area_of_effect: Some(AreaOfEffect { radius: 3 }),
        ..item_base(d, pos, 83, Rgb { r: 255, g: 165, b: 0 })
    })
}

pub open spec fn is_confusion_scroll(d: EntityData, pos: Position) -> bool {
    &&& named(d, "Confusion Scroll"@)
    &&& d == (EntityData {
        ranged: Some(Ranged { range: 6 }),
        area_of_effect: Some(AreaOfEffect { radius: 3 }),
        confusion: Some(Confusion { turns: 4 }),
        ..item_base(d, pos, 83, Rgb { r: 255, g: 255, b: 240 })
    })
}

/// Is this the record of one of the monsters that rooms are filled with?
pub open spec fn is_any_monster(d: EntityData, pos: Position) -> bool {
    is_monster(d, pos, 111, "Orc"@) || is_monster(d, pos, 103, "Goblin"@)
}

/// Is this the record of one of the items that rooms are filled with?
pub open spec fn is_any_item(d: EntityData, pos: Position) -> bool {
    is_health_potion(d, pos) || is_fireball_scroll(d, pos) || is_confusion_scroll(d, pos)
        || is_magic_missile_scroll(d, pos)
}

/// Spawns the player and returns its handle.
pub fn player(world: &mut World, initial_player_pos: Position) -> (e: Entity)
    ensures
        one_more(old(world)@, final(world)@, e, final(world)@[e.id as int]),
        is_player(final(world)@[e.id as int], initial_player_pos),
{
    let e = world.create();
    world.slots[e.id].player = Some(Player {  });
    world.slots[e.id].position = Some(initial_player_pos);
    world.slots[e.id].renderable = Some(
        Renderable {
            glyph: 64,
            fg: Rgb { r: 254, g: 231, b: 97 },
            bg: Rgb { r: 0, g: 0, b: 0 },
            index: 100,
        },
    );
    world.slots[e.id].name = Some(Name { name: "Player".to_owned() });
    world.slots[e.id].viewshed = Some(Viewshed { visible_tiles: Vec::new(), range: 8, dirty: true });
    world.slots[e.id].combat_stats = Some(CombatStats { max_hp: 30, hp: 30, defense: 2, power: 5 });
    e
}

fn monster(world: &mut World, pos: Position, glyph: u8, name: &str) -> (e: Entity)
    ensures
        one_more(old(world)@, final(world)@, e, final(world)@[e.id as int]),
        is_monster(final(world)@[e.id as int], pos, glyph, name@),
{
    let e = world.create();
    world.slots[e.id].position = Some(pos);
    world.slots[e.id].renderable = Some(
        Renderable {
            glyph,
            fg: Rgb { r: 228, g: 59, b: 68 },
            bg: Rgb { r: 0, g: 0, b: 0 },
            index: 10,
        },
    );
    world.slots[e.id].viewshed = Some(Viewshed { visible_tiles: Vec::new(), range: 8, dirty: true });
    world.slots[e.id].monster = Some(Monster {  });
    world.slots[e.id].name = Some(Name { name: name.to_owned() });
    world.slots[e.id].blocks_tile = Some(BlocksTile {  });
    world.slots[e.id].combat_stats = Some(CombatStats { max_hp: 16, hp: 16, defense: 1, power: 3 });
    e
}

fn orc(world: &mut World, pos: Position)
    ensures
        one_more(
            old(world)@,
            final(world)@,
            Entity { id: old(world)@.len() as usize },
            final(world)@[old(world)@.len() as int],
        ),
        is_monster(final(world)@[old(world)@.len() as int], pos, 111, "Orc"@),
{
    monster(world, pos, 111, "Orc");
}

fn goblin(world: &mut World, pos: Position)
    ensures
        one_more(
            old(world)@,
            final(world)@,
            Entity { id: old(world)@.len() as usize },
            final(world)@[old(world)@.len() as int],
        ),
        is_monster(final(world)@[old(world)@.len() as int], pos, 103, "Goblin"@),
{
    monster(world, pos, 103, "Goblin");
}

/// Spawns the monster that goes with the throw `roll` of a die with two
/// faces: an orc for a 1, a goblin for anything else.
pub fn monster_for(world: &mut World, roll: i32, pos: Position)
    ensures
        one_more(
            old(world)@,
            final(world)@,
            Entity { id: old(world)@.len() as usize },
            final(world)@[old(world)@.len() as int],
        ),
        roll == 1 ==> is_monster(final(world)@[old(world)@.len() as int], pos, 111, "Orc"@),
        roll != 1 ==> is_monster(final(world)@[old(world)@.len() as int], pos, 103, "Goblin"@),
{
    if roll == 1 {
        orc(world, pos)
    } else {
        goblin(world, pos)
    }
}

/// Spawns an orc or a goblin at `pos`, by the throw of a die.
pub fn random_monster(world: &mut World, rng: &mut RandomNumberGenerator, pos: Position)
    ensures
        one_more(
            old(world)@,
            final(world)@,
            Entity { id: old(world)@.len() as usize },
            final(world)@[old(world)@.len() as int],
        ),
        is_any_monster(final(world)@[old(world)@.len() as int], pos),
{
    let roll = roll_dice(rng, 1, 2);
    monster_for(world, roll, pos);
}

fn item(world: &mut World, pos: Position, glyph: u8, fg: Rgb, name: &str) -> (e: Entity)
    ensures
        one_more(old(world)@, final(world)@, e, final(world)@[e.id as int]),
        named(final(world)@[e.id as int], name@),
        final(world)@[e.id as int] == item_base(final(world)@[e.id as int], pos, glyph, fg),
{
    let e = world.create();
    world.slots[e.id].position = Some(pos);
    world.slots[e.id].renderable = Some(
        Renderable { glyph, fg, bg: Rgb { r: 0, g: 0, b: 0 }, index: 10 },
    );
    world.slots[e.id].name = Some(Name { name: name.to_owned() });
    world.slots[e.id].item = Some(Item {  });
    world.slots[e.id].consumable = Some(Consumable {  });
    e
}

fn health_potion(world: &mut World, pos: Position)
    ensures
        one_more(
            old(world)@,
            final(world)@,
            Entity { id: old(world)@.len() as usize },
            final(world)@[old(world)@.len() as int],
        ),
        is_health_potion(final(world)@[old(world)@.len() as int], pos),
{
    let e = item(world, pos, 173, Rgb { r: 255, g: 0, b: 255 }, "Health Potion");
    world.slots[e.id].provides_healing = Some(ProvidesHealing { heal_amount: 8 });
}

fn magic_missile_scroll(world: &mut World, pos: Position)
    ensures
        one_more(
            old(world)@,
            final(world)@,
            Entity { id: old(world)@.len() as usize },
            final(world)@[old(world)@.len() as int],
        ),
        is_magic_missile_scroll(final(world)@[old(world)@.len() as int], pos),
{
    let e = item(world, pos, 83, Rgb { r: 0, g: 255, b: 255 }, "Magic Missile Scroll");
    world.slots[e.id].ranged = Some(Ranged { range: 6 });
    world.slots[e.id].inflicts_damage = Some(InflictsDamage { damage: 8 });
}

fn fireball_scroll(world: &mut World, pos: Position)
    ensures
        one_more(
            old(world)@,
            final(world)@,
            Entity { id: old(world)@.len() as usize },
            final(world)@[old(world)@.len() as int],
        ),
        is_fireball_scroll(final(world)@[old(world)@.len() as int], pos),
{
    let e = item(world, pos, 83, Rgb { r: 255, g: 165, b: 0 }, "Fireball Scroll");
    world.slots[e.id].ranged = Some(Ranged { range: 6 });
    world.slots[e.id].inflicts_damage = Some(InflictsDamage { damage: 20 });
    world.slots[e.id].area_of_effect = Some(AreaOfEffect { radius: 3 });
}

fn confusion_scroll(world: &mut World, pos: Position)
    ensures
        one_more(
            old(world)@,
            final(world)@,
            Entity { id: old(world)@.len() as usize },
            final(world)@[old(world)@.len() as int],
        ),
        is_confusion_scroll(final(world)@[old(world)@.len() as int], pos),
{
    let e = item(world, pos, 83, Rgb { r: 255, g: 255, b: 240 }, "Confusion Scroll");
    world.slots[e.id].ranged = Some(Ranged { range: 6 });
    world.slots[e.id].area_of_effect = Some(AreaOfEffect { radius: 3 });
    world.slots[e.id].confusion = Some(Confusion { turns: 4 });
}

/// Spawns the item that goes with the throw `roll` of a die with four
/// faces: a health potion for a 1, a fireball scroll for a 2, a confusion
/// scroll for a 3, a magic missile scroll for anything else.
pub fn item_for(world: &mut World, roll: i32, pos: Position)
    ensures
        one_more(
            old(world)@,
            final(world)@,
            Entity { id: old(world)@.len() as usize },
            final(world)@[old(world)@.len() as int],
        ),
        roll == 1 ==> is_health_potion(final(world)@[old(world)@.len() as int], pos),
        roll == 2 ==> is_fireball_scroll(final(world)@[old(world)@.len() as int], pos),
        roll == 3 ==> is_confusion_scroll(final(world)@[old(world)@.len() as int], pos),
        !(1 <= roll <= 3) ==> is_magic_missile_scroll(final(world)@[old(world)@.len() as int], pos),
{
    if roll == 1 {
        health_potion(world, pos)
    } else if roll == 2 {
        fireball_scroll(world, pos)
    } else if roll == 3 {
        confusion_scroll(world, pos)
    } else {
        magic_missile_scroll(world, pos)
    }
}

/// Spawns one of the four items at `pos`, by the throw of a die.
pub fn random_item(world: &mut World, rng: &mut RandomNumberGenerator, pos: Position)
    ensures
        one_more(
            old(world)@,
            final(world)@,
            Entity { id: old(world)@.len() as usize },
            final(world)@[old(world)@.len() as int],
        ),
        is_any_item(final(world)@[old(world)@.len() as int], pos),
{
    let roll = roll_dice(rng, 1, 4);
    item_for(world, roll, pos);
}

/// Is `idx` the index of a cell of the floor of `room`?
pub open spec fn in_room(map: &TileMap, room: Rect, idx: int) -> bool {
    exists|x: int, y: int| room.covers(x, y) && map.in_bounds(x, y) && idx == #[trigger] map.index(x, y)
}

/// Are these spawn points of `room`: at most `most` cells of its floor, no
/// cell twice?
pub open spec fn spawn_points(map: &TileMap, room: Rect, points: Seq<usize>, most: int) -> bool {
    &&& points.len() <= most
    &&& points.no_duplicates()
    &&& forall|i: int| 0 <= i < points.len() ==> in_room(map, room, #[trigger] points[i] as int)
}

/// Takes the cell `idx` as a spawn point unless it is one already or, with
/// `floor_only`, its tile is no floor.
pub fn take_point(points: &mut Vec<usize>, idx: usize, map: &TileMap, floor_only: bool) -> (taken: bool)
    requires
        idx < map.tiles@.len(),
    ensures
        taken == (!old(points)@.contains(idx) && (!floor_only || map.tiles@[idx as int] == TileType::Floor)),
        final(points)@ == (if taken {
            old(points)@.push(idx)
        } else {
            old(points)@
        }),
{
    if !holds(points, idx) && (!floor_only || map.tiles[idx] == TileType::Floor) {
        points.push(idx);
        true
    } else {
        false
    }
}

/// Has `room` a floor, and does the room lie on the map?
pub open spec fn proper(map: &TileMap, room: Rect) -> bool {
    0 <= room.x1 < room.x2 < map.width && 0 <= room.y1 < room.y2 < map.height
}

/// The cell of the floor of `room` that two throws lead to: `right` columns
/// to the right of its first column, `down` rows below its first row.
pub fn spawn_cell(room: &Rect, map: &TileMap, right: i32, down: i32) -> (idx: usize)
    requires
        map.wf(),
        proper(map, *room),
        1 <= right <= room.x2 - room.x1,
        1 <= down <= room.y2 - room.y1,
    ensures
        idx == map.index(room.x1 + right, room.y1 + down),
        idx < map.size(),
        in_room(map, *room, idx as int),
{
    let x = room.x1 + right;
    let y = room.y1 + down;
    let idx = map.xy_idx(x, y);
    assert(room.covers(x as int, y as int) && idx == map.index(x as int, y as int));
    idx
}

/// Draws up to `wanted` cells of the floor of `room`, no cell twice. With
/// `floor_only`, cells whose tile is no floor are left out. A cell that is
/// not found in `MAX_DRAWS` draws is given up. No cell is drawn where none
/// is wanted or the room is not proper. The first cell drawn is always
/// taken unless it has to be floor.
pub fn draw_points(
    rng: &mut RandomNumberGenerator,
    room: &Rect,
    map: &TileMap,
    wanted: i32,
    floor_only: bool,
) -> (points: Vec<usize>)
    requires
        map.wf(),
        wanted <= MAX_MONSTERS,
    ensures
        spawn_points(map, *room, points@, if wanted < 0 { 0 } else { wanted as int }),
        floor_only ==> forall|i: int|
            0 <= i < points@.len() ==> map.tiles@[#[trigger] points@[i] as int] == TileType::Floor,
        forall|i: int| 0 <= i < points@.len() ==> #[trigger] points@[i] < map.size(),
        wanted <= 0 || !proper(map, *room) ==> points@.len() == 0,
        wanted >= 1 && proper(map, *room) && !floor_only ==> points@.len() >= 1,
{
    let mut points: Vec<usize> = Vec::new();
    if !(0 <= room.x1 && room.x1 < room.x2 && room.x2 < map.width && 0 <= room.y1 && room.y1
        < room.y2 && room.y2 < map.height) {
        return points;
    }
    let mut n: i32 = 0;
    while n < wanted
        invariant
            map.wf(),
            0 <= n,
            n <= wanted || n == 0,
            wanted <= MAX_MONSTERS,
            proper(map, *room),
            spawn_points(map, *room, points@, n as int),
            floor_only ==> forall|i: int|
                0 <= i < points@.len() ==> map.tiles@[#[trigger] points@[i] as int] == TileType::Floor,
            forall|i: int| 0 <= i < points@.len() ==> #[trigger] points@[i] < map.size(),
            n >= 1 && !floor_only ==> points@.len() >= 1,
        decreases wanted - n,
    {
        let mut added = false;
        let mut draws: u32 = 0;
        while !added && draws < MAX_DRAWS
            invariant
                map.wf(),
                0 <= n < wanted,
                wanted <= MAX_MONSTERS,
                proper(map, *room),
                spawn_points(map, *room, points@, if added { n + 1 } else { n as int }),
                floor_only ==> forall|i: int|
                    0 <= i < points@.len() ==> map.tiles@[#[trigger] points@[i] as int] == TileType::Floor,
                forall|i: int| 0 <= i < points@.len() ==> #[trigger] points@[i] < map.size(),
                n >= 1 && !floor_only ==> points@.len() >= 1,
                n == 0 && !floor_only ==> (if added { points@.len() >= 1 } else { draws == 0 }),
            decreases MAX_DRAWS - draws + (if added { 0int } else { 1int }),
        {
            draws += 1;
            let right = roll_dice(rng, 1, room.x2 - room.x1);
            let down = roll_dice(rng, 1, room.y2 - room.y1);
            let idx = spawn_cell(room, map, right, down);
            let ghost before = points@;
            if take_point(&mut points, idx, map, floor_only) {
                added = true;
                proof {
                    assert forall|i: int| 0 <= i < points@.len() implies in_room(
                        map,
                        *room,
                        #[trigger] points@[i] as int,
                    ) by {
                        if i < before.len() {
                            assert(points@[i] == before[i]);
                        }
                    }
                    assert forall|i: int, j: int|
                        0 <= i < points@.len() && 0 <= j < points@.len() && i != j implies points@[i]
                        != points@[j] by {
                        if i < before.len() {
                            assert(before.contains(before[i]));
                        }
                        if j < before.len() {
                            assert(before.contains(before[j]));
                        }
                    }
                }
            }
        }
        n += 1;
    }
    points
}

fn holds(points: &Vec<usize>, idx: usize) -> (r: bool)
    ensures
        r == points@.contains(idx),
{
    let mut k: usize = 0;
    while k < points.len()
        invariant
            k <= points@.len(),
            forall|j: int| 0 <= j < k ==> points@[j] != idx,
        decreases points@.len() - k,
    {
        if points[k] == idx {
            return true;
        }
        k += 1;
    }
    false
}

/// Draws how many monsters the room gets, and a floor tile for each. A room
/// that is not proper gets none.
fn generate_monsters_for_room(rng: &mut RandomNumberGenerator, room: &Rect, map: &TileMap) -> (points:
    Vec<usize>)
    requires
        map.wf(),
    ensures
        spawn_points(map, *room, points@, MAX_MONSTERS as int),
        forall|i: int| 0 <= i < points@.len() ==> map.tiles@[#[trigger] points@[i] as int] == TileType::Floor,
        forall|i: int| 0 <= i < points@.len() ==> #[trigger] points@[i] < map.size(),
        !proper(map, *room) ==> points@.len() == 0,
{
    let num_monsters = range(rng, MIN_MONSTERS, MAX_MONSTERS + 1);
    draw_points(rng, room, map, num_monsters, true)
}

/// Draws how many items the room gets, and a cell for each. A room that is
/// not proper gets none.
fn generate_items_for_room(rng: &mut RandomNumberGenerator, room: &Rect, map: &TileMap) -> (points:
    Vec<usize>)
    requires
        map.wf(),
    ensures
        spawn_points(map, *room, points@, MAX_ITEMS as int),
        forall|i: int| 0 <= i < points@.len() ==> #[trigger] points@[i] < map.size(),
        !proper(map, *room) ==> points@.len() == 0,
{
    let num_items = range(rng, MIN_ITEMS, MAX_ITEMS + 1);
    draw_points(rng, room, map, num_items, false)
}

/// Is this the record of something that a room is filled with, placed on
/// the floor of `room`?
pub open spec fn spawned_in(map: &TileMap, room: Rect, d: EntityData) -> bool {
    &&& d.position.is_some()
    &&& map.cell_index(d.position.unwrap()).is_some()
    &&& in_room(map, room, map.cell_index(d.position.unwrap()).unwrap())
    &&& is_any_item(d, d.position.unwrap()) || (is_any_monster(d, d.position.unwrap())
        && map.tiles@[map.cell_index(d.position.unwrap()).unwrap()] == TileType::Floor)
}

/// Is `after` the world `before` with entities added behind it, each of
/// which satisfies `ok`?
pub open spec fn grown(before: Slots, after: Slots, ok: spec_fn(EntityData) -> bool) -> bool {
    &&& before.len() <= after.len()
    &&& forall|j: int| 0 <= j < before.len() ==> #[trigger] after[j] == before[j]
    &&& forall|j: int| before.len() <= j < after.len() ==> ok(#[trigger] after[j])
}

/// Is `after` the world `before` with one monster for each of `monsters`,
/// in their order and each on its cell, and behind them one item for each of
/// `items`, in their order and each on its cell?
pub open spec fn placed(map: &TileMap, before: Slots, after: Slots, monsters: Seq<usize>, items: Seq<usize>) -> bool {
    &&& after.len() == before.len() + monsters.len() + items.len()
    &&& forall|j: int| 0 <= j < before.len() ==> #[trigger] after[j] == before[j]
    &&& forall|k: int|
        0 <= k < monsters.len() ==> is_any_monster(
            #[trigger] after[before.len() + k],
            map.cell(monsters[k] as int),
        )
    &&& forall|k: int|
        0 <= k < items.len() ==> is_any_item(
            #[trigger] after[before.len() + monsters.len() + k],
            map.cell(items[k] as int),
        )
}

/// Spawns a monster on each of the cells `monsters`, then an item on each
/// of the cells `items`. Which monster and which item is drawn.
pub fn fill_room(
    world: &mut World,
    rng: &mut RandomNumberGenerator,
    map: &TileMap,
    monsters: &Vec<usize>,
    items: &Vec<usize>,
)
    requires
        map.wf(),
        forall|i: int| 0 <= i < monsters@.len() ==> #[trigger] monsters@[i] < map.size(),
        forall|i: int| 0 <= i < items@.len() ==> #[trigger] items@[i] < map.size(),
    ensures
        placed(map, old(world)@, final(world)@, monsters@, items@),
{
    let ghost start = old(world)@;
    let mut k: usize = 0;
    while k < monsters.len()
        invariant
            map.wf(),
            k <= monsters@.len(),
            forall|i: int| 0 <= i < monsters@.len() ==> #[trigger] monsters@[i] < map.size(),
            placed(map, start, world@, monsters@.subrange(0, k as int), Seq::<usize>::empty()),
        decreases monsters@.len() - k,
    {
        let pos = map.pos_from_idx(monsters[k]);
        let ghost before = world@;
        let ghost done = monsters@.subrange(0, k as int);
        let ghost more = monsters@.subrange(0, k + 1);
        random_monster(world, rng, pos);
        proof {
            assert forall|c: int| 0 <= c < more.len() implies is_any_monster(
                #[trigger] world@[start.len() + c],
                map.cell(more[c] as int),
            ) by {
                if c < k {
                    assert(world@[start.len() + c] == before[start.len() + c]);
                    assert(more[c] == done[c]);
                }
            }
            assert forall|j: int| 0 <= j < start.len() implies #[trigger] world@[j] == start[j] by {
                assert(world@[j] == before[j]);
            }
        }
        k += 1;
    }
    assert(monsters@.subrange(0, k as int) =~= monsters@);
    let ghost mid = world@;
    let mut k: usize = 0;
    while k < items.len()
        invariant
            map.wf(),
            k <= items@.len(),
            forall|i: int| 0 <= i < items@.len() ==> #[trigger] items@[i] < map.size(),
            placed(map, start, world@, monsters@, items@.subrange(0, k as int)),
        decreases items@.len() - k,
    {
        let pos = map.pos_from_idx(items[k]);
        let ghost before = world@;
        let ghost done = items@.subrange(0, k as int);
        let ghost more = items@.subrange(0, k + 1);
        random_item(world, rng, pos);
        proof {
            assert forall|c: int| 0 <= c < more.len() implies is_any_item(
                #[trigger] world@[start.len() + monsters@.len() + c],
                map.cell(more[c] as int),
            ) by {
                if c < k {
                    assert(world@[start.len() + monsters@.len() + c] == before[start.len() + monsters@.len()
                        + c]);
                    assert(more[c] == done[c]);
                }
            }
            assert forall|c: int| 0 <= c < monsters@.len() implies is_any_monster(
                #[trigger] world@[start.len() + c],
                map.cell(monsters@[c] as int),
            ) by {
                assert(world@[start.len() + c] == before[start.len() + c]);
            }
            assert forall|j: int| 0 <= j < start.len() implies #[trigger] world@[j] == start[j] by {
                assert(world@[j] == before[j]);
            }
        }
        k += 1;
    }
    assert(items@.subrange(0, k as int) =~= items@);
}

/// Were these the spawn points of `room`: up to `MAX_MONSTERS` floor tiles
/// for monsters, no tile twice, and up to `MAX_ITEMS` cells for items, no
/// cell twice, all on the floor of the room?
pub open spec fn drawn_for(map: &TileMap, room: Rect, monsters: Seq<usize>, items: Seq<usize>) -> bool {
    &&& spawn_points(map, room, monsters, MAX_MONSTERS as int)
    &&& forall|i: int|
        0 <= i < monsters.len() ==> #[trigger] monsters[i] < map.size() && map.tiles@[monsters[i] as int]
            == TileType::Floor
    &&& spawn_points(map, room, items, MAX_ITEMS as int)
    &&& forall|i: int| 0 <= i < items.len() ==> #[trigger] items[i] < map.size()
}

/// What filling `room` makes of the entities: for some spawn points of the
/// room, first the monsters, one on each of their tiles, then the items, one
/// on each of their cells. A room that is not proper gets nothing.
pub open spec fn room_filled(map: &TileMap, room: Rect, before: Slots, after: Slots) -> bool {
    &&& exists|monsters: Seq<usize>, items: Seq<usize>|
        drawn_for(map, room, monsters, items) && #[trigger] placed(map, before, after, monsters, items)
    &&& !proper(map, room) ==> after == before
}

/// Fills a room: up to `MAX_MONSTERS` monsters, each on a floor tile of its
/// own, and behind them up to `MAX_ITEMS` items, each on a cell of its own.
pub fn spawn_room(world: &mut World, rng: &mut RandomNumberGenerator, room: &Rect, map: &TileMap)
    requires
        map.wf(),
    ensures
        room_filled(map, *room, old(world)@, final(world)@),
        grown(old(world)@, final(world)@, |d: EntityData| spawned_in(map, *room, d)),
        final(world)@.len() <= old(world)@.len() + MAX_MONSTERS + MAX_ITEMS,
{
    let monster_spawn_points = generate_monsters_for_room(rng, room, map);
    let item_spawn_points = generate_items_for_room(rng, room, map);
    fill_room(world, rng, map, &monster_spawn_points, &item_spawn_points);
    proof {
        let before = old(world)@;
        let monsters = monster_spawn_points@;
        let items = item_spawn_points@;
        assert(drawn_for(map, *room, monsters, items));
        assert(placed(map, before, world@, monsters, items));
        if !proper(map, *room) {
            assert(world@ =~= before);
        }
        assert forall|j: int| before.len() <= j < world@.len() implies spawned_in(
            map,
            *room,
            #[trigger] world@[j],
        ) by {
            let k = j - before.len();
            if k < monsters.len() {
                assert(is_any_monster(world@[before.len() + k], map.cell(monsters[k] as int)));
                map.lemma_cell_round_trip(monsters[k] as int);
                assert(in_room(map, *room, monsters[k] as int));
            } else {
                let c = k - monsters.len();
                assert(is_any_item(world@[before.len() + monsters.len() + c], map.cell(items[c] as int)));
                map.lemma_cell_round_trip(items[c] as int);
                assert(in_room(map, *room, items[c] as int));
            }
        }
    }
}

/// Is this the record of something that the rooms of `map` but the first
/// are filled with?
pub open spec fn spawned_on(map: &TileMap, d: EntityData) -> bool {
    exists|r: int| 1 <= r < map.rooms@.len() && spawned_in(map, #[trigger] map.rooms@[r], d)
}

/// What filling the rooms behind the first, up to the room `r`, makes of
/// the entities: each of these rooms is filled in its turn. Where there is
/// no such room, nothing changes.
pub open spec fn rooms_filled(map: &TileMap, before: Slots, after: Slots, r: int) -> bool
    decreases r,
{
    if r <= 1 {
        after == before
    } else {
        exists|mid: Slots|
            rooms_filled(map, before, mid, r - 1) && #[trigger] room_filled(
                map,
                map.rooms@[r - 1],
                mid,
                after,
            )
    }
}

/// Fills every room but the first, which is the player's, in the order of
/// the rooms.
pub fn spawn_map_rooms(world: &mut World, rng: &mut RandomNumberGenerator, map: &TileMap)
    requires
        map.wf(),
    ensures
        rooms_filled(map, old(world)@, final(world)@, map.rooms@.len() as int),
        grown(old(world)@, final(world)@, |d: EntityData| spawned_on(map, d)),
{
    let ok = Ghost(|d: EntityData| spawned_on(map, d));
    let mut r: usize = 1;
    while r < map.rooms.len()
        invariant
            map.wf(),
            1 <= r,
            r <= map.rooms@.len() || r == 1,
            ok@ == (|d: EntityData| spawned_on(map, d)),
            grown(old(world)@, world@, ok@),
            rooms_filled(map, old(world)@, world@, r as int),
        decreases map.rooms@.len() - r,
    {
        let ghost before = world@;
        spawn_room(world, rng, &map.rooms[r], map);
        proof {
            assert forall|j: int| old(world)@.len() <= j < world@.len() implies (ok@)(
                #[trigger] world@[j],
            ) by {
                if j < before.len() {
                    assert(world@[j] == before[j]);
                } else {
                    assert(spawned_in(map, map.rooms@[r as int], world@[j]));
                }
            }
            assert(rooms_filled(map, old(world)@, world@, r + 1)) by {
                assert(rooms_filled(map, old(world)@, before, (r + 1) - 1) && room_filled(
                    map,
                    map.rooms@[(r + 1) - 1],
                    before,
                    world@,
                ));
            }
        }
        r += 1;
    }
    proof {
        if map.rooms@.len() == 0 {
            assert(rooms_filled(map, old(world)@, world@, 1));
            assert(rooms_filled(map, old(world)@, world@, 0));
        }
    }
}

} // verus!
