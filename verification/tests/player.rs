use rltk::RandomNumberGenerator;
use rusty_roguelike::components::{
    BlocksTile, CombatStats, Entity, Item, Monster, Name, Player, Position, Viewshed,
    WantsToMelee, WantsToPickupItem,
};
use rusty_roguelike::gamelog::{GameLog, LogEntry};
use rusty_roguelike::gui::Key;
use rusty_roguelike::map::{TileMap, TileType};
use rusty_roguelike::player::{player_input, try_move, try_move_player, try_next_level, MoveOutcome};
use rusty_roguelike::state::{RunState, State};
use rusty_roguelike::systems::map_indexing::MapIndexing;
use rusty_roguelike::systems::monster_ai::AiStep;
use rusty_roguelike::systems::visibility::Visibility;
use rusty_roguelike::world::World;

fn arena(width: i32, height: i32) -> TileMap {
    let size = (width * height) as usize;
    let mut tiles = vec![TileType::Floor; size];
    for x in 0..width {
        tiles[x as usize] = TileType::Wall;
        tiles[((height - 1) * width + x) as usize] = TileType::Wall;
    }
    for y in 0..height {
        tiles[(y * width) as usize] = TileType::Wall;
        tiles[(y * width + width - 1) as usize] = TileType::Wall;
    }
    TileMap {
        tiles,
        rooms: Vec::new(),
        width,
        height,
        revealed_tiles: vec![false; size],
        visible_tiles: vec![false; size],
        blocked_tiles: vec![false; size],
        tile_content: vec![Vec::new(); size],
        depth: 1,
    }
}

fn creature(world: &mut World, name: &str, x: i32, y: i32, hp: i32) -> Entity {
    let e = world.create();
    let d = &mut world.slots[e.id];
    d.name = Some(Name { name: name.to_string() });
    d.position = Some(Position { x, y });
    d.combat_stats = Some(CombatStats { max_hp: 30, hp, defense: 2, power: 5 });
    d.blocks_tile = Some(BlocksTile {});
    d.viewshed = Some(Viewshed { visible_tiles: Vec::new(), range: 8, dirty: true });
    e
}

/// A game in which the player stands at `(x, y)` with `hp` hit points.
fn game(map: TileMap, x: i32, y: i32, hp: i32) -> State {
    let mut world = World::new();
    let player = creature(&mut world, "Player", x, y, hp);
    world.slots[player.id].player = Some(Player {});
    State {
        world,
        map,
        log: GameLog::new(),
        run_state: RunState::AwaitingInput,
        player,
        player_pos: Position { x, y },
        rng: RandomNumberGenerator::seeded(7),
        pending: AiStep::Finished,
    }
}

fn settle(gs: &mut State) {
    MapIndexing {}.run(&mut gs.map, &gs.world);
    Visibility {}.run(&mut gs.world, &mut gs.map);
}

fn hp(gs: &State, e: Entity) -> i32 {
    gs.world.slots[e.id].combat_stats.unwrap().hp
}

#[test]
fn a_step_onto_free_floor() {
    let mut gs = game(arena(9, 7), 2, 2, 30);
    settle(&mut gs);
    try_move_player(1, 0, &mut gs);
    let me = &gs.world.slots[gs.player.id];
    assert_eq!(me.position, Some(Position { x: 3, y: 2 }));
    assert!(me.viewshed.as_ref().unwrap().dirty);
    assert_eq!(gs.player_pos, Position { x: 3, y: 2 });
    assert!(me.wants_to_melee.is_none());
    try_move_player(-1, 1, &mut gs);
    assert_eq!(gs.player_pos, Position { x: 2, y: 3 });
}

#[test]
fn a_step_into_a_wall_or_off_the_map_is_not_taken() {
    let mut gs = game(arena(9, 7), 1, 1, 30);
    settle(&mut gs);
    let before = gs.world.slots.clone();
    try_move_player(-1, 0, &mut gs);
    try_move_player(0, -1, &mut gs);
    try_move_player(-5, 0, &mut gs);
    try_move_player(0, 100, &mut gs);
    try_move_player(i32::MAX, i32::MAX, &mut gs);
    try_move_player(i32::MIN, i32::MIN, &mut gs);
    assert_eq!(gs.world.slots, before);
    assert_eq!(gs.player_pos, Position { x: 1, y: 1 });
    assert!(!gs.world.slots[gs.player.id].viewshed.as_ref().unwrap().dirty);
}

#[test]
fn a_step_into_a_creature_is_an_attack() {
    let mut gs = game(arena(9, 7), 2, 2, 30);
    let potion = gs.world.create();
    gs.world.slots[potion.id].position = Some(Position { x: 3, y: 2 });
    gs.world.slots[potion.id].item = Some(Item {});
    let orc = creature(&mut gs.world, "Orc", 3, 2, 16);
    let goblin = creature(&mut gs.world, "Goblin", 3, 2, 16);
    settle(&mut gs);
    try_move_player(1, 0, &mut gs);
    let me = &gs.world.slots[gs.player.id];
    assert_eq!(me.wants_to_melee, Some(WantsToMelee { target: orc }));
    assert_eq!(me.position, Some(Position { x: 2, y: 2 }));
    assert_eq!(gs.player_pos, Position { x: 2, y: 2 });
    assert!(!me.viewshed.as_ref().unwrap().dirty);
    let _ = goblin;
}

#[test]
fn a_step_onto_an_item_is_a_step() {
    let mut gs = game(arena(9, 7), 2, 2, 30);
    let potion = gs.world.create();
    gs.world.slots[potion.id].position = Some(Position { x: 3, y: 2 });
    gs.world.slots[potion.id].item = Some(Item {});
    settle(&mut gs);
    try_move_player(1, 0, &mut gs);
    assert_eq!(gs.player_pos, Position { x: 3, y: 2 });
}

#[test]
fn a_blocked_cell_without_a_fighter_stops_the_step() {
    let mut gs = game(arena(9, 7), 2, 2, 30);
    let statue = gs.world.create();
    gs.world.slots[statue.id].position = Some(Position { x: 3, y: 2 });
    gs.world.slots[statue.id].blocks_tile = Some(BlocksTile {});
    settle(&mut gs);
    let before = gs.world.slots.clone();
    try_move_player(1, 0, &mut gs);
    assert_eq!(gs.world.slots, before);
}

#[test]
fn try_move_tells_how_it_ended() {
    let mut map = arena(9, 7);
    let mut world = World::new();
    let a = creature(&mut world, "a", 2, 2, 10);
    let b = creature(&mut world, "b", 3, 2, 10);
    let blind = world.create();
    world.slots[blind.id].position = Some(Position { x: 5, y: 5 });
    MapIndexing {}.run(&mut map, &world);
    assert_eq!(try_move(&mut world, &map, a, 1, 0), MoveOutcome::Attacks(b));
    assert_eq!(try_move(&mut world, &map, a, 0, 1), MoveOutcome::MovedTo(Position { x: 2, y: 3 }));
    assert_eq!(try_move(&mut world, &map, b, 3, -2), MoveOutcome::Stayed);
    assert_eq!(try_move(&mut world, &map, blind, 1, 0), MoveOutcome::MovedTo(Position { x: 6, y: 5 }));
    assert_eq!(world.slots[blind.id].position, Some(Position { x: 6, y: 5 }));
    assert!(world.slots[blind.id].viewshed.is_none());
    assert_eq!(try_move(&mut world, &map, Entity { id: 9 }, 1, 0), MoveOutcome::Stayed);
    world.delete(b);
    assert_eq!(try_move(&mut world, &map, b, 1, 0), MoveOutcome::Stayed);
    // the index is a snapshot: the cell of the deleted stays blocked, but nobody is attacked
    assert_eq!(try_move(&mut world, &map, a, 1, -1), MoveOutcome::Stayed);
}

#[test]
fn only_a_player_moves_as_the_player() {
    let mut gs = game(arena(9, 7), 2, 2, 30);
    gs.world.slots[gs.player.id].player = None;
    settle(&mut gs);
    let before = gs.world.slots.clone();
    try_move_player(1, 0, &mut gs);
    assert_eq!(gs.world.slots, before);
}

#[test]
fn keys_move_the_player() {
    let steps = [
        (Key::Left, -1, 0),
        (Key::A, -1, 0),
        (Key::Right, 1, 0),
        (Key::D, 1, 0),
        (Key::Up, 0, -1),
        (Key::W, 0, -1),
        (Key::Down, 0, 1),
        (Key::S, 0, 1),
        (Key::Numpad9, 1, -1),
        (Key::Y, 1, -1),
        (Key::Numpad7, -1, -1),
        (Key::U, -1, -1),
        (Key::Numpad3, 1, 1),
        (Key::N, 1, 1),
        (Key::Numpad1, -1, 1),
        (Key::B, -1, 1),
    ];
    for (key, dx, dy) in steps {
        let mut gs = game(arena(9, 7), 4, 3, 30);
        settle(&mut gs);
        assert_eq!(player_input(&mut gs, Some(key)), RunState::PlayerTurn);
        assert_eq!(gs.player_pos, Position { x: 4 + dx, y: 3 + dy }, "{key:?}");
    }
}

#[test]
fn keys_that_open_menus_or_do_nothing() {
    let mut gs = game(arena(9, 7), 4, 3, 30);
    settle(&mut gs);
    let before = gs.world.slots.clone();
    assert_eq!(player_input(&mut gs, None), RunState::AwaitingInput);
    assert_eq!(player_input(&mut gs, Some(Key::Other)), RunState::AwaitingInput);
    assert_eq!(player_input(&mut gs, Some(Key::Return)), RunState::AwaitingInput);
    assert_eq!(player_input(&mut gs, Some(Key::E)), RunState::ShowInventory);
    assert_eq!(player_input(&mut gs, Some(Key::Q)), RunState::ShowDropItem);
    assert_eq!(player_input(&mut gs, Some(Key::Escape)), RunState::SaveGame);
    assert_eq!(gs.world.slots, before);
    assert!(gs.log.entries.is_empty());
}

#[test]
fn picking_up_what_lies_here() {
    let mut gs = game(arena(9, 7), 4, 3, 30);
    let elsewhere = gs.world.create();
    gs.world.slots[elsewhere.id].position = Some(Position { x: 5, y: 3 });
    gs.world.slots[elsewhere.id].item = Some(Item {});
    let no_item = creature(&mut gs.world, "Rat", 4, 3, 1);
    let first = gs.world.create();
    gs.world.slots[first.id].position = Some(Position { x: 4, y: 3 });
    gs.world.slots[first.id].item = Some(Item {});
    let second = gs.world.create();
    gs.world.slots[second.id].position = Some(Position { x: 4, y: 3 });
    gs.world.slots[second.id].item = Some(Item {});
    assert_eq!(player_input(&mut gs, Some(Key::G)), RunState::PlayerTurn);
    assert_eq!(
        gs.world.slots[gs.player.id].wants_to_pickup_item,
        Some(WantsToPickupItem { collected_by: gs.player, item: first })
    );
    assert!(gs.log.entries.is_empty());
    let _ = (no_item, second);
}

#[test]
fn picking_up_where_nothing_lies() {
    let mut gs = game(arena(9, 7), 4, 3, 30);
    let gone = gs.world.create();
    gs.world.slots[gone.id].position = Some(Position { x: 4, y: 3 });
    gs.world.slots[gone.id].item = Some(Item {});
    gs.world.delete(gone);
    assert_eq!(player_input(&mut gs, Some(Key::G)), RunState::PlayerTurn);
    assert_eq!(gs.world.slots[gs.player.id].wants_to_pickup_item, None);
    assert_eq!(gs.log.entries, vec![LogEntry::NothingToPickUp]);
}

#[test]
fn a_rest_heals_one_point() {
    let mut gs = game(arena(9, 7), 4, 3, 10);
    settle(&mut gs);
    assert_eq!(player_input(&mut gs, Some(Key::Space)), RunState::PlayerTurn);
    assert_eq!(hp(&gs, gs.player), 11);
    assert_eq!(gs.world.slots[gs.player.id].combat_stats.unwrap().max_hp, 30);
    assert_eq!(player_input(&mut gs, Some(Key::Numpad5)), RunState::PlayerTurn);
    assert_eq!(hp(&gs, gs.player), 12);
}

#[test]
fn a_rest_heals_no_further_than_the_maximum() {
    let mut gs = game(arena(9, 7), 4, 3, 29);
    settle(&mut gs);
    player_input(&mut gs, Some(Key::Space));
    assert_eq!(hp(&gs, gs.player), 30);
    player_input(&mut gs, Some(Key::Space));
    assert_eq!(hp(&gs, gs.player), 30);
}

#[test]
fn no_rest_in_sight_of_a_monster() {
    let mut gs = game(arena(9, 7), 2, 3, 10);
    let orc = creature(&mut gs.world, "Orc", 6, 3, 16);
    gs.world.slots[orc.id].monster = Some(Monster {});
    settle(&mut gs);
    // each has the other in view
    let mine = gs.world.slots[gs.player.id].viewshed.clone().unwrap().visible_tiles;
    let theirs = gs.world.slots[orc.id].viewshed.clone().unwrap().visible_tiles;
    assert!(mine.contains(&Position { x: 6, y: 3 }));
    assert!(theirs.contains(&Position { x: 2, y: 3 }));
    assert_eq!(player_input(&mut gs, Some(Key::Space)), RunState::PlayerTurn);
    assert_eq!(hp(&gs, gs.player), 10);
}

#[test]
fn a_monster_behind_a_wall_does_not_disturb_the_rest() {
    let mut map = arena(11, 7);
    for y in 0..7 {
        let idx = map.xy_idx(5, y);
        map.tiles[idx] = TileType::Wall;
    }
    let mut gs = game(map, 2, 3, 10);
    let orc = creature(&mut gs.world, "Orc", 8, 3, 16);
    gs.world.slots[orc.id].monster = Some(Monster {});
    let friend = creature(&mut gs.world, "Friend", 3, 3, 16);
    settle(&mut gs);
    player_input(&mut gs, Some(Key::Space));
    assert_eq!(hp(&gs, gs.player), 11);
    let _ = friend;
}

#[test]
fn the_way_down_needs_stairs() {
    let mut gs = game(arena(9, 7), 4, 3, 10);
    assert_eq!(try_next_level(&mut gs), RunState::AwaitingInput);
    assert_eq!(gs.log.entries, vec![LogEntry::NoWayDown]);
    assert_eq!(player_input(&mut gs, Some(Key::Period)), RunState::AwaitingInput);
    assert_eq!(gs.log.entries.len(), 2);
    let here = gs.map.xy_idx(4, 3);
    gs.map.tiles[here] = TileType::DownStairs;
    assert_eq!(try_next_level(&mut gs), RunState::NextLevel);
    assert_eq!(player_input(&mut gs, Some(Key::Period)), RunState::NextLevel);
    assert_eq!(gs.log.entries.len(), 2);
    gs.player_pos = Position { x: -4, y: 3 };
    assert_eq!(try_next_level(&mut gs), RunState::AwaitingInput);
}

#[test]
fn what_counts_is_whether_a_monster_sees_the_player() {
    let mut gs = game(arena(9, 7), 2, 3, 10);
    let orc = creature(&mut gs.world, "Orc", 6, 3, 16);
    gs.world.slots[orc.id].monster = Some(Monster {});
    settle(&mut gs);
    // the player is blinded: the orc still sees them
    gs.world.slots[gs.player.id].viewshed = None;
    player_input(&mut gs, Some(Key::Space));
    assert_eq!(hp(&gs, gs.player), 10);
    // the orc looks away: now the rest helps
    gs.world.slots[orc.id].viewshed.as_mut().unwrap().visible_tiles.retain(|p| *p != Position { x: 2, y: 3 });
    player_input(&mut gs, Some(Key::Space));
    assert_eq!(hp(&gs, gs.player), 11);
    // a creature that is no monster may watch
    let friend = creature(&mut gs.world, "Friend", 3, 3, 16);
    gs.world.slots[friend.id].viewshed.as_mut().unwrap().visible_tiles = vec![Position { x: 2, y: 3 }];
    player_input(&mut gs, Some(Key::Space));
    assert_eq!(hp(&gs, gs.player), 12);
    // and so may the dead
    gs.world.slots[orc.id].viewshed.as_mut().unwrap().visible_tiles = vec![Position { x: 2, y: 3 }];
    gs.world.delete(orc);
    player_input(&mut gs, Some(Key::Space));
    assert_eq!(hp(&gs, gs.player), 13);
}
