use rltk::{BaseMap, RandomNumberGenerator, SmallVec};
use rusty_roguelike::components::{
    BlocksTile, CombatStats, Consumable, Entity, InBackpack, Item, Monster, Name, Player,
    Position, ProvidesHealing, Ranged, Renderable, Rgb, SufferDamage, Viewshed, WantsToDropItem,
    WantsToMelee, WantsToPickupItem, WantsToUseItem,
};
use rusty_roguelike::gamelog::{GameLog, LogEntry};
use rusty_roguelike::gui::{Input, Key, MainMenuSelection};
use rusty_roguelike::map::{TileMap, TileType, MAP_HEIGHT, MAP_WIDTH};
use rusty_roguelike::state::{Request, RunState, State};
use rusty_roguelike::systems::monster_ai::AiStep;
use rusty_roguelike::world::World;

fn arena(width: i32, height: i32) -> TileMap {
    let size = (width * height) as usize;
    let mut tiles = vec![TileType::Floor; size];
    for x in 0..width {
        tiles[x as usize] = TileType::Wall;
        tiles[((height - 1) * width + x) as usize] = TileType::Wall;
    }
    for y in 0..height {
        tiles[(y * width) as usize] = TileType::Wall;
        tiles[(y * width + width - 1) as usize] = TileType::Wall;
    }
    TileMap {
        tiles,
        rooms: Vec::new(),
        width,
        height,
        revealed_tiles: vec![false; size],
        visible_tiles: vec![false; size],
        blocked_tiles: vec![false; size],
        tile_content: vec![Vec::new(); size],
        depth: 1,
    }
}

fn creature(world: &mut World, name: &str, x: i32, y: i32, hp: i32) -> Entity {
    let e = world.create();
    let d = &mut world.slots[e.id];
    d.name = Some(Name { name: name.to_string() });
    d.position = Some(Position { x, y });
    d.combat_stats = Some(CombatStats { max_hp: 30, hp, defense: 1, power: 5 });
    d.viewshed = Some(Viewshed { visible_tiles: Vec::new(), range: 8, dirty: true });
    e
}

fn monster(world: &mut World, name: &str, x: i32, y: i32, hp: i32) -> Entity {
    let e = creature(world, name, x, y, hp);
    world.slots[e.id].monster = Some(Monster {});
    world.slots[e.id].blocks_tile = Some(BlocksTile {});
    e
}

fn carried(world: &mut World, name: &str, owner: Entity) -> Entity {
    let e = world.create();
    let d = &mut world.slots[e.id];
    d.name = Some(Name { name: name.to_string() });
    d.item = Some(Item {});
    d.in_backpack = Some(InBackpack { owner });
    e
}

fn game(map: TileMap, x: i32, y: i32, run_state: RunState) -> State {
    let mut world = World::new();
    let player = creature(&mut world, "Player", x, y, 20);
    world.slots[player.id].player = Some(Player {});
    State {
        world,
        map,
        log: GameLog::new(),
        run_state,
        player,
        player_pos: Position { x, y },
        rng: RandomNumberGenerator::seeded(7),
        pending: AiStep::Finished,
    }
}

fn idle() -> Input {
    Input { key: None, letter: -1, mouse: Position { x: 0, y: 0 }, left_click: false, save_exists: false }
}

fn key(k: Key) -> Input {
    Input { key: Some(k), ..idle() }
}

fn letter(k: Key, place: i32) -> Input {
    Input { key: Some(k), letter: place, ..idle() }
}

struct Paths<'a>(&'a TileMap);

impl BaseMap for Paths<'_> {
    fn get_available_exits(&self, idx: usize) -> SmallVec<[(usize, f32); 10]> {
        self.0.get_available_exits(idx).into_iter().map(|(to, cost)| (to, cost as f32 / 100.0)).collect()
    }
}

/// One step of the machine, with every path that it asks for.
fn step(gs: &mut State, input: &Input) -> Request {
    let mut request = gs.tick(input);
    while let Request::Path { start, goal, .. } = request {
        let path = rltk::a_star_search(start, goal, &Paths(&gs.map));
        request = gs.path_found(path.success, &path.steps);
    }
    request
}

fn hp(gs: &State, e: Entity) -> i32 {
    gs.world.slots[e.id].combat_stats.unwrap().hp
}

#[test]
fn a_new_game_opens_on_the_main_menu() {
    let gs = State::new_game(RandomNumberGenerator::seeded(25021990));
    assert_eq!(gs.fetch_runstate(), RunState::MainMenu(MainMenuSelection::NewGame));
    assert_eq!(gs.pending, AiStep::Finished);
    assert_eq!(gs.log.entries, vec![LogEntry::Welcome]);
    assert_eq!(gs.map.depth, 1);
    assert_eq!((gs.map.width, gs.map.height), (MAP_WIDTH, MAP_HEIGHT));
    assert!(!gs.map.rooms.is_empty());
    assert_eq!(gs.player_pos, gs.map.rooms[0].center());
    assert_eq!(gs.player.id + 1, gs.world.len());
    let me = gs.world.get(gs.player).unwrap();
    assert!(me.player.is_some());
    assert_eq!(me.position, Some(gs.player_pos));
    assert_eq!(me.name, Some(Name { name: "Player".to_string() }));
    assert_eq!(me.combat_stats, Some(CombatStats { max_hp: 30, hp: 30, defense: 2, power: 5 }));
    assert_eq!(me.viewshed, Some(Viewshed { visible_tiles: Vec::new(), range: 8, dirty: true }));
    assert!(me.blocks_tile.is_none());
    assert!(me.monster.is_none());
    for d in gs.world.slots.iter().take(gs.player.id) {
        assert!(d.live);
        assert!(d.monster.is_some() != d.item.is_some());
        assert!(d.player.is_none());
    }
}

#[test]
fn a_new_game_repeats_for_a_seed() {
    let a = State::new_game(RandomNumberGenerator::seeded(11));
    let b = State::new_game(RandomNumberGenerator::seeded(11));
    assert_eq!(a.map.tiles, b.map.tiles);
    assert_eq!(a.map.rooms, b.map.rooms);
    assert_eq!(a.world.slots, b.world.slots);
    assert_eq!(a.player, b.player);
}

#[test]
fn the_main_menu_takes_its_keys() {
    let mut gs = game(arena(9, 7), 2, 2, RunState::MainMenu(MainMenuSelection::NewGame));
    let world = gs.world.slots.clone();
    assert_eq!(gs.tick(&idle()), Request::Nothing);
    assert_eq!(gs.run_state, RunState::MainMenu(MainMenuSelection::NewGame));
    assert_eq!(gs.tick(&key(Key::Down)), Request::Nothing);
    assert_eq!(gs.run_state, RunState::MainMenu(MainMenuSelection::Quit));
    assert_eq!(gs.tick(&Input { save_exists: true, ..key(Key::Up) }), Request::Nothing);
    assert_eq!(gs.run_state, RunState::MainMenu(MainMenuSelection::LoadGame));
    assert_eq!(gs.tick(&Input { save_exists: true, ..key(Key::Return) }), Request::Load);
    assert_eq!(gs.run_state, RunState::AwaitingInput);
    gs.run_state = RunState::MainMenu(MainMenuSelection::Quit);
    assert_eq!(gs.tick(&key(Key::Return)), Request::Quit);
    assert_eq!(gs.run_state, RunState::MainMenu(MainMenuSelection::Quit));
    gs.run_state = RunState::MainMenu(MainMenuSelection::LoadGame);
    assert_eq!(gs.tick(&key(Key::Escape)), Request::Nothing);
    assert_eq!(gs.run_state, RunState::MainMenu(MainMenuSelection::Quit));
    gs.run_state = RunState::MainMenu(MainMenuSelection::NewGame);
    assert_eq!(gs.tick(&key(Key::Return)), Request::Nothing);
    assert_eq!(gs.run_state, RunState::PreRun);
    // the menu does not touch the world
    assert_eq!(gs.world.slots, world);
    assert!(gs.map.visible_tiles.iter().all(|b| !*b));
}

#[test]
fn the_turns_follow_each_other() {
    let mut gs = game(arena(9, 7), 2, 2, RunState::PreRun);
    assert_eq!(step(&mut gs, &idle()), Request::Nothing);
    assert_eq!(gs.run_state, RunState::AwaitingInput);
    // the first tick looked around
    assert!(!gs.world.slots[gs.player.id].viewshed.as_ref().unwrap().dirty);
    assert!(gs.map.visible_tiles[gs.map.xy_idx(2, 2)]);
    assert_eq!(step(&mut gs, &idle()), Request::Nothing);
    assert_eq!(gs.run_state, RunState::AwaitingInput);
    assert_eq!(step(&mut gs, &key(Key::Right)), Request::Nothing);
    assert_eq!(gs.run_state, RunState::PlayerTurn);
    assert_eq!(gs.player_pos, Position { x: 3, y: 2 });
    assert_eq!(step(&mut gs, &idle()), Request::Nothing);
    assert_eq!(gs.run_state, RunState::MonsterTurn);
    assert_eq!(step(&mut gs, &idle()), Request::Nothing);
    assert_eq!(gs.run_state, RunState::AwaitingInput);
}

#[test]
fn a_fight_to_the_death() {
    let mut gs = game(arena(9, 7), 2, 2, RunState::PreRun);
    let orc = monster(&mut gs.world, "Orc", 3, 2, 7);
    step(&mut gs, &idle());
    // the player walks into the orc: an attack
    step(&mut gs, &key(Key::Right));
    assert_eq!(gs.run_state, RunState::PlayerTurn);
    assert_eq!(gs.world.slots[gs.player.id].wants_to_melee, Some(WantsToMelee { target: orc }));
    // the player's turn resolves it: 5 against 1
    step(&mut gs, &idle());
    assert_eq!(gs.run_state, RunState::MonsterTurn);
    assert_eq!(hp(&gs, orc), 3);
    assert!(gs.world.slots[gs.player.id].wants_to_melee.is_none());
    assert!(gs.world.slots[orc.id].suffer_damage.is_none());
    // the monsters' turn: the orc wants to hit back, which the next tick resolves
    step(&mut gs, &idle());
    assert_eq!(gs.run_state, RunState::AwaitingInput);
    assert_eq!(gs.world.slots[orc.id].wants_to_melee, Some(WantsToMelee { target: gs.player }));
    assert_eq!(hp(&gs, gs.player), 20);
    step(&mut gs, &key(Key::Right));
    step(&mut gs, &idle());
    assert_eq!(hp(&gs, gs.player), 16);
    assert_eq!(hp(&gs, orc), -1);
    assert!(gs.world.is_alive(orc));
    // the sweep at the start of the next step takes the orc away
    step(&mut gs, &idle());
    assert!(!gs.world.is_alive(orc));
    assert!(gs.world.slots[orc.id].name.is_none());
    assert_eq!(
        gs.log.entries,
        vec![
            LogEntry::Hit { attacker: Some("Player".to_string()), target: Some("Orc".to_string()), damage: 4 },
            LogEntry::Hit { attacker: Some("Player".to_string()), target: Some("Orc".to_string()), damage: 4 },
            LogEntry::Hit { attacker: Some("Orc".to_string()), target: Some("Player".to_string()), damage: 4 },
            LogEntry::Dead { name: "Orc".to_string() },
        ]
    );
}

#[test]
fn a_dead_monster_does_not_act() {
    let mut gs = game(arena(9, 7), 2, 2, RunState::MonsterTurn);
    let orc = monster(&mut gs.world, "Orc", 3, 2, 0);
    step(&mut gs, &idle());
    assert!(!gs.world.is_alive(orc));
    assert!(gs.world.slots[gs.player.id].suffer_damage.is_none());
    assert_eq!(gs.log.entries, vec![LogEntry::Dead { name: "Orc".to_string() }]);
    assert!(gs.map.tile_content[gs.map.xy_idx(3, 2)].is_empty());
    assert!(!gs.map.blocked_tiles[gs.map.xy_idx(3, 2)]);
}

#[test]
fn a_dead_player_stays() {
    let mut gs = game(arena(9, 7), 2, 2, RunState::PlayerTurn);
    gs.world.slots[gs.player.id].combat_stats = Some(CombatStats { max_hp: 30, hp: -3, defense: 1, power: 5 });
    step(&mut gs, &idle());
    step(&mut gs, &idle());
    assert!(gs.world.is_alive(gs.player));
    assert_eq!(hp(&gs, gs.player), -3);
    assert!(gs.log.entries.is_empty());
}

#[test]
fn a_monster_turn_asks_for_paths() {
    let mut gs = game(arena(11, 7), 2, 2, RunState::MonsterTurn);
    let orc = monster(&mut gs.world, "Orc", 7, 4, 9);
    let goblin = monster(&mut gs.world, "Goblin", 8, 2, 9);
    let input = idle();
    let first = gs.tick(&input);
    assert_eq!(first, Request::Path { monster: orc, start: gs.map.xy_idx(7, 4), goal: gs.map.xy_idx(2, 2) });
    assert_eq!(gs.run_state, RunState::MonsterTurn);
    assert_eq!(gs.pending, AiStep::PathWanted { monster: orc, start: 51, goal: 24 });
    // asked again, the machine repeats itself and goes nowhere
    let log = gs.log.entries.len();
    assert_eq!(gs.tick(&key(Key::Left)), first);
    assert_eq!(gs.world.slots[gs.player.id].position, Some(Position { x: 2, y: 2 }));
    assert_eq!(gs.log.entries.len(), log);
    let path = rltk::a_star_search(51, 24, &Paths(&gs.map));
    assert!(path.success);
    let second = gs.path_found(true, &path.steps);
    assert_eq!(second, Request::Path { monster: goblin, start: gs.map.xy_idx(8, 2), goal: 24 });
    let at = gs.world.slots[orc.id].position.unwrap();
    assert_eq!(gs.map.xy_idx(at.x, at.y), path.steps[1]);
    assert!(gs.map.blocked_tiles[path.steps[1]]);
    assert!(!gs.map.blocked_tiles[51]);
    assert_eq!(gs.run_state, RunState::MonsterTurn);
    // the goblin finds no path and stays; the turn is over
    assert_eq!(gs.path_found(false, &Vec::new()), Request::Nothing);
    assert_eq!(gs.world.slots[goblin.id].position, Some(Position { x: 8, y: 2 }));
    assert_eq!(gs.run_state, RunState::AwaitingInput);
    assert_eq!(gs.pending, AiStep::Finished);
    // an answer that nobody waits for is dropped
    let slots = gs.world.slots.clone();
    assert_eq!(gs.path_found(true, &vec![51, 50, 49]), Request::Nothing);
    assert_eq!(gs.world.slots, slots);
    assert_eq!(gs.run_state, RunState::AwaitingInput);
}

#[test]
fn monsters_move_in_their_turn_only() {
    for state in [RunState::PreRun, RunState::PlayerTurn] {
        let mut gs = game(arena(11, 7), 2, 2, state);
        let orc = monster(&mut gs.world, "Orc", 7, 4, 9);
        assert_eq!(gs.tick(&idle()), Request::Nothing);
        assert_eq!(gs.world.slots[orc.id].position, Some(Position { x: 7, y: 4 }));
        assert!(gs.world.slots[orc.id].wants_to_melee.is_none());
    }
}

#[test]
fn the_tick_sweeps_what_it_deleted() {
    let mut gs = game(arena(9, 7), 2, 2, RunState::PlayerTurn);
    let potion = carried(&mut gs.world, "Health Potion", gs.player);
    gs.world.slots[potion.id].consumable = Some(Consumable {});
    gs.world.slots[potion.id].provides_healing = Some(ProvidesHealing { heal_amount: 8 });
    gs.world.slots[gs.player.id].wants_to_use_item = Some(WantsToUseItem { item: potion, target: None });
    step(&mut gs, &idle());
    assert_eq!(hp(&gs, gs.player), 28);
    assert!(!gs.world.is_alive(potion));
    assert!(gs.world.slots[potion.id].name.is_none());
    assert!(gs.world.slots[potion.id].provides_healing.is_none());
    assert_eq!(gs.log.entries, vec![LogEntry::Healed { item: Some("Health Potion".to_string()), amount: 8 }]);
}

#[test]
fn the_systems_run_in_their_order() {
    // damage from this tick's melee is applied in this tick, and a pickup
    // in the same tick comes after it
    let mut gs = game(arena(9, 7), 2, 2, RunState::PlayerTurn);
    let orc = monster(&mut gs.world, "Orc", 3, 2, 9);
    let gem = gs.world.create();
    gs.world.slots[gem.id].position = Some(Position { x: 2, y: 2 });
    gs.world.slots[gem.id].item = Some(Item {});
    gs.world.slots[gem.id].name = Some(Name { name: "Gem".to_string() });
    gs.world.slots[gs.player.id].wants_to_melee = Some(WantsToMelee { target: orc });
    gs.world.slots[gs.player.id].wants_to_pickup_item =
        Some(WantsToPickupItem { collected_by: gs.player, item: gem });
    gs.world.slots[gs.player.id].suffer_damage = Some(SufferDamage { amount: 2 });
    assert_eq!(gs.run_systems(), Request::Nothing);
    assert_eq!(hp(&gs, orc), 5);
    assert_eq!(hp(&gs, gs.player), 18);
    assert_eq!(gs.world.slots[gem.id].in_backpack, Some(InBackpack { owner: gs.player }));
    // the index is of the start of the tick: the gem still lies there
    assert_eq!(gs.map.tile_content[gs.map.xy_idx(2, 2)], vec![gs.player, gem]);
    assert_eq!(
        gs.log.entries,
        vec![
            LogEntry::Hit { attacker: Some("Player".to_string()), target: Some("Orc".to_string()), damage: 4 },
            LogEntry::PickedUp { item: Some("Gem".to_string()) },
        ]
    );
    for d in gs.world.slots.iter() {
        assert!(d.wants_to_melee.is_none());
        assert!(d.wants_to_pickup_item.is_none());
        assert!(d.suffer_damage.is_none());
    }
    assert_eq!(gs.run_state, RunState::PlayerTurn);
}

#[test]
fn the_inventory_menu() {
    let mut gs = game(arena(9, 7), 2, 2, RunState::ShowInventory);
    let potion = carried(&mut gs.world, "Health Potion", gs.player);
    let scroll = carried(&mut gs.world, "Magic Missile Scroll", gs.player);
    gs.world.slots[scroll.id].ranged = Some(Ranged { range: 6 });
    assert_eq!(gs.tick(&idle()), Request::Nothing);
    assert_eq!(gs.run_state, RunState::ShowInventory);
    assert_eq!(gs.tick(&letter(Key::Other, 5)), Request::Nothing);
    assert_eq!(gs.run_state, RunState::ShowInventory);
    assert_eq!(gs.tick(&letter(Key::B, 1)), Request::Nothing);
    assert_eq!(gs.run_state, RunState::ShowTargeting { range: 6, item: scroll });
    assert!(gs.world.slots[gs.player.id].wants_to_use_item.is_none());
    gs.run_state = RunState::ShowInventory;
    assert_eq!(gs.tick(&letter(Key::A, 0)), Request::Nothing);
    assert_eq!(gs.run_state, RunState::PlayerTurn);
    assert_eq!(
        gs.world.slots[gs.player.id].wants_to_use_item,
        Some(WantsToUseItem { item: potion, target: None })
    );
    gs.run_state = RunState::ShowInventory;
    assert_eq!(gs.tick(&key(Key::Escape)), Request::Nothing);
    assert_eq!(gs.run_state, RunState::AwaitingInput);
}

#[test]
fn the_drop_menu() {
    let mut gs = game(arena(9, 7), 2, 2, RunState::ShowDropItem);
    let potion = carried(&mut gs.world, "Health Potion", gs.player);
    assert_eq!(gs.tick(&letter(Key::B, 1)), Request::Nothing);
    assert_eq!(gs.run_state, RunState::ShowDropItem);
    assert_eq!(gs.tick(&letter(Key::A, 0)), Request::Nothing);
    assert_eq!(gs.run_state, RunState::PlayerTurn);
    assert_eq!(gs.world.slots[gs.player.id].wants_to_drop_item, Some(WantsToDropItem { item: potion }));
    step(&mut gs, &idle());
    assert_eq!(gs.world.slots[potion.id].position, Some(Position { x: 2, y: 2 }));
    assert_eq!(gs.world.slots[potion.id].in_backpack, None);
    gs.run_state = RunState::ShowDropItem;
    assert_eq!(gs.tick(&key(Key::Escape)), Request::Nothing);
    assert_eq!(gs.run_state, RunState::AwaitingInput);
}

#[test]
fn the_choice_of_a_target() {
    let mut gs = game(arena(11, 7), 2, 2, RunState::PreRun);
    let scroll = carried(&mut gs.world, "Magic Missile Scroll", gs.player);
    step(&mut gs, &idle());
    let aiming = RunState::ShowTargeting { range: 3, item: scroll };
    gs.run_state = aiming;
    let at = |x, y, click| Input { mouse: Position { x, y }, left_click: click, ..idle() };
    assert_eq!(gs.tick(&at(4, 3, false)), Request::Nothing);
    assert_eq!(gs.run_state, aiming);
    assert_eq!(gs.tick(&at(8, 2, true)), Request::Nothing);
    assert_eq!(gs.run_state, aiming);
    assert_eq!(gs.tick(&at(4, 3, true)), Request::Nothing);
    assert_eq!(gs.run_state, RunState::PlayerTurn);
    assert_eq!(
        gs.world.slots[gs.player.id].wants_to_use_item,
        Some(WantsToUseItem { item: scroll, target: Some(Position { x: 4, y: 3 }) })
    );
    gs.run_state = aiming;
    assert_eq!(gs.tick(&Input { key: Some(Key::Escape), ..at(4, 3, true) }), Request::Nothing);
    assert_eq!(gs.run_state, RunState::AwaitingInput);
}

#[test]
fn saving_is_asked_of_the_caller() {
    let mut gs = game(arena(9, 7), 2, 2, RunState::AwaitingInput);
    assert_eq!(gs.tick(&key(Key::Escape)), Request::Nothing);
    assert_eq!(gs.run_state, RunState::SaveGame);
    assert_eq!(gs.tick(&idle()), Request::Save);
    assert_eq!(gs.run_state, RunState::MainMenu(MainMenuSelection::LoadGame));
}

#[test]
fn the_next_level() {
    let mut gs = game(arena(9, 7), 2, 2, RunState::NextLevel);
    gs.map.depth = 3;
    gs.world.slots[gs.player.id].viewshed.as_mut().unwrap().dirty = false;
    gs.world.slots[gs.player.id].combat_stats = Some(CombatStats { max_hp: 30, hp: 4, defense: 1, power: 5 });
    let potion = carried(&mut gs.world, "Health Potion", gs.player);
    let orc = monster(&mut gs.world, "Orc", 5, 5, 9);
    let loot = carried(&mut gs.world, "Gem", orc);
    let rock = gs.world.create();
    assert_eq!(gs.tick(&idle()), Request::Nothing);
    assert_eq!(gs.run_state, RunState::PreRun);
    assert_eq!(gs.map.depth, 4);
    assert_eq!((gs.map.width, gs.map.height), (15, 15));
    assert!(!gs.map.rooms.is_empty());
    assert!(gs.map.revealed_tiles.iter().all(|b| !*b));
    let start = gs.map.rooms[0].center();
    assert_eq!(gs.player_pos, start);
    let me = gs.world.get(gs.player).unwrap();
    assert_eq!(me.position, Some(start));
    assert!(me.viewshed.as_ref().unwrap().dirty);
    assert_eq!(me.combat_stats, Some(CombatStats { max_hp: 30, hp: 30, defense: 1, power: 5 }));
    assert!(gs.world.is_alive(potion));
    assert_eq!(gs.world.slots[potion.id].in_backpack, Some(InBackpack { owner: gs.player }));
    assert!(!gs.world.is_alive(orc));
    assert!(!gs.world.is_alive(loot));
    assert!(!gs.world.is_alive(rock));
    assert_eq!(gs.log.entries, vec![LogEntry::Descended]);
    // whatever is new stands in a room behind the first
    for d in gs.world.slots.iter().skip(rock.id + 1) {
        assert!(d.live);
        let p = d.position.unwrap();
        assert!(gs.map.rooms.iter().skip(1).any(|r| r.x1 < p.x && p.x <= r.x2 && r.y1 < p.y && p.y <= r.y2));
    }
    // the first tick on the new level sweeps the old one away
    step(&mut gs, &idle());
    assert!(gs.world.slots[orc.id].name.is_none());
    assert_eq!(gs.run_state, RunState::AwaitingInput);
}

#[test]
fn the_way_down_goes_deeper_each_time() {
    let mut gs = game(arena(9, 7), 2, 2, RunState::NextLevel);
    gs.goto_next_level();
    assert_eq!(gs.map.depth, 2);
    gs.goto_next_level();
    assert_eq!(gs.map.depth, 3);
    gs.map.depth = i32::MAX;
    gs.goto_next_level();
    assert_eq!(gs.map.depth, i32::MAX);
    assert_eq!(gs.log.entries.len(), 3);
    assert!(gs.world.is_alive(gs.player));
}

#[test]
fn what_is_drawn_and_in_which_order() {
    let mut gs = game(arena(9, 7), 2, 2, RunState::PreRun);
    let look = |glyph: u8, index: u8| Renderable {
        glyph,
        fg: Rgb { r: 1, g: 2, b: 3 },
        bg: Rgb { r: 0, g: 0, b: 0 },
        index,
    };
    gs.world.slots[gs.player.id].renderable = Some(look(64, 100));
    let orc = monster(&mut gs.world, "Orc", 4, 2, 9);
    gs.world.slots[orc.id].renderable = Some(look(111, 10));
    let potion = gs.world.create();
    gs.world.slots[potion.id].position = Some(Position { x: 3, y: 3 });
    gs.world.slots[potion.id].renderable = Some(look(173, 10));
    let below = gs.world.create();
    gs.world.slots[below.id].position = Some(Position { x: 3, y: 4 });
    gs.world.slots[below.id].renderable = Some(look(1, 0));
    let faceless = gs.world.create();
    gs.world.slots[faceless.id].position = Some(Position { x: 3, y: 3 });
    let astray = gs.world.create();
    gs.world.slots[astray.id].position = Some(Position { x: 30, y: 3 });
    gs.world.slots[astray.id].renderable = Some(look(2, 5));
    // nothing is visible yet: nothing is drawn
    assert!(gs.process_map().is_empty());
    step(&mut gs, &idle());
    let drawn: Vec<(Position, u8)> = gs.process_map().iter().map(|(p, r)| (*p, r.glyph)).collect();
    assert_eq!(
        drawn,
        vec![
            (Position { x: 3, y: 4 }, 1),
            (Position { x: 4, y: 2 }, 111),
            (Position { x: 3, y: 3 }, 173),
            (Position { x: 2, y: 2 }, 64),
        ]
    );
    // what stands on a cell out of view is not drawn
    let unseen = gs.map.xy_idx(4, 2);
    gs.map.visible_tiles[unseen] = false;
    assert_eq!(gs.process_map().len(), 3);
    gs.world.delete(potion);
    assert_eq!(gs.process_map().len(), 2);
}

#[test]
fn the_log_shows_the_newest_first() {
    let mut log = GameLog::new();
    assert!(log.recent(5).is_empty());
    log.push(LogEntry::Welcome);
    log.push(LogEntry::NothingToPickUp);
    log.push(LogEntry::NoWayDown);
    assert_eq!(log.recent(2), vec![&LogEntry::NoWayDown, &LogEntry::NothingToPickUp]);
    assert_eq!(log.recent(5), vec![&LogEntry::NoWayDown, &LogEntry::NothingToPickUp, &LogEntry::Welcome]);
    assert!(log.recent(0).is_empty());
    assert_eq!(log.entries.len(), 3);
}
