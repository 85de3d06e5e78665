use rltk::RandomNumberGenerator;
use rusty_roguelike::components::{Entity, InBackpack, Name, Position, Viewshed};
use rusty_roguelike::gamelog::GameLog;
use rusty_roguelike::gui::{
    inventory, main_menu, ranged_target, set_ranged_cells, show_backpack_menu, show_drop_menu,
    show_inventory, within_range, Input, ItemMenuResult, Key, MainMenuResult, MainMenuSelection,
};
use rusty_roguelike::map::TileMap;
use rusty_roguelike::state::{RunState, State};
use rusty_roguelike::systems::monster_ai::AiStep;
use rusty_roguelike::world::World;

fn game() -> State {
    let mut world = World::new();
    let player = world.create();
    world.slots[player.id].position = Some(Position { x: 5, y: 5 });
    State {
        world,
        map: TileMap::blank(1),
        log: GameLog::new(),
        run_state: RunState::ShowInventory,
        player,
        player_pos: Position { x: 5, y: 5 },
        rng: RandomNumberGenerator::seeded(7),
        pending: AiStep::Finished,
    }
}

fn carried(world: &mut World, name: Option<&str>, owner: Entity) -> Entity {
    let e = world.create();
    world.slots[e.id].name = name.map(|n| Name { name: n.to_string() });
    world.slots[e.id].in_backpack = Some(InBackpack { owner });
    e
}

fn input(key: Option<Key>, letter: i32) -> Input {
    Input { key, letter, mouse: Position { x: 0, y: 0 }, left_click: false, save_exists: false }
}

use MainMenuSelection::{LoadGame, NewGame, Quit};

#[test]
fn the_main_menu_wraps_around() {
    let up = |sel, save| main_menu(&RunState::MainMenu(sel), Some(Key::Up), save);
    let down = |sel, save| main_menu(&RunState::MainMenu(sel), Some(Key::Down), save);
    let rest = MainMenuResult::NoSelection;
    assert_eq!(up(NewGame, true), rest(Quit));
    assert_eq!(up(LoadGame, true), rest(NewGame));
    assert_eq!(up(Quit, true), rest(LoadGame));
    assert_eq!(down(NewGame, true), rest(LoadGame));
    assert_eq!(down(LoadGame, true), rest(Quit));
    assert_eq!(down(Quit, true), rest(NewGame));
    // without a saved game there is nothing to load
    assert_eq!(up(NewGame, false), rest(Quit));
    assert_eq!(up(Quit, false), rest(NewGame));
    assert_eq!(down(NewGame, false), rest(Quit));
    assert_eq!(down(Quit, false), rest(NewGame));
    assert_eq!(up(LoadGame, false), rest(Quit));
    assert_eq!(down(LoadGame, false), rest(Quit));
}

#[test]
fn the_main_menu_selects_on_return() {
    for sel in [NewGame, LoadGame, Quit] {
        let state = RunState::MainMenu(sel);
        assert_eq!(main_menu(&state, Some(Key::Return), true), MainMenuResult::Selected(sel));
        assert_eq!(main_menu(&state, None, true), MainMenuResult::NoSelection(sel));
        assert_eq!(main_menu(&state, Some(Key::G), true), MainMenuResult::NoSelection(sel));
        assert_eq!(main_menu(&state, Some(Key::Escape), true), MainMenuResult::NoSelection(Quit));
    }
    assert_eq!(main_menu(&RunState::PreRun, Some(Key::Return), true), MainMenuResult::NoSelection(NewGame));
}

#[test]
fn the_backpack_lists_what_the_player_carries() {
    let mut gs = game();
    let other = gs.world.create();
    let potion = carried(&mut gs.world, Some("Potion"), gs.player);
    let theirs = carried(&mut gs.world, Some("Theirs"), other);
    let nameless = carried(&mut gs.world, None, gs.player);
    let scroll = carried(&mut gs.world, Some("Scroll"), gs.player);
    let lost = carried(&mut gs.world, Some("Lost"), gs.player);
    gs.world.delete(lost);
    assert_eq!(inventory(&gs), vec![potion, scroll]);
    let choose = |letter| show_backpack_menu(&gs, &input(Some(Key::Other), letter));
    assert_eq!(choose(0), ItemMenuResult::Selected(potion));
    assert_eq!(choose(1), ItemMenuResult::Selected(scroll));
    assert_eq!(choose(2), ItemMenuResult::NoResponse);
    assert_eq!(choose(-1), ItemMenuResult::NoResponse);
    assert_eq!(choose(i32::MAX), ItemMenuResult::NoResponse);
    assert_eq!(choose(i32::MIN), ItemMenuResult::NoResponse);
    assert_eq!(show_backpack_menu(&gs, &input(None, 0)), ItemMenuResult::NoResponse);
    assert_eq!(show_backpack_menu(&gs, &input(Some(Key::Escape), 0)), ItemMenuResult::Cancel);
    assert_eq!(show_inventory(&gs, &input(Some(Key::B), 1)), ItemMenuResult::Selected(scroll));
    assert_eq!(show_drop_menu(&gs, &input(Some(Key::A), 0)), ItemMenuResult::Selected(potion));
    let _ = (theirs, nameless);
}

#[test]
fn range_is_measured_in_a_straight_line() {
    let o = Position { x: 0, y: 0 };
    assert!(within_range(o, Position { x: 3, y: 4 }, 5));
    assert!(!within_range(o, Position { x: 3, y: 4 }, 4));
    assert!(within_range(o, Position { x: -6, y: 0 }, 6));
    assert!(!within_range(o, Position { x: 5, y: 4 }, 6));
    assert!(within_range(o, o, 0));
    assert!(!within_range(o, o, -1));
    assert!(!within_range(o, Position { x: 1, y: 0 }, 0));
    assert!(within_range(
        Position { x: i32::MIN, y: i32::MIN },
        Position { x: i32::MIN + 5, y: i32::MIN },
        5
    ));
    assert!(!within_range(Position { x: i32::MIN, y: 0 }, Position { x: i32::MAX, y: 0 }, i32::MAX));
    assert!(within_range(Position { x: 0, y: 0 }, Position { x: i32::MAX, y: 0 }, i32::MAX));
    assert!(!within_range(Position { x: 0, y: 1 }, Position { x: i32::MAX, y: 0 }, i32::MAX));
}

#[test]
fn aiming_is_at_what_is_seen_in_range() {
    let mut gs = game();
    let cells = vec![
        Position { x: 5, y: 5 },
        Position { x: 9, y: 5 },
        Position { x: 7, y: 7 },
        Position { x: 5, y: 2 },
        Position { x: 8, y: 5 },
    ];
    gs.world.slots[gs.player.id].viewshed = Some(Viewshed { visible_tiles: cells, range: 8, dirty: false });
    assert_eq!(
        set_ranged_cells(3, &gs),
        vec![Position { x: 5, y: 5 }, Position { x: 7, y: 7 }, Position { x: 5, y: 2 }, Position { x: 8, y: 5 }]
    );
    assert_eq!(set_ranged_cells(0, &gs), vec![Position { x: 5, y: 5 }]);
    assert!(set_ranged_cells(-1, &gs).is_empty());
    let aim = |x, y, click, key| Input { key, letter: -1, mouse: Position { x, y }, left_click: click, save_exists: false };
    assert_eq!(ranged_target(&gs, &aim(7, 7, true, None), 3), ItemMenuResult::Target(Position { x: 7, y: 7 }));
    assert_eq!(ranged_target(&gs, &aim(7, 7, false, None), 3), ItemMenuResult::NoResponse);
    assert_eq!(ranged_target(&gs, &aim(9, 5, true, None), 3), ItemMenuResult::NoResponse);
    assert_eq!(ranged_target(&gs, &aim(6, 6, true, None), 3), ItemMenuResult::NoResponse);
    assert_eq!(ranged_target(&gs, &aim(7, 7, true, Some(Key::Escape)), 3), ItemMenuResult::Cancel);
    assert_eq!(ranged_target(&gs, &aim(5, 5, true, None), -1), ItemMenuResult::Cancel);
    assert_eq!(ranged_target(&gs, &aim(7, 7, true, Some(Key::G)), 3), ItemMenuResult::Target(Position { x: 7, y: 7 }));
}

#[test]
fn a_player_that_sees_nothing_cannot_aim() {
    let mut gs = game();
    assert!(set_ranged_cells(5, &gs).is_empty());
    let click = Input { key: None, letter: -1, mouse: Position { x: 5, y: 5 }, left_click: true, save_exists: false };
    assert_eq!(ranged_target(&gs, &click, 5), ItemMenuResult::Cancel);
    gs.world.slots[gs.player.id].viewshed =
        Some(Viewshed { visible_tiles: vec![Position { x: 5, y: 5 }], range: 8, dirty: false });
    assert_eq!(ranged_target(&gs, &click, 5), ItemMenuResult::Target(Position { x: 5, y: 5 }));
    gs.world.delete(gs.player);
    assert_eq!(ranged_target(&gs, &click, 5), ItemMenuResult::Cancel);
}
