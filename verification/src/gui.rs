//! The decisions of the menus. Drawing them is left to the caller.

use vstd::prelude::*;
use crate::components::{Entity, Position};

use crate::state::{RunState, State};
use crate::world::{alive, Slots};

verus! {

#[derive(Clone, Copy, Debug, PartialEq, Eq, Structural)]
pub enum MainMenuSelection {
    NewGame,
    LoadGame,
    Quit,
}

#[derive(Clone, Copy, Debug, PartialEq, Eq, Structural)]
pub enum MainMenuResult {
    NoSelection(MainMenuSelection),
    Selected(MainMenuSelection),
}

#[derive(Clone, Copy, Debug, PartialEq, Eq, Structural)]
pub enum ItemMenuResult {
    Cancel,
    NoResponse,
    Selected(Entity),
    Target(Position),
}

/// A key, as far as the game tells keys apart.
#[derive(Clone, Copy, Debug, PartialEq, Eq, Structural)]
pub enum Key {
    Left,
    Right,
    Up,
    Down,
    A,
    D,
    W,
    S,
    Numpad9,
    Y,
    Numpad7,
    U,
    Numpad3,
    N,
    Numpad1,
    B,
    Numpad5,
    Space,
    G,
    E,
    Q,
    Period,
    Escape,
    Return,
    Other,
}

/// What the player did in the frame: the key pressed, the place of that key
/// among the letters (`rltk::letter_to_option`; -1 for any other key), the
/// cell under the mouse, whether the mouse was clicked, and whether a saved
/// game exists.
#[derive(Clone, Copy, Debug)]
pub struct Input {
    pub key: Option<Key>,
    pub letter: i32,
    pub mouse: Position,
    pub left_click: bool,
    pub save_exists: bool,
}

/// The entry above `sel` in the main menu, which wraps around. The entry to
/// load a game is there only while a saved game exists.
pub open spec fn entry_above(sel: MainMenuSelection, save_exists: bool) -> MainMenuSelection {
    match sel {
        MainMenuSelection::NewGame => MainMenuSelection::Quit,
        MainMenuSelection::LoadGame => if save_exists {
            MainMenuSelection::NewGame
        } else {
            MainMenuSelection::Quit
        },
        MainMenuSelection::Quit => if save_exists {
            MainMenuSelection::LoadGame
        } else {
            MainMenuSelection::NewGame
        },
    }
}

/// The entry below `sel` in the main menu, which wraps around.
pub open spec fn entry_below(sel: MainMenuSelection, save_exists: bool) -> MainMenuSelection {
    match sel {
        MainMenuSelection::NewGame => if save_exists {
            MainMenuSelection::LoadGame
        } else {
            MainMenuSelection::Quit
        },
        MainMenuSelection::LoadGame => MainMenuSelection::Quit,
        MainMenuSelection::Quit => MainMenuSelection::NewGame,
    }
}

/// What a key makes of the main menu. Outside the main menu the first entry
/// is selected.
pub open spec fn menu_choice(runstate: RunState, key: Option<Key>, save_exists: bool) -> MainMenuResult {
    match runstate {
        RunState::MainMenu(sel) => match key {
            None => MainMenuResult::NoSelection(sel),
            Some(Key::Escape) => MainMenuResult::NoSelection(MainMenuSelection::Quit),
            Some(Key::Up) => MainMenuResult::NoSelection(entry_above(sel, save_exists)),
            Some(Key::Down) => MainMenuResult::NoSelection(entry_below(sel, save_exists)),
            Some(Key::Return) => MainMenuResult::Selected(sel),
            Some(_) => MainMenuResult::NoSelection(sel),
        },
        _ => MainMenuResult::NoSelection(MainMenuSelection::NewGame),
    }
}

fn option_at(place: usize, save_exists: bool) -> (sel: MainMenuSelection)
    requires
        place < (if save_exists { 3int } else { 2int }),
    ensures
        sel == (if place == 0 {
            MainMenuSelection::NewGame
        } else if place == 1 && save_exists {
            MainMenuSelection::LoadGame
        } else {
            MainMenuSelection::Quit
        }),
{
    if place == 0 {
        MainMenuSelection::NewGame
    } else if place == 1 && save_exists {
        MainMenuSelection::LoadGame
    } else {
        MainMenuSelection::Quit
    }
}

pub fn main_menu(runstate: &RunState, key: Option<Key>, save_exists: bool) -> (result: MainMenuResult)
    ensures
        result == menu_choice(*runstate, key, save_exists),
{
    if let RunState::MainMenu(selection) = runstate {
        let count: usize = if save_exists { 3 } else { 2 };
        let pos: usize = match selection {
            MainMenuSelection::NewGame => 0,
            MainMenuSelection::LoadGame => if save_exists { 1 } else { 0 },
            MainMenuSelection::Quit => count - 1,
        };
        match key {
            None => MainMenuResult::NoSelection(*selection),
            Some(key) => match key {
                Key::Escape => MainMenuResult::NoSelection(MainMenuSelection::Quit),
                Key::Up => {
                    let new_pos = if pos == 0 { count - 1 } else { pos - 1 };
                    MainMenuResult::NoSelection(option_at(new_pos, save_exists))
                },
                Key::Down => {
                    let new_pos = if pos >= count - 1 { 0 } else { pos + 1 };
                    MainMenuResult::NoSelection(option_at(new_pos, save_exists))
                },
                Key::Return => MainMenuResult::Selected(*selection),
                _ => MainMenuResult::NoSelection(*selection),
            },
        }
    } else {
        MainMenuResult::NoSelection(MainMenuSelection::NewGame)
    }
}

/// The named items with an id below `k` that lie in the backpack of `owner`,
/// by ascending id.
pub open spec fn carried(w: Slots, owner: Entity, k: int) -> Seq<Entity>
    decreases k,
{
    if k <= 0 {
        Seq::empty()
    } else if k <= w.len() && w[k - 1].live && w[k - 1].name.is_some() && w[k - 1].in_backpack.is_some()
        && w[k - 1].in_backpack.unwrap().owner == owner {
        carried(w, owner, k - 1).push(Entity { id: (k - 1) as usize })
    } else {
        carried(w, owner, k - 1)
    }
}

/// What the player carries, in the order of the backpack menu.
pub open spec fn backpack(state: &State) -> Seq<Entity> {
    carried(state.world@, state.player, state.world@.len() as int)
}

/// What the input makes of a backpack menu: the key for escape cancels, and
/// the letter of an entry selects the item of that entry.
pub open spec fn backpack_choice(state: &State, input: Input) -> ItemMenuResult {
    match input.key {
        None => ItemMenuResult::NoResponse,
        Some(Key::Escape) => ItemMenuResult::Cancel,
        Some(_) => if -1 < input.letter < backpack(state).len() {
            ItemMenuResult::Selected(backpack(state)[input.letter as int])
        } else {
            ItemMenuResult::NoResponse
        },
    }
}

/// What the player carries, in the order of the backpack menu.
pub fn inventory(state: &State) -> (items: Vec<Entity>)
    ensures
        items@ == backpack(state),
{
    let n = state.world.slots.len();
    let mut items: Vec<Entity> = Vec::new();
    let mut i: usize = 0;
    while i < n
        invariant
            n == state.world@.len(),
            i <= n,
            items@ == carried(state.world@, state.player, i as int),
        decreases n - i,
    {
        if state.world.slots[i].live && state.world.slots[i].name.is_some() {
            if let Some(pack) = state.world.slots[i].in_backpack {
                if pack.owner == state.player {
                    items.push(Entity { id: i });
                }
            }
        }
        i += 1;
    }
    items
}

pub fn show_backpack_menu(game_state: &State, input: &Input) -> (result: ItemMenuResult)
    ensures
        result == backpack_choice(game_state, *input),
{
    let equippable = inventory(game_state);
    match input.key {
        None => ItemMenuResult::NoResponse,
        Some(key) => match key {
            Key::Escape => ItemMenuResult::Cancel,
            _ => {
                let selection = input.letter;
                if selection > -1 && (selection as usize) < equippable.len() {
                    ItemMenuResult::Selected(equippable[selection as usize])
                } else {
                    ItemMenuResult::NoResponse
                }
            },
        },
    }
}

pub fn show_inventory(game_state: &State, input: &Input) -> (result: ItemMenuResult)
    ensures
        result == backpack_choice(game_state, *input),
{
    show_backpack_menu(game_state, input)
}

pub fn show_drop_menu(game_state: &State, input: &Input) -> (result: ItemMenuResult)
    ensures
        result == backpack_choice(game_state, *input),
{
    show_backpack_menu(game_state, input)
}

/// Is `b` no farther from `a` than `range`, in a straight line?
pub open spec fn in_range(a: Position, b: Position, range: int) -> bool {
    0 <= range && (a.x - b.x) * (a.x - b.x) + (a.y - b.y) * (a.y - b.y) <= range * range
}

pub fn within_range(a: Position, b: Position, range: i32) -> (r: bool)
    ensures
        r == in_range(a, b, range as int),
{
    if range < 0 {
        return false;
    }
    let dx: i64 = a.x as i64 - b.x as i64;
    let dy: i64 = a.y as i64 - b.y as i64;
    let reach: i64 = range as i64;
    if dx > reach || dx < -reach || dy > reach || dy < -reach {
        proof {
            assert(dx * dx + dy * dy > reach * reach) by (nonlinear_arith)
                requires
                    0 <= reach,
                    dx > reach || dx < -reach || dy > reach || dy < -reach,
            ;
        }
        return false;
    }
    proof {
        assert(0 <= dx * dx <= reach * reach && 0 <= dy * dy <= reach * reach && reach * reach
            < 0x4000_0000_0000_0000) by (nonlinear_arith)
            requires
                0 <= reach < 0x8000_0000,
                -reach <= dx <= reach,
                -reach <= dy <= reach,
        ;
    }
    dx * dx + dy * dy <= reach * reach
}

/// The first `k` of `cells` that are within `range` of `origin`.
pub open spec fn cells_in_range(cells: Seq<Position>, origin: Position, range: int, k: int) -> Seq<
    Position,
>
    decreases k,
{
    if k <= 0 {
        Seq::empty()
    } else if in_range(origin, cells[k - 1], range) {
        cells_in_range(cells, origin, range, k - 1).push(cells[k - 1])
    } else {
        cells_in_range(cells, origin, range, k - 1)
    }
}

/// The cells that the player sees; none where the player is gone or sees nothing.
pub open spec fn player_view(pre: &State) -> Seq<Position> {
    if alive(pre.world@, pre.player) && pre.world@[pre.player.id as int].viewshed.is_some() {
        pre.world@[pre.player.id as int].viewshed.unwrap().visible_tiles@
    } else {
        Seq::empty()
    }
}

/// The cells that the player can aim at: those it sees within `range` of
/// where it stands.
pub open spec fn aim_cells(state: &State, range: int) -> Seq<Position> {
    cells_in_range(player_view(state), state.player_pos, range, player_view(state).len() as int)
}

pub fn set_ranged_cells(range: i32, state: &State) -> (available_cells: Vec<Position>)
    ensures
        available_cells@ == aim_cells(state, range as int),
{
    let mut available_cells: Vec<Position> = Vec::new();
    if state.world.is_alive(state.player) {
        match &state.world.slots[state.player.id].viewshed {
            Some(visible) => {
                let mut k: usize = 0;
                while k < visible.visible_tiles.len()
                    invariant
                        k <= visible.visible_tiles@.len(),
                        available_cells@ == cells_in_range(
                            visible.visible_tiles@,
                            state.player_pos,
                            range as int,
                            k as int,
                        ),
                    decreases visible.visible_tiles@.len() - k,
                {
                    let cell = visible.visible_tiles[k];
                    if within_range(state.player_pos, cell, range) {
                        available_cells.push(cell);
                    }
                    k += 1;
                }
            },
            None => {},
        }
    }
    available_cells
}

/// What the input makes of the choice of a target: the key for escape
/// cancels, and so does a range in which the player sees no cell. A click on
/// a cell that can be aimed at chooses it.
pub open spec fn target_choice(state: &State, range: int, input: Input) -> ItemMenuResult {
    if input.key == Some(Key::Escape) || aim_cells(state, range).len() < 1 {
        ItemMenuResult::Cancel
    } else if input.left_click && aim_cells(state, range).contains(input.mouse) {
        ItemMenuResult::Target(input.mouse)
    } else {
        ItemMenuResult::NoResponse
    }
}

pub fn ranged_target(game_state: &State, input: &Input, range: i32) -> (result: ItemMenuResult)
    ensures
        result == target_choice(game_state, range as int, *input),
{
    if let Some(Key::Escape) = input.key {
        return ItemMenuResult::Cancel;
    }
    let available_cells = set_ranged_cells(range, game_state);
    if available_cells.len() < 1 {
        return ItemMenuResult::Cancel;
    }
    let valid_target = crate::systems::monster_ai::sees(&available_cells, input.mouse);
    if input.left_click && valid_target {
        return ItemMenuResult::Target(input.mouse);
    }
    ItemMenuResult::NoResponse
}

} // verus!
