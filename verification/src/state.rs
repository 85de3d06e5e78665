//! The state of a game and the machine that takes it from frame to frame.
//!
//! Two things the machine leaves to its caller, and asks for by a
//! [`Request`]: the files of a saved game, and the shortest paths of the
//! monsters.

use vstd::prelude::*;
use rltk::RandomNumberGenerator;
use crate::components::{
    clamp_i32, saturating_add, CombatStats, Entity, Position, Renderable, Viewshed,
    WantsToDropItem, WantsToUseItem,
};
use crate::gamelog::{GameLog, LogEntry};
use crate::gui::{
    backpack_choice, main_menu, menu_choice, ranged_target, show_drop_menu, show_inventory,
    target_choice, Input, ItemMenuResult, MainMenuResult, MainMenuSelection,
};
use crate::map::TileMap;
use crate::player::{input_taken, player_input};
use crate::random::fresh;
use crate::spawner::{is_player, player, spawn_map_rooms, spawned_on};
use crate::systems::damage::{buried, delete_the_dead, obituaries, wounded, Damage};
use crate::systems::inventory::{pickup_result, Inventory};
use crate::systems::item_drop::{drop_result, ItemDrop};
use crate::systems::item_usage::{usage_result, ItemUsage};
use crate::systems::map_indexing::{indexed, MapIndexing};
use crate::systems::melee_combat::{melee_result, MeleeCombat};
use crate::systems::monster_ai::{scan, stepped, steps_out, AiStep, MonsterAI};
use crate::systems::visibility::{visibility_post, Visibility};
use crate::world::{alive, seen, swept, EntityData, Sim, Slots, World};

verus! {

#[derive(Clone, Copy, Debug, PartialEq, Eq, Structural)]
pub enum RunState {
    AwaitingInput,
    PreRun,
    PlayerTurn,
    MonsterTurn,
    ShowInventory,
    ShowDropItem,
    ShowTargeting { range: i32, item: Entity },
    MainMenu(MainMenuSelection),
    SaveGame,
    NextLevel,
}

/// What the machine asks of its caller at the end of a step.
#[derive(Clone, Copy, Debug, PartialEq, Eq, Structural)]
pub enum Request {
    Nothing,
    /// Leave the program.
    Quit,
    /// Put the saved game in the place of this one.
    Load,
    /// Save this game.
    Save,
    /// Find a shortest path from the cell `start` to the cell `goal`, for
    /// `monster`, and hand it to [`State::path_found`].
    Path { monster: Entity, start: usize, goal: usize },
}

pub struct State {
    pub world: World,
    pub map: TileMap,
    pub log: GameLog,
    pub run_state: RunState,
    /// The entity that the user steers.
    pub player: Entity,
    /// Where that entity stood when it last moved.
    pub player_pos: Position,
    pub rng: RandomNumberGenerator,
    /// During a monster turn: the path that a monster waits for.
    pub pending: AiStep,
}

/// The request that goes with a step of the monsters.
pub open spec fn request_for(step: AiStep) -> Request {
    match step {
        AiStep::Finished => Request::Nothing,
        AiStep::PathWanted { monster, start, goal } => Request::Path { monster, start, goal },
    }
}

/// What the systems from melee to dropping make, one after the other, of the
/// entities and the log.
pub open spec fn outcomes(s: Sim, map: &TileMap, player: Entity) -> Sim {
    let fought = melee_result(s);
    let hurt = Sim { world: fought.world.map_values(|d: EntityData| wounded(d)), log: fought.log };
    let used = usage_result(pickup_result(hurt, player), map, player);
    Sim { world: drop_result(used.world), log: used.log }
}

/// The systems of a tick up to the monsters, with what lies between them:
/// `m1` is the map after spatial indexing, `w2` are the entities after
/// visibility.
pub open spec fn staged(pre: &State, m1: &TileMap, w2: Slots, post: &State) -> bool {
    &&& m1.wf()
    &&& *m1 == (TileMap {
        blocked_tiles: m1.blocked_tiles,
        tile_content: m1.tile_content,
        ..pre.map
    })
    &&& indexed(m1, pre.world@)
    &&& visibility_post(m1, pre.world@, &post.map, w2)
    &&& (Sim { world: post.world@, log: post.log@ }) == outcomes(
        Sim { world: w2, log: pre.log@ },
        &post.map,
        pre.player,
    )
    &&& *post == (State { world: post.world, map: post.map, log: post.log, ..*pre })
}

/// The systems of a tick up to the monsters have run, in their order: spatial
/// indexing, visibility, melee, damage, pickup, item use, item drop.
pub open spec fn systems_run(pre: &State, post: &State) -> bool {
    exists|m1: TileMap, w2: Slots| #[trigger] staged(pre, &m1, w2, post)
}

/// The monsters with an id from `from` on have run, as far as they could.
/// Where one of them waits for a path, the game keeps its request. Where
/// none does, the tick is over, and the entities deleted in it are swept.
pub open spec fn monsters_run(mid: &State, post: &State, from: int, request: Request) -> bool {
    let ran = if mid.run_state == RunState::MonsterTurn {
        scan(mid.world@, &mid.map, from, mid.player, mid.player_pos)
    } else {
        (mid.world@, AiStep::Finished)
    };
    &&& request == request_for(ran.1)
    &&& post.pending == ran.1
    &&& post.world@ == (if ran.1 == AiStep::Finished {
        ran.0.map_values(|d: EntityData| swept(d))
    } else {
        ran.0
    })
    &&& *post == (State { world: post.world, pending: post.pending, ..*mid })
}

/// All systems of a tick have run, the monsters as far as they could.
pub open spec fn turn_run(pre: &State, post: &State, request: Request) -> bool {
    exists|mid: State| #[trigger] systems_run(pre, &mid) && monsters_run(&mid, post, 0, request)
}

/// A tick has run, and the game is in the state `next` unless a monster
/// waits for its path.
pub open spec fn turn_taken(pre: &State, post: &State, next: RunState, request: Request) -> bool {
    exists|mid: State| #[trigger]
        turn_run(pre, &mid, request) && *post == (State {
            run_state: if request == Request::Nothing {
                next
            } else {
                pre.run_state
            },
            ..mid
        })
}

/// What becomes of `monster` once it has the answer to its request.
pub open spec fn path_taken(pre: &State, post: &State, monster: Entity, found: bool, steps: Seq<usize>) -> bool {
    if steps_out(pre.world@, &pre.map, monster, found, steps) {
        &&& post.world@ == pre.world@.update(
            monster.id as int,
            stepped(pre.world@[monster.id as int], pre.map.cell(steps[1] as int)),
        )
        &&& post.map == (TileMap { blocked_tiles: post.map.blocked_tiles, ..pre.map })
        &&& post.map.blocked_tiles@ == pre.map.blocked_tiles@.update(
            pre.map.cell_index(pre.world@[monster.id as int].position.unwrap()).unwrap(),
            false,
        ).update(steps[1] as int, true)
        &&& *post == (State { world: post.world, map: post.map, ..*pre })
    } else {
        post.world@ == pre.world@ && *post == (State { world: post.world, ..*pre })
    }
}

/// Does the level change leave this entity in the world? The players stay,
/// and what `player` carries.
pub open spec fn stays(d: EntityData, player: Entity) -> bool {
    d.player.is_some() || (d.in_backpack.is_some() && d.in_backpack.unwrap().owner == player)
}

/// The entities with an id below `k` that the level change removes, by
/// ascending id.
pub open spec fn leaving(w: Slots, player: Entity, k: int) -> Seq<Entity>
    decreases k,
{
    if k <= 0 {
        Seq::empty()
    } else if k <= w.len() && w[k - 1].live && !stays(w[k - 1], player) {
        leaving(w, player, k - 1).push(Entity { id: (k - 1) as usize })
    } else {
        leaving(w, player, k - 1)
    }
}

/// The record of the entity `j` after the level change: what does not stay is
/// deleted; the player, if it stays, stands at `start`, has a view that is
/// out of date and all its hit points; anything else is as before.
pub open spec fn descended(d: EntityData, j: int, player: Entity, start: Position) -> EntityData {
    if !d.live {
        d
    } else if !stays(d, player) {
        EntityData { live: false, ..d }
    } else if j == player.id {
        EntityData {
            position: if d.position.is_some() {
                Some(start)
            } else {
                None
            },
            viewshed: match d.viewshed {
                Some(v) => Some(Viewshed { dirty: true, ..v }),
                None => None,
            },
            combat_stats: match d.combat_stats {
                Some(s) => Some(CombatStats { hp: s.max_hp, ..s }),
                None => None,
            },
            ..d
        }
    } else {
        d
    }
}

/// What the way down makes of the game: a new map, one level deeper, whose
/// rooms but the first are filled; the old entities as [`descended`] says;
/// the player in the first room; and a message.
pub open spec fn level_changed(pre: &State, post: &State) -> bool {
    &&& post.map.generated()
    &&& post.map.pristine()
    &&& post.map.depth == clamp_i32(pre.map.depth + 1)
    &&& post.player_pos == post.map.rooms@[0].spec_center()
    &&& post.log@ == pre.log@.push(LogEntry::Descended)
    &&& pre.world@.len() <= post.world@.len()
    &&& forall|j: int|
        0 <= j < pre.world@.len() ==> #[trigger] post.world@[j] == descended(
            pre.world@[j],
            j,
            pre.player,
            post.player_pos,
        )
    &&& forall|j: int|
        pre.world@.len() <= j < post.world@.len() ==> spawned_on(&post.map, #[trigger] post.world@[j])
    &&& *post == (State {
        world: post.world,
        map: post.map,
        log: post.log,
        player_pos: post.player_pos,
        rng: post.rng,
        ..*pre
    })
}

/// The entities after the player was given the intent to use `item`.
pub open spec fn use_intended(w: Slots, player: Entity, item: Entity, target: Option<Position>) -> Slots {
    if alive(w, player) {
        w.update(
            player.id as int,
            EntityData {
                wants_to_use_item: Some(WantsToUseItem { item, target }),
                ..w[player.id as int]
            },
        )
    } else {
        w
    }
}

/// The entities after the player was given the intent to drop `item`.
pub open spec fn drop_intended(w: Slots, player: Entity, item: Entity) -> Slots {
    if alive(w, player) {
        w.update(
            player.id as int,
            EntityData { wants_to_drop_item: Some(WantsToDropItem { item }), ..w[player.id as int] },
        )
    } else {
        w
    }
}

/// The game `pre` with other entities and in another state.
pub open spec fn with_world(pre: &State, post: &State, w: Slots, next: RunState) -> bool {
    post.world@ == w && *post == (State { world: post.world, run_state: next, ..*pre })
}

/// One step of the machine, behind the death sweep. Each turn state runs the
/// systems and leads to the next: before the first turn and after the
/// monsters' to the wait for input, after the player's to the monsters'. The
/// wait for input takes the input. A menu state takes the choice made in
/// the menu: an item to use leads to the choice of its target if it is
/// ranged and else to the player's turn, with the intent to use it; a
/// target leads to the player's turn, with that intent; an item to drop
/// leads to the player's turn, with the intent to drop it; a cancelled
/// menu leads back to the wait for input. The way down builds the next
/// level. Saving asks the caller to save and leads to the main menu.
pub open spec fn processed(pre: &State, post: &State, input: Input, request: Request) -> bool {
    match pre.run_state {
        RunState::MainMenu(_) => request == Request::Nothing && *post == (State {
            run_state: RunState::AwaitingInput,
            ..*pre
        }),
        RunState::NextLevel => request == Request::Nothing && exists|mid: State| #[trigger]
            level_changed(pre, &mid) && *post == (State { run_state: RunState::PreRun, ..mid }),
        RunState::SaveGame => request == Request::Save && *post == (State {
            run_state: RunState::MainMenu(MainMenuSelection::LoadGame),
            ..*pre
        }),
        RunState::AwaitingInput => request == Request::Nothing && exists|mid: State| #[trigger]
            input_taken(pre, &mid, input.key, post.run_state) && *post == (State {
                run_state: post.run_state,
                ..mid
            }),
        RunState::PreRun => turn_taken(pre, post, RunState::AwaitingInput, request),
        RunState::PlayerTurn => turn_taken(pre, post, RunState::MonsterTurn, request),
        RunState::MonsterTurn => turn_taken(pre, post, RunState::AwaitingInput, request),
        RunState::ShowTargeting { range, item } => request == Request::Nothing && (match target_choice(
            pre,
            range as int,
            input,
        ) {
            ItemMenuResult::Target(target) => with_world(
                pre,
                post,
                use_intended(pre.world@, pre.player, item, Some(target)),
                RunState::PlayerTurn,
            ),
            ItemMenuResult::Cancel => *post == (State { run_state: RunState::AwaitingInput, ..*pre }),
            _ => *post == *pre,
        }),
        RunState::ShowInventory => request == Request::Nothing && (match backpack_choice(pre, input) {
            ItemMenuResult::Selected(item) => match seen(pre.world@, item).ranged {
                Some(ranged) => *post == (State {
                    run_state: RunState::ShowTargeting { range: ranged.range, item },
                    ..*pre
                }),
                None => with_world(
                    pre,
                    post,
                    use_intended(pre.world@, pre.player, item, None),
                    RunState::PlayerTurn,
                ),
            },
            ItemMenuResult::Cancel => *post == (State { run_state: RunState::AwaitingInput, ..*pre }),
            _ => *post == *pre,
        }),
        RunState::ShowDropItem => request == Request::Nothing && (match backpack_choice(pre, input) {
            ItemMenuResult::Selected(item) => with_world(
                pre,
                post,
                drop_intended(pre.world@, pre.player, item),
                RunState::PlayerTurn,
            ),
            ItemMenuResult::Cancel => *post == (State { run_state: RunState::AwaitingInput, ..*pre }),
            _ => *post == *pre,
        }),
    }
}

/// The death sweep has run.
pub open spec fn dead_deleted(pre: &State, post: &State) -> bool {
    &&& post.world@ == pre.world@.map_values(|d: EntityData| buried(d))
    &&& post.log@ == pre.log@ + obituaries(pre.world@, pre.world@.len() as int)
    &&& *post == (State { world: post.world, log: post.log, ..*pre })
}

/// One step of the machine in a game state: the death sweep, then what the
/// state asks for.
pub open spec fn game_ticked(pre: &State, post: &State, input: Input, request: Request) -> bool {
    exists|mid: State| #[trigger] dead_deleted(pre, &mid) && processed(&mid, post, input, request)
}

/// One step of the machine. While a monster waits for its path, the step
/// repeats the request and changes nothing. In the main menu it takes the
/// choice: a new game leads to the first turn, a saved game is the caller's
/// to load and leads to the wait for input, and leaving is the caller's.
pub open spec fn ticked(pre: &State, post: &State, input: Input, request: Request) -> bool {
    if pre.pending != AiStep::Finished {
        request == request_for(pre.pending) && *post == *pre
    } else {
        match pre.run_state {
            RunState::MainMenu(_) => match menu_choice(pre.run_state, input.key, input.save_exists) {
                MainMenuResult::NoSelection(selected) => request == Request::Nothing && *post == (State {
                    run_state: RunState::MainMenu(selected),
                    ..*pre
                }),
                MainMenuResult::Selected(MainMenuSelection::NewGame) => request == Request::Nothing
                    && *post == (State { run_state: RunState::PreRun, ..*pre }),
                MainMenuResult::Selected(MainMenuSelection::LoadGame) => request == Request::Load
                    && *post == (State { run_state: RunState::AwaitingInput, ..*pre }),
                MainMenuResult::Selected(MainMenuSelection::Quit) => request == Request::Quit && *post
                    == *pre,
            },
            _ => game_ticked(pre, post, input, request),
        }
    }
}

/// The answer to a request for a path was taken: the monster that waited
/// has had its step, and the monsters behind it have run as far as they
/// could. Where none of them waits, the monsters' turn is over.
pub open spec fn path_answered(pre: &State, post: &State, found: bool, steps: Seq<usize>, request: Request) -> bool {
    match pre.pending {
        AiStep::Finished => request == Request::Nothing && *post == *pre,
        AiStep::PathWanted { monster, start, goal } => exists|mid: State, last: State| #[trigger]
            path_taken(pre, &mid, monster, found, steps) && #[trigger] monsters_run(
                &mid,
                &last,
                monster.id + 1,
                request,
            ) && *post == (State {
                run_state: if request == Request::Nothing {
                    RunState::AwaitingInput
                } else {
                    pre.run_state
                },
                ..last
            }),
    }
}

/// Is this the record of an entity that is drawn: one that has a glyph and
/// stands on a cell that is visible?
pub open spec fn drawn(d: EntityData, map: &TileMap) -> bool {
    &&& d.live
    &&& d.position.is_some()
    &&& d.renderable.is_some()
    &&& map.cell_index(d.position.unwrap()).is_some()
    &&& map.visible_tiles@[map.cell_index(d.position.unwrap()).unwrap()]
}

/// What is drawn on the layer `index`, of the entities with an id below `k`,
/// by ascending id.
pub open spec fn layer(w: Slots, map: &TileMap, index: int, k: int) -> Seq<(Position, Renderable)>
    decreases k,
{
    if k <= 0 {
        Seq::empty()
    } else if k <= w.len() && drawn(w[k - 1], map) && w[k - 1].renderable.unwrap().index == index {
        layer(w, map, index, k - 1).push((w[k - 1].position.unwrap(), w[k - 1].renderable.unwrap()))
    } else {
        layer(w, map, index, k - 1)
    }
}

/// What is drawn on the layers below `upto`, the lowest layer first.
pub open spec fn layers(w: Slots, map: &TileMap, upto: int) -> Seq<(Position, Renderable)>
    decreases upto,
{
    if upto <= 0 {
        Seq::empty()
    } else {
        layers(w, map, upto - 1) + layer(w, map, upto - 1, w.len() as int)
    }
}

impl State {
    /// What is to be drawn over the map, in the order of drawing: the
    /// entities on visible cells, by ascending draw index, and by ascending
    /// id where the index is the same.
    pub fn process_map(&self) -> (list: Vec<(Position, Renderable)>)
        requires
            self.map.wf(),
        ensures
            list@ == layers(self.world@, &self.map, 256),
    {
        let n = self.world.slots.len();
        let mut list: Vec<(Position, Renderable)> = Vec::new();
        let mut index: u16 = 0;
        while index < 256
            invariant
                self.map.wf(),
                n == self.world@.len(),
                index <= 256,
                list@ == layers(self.world@, &self.map, index as int),
            decreases 256 - index,
        {
            let ghost below = list@;
            let mut i: usize = 0;
            assert(list@ =~= below + layer(self.world@, &self.map, index as int, 0));
            while i < n
                invariant
                    self.map.wf(),
                    n == self.world@.len(),
                    index < 256,
                    i <= n,
                    list@ == below + layer(self.world@, &self.map, index as int, i as int),
                decreases n - i,
            {
                if self.world.slots[i].live {
                    if let Some(pos) = self.world.slots[i].position {
                        if let Some(render) = self.world.slots[i].renderable {
                            if render.index as u16 == index && self.map.is_inside_map(pos.x, pos.y) {
                                let idx = self.map.xy_idx(pos.x, pos.y);
                                if self.map.visible_tiles[idx] {
                                    list.push((pos, render));
                                }
                            }
                        }
                    }
                }
                assert(list@ =~= below + layer(self.world@, &self.map, index as int, i + 1));
                i += 1;
            }
            index += 1;
        }
        list
    }

    /// A new game: a first level, its rooms but the first filled, the player
    /// in the first room, and the main menu open.
    pub fn new_game(rng: RandomNumberGenerator) -> (state: State)
        ensures
            state.map.generated(),
            state.map.pristine(),
            state.map.depth == 1,
            state.run_state == RunState::MainMenu(MainMenuSelection::NewGame),
            state.pending == AiStep::Finished,
            state.log@ == seq![LogEntry::Welcome],
            state.player_pos == state.map.rooms@[0].spec_center(),
            state.player.id + 1 == state.world@.len(),
            is_player(state.world@[state.player.id as int], state.player_pos),
            forall|j: int| 0 <= j < state.player.id ==> spawned_on(&state.map, #[trigger] state.world@[j]),
    {
        let mut rng = rng;
        let map = TileMap::new_rooms_and_corridors(&mut rng, 1);
        let mut world = World::new();
        spawn_map_rooms(&mut world, &mut rng, &map);
        let player_pos = map.rooms[0].center();
        let player_entity = player(&mut world, player_pos);
        let mut log = GameLog::new();
        log.push(LogEntry::Welcome);
        assert(log@ =~= seq![LogEntry::Welcome]);
        State {
            world,
            map,
            log,
            run_state: RunState::MainMenu(MainMenuSelection::NewGame),
            player: player_entity,
            player_pos,
            rng,
            pending: AiStep::Finished,
        }
    }

    pub fn fetch_runstate(&self) -> (r: RunState)
        ensures
            r == self.run_state,
    {
        self.run_state
    }

    /// Advances the game by one step, for the input of one frame.
    pub fn tick(&mut self, input: &Input) -> (request: Request)
        requires
            old(self).map.wf(),
        ensures
            final(self).map.wf(),
            ticked(old(self), final(self), *input, request),
    {
        match self.pending {
            AiStep::PathWanted { monster, start, goal } => {
                return Request::Path { monster, start, goal };
            },
            AiStep::Finished => {},
        }
        let runstate = self.fetch_runstate();
        match runstate {
            RunState::MainMenu(_) => {
                let result = main_menu(&runstate, input.key, input.save_exists);
                match result {
                    MainMenuResult::NoSelection(selected) => {
                        self.run_state = RunState::MainMenu(selected);
                        Request::Nothing
                    },
                    MainMenuResult::Selected(selected) => match selected {
                        MainMenuSelection::NewGame => {
                            self.run_state = RunState::PreRun;
                            Request::Nothing
                        },
                        MainMenuSelection::LoadGame => {
                            self.run_state = RunState::AwaitingInput;
                            Request::Load
                        },
                        MainMenuSelection::Quit => Request::Quit,
                    },
                }
            },
            _ => self.game_tick(input),
        }
    }

    fn game_tick(&mut self, input: &Input) -> (request: Request)
        requires
            old(self).map.wf(),
        ensures
            final(self).map.wf(),
            game_ticked(old(self), final(self), *input, request),
    {
        delete_the_dead(&mut self.world, &mut self.log);
        let ghost mid = *self;
        assert(dead_deleted(old(self), &mid));
        self.run_systems_and_process_state(input)
    }

    fn run_systems_and_process_state(&mut self, input: &Input) -> (request: Request)
        requires
            old(self).map.wf(),
        ensures
            final(self).map.wf(),
            processed(old(self), final(self), *input, request),
    {
        let run_state = self.fetch_runstate();
        match run_state {
            RunState::MainMenu(_) => {
                self.run_state = RunState::AwaitingInput;
                Request::Nothing
            },
            RunState::NextLevel => {
                self.goto_next_level();
                let ghost mid = *self;
                assert(level_changed(old(self), &mid));
                self.run_state = RunState::PreRun;
                Request::Nothing
            },
            RunState::SaveGame => {
                self.run_state = RunState::MainMenu(MainMenuSelection::LoadGame);
                Request::Save
            },
            RunState::AwaitingInput => {
                let next = player_input(self, input.key);
                let ghost mid = *self;
                assert(input_taken(old(self), &mid, input.key, next));
                self.run_state = next;
                Request::Nothing
            },
            RunState::PreRun => self.take_turn(RunState::AwaitingInput),
            RunState::PlayerTurn => self.take_turn(RunState::MonsterTurn),
            RunState::MonsterTurn => self.take_turn(RunState::AwaitingInput),
            RunState::ShowTargeting { range, item } => {
                match ranged_target(self, input, range) {
                    ItemMenuResult::Target(target) => {
                        if self.world.is_alive(self.player) {
                            self.world.slots[self.player.id].wants_to_use_item = Some(
                                WantsToUseItem { item, target: Some(target) },
                            );
                        }
                        self.run_state = RunState::PlayerTurn;
                    },
                    ItemMenuResult::Cancel => {
                        self.run_state = RunState::AwaitingInput;
                    },
                    _ => {},
                }
                Request::Nothing
            },
            RunState::ShowInventory => {
                match show_inventory(self, input) {
                    ItemMenuResult::Selected(entity) => {
                        let mut reach: Option<i32> = None;
                        if self.world.is_alive(entity) {
                            if let Some(ranged_item) = self.world.slots[entity.id].ranged {
                                reach = Some(ranged_item.range);
                            }
                        }
                        match reach {
                            Some(range) => {
                                self.run_state = RunState::ShowTargeting { range, item: entity };
                            },
                            None => {
                                if self.world.is_alive(self.player) {
                                    self.world.slots[self.player.id].wants_to_use_item = Some(
                                        WantsToUseItem { item: entity, target: None },
                                    );
                                }
                                self.run_state = RunState::PlayerTurn;
                            },
                        }
                    },
                    ItemMenuResult::Cancel => {
                        self.run_state = RunState::AwaitingInput;
                    },
                    _ => {},
                }
                Request::Nothing
            },
            RunState::ShowDropItem => {
                match show_drop_menu(self, input) {
                    ItemMenuResult::Selected(entity) => {
                        if self.world.is_alive(self.player) {
                            self.world.slots[self.player.id].wants_to_drop_item = Some(
                                WantsToDropItem { item: entity },
                            );
                        }
                        self.run_state = RunState::PlayerTurn;
                    },
                    ItemMenuResult::Cancel => {
                        self.run_state = RunState::AwaitingInput;
                    },
                    _ => {},
                }
                Request::Nothing
            },
        }
    }

    /// Runs a tick, and puts the game into the state `next` unless a monster
    /// waits for its path.
    fn take_turn(&mut self, next: RunState) -> (request: Request)
        requires
            old(self).map.wf(),
        ensures
            final(self).map.wf(),
            turn_taken(old(self), final(self), next, request),
    {
        let request = self.run_systems();
        let ghost mid = *self;
        assert(turn_run(old(self), &mid, request));
        if let Request::Nothing = request {
            self.run_state = next;
        }
        request
    }

    /// Runs the systems of a tick in their order: spatial indexing,
    /// visibility, melee, damage, pickup, item use, item drop, and, in a
    /// monster turn, the monsters. Where no monster waits for a path, the
    /// entities deleted in the tick are swept at its end.
    pub fn run_systems(&mut self) -> (request: Request)
        requires
            old(self).map.wf(),
        ensures
            final(self).map.wf(),
            turn_run(old(self), final(self), request),
    {
        self.run_the_systems();
        let ghost mid = *self;
        let request = self.run_the_monsters(0);
        proof {
            assert(systems_run(old(self), &mid) && monsters_run(&mid, self, 0, request));
        }
        request
    }

    /// The systems of a tick up to the monsters.
    fn run_the_systems(&mut self)
        requires
            old(self).map.wf(),
        ensures
            final(self).map.wf(),
            systems_run(old(self), final(self)),
    {
        let mut map_indexing = MapIndexing {  };
        map_indexing.run(&mut self.map, &self.world);
        let ghost m1 = self.map;
        let mut visibility = Visibility {  };
        visibility.run(&mut self.world, &mut self.map);
        let ghost w2 = self.world@;
        let mut melee_combat = MeleeCombat {  };
        melee_combat.run(&mut self.world, &mut self.log);
        let mut damage = Damage {  };
        damage.run(&mut self.world);
        let mut pickup = Inventory {  };
        pickup.run(&mut self.world, &mut self.log, self.player);
        let mut item_usage = ItemUsage {  };
        item_usage.run(&mut self.world, &mut self.log, &self.map, self.player);
        let mut item_drop = ItemDrop {  };
        item_drop.run(&mut self.world);
        proof {
            assert(staged(old(self), &m1, w2, self));
        }
    }

    /// The monsters with an id from `from` on, and the sweep at the end of
    /// the tick if none of them waits for a path.
    fn run_the_monsters(&mut self, from: usize) -> (request: Request)
        requires
            old(self).map.wf(),
        ensures
            final(self).map.wf(),
            monsters_run(old(self), final(self), from as int, request),
    {
        let mut monster_ai = MonsterAI {  };
        let step = monster_ai.run(
            &mut self.world,
            &self.map,
            self.run_state,
            self.player,
            self.player_pos,
            from,
        );
        self.pending = step;
        match step {
            AiStep::Finished => {
                self.world.maintain();
                Request::Nothing
            },
            AiStep::PathWanted { monster, start, goal } => Request::Path { monster, start, goal },
        }
    }

    /// Takes the answer to the request for a path that the last step made:
    /// whether a path was found, and its cells from the start to the goal.
    pub fn path_found(&mut self, found: bool, steps: &Vec<usize>) -> (request: Request)
        requires
            old(self).map.wf(),
        ensures
            final(self).map.wf(),
            path_answered(old(self), final(self), found, steps@, request),
    {
        match self.pending {
            AiStep::Finished => Request::Nothing,
            AiStep::PathWanted { monster, start, goal } => {
                let mut monster_ai = MonsterAI {  };
                monster_ai.follow(&mut self.world, &mut self.map, monster, found, steps);
                let ghost mid = *self;
                let from = if monster.id < usize::MAX {
                    monster.id + 1
                } else {
                    monster.id
                };
                let count = self.world.len();
                proof {
                    if monster.id == usize::MAX {
                        assert(count <= usize::MAX);
                        assert(scan(mid.world@, &mid.map, from as int, mid.player, mid.player_pos) == scan(
                            mid.world@,
                            &mid.map,
                            from + 1,
                            mid.player,
                            mid.player_pos,
                        ));
                    }
                }
                let request = self.run_the_monsters(from);
                let ghost last = *self;
                if let Request::Nothing = request {
                    self.run_state = RunState::AwaitingInput;
                }
                proof {
                    assert(path_taken(old(self), &mid, monster, found, steps@));
                    assert(monsters_run(&mid, &last, monster.id + 1, request));
                }
                request
            },
        }
    }

    /// The live entities that do not come along to the next level.
    fn entities_to_remove_on_level_change(&self) -> (to_delete: Vec<Entity>)
        ensures
            to_delete@ == leaving(self.world@, self.player, self.world@.len() as int),
            forall|e: Entity|
                to_delete@.contains(e) <==> alive(self.world@, e) && !stays(
                    self.world@[e.id as int],
                    self.player,
                ),
    {
        let n = self.world.slots.len();
        let mut to_delete: Vec<Entity> = Vec::new();
        let mut i: usize = 0;
        while i < n
            invariant
                n == self.world@.len(),
                i <= n,
                to_delete@ == leaving(self.world@, self.player, i as int),
                forall|e: Entity|
                    to_delete@.contains(e) <==> e.id < i && alive(self.world@, e) && !stays(
                        self.world@[e.id as int],
                        self.player,
                    ),
            decreases n - i,
        {
            let mut should_delete = self.world.slots[i].live;
            if self.world.slots[i].player.is_some() {
                should_delete = false;
            }
            if let Some(bp) = self.world.slots[i].in_backpack {
                if bp.owner == self.player {
                    should_delete = false;
                }
            }
            if should_delete {
                let ghost before = to_delete@;
                to_delete.push(Entity { id: i });
                proof {
                    assert forall|e: Entity|
                        to_delete@.contains(e) <==> e.id < i + 1 && alive(self.world@, e) && !stays(
                            self.world@[e.id as int],
                            self.player,
                        ) by {
                        if to_delete@.contains(e) {
                            let c = choose|c: int| 0 <= c < to_delete@.len() && to_delete@[c] == e;
                            if c < before.len() {
                                assert(before.contains(e));
                            }
                        }
                        if e.id < i && alive(self.world@, e) && !stays(self.world@[e.id as int], self.player) {
                            assert(before.contains(e));
                            let c = choose|c: int| 0 <= c < before.len() && before[c] == e;
                            assert(to_delete@[c] == e);
                        }
                        if e.id == i {
                            assert(to_delete@[before.len() as int] == e);
                        }
                    }
                }
            }
            i += 1;
        }
        to_delete
    }

    /// Builds the next level and takes the player there.
    pub fn goto_next_level(&mut self)
        ensures
            final(self).map.wf(),
            level_changed(old(self), final(self)),
    {
        let to_delete = self.entities_to_remove_on_level_change();
        let n = self.world.slots.len();
        let mut k: usize = 0;
        while k < to_delete.len()
            invariant
                k <= to_delete@.len(),
                n == self.world@.len(),
                n == old(self).world@.len(),
                *self == (State { world: self.world, ..*old(self) }),
                forall|e: Entity|
                    to_delete@.contains(e) <==> alive(old(self).world@, e) && !stays(
                        old(self).world@[e.id as int],
                        old(self).player,
                    ),
                forall|j: int|
                    0 <= j < n ==> #[trigger] self.world@[j] == (if to_delete@.subrange(0, k as int).contains(
                        Entity { id: j as usize },
                    ) {
                        EntityData { live: false, ..old(self).world@[j] }
                    } else {
                        old(self).world@[j]
                    }),
            decreases to_delete@.len() - k,
        {
            let target = to_delete[k];
            let ghost before = self.world@;
            let ghost done = to_delete@.subrange(0, k as int);
            let ghost more = to_delete@.subrange(0, k + 1);
            proof {
                assert(to_delete@.contains(target));
                assert(more[k as int] == target);
            }
            self.world.delete(target);
            proof {
                assert forall|j: int| 0 <= j < n implies #[trigger] self.world@[j] == (if more.contains(
                    Entity { id: j as usize },
                ) {
                    EntityData { live: false, ..old(self).world@[j] }
                } else {
                    old(self).world@[j]
                }) by {
                    let e = Entity { id: j as usize };
                    if done.contains(e) {
                        let c = choose|c: int| 0 <= c < done.len() && done[c] == e;
                        assert(more[c] == e);
                    }
                    if more.contains(e) {
                        let c = choose|c: int| 0 <= c < more.len() && more[c] == e;
                        if c < k {
                            assert(done[c] == e);
                        }
                    }
                }
            }
            k += 1;
        }
        assert(to_delete@.subrange(0, k as int) =~= to_delete@);
        let ghost thinned = self.world@;
        let player_came = self.world.is_alive(self.player);
        let new_depth = saturating_add(self.map.depth, 1);
        let mut new_rng = fresh();
        self.map = TileMap::new_rooms_and_corridors(&mut new_rng, new_depth);
        spawn_map_rooms(&mut self.world, &mut self.rng, &self.map);
        let ghost filled = self.world@;
        let player_position = self.map.rooms[0].center();
        self.player_pos = player_position;
        if player_came {
            if self.world.slots[self.player.id].position.is_some() {
                self.world.slots[self.player.id].position = Some(player_position);
            }
            match &mut self.world.slots[self.player.id].viewshed {
                Some(vs) => {
                    vs.dirty = true;
                },
                None => {},
            }
            if let Some(health) = self.world.slots[self.player.id].combat_stats {
                self.world.slots[self.player.id].combat_stats = Some(
                    CombatStats {
                        max_hp: health.max_hp,
                        hp: health.max_hp,
                        defense: health.defense,
                        power: health.power,
                    },
                );
            }
        }
        self.log.push(LogEntry::Descended);
        proof {
            assert forall|j: int| 0 <= j < n implies #[trigger] self.world@[j] == descended(
                old(self).world@[j],
                j,
                old(self).player,
                self.player_pos,
            ) by {
                let e = Entity { id: j as usize };
                let was = thinned[j];
                assert(to_delete@.contains(e) <==> alive(old(self).world@, e) && !stays(
                    old(self).world@[e.id as int],
                    old(self).player,
                ));
            }
            assert forall|j: int| n <= j < self.world@.len() implies spawned_on(
                &self.map,
                #[trigger] self.world@[j],
            ) by {
                assert(self.world@[j] == filled[j]);
            }
        }
    }
}

} // verus!
