use roguelike::components::{
    AreaOfEffect, CombatStats, Coord, InBackpack, InflictsDamage, Position, ProvidesHealing,
    Ranged, Viewshed, WantsToDropItem, WantsToMelee, WantsToPickupItem, WantsToUseItem,
};
use roguelike::input::Key;
use roguelike::map::{walled_arena, xy_idx, GameMap};
use roguelike::map_indexing_system::MapIndexingSystem;
use roguelike::monster_ai_system::NavigationPath;
use roguelike::state::{RunState, State, TickInput};
use roguelike::world::World;

fn game() -> State {
    let map = GameMap::new(Vec::new(), walled_arena());
    let mut world = World::new(map, rltk::RandomNumberGenerator::seeded(1));
    let hero = world.create_entity();
    world.entities[hero].position = Some(Position { x: 10, y: 10 });
    world.entities[hero].player = true;
    world.entities[hero].name = Some("Pon".to_string());
    world.entities[hero].viewshed = Some(Viewshed { visible_tiles: Vec::new(), range: 8, dirty: true });
    world.entities[hero].combat_stats = Some(CombatStats { max_hp: 30, hp: 30, defense: 2, power: 5 });
    world.player_entity = hero;
    world.player_pos = Coord { x: 10, y: 10 };
    State { ecs: world }
}

fn orc(gs: &mut State, x: i32, y: i32) -> usize {
    let e = gs.ecs.create_entity();
    gs.ecs.entities[e].position = Some(Position { x, y });
    gs.ecs.entities[e].monster = true;
    gs.ecs.entities[e].name = Some("Orc".to_string());
    gs.ecs.entities[e].blocks_tile = true;
    gs.ecs.entities[e].viewshed = Some(Viewshed { visible_tiles: Vec::new(), range: 8, dirty: true });
    gs.ecs.entities[e].combat_stats = Some(CombatStats { max_hp: 16, hp: 16, defense: 1, power: 4 });
    e
}

fn potion(gs: &mut State, owner: usize) -> usize {
    let e = gs.ecs.create_entity();
    gs.ecs.entities[e].item = true;
    gs.ecs.entities[e].consumable = true;
    gs.ecs.entities[e].name = Some("Red Potion".to_string());
    gs.ecs.entities[e].provides_healing = Some(ProvidesHealing { heal_amount: 8 });
    gs.ecs.entities[e].in_backpack = Some(InBackpack { owner });
    e
}

fn missile(gs: &mut State, owner: usize) -> usize {
    let e = gs.ecs.create_entity();
    gs.ecs.entities[e].item = true;
    gs.ecs.entities[e].consumable = true;
    gs.ecs.entities[e].name = Some("Magic Missile Scroll".to_string());
    gs.ecs.entities[e].ranged = Some(Ranged { range: 6 });
    gs.ecs.entities[e].inflicts_damage = Some(InflictsDamage { damage: 8 });
    gs.ecs.entities[e].in_backpack = Some(InBackpack { owner });
    e
}

fn idle() -> TickInput {
    TickInput { key: None, mouse_pos: (0, 0), left_click: false, paths: Vec::new() }
}

fn press(key: Key) -> TickInput {
    TickInput { key: Some(key), mouse_pos: (0, 0), left_click: false, paths: Vec::new() }
}

fn click(x: i32, y: i32) -> TickInput {
    TickInput { key: None, mouse_pos: (x, y), left_click: true, paths: Vec::new() }
}

fn hp(gs: &State, e: usize) -> i32 {
    gs.ecs.entities[e].combat_stats.unwrap().hp
}

#[test]
fn game_starts_before_its_first_run() {
    let gs = game();
    assert_eq!(gs.ecs.runstate, RunState::PreRun);
    assert_eq!(gs.ecs.log.entries, vec!["Welcome to Rusty Roguelike".to_string()]);
}

#[test]
fn states_follow_the_cycle() {
    let mut gs = game();
    gs.tick(&idle());
    assert_eq!(gs.ecs.runstate, RunState::AwaitingInput);
    gs.tick(&idle());
    assert_eq!(gs.ecs.runstate, RunState::AwaitingInput);
    gs.tick(&press(Key::Right));
    assert_eq!(gs.ecs.runstate, RunState::PlayerTurn);
    assert_eq!(gs.ecs.entities[0].position, Some(Position { x: 11, y: 10 }));
    gs.tick(&idle());
    assert_eq!(gs.ecs.runstate, RunState::MonsterTurn);
    gs.tick(&idle());
    assert_eq!(gs.ecs.runstate, RunState::AwaitingInput);
}

#[test]
fn first_run_looks_and_indexes() {
    let mut gs = game();
    let o = orc(&mut gs, 12, 10);
    gs.tick(&idle());
    let v = gs.ecs.entities[0].viewshed.as_ref().unwrap();
    assert!(!v.dirty);
    assert!(v.visible_tiles.contains(&Coord { x: 10, y: 10 }));
    assert!(gs.ecs.map.visible_tiles[xy_idx(10, 10)]);
    assert!(gs.ecs.map.revealed_tiles[xy_idx(10, 10)]);
    assert!(gs.ecs.map.blocked[xy_idx(12, 10)]);
    assert!(gs.ecs.map.blocked[xy_idx(0, 0)]);
    assert!(!gs.ecs.map.blocked[xy_idx(10, 10)]);
    assert_eq!(gs.ecs.map.tile_content[xy_idx(12, 10)], vec![o]);
    assert_eq!(gs.ecs.map.tile_content[xy_idx(10, 10)], vec![0]);
}

#[test]
fn run_systems_follows_the_fixed_order() {
    let mut gs = game();
    let o = orc(&mut gs, 12, 10);
    MapIndexingSystem {}.run(&mut gs.ecs);
    gs.ecs.entities[0].wants_to_melee = Some(WantsToMelee { target: o });
    let item = gs.ecs.create_entity();
    gs.ecs.entities[item].item = true;
    gs.ecs.entities[item].position = Some(Position { x: 10, y: 10 });
    gs.ecs.entities[0].wants_to_pickup = Some(WantsToPickupItem { collected_by: 0, item });
    let step = NavigationPath {
        destination: xy_idx(10, 10),
        success: true,
        steps: vec![xy_idx(12, 10), xy_idx(11, 10), xy_idx(10, 10)],
    };
    let none = NavigationPath { destination: 0, success: false, steps: Vec::new() };
    gs.run_systems(&vec![none, step]);
    // the orc saw the player and stepped closer before the index was rebuilt
    assert_eq!(gs.ecs.entities[o].position, Some(Position { x: 11, y: 10 }));
    assert_eq!(gs.ecs.map.tile_content[xy_idx(11, 10)], vec![o]);
    assert!(gs.ecs.map.tile_content[xy_idx(12, 10)].is_empty());
    assert!(gs.ecs.map.blocked[xy_idx(11, 10)]);
    assert!(!gs.ecs.map.blocked[xy_idx(12, 10)]);
    // melee and pickup were resolved, and their intents are gone
    assert_eq!(hp(&gs, o), 12);
    assert_eq!(gs.ecs.entities[0].wants_to_melee, None);
    assert_eq!(gs.ecs.entities[0].wants_to_pickup, None);
    assert_eq!(gs.ecs.entities[item].in_backpack, Some(InBackpack { owner: 0 }));
    assert_eq!(gs.ecs.entities[item].position, None);
}

#[test]
fn item_goes_round_through_two_runs() {
    let mut gs = game();
    let item = gs.ecs.create_entity();
    gs.ecs.entities[item].item = true;
    gs.ecs.entities[item].consumable = true;
    gs.ecs.entities[item].name = Some("Red Potion".to_string());
    gs.ecs.entities[item].provides_healing = Some(ProvidesHealing { heal_amount: 8 });
    gs.ecs.entities[item].position = Some(Position { x: 10, y: 10 });
    gs.ecs.entities[0].wants_to_pickup = Some(WantsToPickupItem { collected_by: 0, item });
    gs.run_systems(&Vec::new());
    assert_eq!(gs.ecs.entities[item].position, None);
    assert_eq!(gs.ecs.entities[item].in_backpack, Some(InBackpack { owner: 0 }));
    assert_eq!(gs.ecs.entities[0].wants_to_pickup, None);
    gs.ecs.entities[0].position = Some(Position { x: 30, y: 20 });
    gs.ecs.entities[0].wants_to_drop = Some(WantsToDropItem { item });
    gs.run_systems(&Vec::new());
    let back = &gs.ecs.entities[item];
    assert_eq!(back.position, Some(Position { x: 30, y: 20 }));
    assert_eq!(back.in_backpack, None);
    assert_eq!(gs.ecs.entities[0].wants_to_drop, None);
    assert!(back.alive && back.item && back.consumable);
    assert_eq!(back.name.as_deref(), Some("Red Potion"));
    assert_eq!(back.provides_healing, Some(ProvidesHealing { heal_amount: 8 }));
    assert!(gs.ecs.is_wf());
}

#[test]
fn fireball_through_a_run_of_all_systems() {
    let mut gs = game();
    let inside = orc(&mut gs, 22, 22);
    let on_rim = orc(&mut gs, 23, 20);
    let outside = orc(&mut gs, 24, 20);
    let diagonal_outside = orc(&mut gs, 23, 23);
    let scroll = missile(&mut gs, 0);
    gs.ecs.entities[scroll].inflicts_damage = Some(InflictsDamage { damage: 20 });
    gs.ecs.entities[scroll].area_of_effect = Some(AreaOfEffect { radius: 3 });
    gs.ecs.entities[on_rim].combat_stats =
        Some(CombatStats { max_hp: 30, hp: 25, defense: 1, power: 4 });
    gs.ecs.entities[0].wants_to_use =
        Some(WantsToUseItem { item: scroll, target: Some(Coord { x: 20, y: 20 }) });
    gs.run_systems(&Vec::new());
    assert_eq!(hp(&gs, inside), 0);
    assert_eq!(hp(&gs, on_rim), 5);
    assert_eq!(hp(&gs, outside), 16);
    assert_eq!(hp(&gs, diagonal_outside), 16);
    assert_eq!(hp(&gs, 0), 30);
    assert!(gs.ecs.alive(outside) && gs.ecs.alive(inside));
    assert!(!gs.ecs.alive(scroll));
    assert_eq!(gs.ecs.entities[0].wants_to_use, None);
}

#[test]
fn only_some_states_need_paths() {
    let mut gs = game();
    for (state, needed) in [
        (RunState::PreRun, true),
        (RunState::PlayerTurn, true),
        (RunState::MonsterTurn, true),
        (RunState::AwaitingInput, false),
        (RunState::ShowInventory, false),
        (RunState::ShowDropItem, false),
        (RunState::ShowTargeting { range: 6, item: 1 }, false),
    ] {
        gs.ecs.runstate = state;
        assert_eq!(gs.needs_paths(), needed);
    }
}

#[test]
fn fight_to_the_death_over_ticks() {
    let mut gs = game();
    let o = orc(&mut gs, 11, 10);
    gs.tick(&idle());
    let mut rounds = 0;
    while gs.ecs.alive(o) {
        assert_eq!(gs.ecs.runstate, RunState::AwaitingInput);
        gs.tick(&press(Key::Right));
        assert_eq!(
            gs.ecs.entities[0].wants_to_melee,
            Some(WantsToMelee { target: o })
        );
        gs.tick(&idle());
        assert_eq!(gs.ecs.entities[0].wants_to_melee, None);
        gs.tick(&idle());
        rounds += 1;
        assert!(rounds <= 4);
    }
    assert_eq!(rounds, 4);
    assert_eq!(gs.ecs.entities[o].position, None);
    assert_eq!(gs.ecs.entities[o].renderable, None);
    assert_eq!(gs.ecs.entities[0].position, Some(Position { x: 10, y: 10 }));
    gs.tick(&idle());
    gs.tick(&press(Key::Right));
    assert_eq!(gs.ecs.entities[0].position, Some(Position { x: 11, y: 10 }));
}

#[test]
fn inventory_menu_queues_a_use() {
    let mut gs = game();
    let item = potion(&mut gs, 0);
    gs.ecs.entities[0].combat_stats = Some(CombatStats { max_hp: 30, hp: 10, defense: 2, power: 5 });
    gs.tick(&idle());
    gs.tick(&press(Key::I));
    assert_eq!(gs.ecs.runstate, RunState::ShowInventory);
    gs.tick(&idle());
    assert_eq!(gs.ecs.runstate, RunState::ShowInventory);
    gs.tick(&press(Key::B));
    assert_eq!(gs.ecs.runstate, RunState::ShowInventory);
    gs.tick(&press(Key::A));
    assert_eq!(gs.ecs.runstate, RunState::PlayerTurn);
    assert_eq!(gs.ecs.entities[0].wants_to_use, Some(WantsToUseItem { item, target: None }));
    gs.tick(&idle());
    assert_eq!(gs.ecs.runstate, RunState::MonsterTurn);
    assert_eq!(hp(&gs, 0), 18);
    assert_eq!(gs.ecs.entities[0].wants_to_use, None);
    assert!(!gs.ecs.alive(item));
}

#[test]
fn menus_go_back_to_waiting_on_escape() {
    let mut gs = game();
    potion(&mut gs, 0);
    gs.ecs.runstate = RunState::ShowInventory;
    gs.tick(&press(Key::Escape));
    assert_eq!(gs.ecs.runstate, RunState::AwaitingInput);
    gs.ecs.runstate = RunState::ShowDropItem;
    gs.tick(&press(Key::Escape));
    assert_eq!(gs.ecs.runstate, RunState::AwaitingInput);
    assert_eq!(gs.ecs.entities[0].wants_to_use, None);
    assert_eq!(gs.ecs.entities[0].wants_to_drop, None);
}

#[test]
fn drop_menu_queues_a_drop() {
    let mut gs = game();
    let item = potion(&mut gs, 0);
    gs.tick(&idle());
    gs.tick(&press(Key::D));
    assert_eq!(gs.ecs.runstate, RunState::ShowDropItem);
    gs.tick(&press(Key::A));
    assert_eq!(gs.ecs.runstate, RunState::PlayerTurn);
    assert_eq!(gs.ecs.entities[0].wants_to_drop, Some(WantsToDropItem { item }));
    gs.tick(&idle());
    assert_eq!(gs.ecs.entities[item].position, Some(Position { x: 10, y: 10 }));
    assert_eq!(gs.ecs.entities[item].in_backpack, None);
    assert_eq!(gs.ecs.entities[0].wants_to_drop, None);
}

#[test]
fn ranged_item_goes_on_to_aiming() {
    let mut gs = game();
    let item = missile(&mut gs, 0);
    let o = orc(&mut gs, 13, 10);
    gs.tick(&idle());
    gs.tick(&press(Key::I));
    gs.tick(&press(Key::A));
    assert_eq!(gs.ecs.runstate, RunState::ShowTargeting { range: 6, item });
    assert_eq!(gs.ecs.entities[0].wants_to_use, None);
    gs.tick(&idle());
    assert_eq!(gs.ecs.runstate, RunState::ShowTargeting { range: 6, item });
    gs.tick(&click(13, 10));
    assert_eq!(gs.ecs.runstate, RunState::PlayerTurn);
    assert_eq!(
        gs.ecs.entities[0].wants_to_use,
        Some(WantsToUseItem { item, target: Some(Coord { x: 13, y: 10 }) })
    );
    gs.tick(&idle());
    assert_eq!(hp(&gs, o), 8);
    assert!(!gs.ecs.alive(item));
}

#[test]
fn aiming_at_a_cell_out_of_range_cancels() {
    let mut gs = game();
    let item = missile(&mut gs, 0);
    gs.tick(&idle());
    gs.ecs.runstate = RunState::ShowTargeting { range: 6, item };
    gs.tick(&click(30, 10));
    assert_eq!(gs.ecs.runstate, RunState::AwaitingInput);
    assert_eq!(gs.ecs.entities[0].wants_to_use, None);
    assert!(gs.ecs.alive(item));
}

#[test]
fn every_tick_ends_with_the_death_sweep() {
    let mut gs = game();
    let o = orc(&mut gs, 30, 30);
    gs.ecs.entities[o].combat_stats = Some(CombatStats { max_hp: 16, hp: 0, defense: 1, power: 4 });
    gs.ecs.runstate = RunState::AwaitingInput;
    gs.tick(&idle());
    assert!(!gs.ecs.alive(o));
    assert_eq!(gs.ecs.runstate, RunState::AwaitingInput);
}

#[test]
fn dead_player_queues_nothing() {
    let mut gs = game();
    potion(&mut gs, 0);
    gs.ecs.entities[0].combat_stats = Some(CombatStats { max_hp: 30, hp: 0, defense: 2, power: 5 });
    gs.ecs.runstate = RunState::AwaitingInput;
    gs.tick(&idle());
    assert!(!gs.ecs.alive(0));
    gs.ecs.runstate = RunState::ShowInventory;
    gs.tick(&press(Key::A));
    assert_eq!(gs.ecs.runstate, RunState::AwaitingInput);
    gs.tick(&press(Key::Right));
    assert_eq!(gs.ecs.runstate, RunState::PlayerTurn);
    assert_eq!(gs.ecs.entities[0].position, None);
}
