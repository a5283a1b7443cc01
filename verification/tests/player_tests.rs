use roguelike::components::{
    CombatStats, Coord, Position, Viewshed, WantsToMelee, WantsToPickupItem,
};
use roguelike::input::{letter_to_option, Key};
use roguelike::map::{walled_arena, xy_idx, GameMap, TileType};
use roguelike::map_indexing_system::MapIndexingSystem;
use roguelike::player::{get_item, player_input, try_move_player};
use roguelike::state::{RunState, State};
use roguelike::world::World;

fn world_on(tiles: Vec<TileType>) -> World {
    let map = GameMap::new(Vec::new(), tiles);
    World::new(map, rltk::RandomNumberGenerator::seeded(1))
}

fn hero(world: &mut World, x: i32, y: i32) -> usize {
    let e = world.create_entity();
    world.entities[e].position = Some(Position { x, y });
    world.entities[e].player = true;
    world.entities[e].viewshed = Some(Viewshed { visible_tiles: Vec::new(), range: 8, dirty: false });
    world.entities[e].combat_stats = Some(CombatStats { max_hp: 30, hp: 30, defense: 2, power: 5 });
    world.player_entity = e;
    world.player_pos = Coord { x, y };
    e
}

fn orc(world: &mut World, x: i32, y: i32) -> usize {
    let e = world.create_entity();
    world.entities[e].position = Some(Position { x, y });
    world.entities[e].monster = true;
    world.entities[e].blocks_tile = true;
    world.entities[e].combat_stats = Some(CombatStats { max_hp: 16, hp: 16, defense: 1, power: 4 });
    e
}

fn item(world: &mut World, x: i32, y: i32) -> usize {
    let e = world.create_entity();
    world.entities[e].position = Some(Position { x, y });
    world.entities[e].item = true;
    e
}

fn last_message(world: &World) -> &str {
    world.log.entries.last().unwrap()
}

#[test]
fn player_steps_onto_free_floor() {
    let mut world = world_on(walled_arena());
    let h = hero(&mut world, 10, 10);
    MapIndexingSystem {}.run(&mut world);
    try_move_player(1, -1, &mut world);
    assert_eq!(world.entities[h].position, Some(Position { x: 11, y: 9 }));
    assert_eq!(world.player_pos, Coord { x: 11, y: 9 });
    assert!(world.entities[h].viewshed.as_ref().unwrap().dirty);
    assert_eq!(world.entities[h].wants_to_melee, None);
}

#[test]
fn player_is_stopped_by_a_wall() {
    let mut tiles = walled_arena();
    tiles[xy_idx(11, 10)] = TileType::Wall;
    let mut world = world_on(tiles);
    let h = hero(&mut world, 10, 10);
    MapIndexingSystem {}.run(&mut world);
    try_move_player(1, 0, &mut world);
    assert_eq!(world.entities[h].position, Some(Position { x: 10, y: 10 }));
    assert_eq!(world.player_pos, Coord { x: 10, y: 10 });
    assert!(!world.entities[h].viewshed.as_ref().unwrap().dirty);
}

#[test]
fn player_cannot_leave_the_inner_grid() {
    let mut world = world_on(vec![TileType::Floor; 4000]);
    let h = hero(&mut world, 1, 1);
    MapIndexingSystem {}.run(&mut world);
    try_move_player(-1, 0, &mut world);
    assert_eq!(world.entities[h].position, Some(Position { x: 1, y: 1 }));
    try_move_player(0, -1, &mut world);
    assert_eq!(world.entities[h].position, Some(Position { x: 1, y: 1 }));
    try_move_player(i32::MAX, i32::MIN, &mut world);
    assert_eq!(world.entities[h].position, Some(Position { x: 1, y: 1 }));
    world.entities[h].position = Some(Position { x: 78, y: 48 });
    try_move_player(1, 1, &mut world);
    assert_eq!(world.entities[h].position, Some(Position { x: 79, y: 49 }));
    try_move_player(1, 0, &mut world);
    assert_eq!(world.entities[h].position, Some(Position { x: 79, y: 49 }));
    try_move_player(0, 1, &mut world);
    assert_eq!(world.entities[h].position, Some(Position { x: 79, y: 49 }));
}

#[test]
fn move_into_a_monster_becomes_an_attack() {
    let mut world = world_on(walled_arena());
    let h = hero(&mut world, 10, 10);
    let o = orc(&mut world, 11, 10);
    MapIndexingSystem {}.run(&mut world);
    try_move_player(1, 0, &mut world);
    assert_eq!(world.entities[h].wants_to_melee, Some(WantsToMelee { target: o }));
    assert_eq!(world.entities[h].position, Some(Position { x: 10, y: 10 }));
    assert_eq!(world.player_pos, Coord { x: 10, y: 10 });
}

#[test]
fn attack_goes_to_the_first_occupant_with_stats() {
    let mut world = world_on(walled_arena());
    let h = hero(&mut world, 10, 10);
    let _thing = item(&mut world, 11, 10);
    let first = orc(&mut world, 11, 10);
    let _second = orc(&mut world, 11, 10);
    MapIndexingSystem {}.run(&mut world);
    try_move_player(1, 0, &mut world);
    assert_eq!(world.entities[h].wants_to_melee, Some(WantsToMelee { target: first }));
}

#[test]
fn player_walks_over_an_item() {
    let mut world = world_on(walled_arena());
    let h = hero(&mut world, 10, 10);
    item(&mut world, 11, 10);
    MapIndexingSystem {}.run(&mut world);
    try_move_player(1, 0, &mut world);
    assert_eq!(world.entities[h].position, Some(Position { x: 11, y: 10 }));
}

#[test]
fn blocker_without_stats_stops_the_player() {
    let mut world = world_on(walled_arena());
    let h = hero(&mut world, 10, 10);
    let pillar = world.create_entity();
    world.entities[pillar].position = Some(Position { x: 11, y: 10 });
    world.entities[pillar].blocks_tile = true;
    MapIndexingSystem {}.run(&mut world);
    try_move_player(1, 0, &mut world);
    assert_eq!(world.entities[h].position, Some(Position { x: 10, y: 10 }));
    assert_eq!(world.entities[h].wants_to_melee, None);
}

#[test]
fn world_without_a_player_does_not_move() {
    let mut world = world_on(walled_arena());
    let o = orc(&mut world, 10, 10);
    world.player_entity = 5;
    MapIndexingSystem {}.run(&mut world);
    try_move_player(1, 0, &mut world);
    assert_eq!(world.entities[o].position, Some(Position { x: 10, y: 10 }));
    world.player_entity = o;
    try_move_player(1, 0, &mut world);
    assert_eq!(world.entities[o].position, Some(Position { x: 10, y: 10 }));
}

#[test]
fn get_item_queues_a_pickup() {
    let mut world = world_on(walled_arena());
    let h = hero(&mut world, 10, 10);
    let _elsewhere = item(&mut world, 12, 10);
    let here = item(&mut world, 10, 10);
    let entries = world.log.entries.len();
    assert!(get_item(&mut world));
    assert_eq!(
        world.entities[h].wants_to_pickup,
        Some(WantsToPickupItem { collected_by: h, item: here })
    );
    assert_eq!(world.log.entries.len(), entries);
}

#[test]
fn get_item_takes_the_item_with_the_highest_handle() {
    let mut world = world_on(walled_arena());
    let h = hero(&mut world, 10, 10);
    let _low = item(&mut world, 10, 10);
    let high = item(&mut world, 10, 10);
    assert!(get_item(&mut world));
    assert_eq!(
        world.entities[h].wants_to_pickup,
        Some(WantsToPickupItem { collected_by: h, item: high })
    );
}

#[test]
fn get_item_on_an_empty_tile_says_so() {
    let mut world = world_on(walled_arena());
    let h = hero(&mut world, 10, 10);
    orc(&mut world, 10, 10);
    item(&mut world, 11, 10);
    assert_eq!(world.log.entries, vec!["Welcome to Rusty Roguelike".to_string()]);
    assert!(!get_item(&mut world));
    assert_eq!(world.entities[h].wants_to_pickup, None);
    assert_eq!(world.log.entries.len(), 2);
    assert_eq!(last_message(&world), "There is nothing here to pick up.");
}

#[test]
fn keys_move_the_player() {
    let cases = [
        (Key::Left, -1, 0),
        (Key::Numpad4, -1, 0),
        (Key::H, -1, 0),
        (Key::Right, 1, 0),
        (Key::Numpad6, 1, 0),
        (Key::L, 1, 0),
        (Key::Up, 0, -1),
        (Key::Numpad8, 0, -1),
        (Key::K, 0, -1),
        (Key::Down, 0, 1),
        (Key::Numpad2, 0, 1),
        (Key::J, 0, 1),
        (Key::Numpad9, 1, -1),
        (Key::U, 1, -1),
        (Key::Numpad7, -1, -1),
        (Key::Y, -1, -1),
        (Key::Numpad3, 1, 1),
        (Key::M, 1, 1),
        (Key::Numpad1, -1, 1),
        (Key::N, -1, 1),
    ];
    for (key, dx, dy) in cases {
        let mut world = world_on(walled_arena());
        let h = hero(&mut world, 10, 10);
        MapIndexingSystem {}.run(&mut world);
        let mut gs = State { ecs: world };
        assert_eq!(player_input(&mut gs, Some(key)), RunState::PlayerTurn);
        assert_eq!(gs.ecs.entities[h].position, Some(Position { x: 10 + dx, y: 10 + dy }));
    }
}

#[test]
fn keys_without_meaning_leave_the_game_waiting() {
    let mut world = world_on(walled_arena());
    let h = hero(&mut world, 10, 10);
    MapIndexingSystem {}.run(&mut world);
    let mut gs = State { ecs: world };
    assert_eq!(player_input(&mut gs, None), RunState::AwaitingInput);
    assert_eq!(player_input(&mut gs, Some(Key::Q)), RunState::AwaitingInput);
    assert_eq!(player_input(&mut gs, Some(Key::Escape)), RunState::AwaitingInput);
    assert_eq!(player_input(&mut gs, Some(Key::Numpad5)), RunState::AwaitingInput);
    assert_eq!(player_input(&mut gs, Some(Key::Other)), RunState::AwaitingInput);
    assert_eq!(gs.ecs.entities[h].position, Some(Position { x: 10, y: 10 }));
}

#[test]
fn menu_keys_open_the_menus() {
    let mut world = world_on(walled_arena());
    hero(&mut world, 10, 10);
    let mut gs = State { ecs: world };
    assert_eq!(player_input(&mut gs, Some(Key::I)), RunState::ShowInventory);
    assert_eq!(player_input(&mut gs, Some(Key::D)), RunState::ShowDropItem);
}

#[test]
fn pickup_key_takes_a_turn_only_where_an_item_lies() {
    let mut world = world_on(walled_arena());
    let h = hero(&mut world, 10, 10);
    let mut gs = State { ecs: world };
    assert_eq!(player_input(&mut gs, Some(Key::G)), RunState::AwaitingInput);
    assert_eq!(gs.ecs.log.entries.last().unwrap(), "There is nothing here to pick up.");
    let here = item(&mut gs.ecs, 10, 10);
    assert_eq!(player_input(&mut gs, Some(Key::G)), RunState::PlayerTurn);
    assert_eq!(
        gs.ecs.entities[h].wants_to_pickup,
        Some(WantsToPickupItem { collected_by: h, item: here })
    );
}

#[test]
fn letters_count_from_zero() {
    assert_eq!(letter_to_option(Key::A), 0);
    assert_eq!(letter_to_option(Key::B), 1);
    assert_eq!(letter_to_option(Key::M), 12);
    assert_eq!(letter_to_option(Key::Z), 25);
    assert_eq!(letter_to_option(Key::Escape), -1);
    assert_eq!(letter_to_option(Key::Numpad1), -1);
    assert_eq!(letter_to_option(Key::Other), -1);
}
