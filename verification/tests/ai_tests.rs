use roguelike::components::{Coord, Position, Viewshed};
use roguelike::map::{walled_arena, xy_idx, GameMap, TileType};
use roguelike::monster_ai_system::{check_walk, path_request, MonsterAI, NavigationPath};
use roguelike::visibility_system::VisibilitySystem;
use roguelike::world::World;

/// The map as the path search of `rltk` wants to see it.
struct Grid<'a> {
    map: &'a GameMap,
}

impl<'a> rltk::BaseMap for Grid<'a> {
    fn get_available_exits(&self, idx: usize) -> rltk::SmallVec<[(usize, f32); 10]> {
        let mut exits = rltk::SmallVec::new();
        for to in self.map.get_available_exits(idx) {
            exits.push((to, 1.0));
        }
        exits
    }

    fn get_pathing_distance(&self, idx1: usize, idx2: usize) -> f32 {
        let dx = (idx1 % 80) as f32 - (idx2 % 80) as f32;
        let dy = (idx1 / 80) as f32 - (idx2 / 80) as f32;
        dx.abs().max(dy.abs())
    }
}

fn world_on(tiles: Vec<TileType>) -> World {
    let map = GameMap::new(Vec::new(), tiles);
    World::new(map, rltk::RandomNumberGenerator::seeded(1))
}

fn monster(world: &mut World, x: i32, y: i32) -> usize {
    let e = world.create_entity();
    world.entities[e].position = Some(Position { x, y });
    world.entities[e].viewshed = Some(Viewshed { visible_tiles: Vec::new(), range: 8, dirty: true });
    world.entities[e].monster = true;
    world.entities[e].name = Some("Orc".to_string());
    e
}

fn hero(world: &mut World, x: i32, y: i32) -> usize {
    let e = world.create_entity();
    world.entities[e].position = Some(Position { x, y });
    world.entities[e].player = true;
    world.player_entity = e;
    world.player_pos = Coord { x, y };
    e
}

fn no_path() -> NavigationPath {
    NavigationPath { destination: 0, success: false, steps: Vec::new() }
}

fn find_paths(world: &World) -> Vec<NavigationPath> {
    let mut paths = Vec::new();
    for e in 0..world.entities.len() {
        match path_request(world, e) {
            Some((from, to)) => {
                let found = rltk::a_star_search(from, to, &Grid { map: &world.map });
                paths.push(NavigationPath {
                    destination: found.destination,
                    success: found.success,
                    steps: found.steps,
                });
            }
            None => paths.push(no_path()),
        }
    }
    paths
}

fn distance(a: Position, b: Coord) -> i32 {
    (a.x - b.x).abs().max((a.y - b.y).abs())
}

#[test]
fn monster_follows_the_second_node_of_its_path() {
    let mut world = world_on(walled_arena());
    let m = monster(&mut world, 10, 10);
    hero(&mut world, 14, 10);
    VisibilitySystem {}.run(&mut world);
    let path = NavigationPath {
        destination: xy_idx(14, 10),
        success: true,
        steps: vec![xy_idx(10, 10), xy_idx(11, 11), xy_idx(12, 10), xy_idx(13, 10), xy_idx(14, 10)],
    };
    MonsterAI {}.run(&mut world, &vec![path, no_path()]);
    assert_eq!(world.entities[m].position, Some(Position { x: 11, y: 11 }));
    assert!(world.entities[m].viewshed.as_ref().unwrap().dirty);
}

#[test]
fn monster_comes_one_step_closer_each_turn() {
    let mut world = world_on(walled_arena());
    let m = monster(&mut world, 10, 10);
    hero(&mut world, 15, 13);
    let mut before = distance(world.entities[m].position.unwrap(), world.player_pos);
    assert_eq!(before, 5);
    while before > 1 {
        VisibilitySystem {}.run(&mut world);
        let paths = find_paths(&world);
        assert!(paths[m].success);
        let second = paths[m].steps[1];
        let from = world.entities[m].position.unwrap();
        MonsterAI {}.run(&mut world, &paths);
        let at = world.entities[m].position.unwrap();
        assert_eq!(xy_idx(at.x, at.y), second);
        assert!((at.x - from.x).abs() <= 1 && (at.y - from.y).abs() <= 1);
        let after = distance(at, world.player_pos);
        assert_eq!(after, before - 1);
        before = after;
    }
    // beside the player it stays, whatever the search hands over
    let beside = world.entities[m].position.unwrap();
    for _ in 0..3 {
        VisibilitySystem {}.run(&mut world);
        let paths = find_paths(&world);
        assert!(paths[m].success);
        assert_eq!(paths[m].steps.len(), 2);
        MonsterAI {}.run(&mut world, &paths);
        assert_eq!(world.entities[m].position, Some(beside));
    }
}

#[test]
fn monster_beside_the_player_makes_no_move() {
    for (mx, my) in [(11, 10), (9, 9), (10, 11), (10, 10)] {
        let mut world = world_on(walled_arena());
        let m = monster(&mut world, mx, my);
        hero(&mut world, 10, 10);
        VisibilitySystem {}.run(&mut world);
        let direct = NavigationPath {
            destination: xy_idx(10, 10),
            success: true,
            steps: vec![xy_idx(mx, my), xy_idx(10, 10)],
        };
        MonsterAI {}.run(&mut world, &vec![direct, no_path()]);
        assert_eq!(world.entities[m].position, Some(Position { x: mx, y: my }));
        assert!(!world.entities[m].viewshed.as_ref().unwrap().dirty);
        let detour = NavigationPath {
            destination: xy_idx(10, 10),
            success: true,
            steps: vec![xy_idx(mx, my), xy_idx(11, 11), xy_idx(10, 10)],
        };
        MonsterAI {}.run(&mut world, &vec![detour, no_path()]);
        assert_eq!(world.entities[m].position, Some(Position { x: mx, y: my }));
        assert!(!world.entities[m].viewshed.as_ref().unwrap().dirty);
    }
}

#[test]
fn monster_two_steps_away_comes_beside_the_player() {
    let mut world = world_on(walled_arena());
    let m = monster(&mut world, 12, 10);
    hero(&mut world, 10, 10);
    VisibilitySystem {}.run(&mut world);
    let paths = find_paths(&world);
    assert_eq!(paths[m].steps.len(), 3);
    MonsterAI {}.run(&mut world, &paths);
    let at = world.entities[m].position.unwrap();
    assert_eq!(distance(at, world.player_pos), 1);
    assert!(world.entities[m].viewshed.as_ref().unwrap().dirty);
}

#[test]
fn walled_off_monster_never_moves() {
    let mut tiles = walled_arena();
    for (x, y) in [(9, 9), (10, 9), (11, 9), (9, 10), (11, 10), (9, 11), (10, 11), (11, 11)] {
        tiles[xy_idx(x, y)] = TileType::Wall;
    }
    let mut world = world_on(tiles);
    let m = monster(&mut world, 10, 10);
    hero(&mut world, 14, 10);
    // the monster is told that it sees the player, so that only the path decides
    world.entities[m].viewshed =
        Some(Viewshed { visible_tiles: vec![Coord { x: 14, y: 10 }], range: 8, dirty: false });
    for _ in 0..3 {
        let paths = find_paths(&world);
        assert!(!paths[m].success);
        MonsterAI {}.run(&mut world, &paths);
        assert_eq!(world.entities[m].position, Some(Position { x: 10, y: 10 }));
        assert!(!world.entities[m].viewshed.as_ref().unwrap().dirty);
    }
}

#[test]
fn monster_that_does_not_see_the_player_stays() {
    let mut world = world_on(walled_arena());
    let m = monster(&mut world, 10, 10);
    hero(&mut world, 60, 40);
    VisibilitySystem {}.run(&mut world);
    assert_eq!(path_request(&world, m), Some((xy_idx(10, 10), xy_idx(60, 40))));
    let mut steps = vec![xy_idx(10, 10)];
    for k in 1..=30 {
        steps.push(xy_idx(10 + k, 10 + k));
    }
    for k in 1..=20 {
        steps.push(xy_idx(40 + k, 40));
    }
    assert!(check_walk(&world.map, &steps));
    let path = NavigationPath { destination: xy_idx(60, 40), success: true, steps };
    MonsterAI {}.run(&mut world, &vec![path, no_path()]);
    assert_eq!(world.entities[m].position, Some(Position { x: 10, y: 10 }));
}

#[test]
fn path_request_names_both_ends() {
    let mut world = world_on(walled_arena());
    let m = monster(&mut world, 10, 10);
    let h = hero(&mut world, 14, 10);
    VisibilitySystem {}.run(&mut world);
    assert_eq!(path_request(&world, m), Some((xy_idx(10, 10), xy_idx(14, 10))));
    assert_eq!(path_request(&world, h), None);
    assert_eq!(path_request(&world, 17), None);
    world.entities[m].name = None;
    assert_eq!(path_request(&world, m), None);
}

#[test]
fn path_of_one_node_moves_nobody() {
    let mut world = world_on(walled_arena());
    let m = monster(&mut world, 10, 10);
    hero(&mut world, 10, 10);
    VisibilitySystem {}.run(&mut world);
    let path =
        NavigationPath { destination: xy_idx(10, 10), success: true, steps: vec![xy_idx(10, 10)] };
    MonsterAI {}.run(&mut world, &vec![path, no_path()]);
    assert_eq!(world.entities[m].position, Some(Position { x: 10, y: 10 }));
    assert!(!world.entities[m].viewshed.as_ref().unwrap().dirty);
}

#[test]
fn path_that_is_no_walk_moves_nobody() {
    let mut tiles = walled_arena();
    tiles[xy_idx(11, 10)] = TileType::Wall;
    let mut world = world_on(tiles);
    let m = monster(&mut world, 10, 10);
    hero(&mut world, 10, 13);
    VisibilitySystem {}.run(&mut world);
    let goal = xy_idx(10, 13);
    let cases = [
        // a leap
        vec![xy_idx(10, 10), xy_idx(10, 12), goal],
        // into a wall
        vec![xy_idx(10, 10), xy_idx(11, 10), xy_idx(11, 11), xy_idx(10, 12), goal],
        // from somewhere else
        vec![xy_idx(10, 11), xy_idx(10, 12), goal],
        // off the grid
        vec![xy_idx(10, 10), 4000, goal],
        // on the spot
        vec![xy_idx(10, 10), xy_idx(10, 10), xy_idx(10, 11), xy_idx(10, 12), goal],
        // a good first step, but a leap later on
        vec![xy_idx(10, 10), xy_idx(10, 11), goal],
        // a walk that ends short of the player
        vec![xy_idx(10, 10), xy_idx(10, 11), xy_idx(10, 12)],
    ];
    for steps in cases {
        let path = NavigationPath { destination: xy_idx(10, 13), success: true, steps };
        MonsterAI {}.run(&mut world, &vec![path, no_path()]);
        assert_eq!(world.entities[m].position, Some(Position { x: 10, y: 10 }));
    }
    MonsterAI {}.run(&mut world, &Vec::new());
    assert_eq!(world.entities[m].position, Some(Position { x: 10, y: 10 }));
    let good = vec![xy_idx(10, 10), xy_idx(10, 11), xy_idx(10, 12), goal];
    let failed = NavigationPath { destination: goal, success: false, steps: good.clone() };
    MonsterAI {}.run(&mut world, &vec![failed, no_path()]);
    assert_eq!(world.entities[m].position, Some(Position { x: 10, y: 10 }));
    let path = NavigationPath { destination: goal, success: true, steps: good };
    MonsterAI {}.run(&mut world, &vec![path, no_path()]);
    assert_eq!(world.entities[m].position, Some(Position { x: 10, y: 11 }));
}

#[test]
fn check_walk_wants_every_step_to_be_one() {
    let mut tiles = walled_arena();
    tiles[xy_idx(12, 10)] = TileType::Wall;
    let map = GameMap::new(Vec::new(), tiles);
    assert!(check_walk(&map, &Vec::new()));
    assert!(check_walk(&map, &vec![xy_idx(10, 10)]));
    assert!(check_walk(&map, &vec![xy_idx(10, 10), xy_idx(11, 11), xy_idx(12, 11)]));
    assert!(check_walk(&map, &vec![xy_idx(12, 10), xy_idx(11, 10)]));
    assert!(!check_walk(&map, &vec![xy_idx(11, 10), xy_idx(12, 10)]));
    assert!(!check_walk(&map, &vec![xy_idx(10, 10), xy_idx(11, 11), xy_idx(13, 11)]));
    assert!(!check_walk(&map, &vec![xy_idx(10, 10), xy_idx(10, 10)]));
}
