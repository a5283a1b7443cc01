use roguelike::components::{Coord, Position, Viewshed};
use roguelike::map::{walled_arena, xy_idx, GameMap, TileType};
use roguelike::visibility_system::VisibilitySystem;
use roguelike::world::World;

fn world_on(tiles: Vec<TileType>) -> World {
    let map = GameMap::new(Vec::new(), tiles);
    World::new(map, rltk::RandomNumberGenerator::seeded(1))
}

fn viewer(world: &mut World, x: i32, y: i32, range: i32) -> usize {
    let e = world.create_entity();
    world.entities[e].position = Some(Position { x, y });
    world.entities[e].viewshed = Some(Viewshed { visible_tiles: Vec::new(), range, dirty: true });
    e
}

fn sees(world: &World, e: usize, x: i32, y: i32) -> bool {
    world.entities[e].viewshed.as_ref().unwrap().visible_tiles.contains(&Coord { x, y })
}

#[test]
fn viewer_sees_its_own_cell_and_nothing_outside() {
    let mut world = world_on(walled_arena());
    let places = [(1, 1), (78, 48), (40, 25), (1, 48), (78, 1), (3, 30)];
    let mut viewers = Vec::new();
    for (x, y) in places {
        viewers.push(viewer(&mut world, x, y, 8));
    }
    VisibilitySystem {}.run(&mut world);
    for (k, (x, y)) in places.iter().enumerate() {
        let v = world.entities[viewers[k]].viewshed.as_ref().unwrap();
        assert!(!v.dirty);
        assert_eq!(v.range, 8);
        assert!(v.visible_tiles.contains(&Coord { x: *x, y: *y }));
        for p in &v.visible_tiles {
            assert!(0 <= p.x && p.x < 80 && 0 <= p.y && p.y < 50);
        }
        let mut sorted: Vec<(i32, i32)> = v.visible_tiles.iter().map(|p| (p.x, p.y)).collect();
        sorted.sort();
        sorted.dedup();
        assert_eq!(sorted.len(), v.visible_tiles.len());
    }
}

#[test]
fn sight_ends_at_the_range() {
    let mut world = world_on(walled_arena());
    let e = viewer(&mut world, 40, 25, 4);
    VisibilitySystem {}.run(&mut world);
    assert!(sees(&world, e, 40, 25));
    assert!(sees(&world, e, 43, 25));
    assert!(sees(&world, e, 40, 22));
    assert!(!sees(&world, e, 46, 25));
    assert!(!sees(&world, e, 40, 31));
    let v = world.entities[e].viewshed.as_ref().unwrap();
    for p in &v.visible_tiles {
        assert!((p.x - 40).abs() <= 4 && (p.y - 25).abs() <= 4);
    }
    assert!(v.visible_tiles.len() > 9);
}

#[test]
fn walls_stop_the_eye() {
    let mut tiles = walled_arena();
    for y in 1..49 {
        tiles[xy_idx(42, y)] = TileType::Wall;
    }
    let mut world = world_on(tiles);
    let e = viewer(&mut world, 40, 25, 8);
    VisibilitySystem {}.run(&mut world);
    assert!(sees(&world, e, 41, 25));
    assert!(sees(&world, e, 42, 25));
    assert!(!sees(&world, e, 43, 25));
    assert!(!sees(&world, e, 44, 25));
    assert!(sees(&world, e, 38, 25));
}

#[test]
fn sight_of_range_zero_is_the_own_cell() {
    let mut world = world_on(walled_arena());
    let e = viewer(&mut world, 40, 25, 0);
    VisibilitySystem {}.run(&mut world);
    let v = world.entities[e].viewshed.as_ref().unwrap();
    assert_eq!(v.visible_tiles, vec![Coord { x: 40, y: 25 }]);
}

#[test]
fn widest_sight_takes_in_the_whole_arena() {
    let mut world = world_on(walled_arena());
    let e = viewer(&mut world, 40, 25, 1000);
    VisibilitySystem {}.run(&mut world);
    let v = world.entities[e].viewshed.as_ref().unwrap();
    assert!(!v.dirty);
    assert_eq!(v.range, 1000);
    for p in &v.visible_tiles {
        assert!(0 <= p.x && p.x < 80 && 0 <= p.y && p.y < 50);
    }
    for (x, y) in [(40, 25), (1, 1), (78, 48), (1, 48), (78, 1), (40, 0), (0, 25), (79, 25)] {
        assert!(sees(&world, e, x, y));
    }
    assert!(v.visible_tiles.len() > 3500);
    assert!(world.is_wf());
}

#[test]
fn clean_viewshed_is_left_alone() {
    let mut world = world_on(walled_arena());
    let e = viewer(&mut world, 40, 25, 8);
    world.entities[e].viewshed =
        Some(Viewshed { visible_tiles: vec![Coord { x: 1, y: 1 }], range: 8, dirty: false });
    VisibilitySystem {}.run(&mut world);
    let v = world.entities[e].viewshed.as_ref().unwrap();
    assert_eq!(v.visible_tiles, vec![Coord { x: 1, y: 1 }]);
    assert!(!v.dirty);
}

#[test]
fn viewshed_without_a_place_stays_out_of_date() {
    let mut world = world_on(walled_arena());
    let e = world.create_entity();
    world.entities[e].viewshed = Some(Viewshed { visible_tiles: Vec::new(), range: 8, dirty: true });
    VisibilitySystem {}.run(&mut world);
    let v = world.entities[e].viewshed.as_ref().unwrap();
    assert!(v.dirty);
    assert!(v.visible_tiles.is_empty());
}

#[test]
fn only_the_player_marks_the_map() {
    let mut world = world_on(walled_arena());
    let monster = viewer(&mut world, 10, 10, 8);
    let hero = viewer(&mut world, 40, 25, 8);
    world.player_entity = hero;
    world.player_pos = Coord { x: 40, y: 25 };
    VisibilitySystem {}.run(&mut world);
    for idx in 0..4000usize {
        let p = Coord { x: (idx % 80) as i32, y: (idx / 80) as i32 };
        let seen = sees(&world, hero, p.x, p.y);
        assert_eq!(world.map.visible_tiles[idx], seen);
        assert_eq!(world.map.revealed_tiles[idx], seen);
    }
    assert!(sees(&world, monster, 10, 10));
    assert!(!world.map.visible_tiles[xy_idx(10, 10)]);
    assert!(!world.map.revealed_tiles[xy_idx(10, 10)]);
}

#[test]
fn revealed_tiles_stay_revealed() {
    let mut world = world_on(walled_arena());
    let hero = viewer(&mut world, 10, 25, 5);
    world.player_entity = hero;
    world.player_pos = Coord { x: 10, y: 25 };
    VisibilitySystem {}.run(&mut world);
    assert!(world.map.visible_tiles[xy_idx(10, 25)]);
    assert!(world.map.revealed_tiles[xy_idx(10, 25)]);
    world.entities[hero].position = Some(Position { x: 60, y: 25 });
    world.entities[hero].viewshed.as_mut().unwrap().dirty = true;
    world.player_pos = Coord { x: 60, y: 25 };
    VisibilitySystem {}.run(&mut world);
    assert!(!world.map.visible_tiles[xy_idx(10, 25)]);
    assert!(world.map.revealed_tiles[xy_idx(10, 25)]);
    assert!(world.map.visible_tiles[xy_idx(60, 25)]);
    assert!(world.map.revealed_tiles[xy_idx(60, 25)]);
}

#[test]
fn monster_sight_leaves_the_map_alone() {
    let mut world = world_on(walled_arena());
    let hero = viewer(&mut world, 40, 25, 8);
    world.player_entity = hero;
    world.player_pos = Coord { x: 40, y: 25 };
    VisibilitySystem {}.run(&mut world);
    let visible = world.map.visible_tiles.clone();
    let revealed = world.map.revealed_tiles.clone();
    let monster = viewer(&mut world, 10, 10, 8);
    VisibilitySystem {}.run(&mut world);
    assert!(sees(&world, monster, 11, 11));
    assert_eq!(world.map.visible_tiles, visible);
    assert_eq!(world.map.revealed_tiles, revealed);
}
