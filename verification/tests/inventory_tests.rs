use roguelike::components::{
    AreaOfEffect, CombatStats, Coord, InBackpack, InflictsDamage, Position, ProvidesHealing,
    WantsToDropItem, WantsToPickupItem, WantsToUseItem,
};
use roguelike::inventory_system::{
    use_item, ItemCollectionSystem, ItemDropSystem, ItemUseSystem,
};
use roguelike::map::{walled_arena, GameMap};
use roguelike::world::World;

fn arena_world() -> World {
    let map = GameMap::new(Vec::new(), walled_arena());
    World::new(map, rltk::RandomNumberGenerator::seeded(1))
}

fn fighter(world: &mut World, x: i32, y: i32, hp: i32, max_hp: i32) -> usize {
    let e = world.create_entity();
    world.entities[e].position = Some(Position { x, y });
    world.entities[e].combat_stats = Some(CombatStats { max_hp, hp, defense: 1, power: 4 });
    e
}

fn potion(world: &mut World, owner: usize, heal_amount: i32) -> usize {
    let e = world.create_entity();
    world.entities[e].item = true;
    world.entities[e].consumable = true;
    world.entities[e].provides_healing = Some(ProvidesHealing { heal_amount });
    world.entities[e].in_backpack = Some(InBackpack { owner });
    e
}

fn scroll(world: &mut World, owner: usize, damage: i32, radius: Option<i32>) -> usize {
    let e = world.create_entity();
    world.entities[e].item = true;
    world.entities[e].consumable = true;
    world.entities[e].inflicts_damage = Some(InflictsDamage { damage });
    world.entities[e].area_of_effect = radius.map(|radius| AreaOfEffect { radius });
    world.entities[e].in_backpack = Some(InBackpack { owner });
    e
}

fn hp(world: &World, e: usize) -> i32 {
    world.entities[e].combat_stats.unwrap().hp
}

#[test]
fn pickup_moves_the_item_into_the_backpack() {
    let mut world = arena_world();
    let hero = fighter(&mut world, 10, 10, 30, 30);
    let item = world.create_entity();
    world.entities[item].item = true;
    world.entities[item].position = Some(Position { x: 10, y: 10 });
    world.entities[hero].wants_to_pickup = Some(WantsToPickupItem { collected_by: hero, item });
    ItemCollectionSystem {}.run(&mut world);
    assert_eq!(world.entities[item].position, None);
    assert_eq!(world.entities[item].in_backpack, Some(InBackpack { owner: hero }));
    assert_eq!(world.entities[hero].wants_to_pickup, None);
    assert!(world.entities[item].item);
}

#[test]
fn pickup_and_drop_make_a_round_trip() {
    let mut world = arena_world();
    let hero = fighter(&mut world, 10, 10, 30, 30);
    let item = world.create_entity();
    world.entities[item].item = true;
    world.entities[item].position = Some(Position { x: 10, y: 10 });
    world.entities[hero].wants_to_pickup = Some(WantsToPickupItem { collected_by: hero, item });
    ItemCollectionSystem {}.run(&mut world);
    world.entities[hero].position = Some(Position { x: 14, y: 12 });
    world.entities[hero].wants_to_drop = Some(WantsToDropItem { item });
    ItemDropSystem {}.run(&mut world);
    assert_eq!(world.entities[item].position, Some(Position { x: 14, y: 12 }));
    assert_eq!(world.entities[item].in_backpack, None);
    assert_eq!(world.entities[hero].wants_to_drop, None);
    assert_eq!(world.entities[hero].position, Some(Position { x: 14, y: 12 }));
}

#[test]
fn later_collector_gets_the_item() {
    let mut world = arena_world();
    let a = fighter(&mut world, 10, 10, 30, 30);
    let b = fighter(&mut world, 10, 10, 30, 30);
    let item = world.create_entity();
    world.entities[item].item = true;
    world.entities[item].position = Some(Position { x: 10, y: 10 });
    world.entities[a].wants_to_pickup = Some(WantsToPickupItem { collected_by: a, item });
    world.entities[b].wants_to_pickup = Some(WantsToPickupItem { collected_by: b, item });
    ItemCollectionSystem {}.run(&mut world);
    assert_eq!(world.entities[item].in_backpack, Some(InBackpack { owner: b }));
    assert_eq!(world.entities[a].wants_to_pickup, None);
    assert_eq!(world.entities[b].wants_to_pickup, None);
}

#[test]
fn pickup_of_a_missing_item_only_spends_the_intent() {
    let mut world = arena_world();
    let hero = fighter(&mut world, 10, 10, 30, 30);
    world.entities[hero].wants_to_pickup =
        Some(WantsToPickupItem { collected_by: hero, item: 40 });
    ItemCollectionSystem {}.run(&mut world);
    assert_eq!(world.entities[hero].wants_to_pickup, None);
    assert_eq!(world.entities.len(), 1);
}

#[test]
fn drop_without_a_place_keeps_the_item() {
    let mut world = arena_world();
    let ghost = world.create_entity();
    let item = world.create_entity();
    world.entities[item].item = true;
    world.entities[item].in_backpack = Some(InBackpack { owner: ghost });
    world.entities[ghost].wants_to_drop = Some(WantsToDropItem { item });
    ItemDropSystem {}.run(&mut world);
    assert_eq!(world.entities[item].position, None);
    assert_eq!(world.entities[item].in_backpack, Some(InBackpack { owner: ghost }));
    assert_eq!(world.entities[ghost].wants_to_drop, None);
}

#[test]
fn potion_heals_eight() {
    let mut world = arena_world();
    let hero = fighter(&mut world, 10, 10, 10, 30);
    let item = potion(&mut world, hero, 8);
    world.entities[hero].wants_to_use = Some(WantsToUseItem { item, target: None });
    ItemUseSystem {}.run(&mut world);
    assert_eq!(hp(&world, hero), 18);
    assert_eq!(world.entities[hero].wants_to_use, None);
    assert_eq!(world.doomed, vec![item]);
    assert!(world.alive(item));
    world.maintain();
    assert!(!world.alive(item));
}

#[test]
fn potion_does_not_heal_past_the_maximum() {
    let mut world = arena_world();
    let hero = fighter(&mut world, 10, 10, 28, 30);
    let item = potion(&mut world, hero, 8);
    world.entities[hero].wants_to_use = Some(WantsToUseItem { item, target: None });
    ItemUseSystem {}.run(&mut world);
    assert_eq!(hp(&world, hero), 30);
}

#[test]
fn lasting_item_stays_in_the_backpack() {
    let mut world = arena_world();
    let hero = fighter(&mut world, 10, 10, 10, 30);
    let item = potion(&mut world, hero, 8);
    world.entities[item].consumable = false;
    let spent = use_item(&mut world, hero, WantsToUseItem { item, target: None });
    assert!(!spent);
    assert_eq!(hp(&world, hero), 18);
    assert!(world.doomed.is_empty());
    world.maintain();
    assert!(world.alive(item));
    assert_eq!(world.entities[item].in_backpack, Some(InBackpack { owner: hero }));
}

#[test]
fn fireball_hurts_all_within_three() {
    let mut world = arena_world();
    let hero = fighter(&mut world, 5, 5, 30, 30);
    let at_centre = fighter(&mut world, 20, 20, 16, 16);
    let on_rim = fighter(&mut world, 23, 20, 25, 30);
    let diagonal = fighter(&mut world, 22, 22, 16, 16);
    let just_outside = fighter(&mut world, 23, 21, 16, 16);
    let far = fighter(&mut world, 24, 20, 16, 16);
    let statue = world.create_entity();
    world.entities[statue].position = Some(Position { x: 20, y: 21 });
    let item = scroll(&mut world, hero, 20, Some(3));
    world.entities[hero].wants_to_use =
        Some(WantsToUseItem { item, target: Some(Coord { x: 20, y: 20 }) });
    ItemUseSystem {}.run(&mut world);
    assert_eq!(hp(&world, at_centre), 0);
    assert_eq!(hp(&world, on_rim), 5);
    assert_eq!(hp(&world, diagonal), 0);
    assert_eq!(hp(&world, just_outside), 16);
    assert_eq!(hp(&world, far), 16);
    assert_eq!(hp(&world, hero), 30);
    assert_eq!(world.entities[statue].combat_stats, None);
    assert_eq!(world.doomed, vec![item]);
    assert_eq!(world.entities[hero].wants_to_use, None);
}

#[test]
fn fireball_hurts_its_user_too() {
    let mut world = arena_world();
    let hero = fighter(&mut world, 20, 22, 30, 30);
    let item = scroll(&mut world, hero, 20, Some(3));
    use_item(&mut world, hero, WantsToUseItem { item, target: Some(Coord { x: 20, y: 20 }) });
    assert_eq!(hp(&world, hero), 10);
}

#[test]
fn missile_hits_the_target_cell_only() {
    let mut world = arena_world();
    let hero = fighter(&mut world, 5, 5, 30, 30);
    let hit = fighter(&mut world, 20, 20, 16, 16);
    let neighbour = fighter(&mut world, 21, 20, 16, 16);
    let item = scroll(&mut world, hero, 8, None);
    let spent = use_item(&mut world, hero, WantsToUseItem { item, target: Some(Coord { x: 20, y: 20 }) });
    assert!(spent);
    assert_eq!(hp(&world, hit), 8);
    assert_eq!(hp(&world, neighbour), 16);
}

#[test]
fn aimed_item_without_a_target_is_not_used_up() {
    let mut world = arena_world();
    let hero = fighter(&mut world, 20, 20, 30, 30);
    let item = scroll(&mut world, hero, 20, Some(3));
    world.entities[hero].wants_to_use = Some(WantsToUseItem { item, target: None });
    ItemUseSystem {}.run(&mut world);
    assert_eq!(hp(&world, hero), 30);
    assert!(world.doomed.is_empty());
    assert_eq!(world.entities[hero].wants_to_use, None);
    world.maintain();
    assert!(world.alive(item));
    assert_eq!(world.entities[item].in_backpack, Some(InBackpack { owner: hero }));
}

#[test]
fn negative_radius_hits_nobody() {
    let mut world = arena_world();
    let hero = fighter(&mut world, 20, 20, 30, 30);
    let item = scroll(&mut world, hero, 20, Some(-1));
    use_item(&mut world, hero, WantsToUseItem { item, target: Some(Coord { x: 20, y: 20 }) });
    assert_eq!(hp(&world, hero), 30);
}

#[test]
fn use_of_a_missing_item_only_spends_the_intent() {
    let mut world = arena_world();
    let hero = fighter(&mut world, 20, 20, 10, 30);
    let spent = use_item(&mut world, hero, WantsToUseItem { item: 9, target: None });
    assert!(!spent);
    assert_eq!(hp(&world, hero), 10);
    assert_eq!(world.entities[hero].wants_to_use, None);
}

#[test]
fn uses_are_carried_out_in_the_order_of_the_handles() {
    let mut world = arena_world();
    let a = fighter(&mut world, 20, 20, 25, 30);
    let b = fighter(&mut world, 21, 20, 30, 30);
    let heal = potion(&mut world, a, 8);
    let burn = scroll(&mut world, b, 20, Some(3));
    world.entities[a].wants_to_use = Some(WantsToUseItem { item: heal, target: None });
    world.entities[b].wants_to_use =
        Some(WantsToUseItem { item: burn, target: Some(Coord { x: 20, y: 20 }) });
    ItemUseSystem {}.run(&mut world);
    // a heals to 30 first and then burns down to 10
    assert_eq!(hp(&world, a), 10);
    assert_eq!(hp(&world, b), 10);
    assert_eq!(world.doomed, vec![heal, burn]);
}
