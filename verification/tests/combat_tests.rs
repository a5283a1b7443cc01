use roguelike::components::{CombatStats, Position, WantsToMelee};
use roguelike::damage_system::delete_the_dead;
use roguelike::map::{walled_arena, GameMap};
use roguelike::melee_combat_system::MeleeCombatSystem;
use roguelike::world::World;

fn arena_world() -> World {
    let map = GameMap::new(Vec::new(), walled_arena());
    World::new(map, rltk::RandomNumberGenerator::seeded(1))
}

fn fighter(world: &mut World, x: i32, y: i32, hp: i32, defense: i32, power: i32) -> usize {
    let e = world.create_entity();
    world.entities[e].position = Some(Position { x, y });
    world.entities[e].combat_stats = Some(CombatStats { max_hp: hp, hp, defense, power });
    e
}

fn hp(world: &World, e: usize) -> i32 {
    world.entities[e].combat_stats.unwrap().hp
}

#[test]
fn heal_is_capped_at_max_hp() {
    let mut a = CombatStats { max_hp: 30, hp: 10, defense: 0, power: 0 };
    a.heal(8);
    assert_eq!(a.hp, 18);
    let mut b = CombatStats { max_hp: 30, hp: 28, defense: 0, power: 0 };
    b.heal(8);
    assert_eq!(b.hp, 30);
    let mut c = CombatStats { max_hp: 30, hp: 5, defense: 0, power: 0 };
    c.heal(i32::MAX);
    assert_eq!(c.hp, 30);
    c.heal(-100);
    assert_eq!(c.hp, 0);
}

#[test]
fn damage_is_floored_at_zero() {
    let mut a = CombatStats { max_hp: 30, hp: 10, defense: 0, power: 0 };
    a.take_damage(4);
    assert_eq!(a.hp, 6);
    a.take_damage(0);
    assert_eq!(a.hp, 6);
    a.take_damage(-3);
    assert_eq!(a.hp, 6);
    a.take_damage(6);
    assert_eq!(a.hp, 0);
    a.take_damage(i32::MAX);
    assert_eq!(a.hp, 0);
    assert_eq!(a.max_hp, 30);
}

#[test]
fn melee_takes_power_less_defense() {
    let mut world = arena_world();
    let attacker = fighter(&mut world, 10, 10, 30, 2, 5);
    let target = fighter(&mut world, 11, 10, 16, 1, 4);
    world.entities[attacker].wants_to_melee = Some(WantsToMelee { target });
    MeleeCombatSystem {}.run(&mut world);
    assert_eq!(hp(&world, target), 12);
    assert_eq!(hp(&world, attacker), 30);
    assert_eq!(world.entities[attacker].wants_to_melee, None);
    assert_eq!(world.entities[target].wants_to_melee, None);
    assert_eq!(world.entities[target].position, Some(Position { x: 11, y: 10 }));
}

#[test]
fn melee_that_cannot_hurt_still_spends_the_intent() {
    let mut world = arena_world();
    let attacker = fighter(&mut world, 10, 10, 30, 0, 3);
    let target = fighter(&mut world, 11, 10, 16, 7, 4);
    world.entities[attacker].wants_to_melee = Some(WantsToMelee { target });
    MeleeCombatSystem {}.run(&mut world);
    assert_eq!(hp(&world, target), 16);
    assert_eq!(world.entities[attacker].wants_to_melee, None);
}

#[test]
fn blows_on_one_target_add_up() {
    let mut world = arena_world();
    let target = fighter(&mut world, 10, 10, 16, 1, 4);
    let a = fighter(&mut world, 11, 10, 30, 0, 5);
    let b = fighter(&mut world, 9, 10, 30, 0, 8);
    world.entities[a].wants_to_melee = Some(WantsToMelee { target });
    world.entities[b].wants_to_melee = Some(WantsToMelee { target });
    MeleeCombatSystem {}.run(&mut world);
    assert_eq!(hp(&world, target), 5);
    world.entities[a].wants_to_melee = Some(WantsToMelee { target });
    world.entities[b].wants_to_melee = Some(WantsToMelee { target });
    MeleeCombatSystem {}.run(&mut world);
    assert_eq!(hp(&world, target), 0);
}

#[test]
fn two_fighters_hit_each_other() {
    let mut world = arena_world();
    let a = fighter(&mut world, 10, 10, 30, 2, 5);
    let b = fighter(&mut world, 11, 10, 16, 1, 4);
    world.entities[a].wants_to_melee = Some(WantsToMelee { target: b });
    world.entities[b].wants_to_melee = Some(WantsToMelee { target: a });
    MeleeCombatSystem {}.run(&mut world);
    assert_eq!(hp(&world, a), 28);
    assert_eq!(hp(&world, b), 12);
}

#[test]
fn melee_with_huge_stats_does_not_overflow() {
    let mut world = arena_world();
    let a = fighter(&mut world, 10, 10, 30, 0, i32::MAX);
    let b = fighter(&mut world, 11, 10, i32::MAX, i32::MIN, 0);
    world.entities[a].wants_to_melee = Some(WantsToMelee { target: b });
    MeleeCombatSystem {}.run(&mut world);
    assert_eq!(hp(&world, b), 0);
}

#[test]
fn melee_on_a_missing_target_is_passed_over() {
    let mut world = arena_world();
    let a = fighter(&mut world, 10, 10, 30, 0, 5);
    let bystander = world.create_entity();
    world.entities[a].wants_to_melee = Some(WantsToMelee { target: 77 });
    MeleeCombatSystem {}.run(&mut world);
    assert_eq!(world.entities[a].wants_to_melee, None);
    world.entities[a].wants_to_melee = Some(WantsToMelee { target: bystander });
    MeleeCombatSystem {}.run(&mut world);
    assert_eq!(world.entities[a].wants_to_melee, None);
    assert_eq!(world.entities[bystander].combat_stats, None);
    assert_eq!(hp(&world, a), 30);
}

#[test]
fn death_sweep_removes_who_has_no_hit_point() {
    let mut world = arena_world();
    let victim = fighter(&mut world, 10, 10, 16, 1, 4);
    let other = fighter(&mut world, 12, 10, 16, 1, 4);
    let mut stats = world.entities[victim].combat_stats.unwrap();
    stats.take_damage(16);
    world.entities[victim].combat_stats = Some(stats);
    world.entities[victim].name = Some("Orc".to_string());
    delete_the_dead(&mut world);
    assert!(!world.alive(victim));
    assert_eq!(world.entities[victim].position, None);
    assert_eq!(world.entities[victim].renderable, None);
    assert_eq!(world.entities[victim].combat_stats, None);
    assert_eq!(world.entities[victim].name, None);
    assert!(world.alive(other));
    assert_eq!(hp(&world, other), 16);
    assert_eq!(world.entities.len(), 2);
}

#[test]
fn death_sweep_spares_the_living() {
    let mut world = arena_world();
    let a = fighter(&mut world, 10, 10, 16, 1, 4);
    world.entities[a].combat_stats = Some(CombatStats { max_hp: 16, hp: 1, defense: 1, power: 4 });
    let thing = world.create_entity();
    delete_the_dead(&mut world);
    assert!(world.alive(a));
    assert!(world.alive(thing));
}

#[test]
fn melee_then_sweep_kills() {
    let mut world = arena_world();
    let attacker = fighter(&mut world, 10, 10, 30, 2, 20);
    let target = fighter(&mut world, 11, 10, 16, 1, 4);
    world.entities[attacker].wants_to_melee = Some(WantsToMelee { target });
    MeleeCombatSystem {}.run(&mut world);
    assert_eq!(hp(&world, target), 0);
    assert!(world.alive(target));
    delete_the_dead(&mut world);
    assert!(!world.alive(target));
    assert!(world.alive(attacker));
}

#[test]
fn delete_entity_clears_the_slot() {
    let mut world = arena_world();
    let a = fighter(&mut world, 10, 10, 16, 1, 4);
    let b = fighter(&mut world, 11, 10, 16, 1, 4);
    world.delete_entity(a);
    assert!(!world.alive(a));
    assert!(world.alive(b));
    world.delete_entity(a);
    world.delete_entity(500);
    assert_eq!(world.entities.len(), 2);
    let c = world.create_entity();
    assert_eq!(c, 2);
    assert!(world.alive(c));
}

#[test]
fn maintain_carries_out_what_was_asked_for() {
    let mut world = arena_world();
    let a = fighter(&mut world, 10, 10, 16, 1, 4);
    let b = fighter(&mut world, 11, 10, 16, 1, 4);
    let c = fighter(&mut world, 12, 10, 16, 1, 4);
    world.doom(a);
    world.doom(c);
    world.doom(a);
    assert!(world.alive(a));
    world.maintain();
    assert!(!world.alive(a));
    assert!(world.alive(b));
    assert!(!world.alive(c));
    assert!(world.doomed.is_empty());
}
