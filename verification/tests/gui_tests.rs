use roguelike::components::{Coord, InBackpack, Position, Viewshed};
use roguelike::gui::MainMenuSelection::{LoadGame, NewGame, Quit};
use roguelike::gui::{
    backpack, drop_item_menu, main_menu, ranged_target, show_inventory, targetable_cells,
    ItemMenuResult, MainMenuResult,
};
use roguelike::input::Key;
use roguelike::map::{walled_arena, GameMap};
use roguelike::state::State;
use roguelike::world::World;

fn game() -> State {
    let map = GameMap::new(Vec::new(), walled_arena());
    let mut world = World::new(map, rltk::RandomNumberGenerator::seeded(1));
    let hero = world.create_entity();
    world.entities[hero].position = Some(Position { x: 10, y: 10 });
    world.entities[hero].player = true;
    world.player_entity = hero;
    world.player_pos = Coord { x: 10, y: 10 };
    State { ecs: world }
}

fn carried(gs: &mut State, owner: usize, name: Option<&str>) -> usize {
    let e = gs.ecs.create_entity();
    gs.ecs.entities[e].item = true;
    gs.ecs.entities[e].name = name.map(|n| n.to_string());
    gs.ecs.entities[e].in_backpack = Some(InBackpack { owner });
    e
}

#[test]
fn backpack_lists_named_things_of_the_owner() {
    let mut gs = game();
    let a = carried(&mut gs, 0, Some("Red Potion"));
    let _nameless = carried(&mut gs, 0, None);
    let _other = carried(&mut gs, 7, Some("Fireball Scroll"));
    let b = carried(&mut gs, 0, Some("Fireball Scroll"));
    assert_eq!(backpack(&gs.ecs, 0), vec![a, b]);
    assert_eq!(backpack(&gs.ecs, 3), Vec::<usize>::new());
}

#[test]
fn inventory_menu_picks_by_letter() {
    let mut gs = game();
    let a = carried(&mut gs, 0, Some("Red Potion"));
    let b = carried(&mut gs, 0, Some("Fireball Scroll"));
    assert_eq!(show_inventory(&gs, None), (ItemMenuResult::NoResponse, None));
    assert_eq!(show_inventory(&gs, Some(Key::Escape)), (ItemMenuResult::Cancel, None));
    assert_eq!(show_inventory(&gs, Some(Key::A)), (ItemMenuResult::Selected, Some(a)));
    assert_eq!(show_inventory(&gs, Some(Key::B)), (ItemMenuResult::Selected, Some(b)));
    assert_eq!(show_inventory(&gs, Some(Key::C)), (ItemMenuResult::NoResponse, None));
    assert_eq!(show_inventory(&gs, Some(Key::Return)), (ItemMenuResult::NoResponse, None));
    assert_eq!(show_inventory(&gs, Some(Key::Up)), (ItemMenuResult::NoResponse, None));
}

#[test]
fn drop_menu_picks_by_letter() {
    let mut gs = game();
    let a = carried(&mut gs, 0, Some("Red Potion"));
    assert_eq!(drop_item_menu(&gs, None), (ItemMenuResult::NoResponse, None));
    assert_eq!(drop_item_menu(&gs, Some(Key::Escape)), (ItemMenuResult::Cancel, None));
    assert_eq!(drop_item_menu(&gs, Some(Key::A)), (ItemMenuResult::Selected, Some(a)));
    assert_eq!(drop_item_menu(&gs, Some(Key::B)), (ItemMenuResult::NoResponse, None));
}

#[test]
fn empty_menu_selects_nothing() {
    let gs = game();
    assert_eq!(show_inventory(&gs, Some(Key::A)), (ItemMenuResult::NoResponse, None));
    assert_eq!(show_inventory(&gs, Some(Key::Escape)), (ItemMenuResult::Cancel, None));
}

fn seeing(gs: &mut State, cells: Vec<Coord>) {
    gs.ecs.entities[0].viewshed = Some(Viewshed { visible_tiles: cells, range: 8, dirty: false });
}

#[test]
fn targeting_without_sight_cancels() {
    let gs = game();
    assert_eq!(ranged_target(&gs, 6, (10, 10), false), (ItemMenuResult::Cancel, None));
    assert_eq!(ranged_target(&gs, 6, (10, 10), true), (ItemMenuResult::Cancel, None));
}

#[test]
fn targeting_selects_a_seen_cell_in_range() {
    let mut gs = game();
    seeing(
        &mut gs,
        vec![
            Coord { x: 10, y: 10 },
            Coord { x: 16, y: 10 },
            Coord { x: 17, y: 10 },
            Coord { x: 14, y: 14 },
            Coord { x: 15, y: 14 },
        ],
    );
    let selected = |x, y| (ItemMenuResult::Selected, Some(Coord { x, y }));
    assert_eq!(ranged_target(&gs, 6, (10, 10), true), selected(10, 10));
    assert_eq!(ranged_target(&gs, 6, (16, 10), true), selected(16, 10));
    // 4 * 4 + 4 * 4 = 32 <= 36, but 5 * 5 + 4 * 4 = 41 > 36
    assert_eq!(ranged_target(&gs, 6, (14, 14), true), selected(14, 14));
    assert_eq!(ranged_target(&gs, 6, (15, 14), true), (ItemMenuResult::Cancel, None));
    assert_eq!(ranged_target(&gs, 6, (17, 10), true), (ItemMenuResult::Cancel, None));
    // in range but not seen
    assert_eq!(ranged_target(&gs, 6, (11, 10), true), (ItemMenuResult::Cancel, None));
    // no click, no answer
    assert_eq!(ranged_target(&gs, 6, (16, 10), false), (ItemMenuResult::NoResponse, None));
    assert_eq!(ranged_target(&gs, 6, (17, 10), false), (ItemMenuResult::NoResponse, None));
    assert_eq!(ranged_target(&gs, -1, (10, 10), true), (ItemMenuResult::Cancel, None));
}

#[test]
fn targetable_cells_are_the_seen_cells_in_range() {
    let mut gs = game();
    seeing(
        &mut gs,
        vec![Coord { x: 17, y: 10 }, Coord { x: 10, y: 16 }, Coord { x: 10, y: 10 }],
    );
    assert_eq!(
        targetable_cells(&gs.ecs, 6),
        vec![Coord { x: 10, y: 16 }, Coord { x: 10, y: 10 }]
    );
    assert_eq!(targetable_cells(&gs.ecs, 0), vec![Coord { x: 10, y: 10 }]);
    assert!(targetable_cells(&gs.ecs, -2).is_empty());
}

#[test]
fn main_menu_goes_round() {
    let stay = |selected| MainMenuResult::NoSelection { selected };
    assert_eq!(main_menu(NewGame, Some(Key::Down)), stay(LoadGame));
    assert_eq!(main_menu(LoadGame, Some(Key::Down)), stay(Quit));
    assert_eq!(main_menu(Quit, Some(Key::Down)), stay(NewGame));
    assert_eq!(main_menu(NewGame, Some(Key::Up)), stay(Quit));
    assert_eq!(main_menu(LoadGame, Some(Key::Up)), stay(NewGame));
    assert_eq!(main_menu(Quit, Some(Key::Up)), stay(LoadGame));
}

#[test]
fn main_menu_selects_on_return() {
    for selection in [NewGame, LoadGame, Quit] {
        assert_eq!(
            main_menu(selection, Some(Key::Return)),
            MainMenuResult::Selected { selected: selection }
        );
        assert_eq!(main_menu(selection, None), MainMenuResult::NoSelection { selected: selection });
        assert_eq!(
            main_menu(selection, Some(Key::A)),
            MainMenuResult::NoSelection { selected: selection }
        );
        assert_eq!(
            main_menu(selection, Some(Key::Escape)),
            MainMenuResult::NoSelection { selected: Quit }
        );
    }
}
