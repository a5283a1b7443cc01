use vstd::prelude::*;
use crate::components::{Entity, InBackpack, Coord, within_radius, in_radius, points_contain};
use crate::input::{Key, letter_index, letter_to_option};
use crate::seq_filter::{lemma_filter_contains, lemma_filter_push};
use crate::state::State;
use crate::world::{EntityData, World};

verus! {

/// What a menu or the aiming makes of one tick's input.
#[derive(Clone, Copy, Debug, PartialEq, Eq, Structural)]
pub enum ItemMenuResult {
    Cancel,
    NoResponse,
    Selected,
}

/// The entries of the main menu, from top to bottom.
#[derive(Clone, Copy, Debug, PartialEq, Eq, Structural)]
pub enum MainMenuSelection {
    NewGame,
    LoadGame,
    Quit,
}

/// What the main menu makes of one tick's input: the entry that is
/// highlighted now, or the entry that was chosen.
#[derive(Clone, Copy, Debug, PartialEq, Eq, Structural)]
pub enum MainMenuResult {
    NoSelection { selected: MainMenuSelection },
    Selected { selected: MainMenuSelection },
}

/// Entity `e` is a named thing in the backpack of `owner`.
pub open spec fn carried_by(entities: Seq<EntityData>, owner: Entity, e: int) -> bool {
    entities[e].in_backpack == Some(InBackpack { owner }) && entities[e].name is Some
}

/// The named things in the backpack of `owner` among the first `n`
/// entities, in the order of their handles.
pub open spec fn backpack_upto(entities: Seq<EntityData>, owner: Entity, n: int) -> Seq<Entity>
    decreases n,
{
    if n <= 0 {
        Seq::empty()
    } else if carried_by(entities, owner, n - 1) {
        backpack_upto(entities, owner, n - 1).push((n - 1) as usize)
    } else {
        backpack_upto(entities, owner, n - 1)
    }
}

/// The named things in the backpack of `owner`, in the order of their
/// handles: the lines of an inventory menu.
pub open spec fn backpack_of(entities: Seq<EntityData>, owner: Entity) -> Seq<Entity> {
    backpack_upto(entities, owner, entities.len() as int)
}

/// What a menu of `items` makes of `key`: nothing without a key, a
/// cancellation on Escape, the item on the line that a letter names, and
/// nothing on any other key.
pub open spec fn menu_choice(items: Seq<Entity>, key: Option<Key>) -> (ItemMenuResult, Option<Entity>) {
    match key {
        None => (ItemMenuResult::NoResponse, None),
        Some(Key::Escape) => (ItemMenuResult::Cancel, None),
        Some(k) => if 0 <= letter_index(k) < items.len() {
            (ItemMenuResult::Selected, Some(items[letter_index(k)]))
        } else {
            (ItemMenuResult::NoResponse, None)
        },
    }
}

/// The lines of the inventory menu of `owner`.
pub fn backpack(world: &World, owner: Entity) -> (items: Vec<Entity>)
    ensures
        items@ == backpack_of(world.entities@, owner),
{
    let mut items: Vec<Entity> = Vec::new();
    let mut e: usize = 0;
    while e < world.entities.len()
        invariant
            e <= world.entities.len(),
            items@ == backpack_upto(world.entities@, owner, e as int),
        decreases world.entities.len() - e,
    {
        let carried = match world.entities[e].in_backpack {
            Some(pack) => pack.owner == owner && world.entities[e].name.is_some(),
            None => false,
        };
        if carried {
            items.push(e);
        }
        e = e + 1;
    }
    items
}

fn choose_from_menu(items: &Vec<Entity>, key: Option<Key>) -> (choice: (ItemMenuResult, Option<Entity>))
    ensures
        choice == menu_choice(items@, key),
{
    match key {
        None => (ItemMenuResult::NoResponse, None),
        Some(key) => match key {
            Key::Escape => (ItemMenuResult::Cancel, None),
            _ => {
                let selection = letter_to_option(key);
                if selection > -1 && (selection as usize) < items.len() {
                    return (ItemMenuResult::Selected, Some(items[selection as usize]));
                }
                (ItemMenuResult::NoResponse, None)
            },
        },
    }
}

/// The inventory menu: which of the player's things `key` picks for use.
pub fn show_inventory(gs: &State, key: Option<Key>) -> (choice: (ItemMenuResult, Option<Entity>))
    ensures
        choice == menu_choice(backpack_of(gs.ecs.entities@, gs.ecs.player_entity), key),
{
    let items = backpack(&gs.ecs, gs.ecs.player_entity);
    choose_from_menu(&items, key)
}

/// The drop menu: which of the player's things `key` picks to be put down.
pub fn drop_item_menu(gs: &State, key: Option<Key>) -> (choice: (ItemMenuResult, Option<Entity>))
    ensures
        choice == menu_choice(backpack_of(gs.ecs.entities@, gs.ecs.player_entity), key),
{
    let items = backpack(&gs.ecs, gs.ecs.player_entity);
    choose_from_menu(&items, key)
}

/// The cell `p` is one the player sees and that lies within `range` of
/// where the player stands.
pub open spec fn can_target(world: &World, range: int, p: Coord) -> bool {
    &&& world.player_entity < world.entities.len()
    &&& world.entities@[world.player_entity as int].viewshed matches Some(v)
    &&& v.visible_tiles@.contains(p)
    &&& within_radius(
        world.player_pos.x as int,
        world.player_pos.y as int,
        p.x as int,
        p.y as int,
        range,
    )
}

/// What aiming makes of the mouse: a player who sees nothing cancels; a
/// click on a cell that can be targeted selects it, a click elsewhere
/// cancels, and without a click nothing happens.
pub open spec fn targeting_choice(world: &World, range: int, mouse: Coord, left_click: bool) -> (
    ItemMenuResult,
    Option<Coord>,
) {
    if !(world.player_entity < world.entities.len()
        && world.entities@[world.player_entity as int].viewshed is Some) {
        (ItemMenuResult::Cancel, None)
    } else if !left_click {
        (ItemMenuResult::NoResponse, None)
    } else if can_target(world, range, mouse) {
        (ItemMenuResult::Selected, Some(mouse))
    } else {
        (ItemMenuResult::Cancel, None)
    }
}

/// The test that a cell lies within `range` of where the player stands.
pub open spec fn in_reach(world: &World, range: int) -> spec_fn(Coord) -> bool {
    |p: Coord|
        within_radius(
            world.player_pos.x as int,
            world.player_pos.y as int,
            p.x as int,
            p.y as int,
            range,
        )
}

/// The cells that can be aimed at with `range`: those that the player
/// sees, in the order in which the viewshed holds them, that lie within
/// `range` of the player.
pub open spec fn targetable(world: &World, range: int) -> Seq<Coord> {
    if world.player_entity < world.entities.len()
        && world.entities@[world.player_entity as int].viewshed is Some {
        world.entities@[world.player_entity as int].viewshed.unwrap().visible_tiles@.filter(
            in_reach(world, range),
        )
    } else {
        Seq::empty()
    }
}

/// The cells among those the player sees that lie within `range` of the
/// player: the ones to highlight while aiming.
pub fn targetable_cells(world: &World, range: i32) -> (cells: Vec<Coord>)
    ensures
        cells@ == targetable(world, range as int),
        forall|p: Coord| cells@.contains(p) <==> can_target(world, range as int, p),
{
    let mut cells: Vec<Coord> = Vec::new();
    if world.player_entity >= world.entities.len() {
        return cells;
    }
    match &world.entities[world.player_entity].viewshed {
        None => cells,
        Some(v) => {
            let mut k: usize = 0;
            proof {
                assert(v.visible_tiles@.subrange(0, 0) =~= Seq::<Coord>::empty());
                Seq::<Coord>::empty().lemma_filter_len(in_reach(world, range as int));
                assert(cells@ =~= v.visible_tiles@.subrange(0, 0).filter(
                    in_reach(world, range as int),
                ));
            }
            while k < v.visible_tiles.len()
                invariant
                    k <= v.visible_tiles.len(),
                    cells@ == v.visible_tiles@.subrange(0, k as int).filter(
                        in_reach(world, range as int),
                    ),
                decreases v.visible_tiles.len() - k,
            {
                let p = v.visible_tiles[k];
                proof {
                    assert(v.visible_tiles@.subrange(0, k + 1) =~= v.visible_tiles@.subrange(
                        0,
                        k as int,
                    ).push(p));
                    lemma_filter_push(
                        v.visible_tiles@.subrange(0, k as int),
                        p,
                        in_reach(world, range as int),
                    );
                }
                if in_radius(world.player_pos.x, world.player_pos.y, p.x, p.y, range) {
                    cells.push(p);
                }
                k = k + 1;
            }
            proof {
                assert(v.visible_tiles@.subrange(0, k as int) =~= v.visible_tiles@);
                assert forall|p: Coord| cells@.contains(p) <==> can_target(
                    world,
                    range as int,
                    p,
                ) by {
                    lemma_filter_contains(v.visible_tiles@, in_reach(world, range as int), p);
                }
            }
            cells
        },
    }
}

/// Aiming a ranged item: what the mouse at `mouse_pos`, clicked or not,
/// picks among the cells within `range` that the player sees.
pub fn ranged_target(gs: &State, range: i32, mouse_pos: (i32, i32), left_click: bool) -> (choice: (
    ItemMenuResult,
    Option<Coord>,
))
    ensures
        choice == targeting_choice(
            &gs.ecs,
            range as int,
            Coord { x: mouse_pos.0, y: mouse_pos.1 },
            left_click,
        ),
{
    let world = &gs.ecs;
    if world.player_entity >= world.entities.len() {
        return (ItemMenuResult::Cancel, None);
    }
    if world.entities[world.player_entity].viewshed.is_none() {
        return (ItemMenuResult::Cancel, None);
    }
    let available_cells = targetable_cells(world, range);
    let mouse = Coord { x: mouse_pos.0, y: mouse_pos.1 };
    let valid_target = points_contain(&available_cells, mouse);
    if valid_target {
        if left_click {
            return (ItemMenuResult::Selected, Some(mouse));
        }
    } else {
        if left_click {
            return (ItemMenuResult::Cancel, None);
        }
    }
    (ItemMenuResult::NoResponse, None)
}

/// The entry above `selection` in the main menu, the last one above the
/// first.
pub open spec fn menu_up(selection: MainMenuSelection) -> MainMenuSelection {
    match selection {
        MainMenuSelection::NewGame => MainMenuSelection::Quit,
        MainMenuSelection::LoadGame => MainMenuSelection::NewGame,
        MainMenuSelection::Quit => MainMenuSelection::LoadGame,
    }
}

/// The entry below `selection` in the main menu, the first one below the
/// last.
pub open spec fn menu_down(selection: MainMenuSelection) -> MainMenuSelection {
    match selection {
        MainMenuSelection::NewGame => MainMenuSelection::LoadGame,
        MainMenuSelection::LoadGame => MainMenuSelection::Quit,
        MainMenuSelection::Quit => MainMenuSelection::NewGame,
    }
}

/// What the main menu makes of `key` while `selection` is highlighted.
pub open spec fn main_menu_choice(selection: MainMenuSelection, key: Option<Key>) -> MainMenuResult {
    match key {
        None => MainMenuResult::NoSelection { selected: selection },
        Some(Key::Escape) => MainMenuResult::NoSelection { selected: MainMenuSelection::Quit },
        Some(Key::Up) => MainMenuResult::NoSelection { selected: menu_up(selection) },
        Some(Key::Down) => MainMenuResult::NoSelection { selected: menu_down(selection) },
        Some(Key::Return) => MainMenuResult::Selected { selected: selection },
        Some(_) => MainMenuResult::NoSelection { selected: selection },
    }
}

/// The main menu: Up and Down move the highlight round the entries, Escape
/// moves it to Quit, Return selects the highlighted entry.
pub fn main_menu(selection: MainMenuSelection, key: Option<Key>) -> (result: MainMenuResult)
    ensures
        result == main_menu_choice(selection, key),
{
    match key {
        None => {
            return MainMenuResult::NoSelection { selected: selection }
        },
        Some(key) => match key {
            Key::Escape => {
                return MainMenuResult::NoSelection { selected: MainMenuSelection::Quit }
            },
            Key::Up => {
                let newselection;
                match selection {
                    MainMenuSelection::NewGame => newselection = MainMenuSelection::Quit,
                    MainMenuSelection::LoadGame => newselection = MainMenuSelection::NewGame,
                    MainMenuSelection::Quit => newselection = MainMenuSelection::LoadGame,
                }
                return MainMenuResult::NoSelection { selected: newselection };
            },
            Key::Down => {
                let newselection;
                match selection {
                    MainMenuSelection::NewGame => newselection = MainMenuSelection::LoadGame,
                    MainMenuSelection::LoadGame => newselection = MainMenuSelection::Quit,
                    MainMenuSelection::Quit => newselection = MainMenuSelection::NewGame,
                }
                return MainMenuResult::NoSelection { selected: newselection };
            },
            Key::Return => {
                return MainMenuResult::Selected { selected: selection }
            },
            _ => {
                return MainMenuResult::NoSelection { selected: selection }
            },
        },
    }
}

} // verus!
