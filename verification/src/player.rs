use vstd::prelude::*;
use crate::components::{Entity, Coord, Position, Viewshed, WantsToMelee, WantsToPickupItem};
use crate::input::Key;
use crate::map::idx_of;
use crate::state::{RunState, State};
use crate::world::{EntityData, World};

verus! {

/// Entity `t` can be attacked: it exists and has combat stats.
pub open spec fn attackable(entities: Seq<EntityData>, t: Entity) -> bool {
    t < entities.len() && entities[t as int].combat_stats is Some
}

/// The first of `content`, from place `k` on, that can be attacked.
pub open spec fn first_attackable_from(content: Seq<Entity>, entities: Seq<EntityData>, k: int) -> Option<Entity>
    decreases content.len() - k,
{
    if k < 0 || k >= content.len() {
        None
    } else if attackable(entities, content[k]) {
        Some(content[k])
    } else {
        first_attackable_from(content, entities, k + 1)
    }
}

/// What becomes of an attempt of the player to move.
pub enum PlayerMove {
    /// Nothing happens.
    Stay,
    /// The move turns into an attack on `target`.
    Attack { target: Entity },
    /// The player steps onto the cell `(x, y)`.
    Step { x: i32, y: i32 },
}

/// The world's player entity is one that moves: a player with a position
/// and a viewshed.
pub open spec fn player_can_move(world: World) -> bool {
    &&& world.player_entity < world.entities.len()
    &&& world.entities@[world.player_entity as int].player
    &&& world.entities@[world.player_entity as int].position is Some
    &&& world.entities@[world.player_entity as int].viewshed is Some
}

/// What an attempt of the player to move by `(dx, dy)` comes to. A move
/// that would leave the inner grid is dropped. A move onto a tile where
/// somebody with combat stats stands becomes an attack on the first such
/// occupant that the spatial index lists. Otherwise the player steps onto
/// the tile unless it is blocked.
pub open spec fn player_move(world: World, dx: int, dy: int) -> PlayerMove {
    if !player_can_move(world) {
        PlayerMove::Stay
    } else {
        let pos = world.entities@[world.player_entity as int].position.unwrap();
        let x = pos.x + dx;
        let y = pos.y + dy;
        if x < 1 || x > world.map.width - 1 || y < 1 || y > world.map.height - 1 {
            PlayerMove::Stay
        } else {
            let idx = idx_of(x, y);
            match first_attackable_from(world.map.tile_content@[idx]@, world.entities@, 0) {
                Some(target) => PlayerMove::Attack { target },
                None => if !world.map.blocked@[idx] {
                    PlayerMove::Step { x: x as i32, y: y as i32 }
                } else {
                    PlayerMove::Stay
                },
            }
        }
    }
}

/// `post` is `pre` after the player tried to move by `(dx, dy)`.
pub open spec fn player_moved(pre: World, post: World, dx: int, dy: int) -> bool {
    let p = pre.player_entity as int;
    &&& post.wf()
    &&& post.map == pre.map
    &&& post.player_entity == pre.player_entity
    &&& post.log == pre.log
    &&& post.runstate == pre.runstate
    &&& post.rng == pre.rng
    &&& post.doomed == pre.doomed
    &&& match player_move(pre, dx, dy) {
        PlayerMove::Stay => post.entities@ == pre.entities@ && post.player_pos == pre.player_pos,
        PlayerMove::Attack { target } => {
            &&& post.player_pos == pre.player_pos
            &&& post.entities@ == pre.entities@.update(
                p,
                EntityData { wants_to_melee: Some(WantsToMelee { target }), ..pre.entities@[p] },
            )
        },
        PlayerMove::Step { x, y } => {
            &&& post.player_pos == (Coord { x, y })
            &&& post.entities@ == pre.entities@.update(
                p,
                EntityData {
                    position: Some(Position { x, y }),
                    viewshed: Some(
                        Viewshed { dirty: true, ..pre.entities@[p].viewshed.unwrap() },
                    ),
                    ..pre.entities@[p]
                },
            )
        },
    }
}

fn find_attackable(content: &Vec<Entity>, entities: &Vec<EntityData>) -> (found: Option<Entity>)
    ensures
        found == first_attackable_from(content@, entities@, 0),
{
    let mut k: usize = 0;
    while k < content.len()
        invariant
            k <= content.len(),
            first_attackable_from(content@, entities@, 0) == first_attackable_from(
                content@,
                entities@,
                k as int,
            ),
        decreases content.len() - k,
    {
        let t = content[k];
        if t < entities.len() && entities[t].combat_stats.is_some() {
            return Some(t);
        }
        k = k + 1;
    }
    None
}

/// The player tries to move by `(delta_x, delta_y)`: into a fight, onto a
/// free tile, or not at all.
pub fn try_move_player(delta_x: i32, delta_y: i32, ecs: &mut World)
    requires
        old(ecs).wf(),
    ensures
        player_moved(*old(ecs), *final(ecs), delta_x as int, delta_y as int),
{
    let p = ecs.player_entity;
    if p >= ecs.entities.len() {
        return ;
    }
    if !ecs.entities[p].player || ecs.entities[p].viewshed.is_none() {
        return ;
    }
    assert(ecs.entities@[p as int].wf());
    let pos = match ecs.entities[p].position {
        Some(pos) => pos,
        None => {
            return ;
        },
    };
    let x: i64 = pos.x as i64 + delta_x as i64;
    let y: i64 = pos.y as i64 + delta_y as i64;
    if x < 1 || x > (ecs.map.width - 1) as i64 || y < 1 || y > (ecs.map.height - 1) as i64 {
        return ;
    }
    let destination_idx = ecs.map.xy_idx(x as i32, y as i32);
    match find_attackable(&ecs.map.tile_content[destination_idx], &ecs.entities) {
        Some(target) => {
            ecs.entities[p].wants_to_melee = Some(WantsToMelee { target });
            assert(ecs.entities@ =~= old(ecs).entities@.update(
                p as int,
                EntityData {
                    wants_to_melee: Some(WantsToMelee { target }),
                    ..old(ecs).entities@[p as int]
                },
            ));
            assert forall|e: int| 0 <= e < ecs.entities.len() implies (#[trigger] ecs.entities@[e]).wf() by {
                assert(old(ecs).entities@[e].wf());
            }
            return ;
        },
        None => {},
    }
    if !ecs.map.blocked[destination_idx] {
        ecs.entities[p].position = Some(Position { x: x as i32, y: y as i32 });
        match &mut ecs.entities[p].viewshed {
            Some(v) => {
                v.dirty = true;
            },
            None => {},
        }
        ecs.player_pos = Coord { x: x as i32, y: y as i32 };
        assert(ecs.entities@ =~= old(ecs).entities@.update(
            p as int,
            EntityData {
                position: Some(Position { x: x as i32, y: y as i32 }),
                viewshed: Some(
                    Viewshed { dirty: true, ..old(ecs).entities@[p as int].viewshed.unwrap() },
                ),
                ..old(ecs).entities@[p as int]
            },
        ));
        assert forall|e: int| 0 <= e < ecs.entities.len() implies (#[trigger] ecs.entities@[e]).wf() by {
            assert(old(ecs).entities@[e].wf());
        }
    }
}

/// Entity `e` is an item that lies on the cell `at`.
pub open spec fn item_lies_at(entities: Seq<EntityData>, e: int, at: Coord) -> bool {
    entities[e].item && entities[e].position == Some(Position { x: at.x, y: at.y })
}

/// The item with the highest handle, among the first `n` entities, that
/// lies on the cell `at`.
pub open spec fn item_at_upto(entities: Seq<EntityData>, at: Coord, n: int) -> Option<Entity>
    decreases n,
{
    if n <= 0 {
        None
    } else if item_lies_at(entities, n - 1, at) {
        Some((n - 1) as usize)
    } else {
        item_at_upto(entities, at, n - 1)
    }
}

/// The message for a player who reaches for an item where none lies.
pub open spec fn nothing_here() -> Seq<char> {
    "There is nothing here to pick up."@
}

/// `post` is `pre` after the player reached for what lies underfoot, and
/// `queued` says whether there was something. With an item there, the
/// player now wants to pick it up; with none, the log says so.
pub open spec fn item_sought(pre: World, post: World, queued: bool) -> bool {
    let p = pre.player_entity;
    &&& post.wf()
    &&& post.map == pre.map
    &&& post.player_entity == pre.player_entity
    &&& post.player_pos == pre.player_pos
    &&& post.runstate == pre.runstate
    &&& post.rng == pre.rng
    &&& post.doomed == pre.doomed
    &&& match item_at_upto(pre.entities@, pre.player_pos, pre.entities.len() as int) {
        None => !queued && post.entities@ == pre.entities@ && post.log@ == pre.log@.push(
            nothing_here(),
        ),
        Some(item) => if pre.is_alive(p) {
            &&& queued
            &&& post.log == pre.log
            &&& post.entities@ == pre.entities@.update(
                p as int,
                EntityData {
                    wants_to_pickup: Some(WantsToPickupItem { collected_by: p, item }),
                    ..pre.entities@[p as int]
                },
            )
        } else {
            !queued && post.entities@ == pre.entities@ && post.log == pre.log
        },
    }
}

/// The player reaches for the item underfoot. Says whether an intent to
/// pick something up was queued.
pub fn get_item(ecs: &mut World) -> (queued: bool)
    requires
        old(ecs).wf(),
    ensures
        item_sought(*old(ecs), *final(ecs), queued),
{
    let mut target_item: Option<Entity> = None;
    let mut e: usize = 0;
    while e < ecs.entities.len()
        invariant
            e <= ecs.entities.len(),
            *ecs == *old(ecs),
            target_item == item_at_upto(ecs.entities@, ecs.player_pos, e as int),
        decreases ecs.entities.len() - e,
    {
        if ecs.entities[e].item {
            match ecs.entities[e].position {
                Some(position) => {
                    if position.x == ecs.player_pos.x && position.y == ecs.player_pos.y {
                        target_item = Some(e);
                    }
                },
                None => {},
            }
        }
        e = e + 1;
    }
    match target_item {
        None => {
            ecs.log.push("There is nothing here to pick up.");
            false
        },
        Some(item) => {
            let p = ecs.player_entity;
            if ecs.alive(p) {
                ecs.entities[p].wants_to_pickup = Some(
                    WantsToPickupItem { collected_by: p, item },
                );
                assert(ecs.entities@ =~= old(ecs).entities@.update(
                    p as int,
                    EntityData {
                        wants_to_pickup: Some(WantsToPickupItem { collected_by: p, item }),
                        ..old(ecs).entities@[p as int]
                    },
                ));
                assert forall|e: int| 0 <= e < ecs.entities.len() implies (#[trigger] ecs.entities@[e]).wf() by {
                    assert(old(ecs).entities@[e].wf());
                }
                true
            } else {
                false
            }
        },
    }
}

/// What a key asks of the player between turns.
pub enum Command {
    /// Move by the given step.
    Move { dx: i32, dy: i32 },
    PickUp,
    OpenInventory,
    OpenDropMenu,
    /// The key means nothing here.
    Nothing,
}

/// The meaning of `key` while the game awaits input: arrows, number pad
/// and H J K L move straight, Y U N M and the pad's corners move
/// diagonally, G picks up, I and D open the menus.
pub open spec fn command_of(key: Option<Key>) -> Command {
    match key {
        None => Command::Nothing,
        Some(k) => match k {
            Key::Left | Key::Numpad4 | Key::H => Command::Move { dx: (-1i32), dy: 0i32 },
            Key::Right | Key::Numpad6 | Key::L => Command::Move { dx: 1i32, dy: 0i32 },
            Key::Up | Key::Numpad8 | Key::K => Command::Move { dx: 0i32, dy: (-1i32) },
            Key::Down | Key::Numpad2 | Key::J => Command::Move { dx: 0i32, dy: 1i32 },
            Key::Numpad9 | Key::U => Command::Move { dx: 1i32, dy: (-1i32) },
            Key::Numpad7 | Key::Y => Command::Move { dx: (-1i32), dy: (-1i32) },
            Key::Numpad3 | Key::M => Command::Move { dx: 1i32, dy: 1i32 },
            Key::Numpad1 | Key::N => Command::Move { dx: (-1i32), dy: 1i32 },
            Key::G => Command::PickUp,
            Key::I => Command::OpenInventory,
            Key::D => Command::OpenDropMenu,
            _ => Command::Nothing,
        },
    }
}

/// `post` is `pre` after `key` was handed to the waiting game, and `next`
/// is the state the game goes to. A move takes the player's turn, and so
/// does reaching for an item that is there; reaching for nothing, a key
/// without meaning and no key leave the game waiting.
pub open spec fn input_handled(pre: World, post: World, key: Option<Key>, next: RunState) -> bool {
    match command_of(key) {
        Command::Move { dx, dy } => player_moved(pre, post, dx as int, dy as int) && next
            == RunState::PlayerTurn,
        Command::PickUp => exists|queued: bool|
            #[trigger] item_sought(pre, post, queued) && next == if queued {
                RunState::PlayerTurn
            } else {
                RunState::AwaitingInput
            },
        Command::OpenInventory => post == pre && next == RunState::ShowInventory,
        Command::OpenDropMenu => post == pre && next == RunState::ShowDropItem,
        Command::Nothing => post == pre && next == RunState::AwaitingInput,
    }
}

/// Hands `key` to the waiting game and says which state comes next.
pub fn player_input(gs: &mut State, key: Option<Key>) -> (next: RunState)
    requires
        old(gs).ecs.wf(),
    ensures
        input_handled(old(gs).ecs, final(gs).ecs, key, next),
        final(gs).ecs.wf(),
{
    match key {
        None => {
            return RunState::AwaitingInput
        },
        Some(key) => match key {
            Key::Left | Key::Numpad4 | Key::H => try_move_player(-1, 0, &mut gs.ecs),
            Key::Right | Key::Numpad6 | Key::L => try_move_player(1, 0, &mut gs.ecs),
            Key::Up | Key::Numpad8 | Key::K => try_move_player(0, -1, &mut gs.ecs),
            Key::Down | Key::Numpad2 | Key::J => try_move_player(0, 1, &mut gs.ecs),
            Key::Numpad9 | Key::U => try_move_player(1, -1, &mut gs.ecs),
            Key::Numpad7 | Key::Y => try_move_player(-1, -1, &mut gs.ecs),
            Key::Numpad3 | Key::M => try_move_player(1, 1, &mut gs.ecs),
            Key::Numpad1 | Key::N => try_move_player(-1, 1, &mut gs.ecs),
            Key::G => {
                let queued = get_item(&mut gs.ecs);
                assert(item_sought(old(gs).ecs, gs.ecs, queued));
                if !queued {
                    return RunState::AwaitingInput;
                }
            },
            Key::I => {
                return RunState::ShowInventory
            },
            Key::D => {
                return RunState::ShowDropItem
            },
            _ => {
                return RunState::AwaitingInput
            },
        },
    }
    RunState::PlayerTurn
}

} // verus!
