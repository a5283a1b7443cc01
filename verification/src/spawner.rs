use vstd::prelude::*;
use crate::components::{
    AreaOfEffect, Color, CombatStats, Coord, Entity, InflictsDamage, Position, ProvidesHealing,
    Ranged, Renderable, Viewshed,
};
use crate::glyph::{cp437_glyph, to_cp437};
use crate::map::{MAPWIDTH, idx_of, in_grid, x_of, y_of};
use crate::rect::Rect;
use crate::rng::roll_dice;
use crate::world::{EntityData, World, bare_entity};

verus! {

/// The die for the number of monsters in a room has this many faces and
/// two more; the throw less three is the number.
pub const MAX_MONSTERS: i32 = 4;

/// The die for the number of items in a room has this many faces and two
/// more; the throw less three is the number.
pub const MAX_ITEMS: i32 = 2;

/// How often a spawn point is drawn anew after landing on a taken cell.
pub const MAX_SPAWN_TRIES: u32 = 1000;

/// The background colour of all that is spawned.
pub open spec fn black() -> Color {
    Color { r: 0, g: 0, b: 0 }
}

/// The player's colour.
pub open spec fn yellow() -> Color {
    Color { r: 255, g: 255, b: 0 }
}

/// The monsters' colour.
pub open spec fn red() -> Color {
    Color { r: 255, g: 0, b: 0 }
}

/// The health potion's colour.
pub open spec fn magenta() -> Color {
    Color { r: 255, g: 0, b: 255 }
}

/// The magic missile scroll's colour.
pub open spec fn cyan() -> Color {
    Color { r: 0, g: 255, b: 255 }
}

/// The fireball scroll's colour.
pub open spec fn orange() -> Color {
    Color { r: 255, g: 165, b: 0 }
}

/// The viewshed is one that has not looked yet: it sees nothing, reaches
/// `range` cells and is out of date.
pub open spec fn fresh_viewshed(v: Option<Viewshed>, range: int) -> bool {
    &&& v is Some
    &&& v.unwrap().visible_tiles@ == Seq::<Coord>::empty()
    &&& v.unwrap().range == range
    &&& v.unwrap().dirty
}

/// `e` is named `name` and is, but for its name and its viewshed, exactly
/// `template`.
pub open spec fn built_from(e: EntityData, template: EntityData, name: Seq<char>) -> bool {
    &&& e.name is Some
    &&& e.name.unwrap()@ == name
    &&& (EntityData { name: None, viewshed: None, ..e }) == template
}

/// The player on the cell `(x, y)`, still without name and eyes.
pub open spec fn player_template(x: i32, y: i32) -> EntityData {
    EntityData {
        position: Some(Position { x, y }),
        renderable: Some(
            Renderable { glyph: cp437_glyph('@'), fg: yellow(), bg: black(), render_order: 0 },
        ),
        player: true,
        combat_stats: Some(CombatStats { max_hp: 30, hp: 30, defense: 2, power: 5 }),
        ..bare_entity(true)
    }
}

/// A monster drawn as `glyph` on the cell `(x, y)`, still without name and
/// eyes.
pub open spec fn monster_template(x: i32, y: i32, glyph: u16) -> EntityData {
    EntityData {
        position: Some(Position { x, y }),
        renderable: Some(Renderable { glyph, fg: red(), bg: black(), render_order: 1 }),
        monster: true,
        blocks_tile: true,
        combat_stats: Some(CombatStats { max_hp: 16, hp: 16, defense: 1, power: 4 }),
        ..bare_entity(true)
    }
}

/// A health potion on the cell `(x, y)`, still without name.
pub open spec fn health_potion_template(x: i32, y: i32) -> EntityData {
    EntityData {
        position: Some(Position { x, y }),
        renderable: Some(
            Renderable {
                glyph: cp437_glyph('\u{a1}'),
                fg: magenta(),
                bg: black(),
                render_order: 2,
            },
        ),
        item: true,
        consumable: true,
        provides_healing: Some(ProvidesHealing { heal_amount: 8 }),
        ..bare_entity(true)
    }
}

/// A magic missile scroll on the cell `(x, y)`, still without name.
pub open spec fn magic_missile_template(x: i32, y: i32) -> EntityData {
    EntityData {
        position: Some(Position { x, y }),
        renderable: Some(
            Renderable { glyph: cp437_glyph(')'), fg: cyan(), bg: black(), render_order: 2 },
        ),
        item: true,
        consumable: true,
        ranged: Some(Ranged { range: 6 }),
        inflicts_damage: Some(InflictsDamage { damage: 8 }),
        ..bare_entity(true)
    }
}

/// A fireball scroll on the cell `(x, y)`, still without name.
pub open spec fn fireball_template(x: i32, y: i32) -> EntityData {
    EntityData {
        position: Some(Position { x, y }),
        renderable: Some(
            Renderable { glyph: cp437_glyph(')'), fg: orange(), bg: black(), render_order: 2 },
        ),
        item: true,
        consumable: true,
        ranged: Some(Ranged { range: 6 }),
        inflicts_damage: Some(InflictsDamage { damage: 20 }),
        area_of_effect: Some(AreaOfEffect { radius: 3 }),
        ..bare_entity(true)
    }
}

/// The player: "Pon", drawn as `@`, who sees 8 cells far and has 30 hit
/// points, defense 2 and power 5.
pub open spec fn is_player(e: EntityData, x: i32, y: i32) -> bool {
    built_from(e, player_template(x, y), "Pon"@) && fresh_viewshed(e.viewshed, 8)
}

/// A monster named `name` and drawn as `glyph`: it blocks its tile, sees 8
/// cells far and has 16 hit points, defense 1 and power 4.
pub open spec fn is_monster(e: EntityData, x: i32, y: i32, glyph: u16, name: Seq<char>) -> bool {
    built_from(e, monster_template(x, y, glyph), name) && fresh_viewshed(e.viewshed, 8)
}

/// An orc: a monster drawn as `o`.
pub open spec fn is_orc(e: EntityData, x: i32, y: i32) -> bool {
    is_monster(e, x, y, cp437_glyph('o'), "Orc"@)
}

/// A goblin: a monster drawn as `g`.
pub open spec fn is_goblin(e: EntityData, x: i32, y: i32) -> bool {
    is_monster(e, x, y, cp437_glyph('g'), "Goblin"@)
}

/// A consumable potion that heals 8 hit points.
pub open spec fn is_health_potion(e: EntityData, x: i32, y: i32) -> bool {
    built_from(e, health_potion_template(x, y), "Red Potion"@) && e.viewshed is None
}

/// A consumable scroll that inflicts 8 damage on a cell up to 6 away.
pub open spec fn is_magic_missile_scroll(e: EntityData, x: i32, y: i32) -> bool {
    built_from(e, magic_missile_template(x, y), "Magic Missile Scroll"@) && e.viewshed is None
}

/// A consumable scroll that inflicts 20 damage within 3 cells of a cell up
/// to 6 away.
pub open spec fn is_fireball_scroll(e: EntityData, x: i32, y: i32) -> bool {
    built_from(e, fireball_template(x, y), "Fireball Scroll"@) && e.viewshed is None
}

/// `post` is `pre` with one more entity, and nothing else differs but,
/// possibly, the state of the random number generator.
pub open spec fn one_spawned(pre: World, post: World) -> bool {
    &&& post.wf()
    &&& post.map == pre.map
    &&& post.player_entity == pre.player_entity
    &&& post.player_pos == pre.player_pos
    &&& post.log == pre.log
    &&& post.runstate == pre.runstate
    &&& post.doomed == pre.doomed
    &&& post.entities.len() == pre.entities.len() + 1
    &&& post.entities@.subrange(0, pre.entities.len() as int) == pre.entities@
}

fn new_viewshed(range: i32) -> (v: Viewshed)
    ensures
        fresh_viewshed(Some(v), range as int),
{
    Viewshed { visible_tiles: Vec::new(), range, dirty: true }
}

fn add_entity(ecs: &mut World, e: EntityData) -> (handle: Entity)
    requires
        old(ecs).wf(),
        e.wf(),
    ensures
        one_spawned(*old(ecs), *final(ecs)),
        final(ecs).rng == old(ecs).rng,
        final(ecs).entities@.last() == e,
        handle == old(ecs).entities.len(),
{
    let handle = ecs.entities.len();
    ecs.entities.push(e);
    assert(ecs.entities@.subrange(0, handle as int) =~= old(ecs).entities@);
    handle
}

/// Puts the player on the cell `(player_x, player_y)` and hands out the
/// new entity's handle.
pub fn player(ecs: &mut World, player_x: i32, player_y: i32) -> (handle: Entity)
    requires
        old(ecs).wf(),
        in_grid(player_x as int, player_y as int),
    ensures
        one_spawned(*old(ecs), *final(ecs)),
        final(ecs).rng == old(ecs).rng,
        handle == old(ecs).entities.len(),
        is_player(final(ecs).entities@.last(), player_x, player_y),
{
    let mut e = EntityData::new(true);
    e.position = Some(Position { x: player_x, y: player_y });
    e.renderable = Some(
        Renderable {
            glyph: to_cp437('@'),
            fg: Color { r: 255, g: 255, b: 0 },
            bg: Color { r: 0, g: 0, b: 0 },
            render_order: 0,
        },
    );
    e.player = true;
    e.viewshed = Some(new_viewshed(8));
    e.name = Some("Pon".to_string());
    e.combat_stats = Some(CombatStats { max_hp: 30, hp: 30, defense: 2, power: 5 });
    add_entity(ecs, e)
}

fn monster(ecs: &mut World, x: i32, y: i32, glyph: u16, name: &str)
    requires
        old(ecs).wf(),
        in_grid(x as int, y as int),
    ensures
        one_spawned(*old(ecs), *final(ecs)),
        final(ecs).rng == old(ecs).rng,
        is_monster(final(ecs).entities@.last(), x, y, glyph, name@),
{
    let mut e = EntityData::new(true);
    e.position = Some(Position { x, y });
    e.renderable = Some(
        Renderable {
            glyph,
            fg: Color { r: 255, g: 0, b: 0 },
            bg: Color { r: 0, g: 0, b: 0 },
            render_order: 1,
        },
    );
    e.viewshed = Some(new_viewshed(8));
    e.monster = true;
    e.name = Some(name.to_string());
    e.blocks_tile = true;
    e.combat_stats = Some(CombatStats { max_hp: 16, hp: 16, defense: 1, power: 4 });
    add_entity(ecs, e);
}

fn orc(ecs: &mut World, x: i32, y: i32)
    requires
        old(ecs).wf(),
        in_grid(x as int, y as int),
    ensures
        one_spawned(*old(ecs), *final(ecs)),
        final(ecs).rng == old(ecs).rng,
        is_orc(final(ecs).entities@.last(), x, y),
{
    monster(ecs, x, y, to_cp437('o'), "Orc");
}

fn goblin(ecs: &mut World, x: i32, y: i32)
    requires
        old(ecs).wf(),
        in_grid(x as int, y as int),
    ensures
        one_spawned(*old(ecs), *final(ecs)),
        final(ecs).rng == old(ecs).rng,
        is_goblin(final(ecs).entities@.last(), x, y),
{
    monster(ecs, x, y, to_cp437('g'), "Goblin");
}

/// The monster that the throw `roll` of a two-sided die stands for: an orc
/// on 1, a goblin on anything else.
pub fn monster_for_roll(ecs: &mut World, x: i32, y: i32, roll: i32)
    requires
        old(ecs).wf(),
        in_grid(x as int, y as int),
    ensures
        one_spawned(*old(ecs), *final(ecs)),
        final(ecs).rng == old(ecs).rng,
        roll == 1 ==> is_orc(final(ecs).entities@.last(), x, y),
        roll != 1 ==> is_goblin(final(ecs).entities@.last(), x, y),
{
    match roll {
        1 => orc(ecs, x, y),
        _ => goblin(ecs, x, y),
    }
}

/// Puts an orc or a goblin, as the die falls, on the cell `(x, y)`.
pub fn random_monster(ecs: &mut World, x: i32, y: i32)
    requires
        old(ecs).wf(),
        in_grid(x as int, y as int),
    ensures
        one_spawned(*old(ecs), *final(ecs)),
        is_orc(final(ecs).entities@.last(), x, y) || is_goblin(final(ecs).entities@.last(), x, y),
{
    let roll = roll_dice(&mut ecs.rng, 1, 2);
    monster_for_roll(ecs, x, y, roll);
}

fn health_potion(ecs: &mut World, x: i32, y: i32)
    requires
        old(ecs).wf(),
        in_grid(x as int, y as int),
    ensures
        one_spawned(*old(ecs), *final(ecs)),
        final(ecs).rng == old(ecs).rng,
        is_health_potion(final(ecs).entities@.last(), x, y),
{
    let mut e = EntityData::new(true);
    e.position = Some(Position { x, y });
    e.renderable = Some(
        Renderable {
            glyph: to_cp437('\u{a1}'),
            fg: Color { r: 255, g: 0, b: 255 },
            bg: Color { r: 0, g: 0, b: 0 },
            render_order: 2,
        },
    );
    e.name = Some("Red Potion".to_string());
    e.item = true;
    e.consumable = true;
    e.provides_healing = Some(ProvidesHealing { heal_amount: 8 });
    add_entity(ecs, e);
}

fn magic_missile_scroll(ecs: &mut World, x: i32, y: i32)
    requires
        old(ecs).wf(),
        in_grid(x as int, y as int),
    ensures
        one_spawned(*old(ecs), *final(ecs)),
        final(ecs).rng == old(ecs).rng,
        is_magic_missile_scroll(final(ecs).entities@.last(), x, y),
{
    let mut e = EntityData::new(true);
    e.position = Some(Position { x, y });
    e.renderable = Some(
        Renderable {
            glyph: to_cp437(')'),
            fg: Color { r: 0, g: 255, b: 255 },
            bg: Color { r: 0, g: 0, b: 0 },
            render_order: 2,
        },
    );
    e.name = Some("Magic Missile Scroll".to_string());
    e.item = true;
    e.consumable = true;
    e.ranged = Some(Ranged { range: 6 });
    e.inflicts_damage = Some(InflictsDamage { damage: 8 });
    add_entity(ecs, e);
}

fn fireball_scroll(ecs: &mut World, x: i32, y: i32)
    requires
        old(ecs).wf(),
        in_grid(x as int, y as int),
    ensures
        one_spawned(*old(ecs), *final(ecs)),
        final(ecs).rng == old(ecs).rng,
        is_fireball_scroll(final(ecs).entities@.last(), x, y),
{
    let mut e = EntityData::new(true);
    e.position = Some(Position { x, y });
    e.renderable = Some(
        Renderable {
            glyph: to_cp437(')'),
            fg: Color { r: 255, g: 165, b: 0 },
            bg: Color { r: 0, g: 0, b: 0 },
            render_order: 2,
        },
    );
    e.name = Some("Fireball Scroll".to_string());
    e.item = true;
    e.consumable = true;
    e.ranged = Some(Ranged { range: 6 });
    e.inflicts_damage = Some(InflictsDamage { damage: 20 });
    e.area_of_effect = Some(AreaOfEffect { radius: 3 });
    add_entity(ecs, e);
}

/// The item that the throw `roll` stands for: a health potion on 1, a
/// fireball scroll on 2, a magic missile scroll on anything else.
pub fn item_for_roll(ecs: &mut World, x: i32, y: i32, roll: i32)
    requires
        old(ecs).wf(),
        in_grid(x as int, y as int),
    ensures
        one_spawned(*old(ecs), *final(ecs)),
        final(ecs).rng == old(ecs).rng,
        roll == 1 ==> is_health_potion(final(ecs).entities@.last(), x, y),
        roll == 2 ==> is_fireball_scroll(final(ecs).entities@.last(), x, y),
        roll != 1 && roll != 2 ==> is_magic_missile_scroll(final(ecs).entities@.last(), x, y),
{
    match roll {
        1 => health_potion(ecs, x, y),
        2 => fireball_scroll(ecs, x, y),
        _ => magic_missile_scroll(ecs, x, y),
    }
}

/// Puts a health potion or a fireball scroll, as the die falls, on the
/// cell `(x, y)`.
pub fn random_item(ecs: &mut World, x: i32, y: i32)
    requires
        old(ecs).wf(),
        in_grid(x as int, y as int),
    ensures
        one_spawned(*old(ecs), *final(ecs)),
        is_health_potion(final(ecs).entities@.last(), x, y) || is_fireball_scroll(
            final(ecs).entities@.last(),
            x,
            y,
        ),
{
    let roll = roll_dice(&mut ecs.rng, 1, 2);
    item_for_roll(ecs, x, y, roll);
}

/// The tile with linear index `idx` is an interior cell of `room`.
pub open spec fn in_room(idx: usize, room: Rect) -> bool {
    idx < 4000 && room.interior_contains(x_of(idx as int), y_of(idx as int))
}

fn index_taken(points: &Vec<usize>, idx: usize) -> (b: bool)
    ensures
        b == points@.contains(idx),
{
    let mut k: usize = 0;
    while k < points.len()
        invariant
            k <= points.len(),
            forall|j: int| 0 <= j < k ==> points@[j] != idx,
        decreases points.len() - k,
    {
        if points[k] == idx {
            return true;
        }
        k = k + 1;
    }
    false
}

/// The tile that the throws `dx` and `dy` stand for: the cell `dx` columns
/// and `dy` rows from the corner of `room`.
pub open spec fn spawn_index(room: Rect, dx: int, dy: int) -> int {
    idx_of(room.x1 + dx, room.y1 + dy)
}

/// Takes the cell that the throws `dx` and `dy` stand for as a spawn
/// point, unless it is one already, and says whether it was taken.
pub fn add_spawn_point(points: &mut Vec<usize>, room: &Rect, dx: i32, dy: i32) -> (added: bool)
    requires
        room.interior_in_grid(),
        1 <= dx <= room.x2 - room.x1,
        1 <= dy <= room.y2 - room.y1,
    ensures
        in_room(spawn_index(*room, dx as int, dy as int) as usize, *room),
        added == !old(points)@.contains(spawn_index(*room, dx as int, dy as int) as usize),
        final(points)@ == if added {
            old(points)@.push(spawn_index(*room, dx as int, dy as int) as usize)
        } else {
            old(points)@
        },
{
    let x = (room.x1 + dx) as usize;
    let y = (room.y1 + dy) as usize;
    let idx = (y * MAPWIDTH) + x;
    assert(x_of(idx as int) == x && y_of(idx as int) == y);
    if !index_taken(points, idx) {
        points.push(idx);
        true
    } else {
        false
    }
}

/// Draws spawn points in `room`: as many as `count` asks for, where the
/// dice allow it. Each point is an interior cell of the room and no cell
/// comes twice. A draw that lands on a cell already drawn is made anew, up
/// to `MAX_SPAWN_TRIES` times for one point, after which that point is
/// given up; the first draw of all meets no drawn cell, so that a count
/// above 0 yields at least one point, and a count of 0 or less yields
/// none.
pub fn pick_spawn_points(rng: &mut rltk::RandomNumberGenerator, room: &Rect, count: i32) -> (points:
    Vec<usize>)
    requires
        room.interior_in_grid(),
    ensures
        points@.no_duplicates(),
        count <= 0 ==> points.len() == 0,
        count > 0 ==> 1 <= points.len() <= count,
        forall|k: int| 0 <= k < points.len() ==> in_room(#[trigger] points@[k], *room),
{
    let mut points: Vec<usize> = Vec::new();
    let mut i: i32 = 0;
    while i < count
        invariant
            room.interior_in_grid(),
            0 <= i,
            count > 0 ==> i <= count,
            count <= 0 ==> i == 0,
            points.len() <= i,
            i > 0 ==> points.len() >= 1,
            points@.no_duplicates(),
            forall|k: int| 0 <= k < points.len() ==> in_room(#[trigger] points@[k], *room),
        decreases count - i,
    {
        let mut added = false;
        let mut tries: u32 = 0;
        while !added && tries < MAX_SPAWN_TRIES
            invariant
                room.interior_in_grid(),
                tries <= MAX_SPAWN_TRIES,
                points.len() <= if added { i + 1 } else { i as int },
                i > 0 || tries > 0 || added ==> points.len() >= 1,
                points@.no_duplicates(),
                forall|k: int| 0 <= k < points.len() ==> in_room(#[trigger] points@[k], *room),
            decreases MAX_SPAWN_TRIES - tries, if added { 0int } else { 1int },
        {
            let dx = roll_dice(rng, 1, room.x2 - room.x1);
            let dy = roll_dice(rng, 1, room.y2 - room.y1);
            let ghost before = points@;
            added = add_spawn_point(&mut points, room, dx, dy);
            proof {
                if added {
                    let idx = spawn_index(*room, dx as int, dy as int) as usize;
                    assert(points@[before.len() as int] == idx);
                    assert forall|a: int, b: int|
                        0 <= a < points.len() && 0 <= b < points.len() && a != b implies points@[a]
                        != points@[b] by {
                        if a < before.len() && b < before.len() {
                            assert(before[a] != before[b]);
                        } else if a < before.len() {
                            assert(before.contains(before[a]));
                        } else {
                            assert(before.contains(before[b]));
                        }
                    }
                }
            }
            tries = tries + 1;
        }
        i = i + 1;
    }
    points
}

/// The cell of the tile with linear index `idx`, as a position.
pub open spec fn position_of(idx: usize) -> Position {
    Position { x: x_of(idx as int) as i32, y: y_of(idx as int) as i32 }
}

/// An orc or a goblin that stands on `at`.
pub open spec fn is_spawned_monster(e: EntityData, at: Position) -> bool {
    is_orc(e, at.x, at.y) || is_goblin(e, at.x, at.y)
}

/// A health potion or a fireball scroll that lies on `at`.
pub open spec fn is_spawned_item(e: EntityData, at: Position) -> bool {
    is_health_potion(e, at.x, at.y) || is_fireball_scroll(e, at.x, at.y)
}

/// `post` is `pre` with one new monster on each tile of `monster_points`
/// and then one new item on each tile of `item_points`, in the order of
/// the points: as many new entities as there are points, and nothing else
/// differs but the state of the random number generator.
pub open spec fn points_populated(
    pre: World,
    post: World,
    monster_points: Seq<usize>,
    item_points: Seq<usize>,
) -> bool {
    let n = pre.entities.len() as int;
    let m = monster_points.len() as int;
    &&& post.wf()
    &&& post.map == pre.map
    &&& post.player_entity == pre.player_entity
    &&& post.player_pos == pre.player_pos
    &&& post.log == pre.log
    &&& post.runstate == pre.runstate
    &&& post.doomed == pre.doomed
    &&& post.entities.len() == n + m + item_points.len()
    &&& post.entities@.subrange(0, n) == pre.entities@
    &&& forall|i: int|
        n <= i < n + m ==> is_spawned_monster(
            #[trigger] post.entities@[i],
            position_of(monster_points[i - n]),
        )
    &&& forall|i: int|
        n + m <= i < post.entities.len() ==> is_spawned_item(
            #[trigger] post.entities@[i],
            position_of(item_points[i - n - m]),
        )
}

/// Puts a monster, orc or goblin as the die falls, on each tile of
/// `monster_points`, and then an item, potion or fireball scroll as the die
/// falls, on each tile of `item_points`.
pub fn spawn_at_points(ecs: &mut World, monster_points: &Vec<usize>, item_points: &Vec<usize>)
    requires
        old(ecs).wf(),
        forall|j: int| 0 <= j < monster_points.len() ==> #[trigger] monster_points@[j] < 4000,
        forall|j: int| 0 <= j < item_points.len() ==> #[trigger] item_points@[j] < 4000,
    ensures
        points_populated(*old(ecs), *final(ecs), monster_points@, item_points@),
{
    let ghost n = old(ecs).entities.len() as int;
    let m = monster_points.len();
    assert(ecs.entities@.subrange(0, n) =~= old(ecs).entities@);
    let mut k: usize = 0;
    while k < m
        invariant
            k <= m,
            m == monster_points.len(),
            n == old(ecs).entities.len(),
            ecs.wf(),
            ecs.map == old(ecs).map,
            ecs.player_entity == old(ecs).player_entity,
            ecs.player_pos == old(ecs).player_pos,
            ecs.log == old(ecs).log,
            ecs.runstate == old(ecs).runstate,
            ecs.doomed == old(ecs).doomed,
            ecs.entities.len() == n + k,
            ecs.entities@.subrange(0, n) == old(ecs).entities@,
            forall|j: int| 0 <= j < m ==> #[trigger] monster_points@[j] < 4000,
            forall|i: int|
                n <= i < n + k ==> is_spawned_monster(
                    #[trigger] ecs.entities@[i],
                    position_of(monster_points@[i - n]),
                ),
        decreases m - k,
    {
        let idx = monster_points[k];
        let ghost before = ecs.entities@;
        let x = idx % MAPWIDTH;
        let y = idx / MAPWIDTH;
        random_monster(ecs, x as i32, y as i32);
        proof {
            assert(ecs.entities@.subrange(0, n + k) == before);
            assert forall|j: int| 0 <= j < n + k implies #[trigger] ecs.entities@[j] == before[j] by {
                assert(ecs.entities@.subrange(0, n + k)[j] == ecs.entities@[j]);
            }
            assert(ecs.entities@.subrange(0, n) =~= old(ecs).entities@);
            assert(ecs.entities@.last() == ecs.entities@[n + k]);
        }
        k = k + 1;
    }
    let items = item_points.len();
    let mut k: usize = 0;
    while k < items
        invariant
            k <= items,
            items == item_points.len(),
            m == monster_points.len(),
            n == old(ecs).entities.len(),
            ecs.wf(),
            ecs.map == old(ecs).map,
            ecs.player_entity == old(ecs).player_entity,
            ecs.player_pos == old(ecs).player_pos,
            ecs.log == old(ecs).log,
            ecs.runstate == old(ecs).runstate,
            ecs.doomed == old(ecs).doomed,
            ecs.entities.len() == n + m + k,
            ecs.entities@.subrange(0, n) == old(ecs).entities@,
            forall|j: int| 0 <= j < items ==> #[trigger] item_points@[j] < 4000,
            forall|i: int|
                n <= i < n + m ==> is_spawned_monster(
                    #[trigger] ecs.entities@[i],
                    position_of(monster_points@[i - n]),
                ),
            forall|i: int|
                n + m <= i < n + m + k ==> is_spawned_item(
                    #[trigger] ecs.entities@[i],
                    position_of(item_points@[i - n - m]),
                ),
        decreases items - k,
    {
        let idx = item_points[k];
        let ghost before = ecs.entities@;
        let x = idx % MAPWIDTH;
        let y = idx / MAPWIDTH;
        random_item(ecs, x as i32, y as i32);
        proof {
            assert(ecs.entities@.subrange(0, n + m + k) == before);
            assert forall|j: int| 0 <= j < n + m + k implies #[trigger] ecs.entities@[j] == before[j] by {
                assert(ecs.entities@.subrange(0, n + m + k)[j] == ecs.entities@[j]);
            }
            assert(ecs.entities@.subrange(0, n) =~= old(ecs).entities@);
            assert(ecs.entities@.last() == ecs.entities@[n + m + k]);
        }
        k = k + 1;
    }
}

/// `points` are tiles inside `room`, no tile twice.
pub open spec fn spawn_points_in(points: Seq<usize>, room: Rect) -> bool {
    &&& points.no_duplicates()
    &&& forall|j: int| 0 <= j < points.len() ==> in_room(#[trigger] points[j], room)
}

/// `post` is `pre` with `room` populated: up to three new monsters, each
/// on an interior cell of its own, and then up to one new item on an
/// interior cell. Nothing else differs but the state of the random number
/// generator.
pub open spec fn room_populated(pre: World, post: World, room: Rect) -> bool {
    exists|monster_points: Seq<usize>, item_points: Seq<usize>|
        {
            &&& monster_points.len() <= MAX_MONSTERS - 1
            &&& item_points.len() <= MAX_ITEMS - 1
            &&& spawn_points_in(monster_points, room)
            &&& spawn_points_in(item_points, room)
            &&& #[trigger] points_populated(pre, post, monster_points, item_points)
        }
}

/// Populates `room`: throws one die for the number of monsters, at most
/// three, and one for the number of items, at most one, draws a cell of
/// its own inside the room for each, and puts them there.
pub fn spawn_room(ecs: &mut World, room: &Rect)
    requires
        old(ecs).wf(),
        room.interior_in_grid(),
    ensures
        room_populated(*old(ecs), *final(ecs), *room),
{
    let num_monsters = roll_dice(&mut ecs.rng, 1, MAX_MONSTERS + 2) - 3;
    let num_items = roll_dice(&mut ecs.rng, 1, MAX_ITEMS + 2) - 3;
    let monster_spawn_points = pick_spawn_points(&mut ecs.rng, room, num_monsters);
    let item_spawn_points = pick_spawn_points(&mut ecs.rng, room, num_items);
    let ghost drawn = *ecs;
    spawn_at_points(ecs, &monster_spawn_points, &item_spawn_points);
    proof {
        assert(drawn.entities == old(ecs).entities);
        assert(points_populated(*old(ecs), *ecs, monster_spawn_points@, item_spawn_points@));
    }
}

/// In a populated room every new entity stands on an interior cell of the
/// room, no two new monsters share a cell and no two new items do, and the
/// entities that were there before are as they were.
pub proof fn lemma_room_populated(pre: World, post: World, room: Rect, i: int, j: int)
    requires
        room_populated(pre, post, room),
        room.interior_in_grid(),
        pre.entities.len() <= i < post.entities.len(),
        pre.entities.len() <= j < post.entities.len(),
    ensures
        post.entities.len() <= pre.entities.len() + 4,
        post.entities@[i].position is Some,
        room.interior_contains(
            post.entities@[i].position.unwrap().x as int,
            post.entities@[i].position.unwrap().y as int,
        ),
        post.entities@[i].monster != post.entities@[i].item,
        i != j && post.entities@[i].monster == post.entities@[j].monster
            ==> post.entities@[i].position != post.entities@[j].position,
        forall|e: int| 0 <= e < pre.entities.len() ==> post.entities@[e] == pre.entities@[e],
{
    let (mp, ip) = choose|mp: Seq<usize>, ip: Seq<usize>|
        {
            &&& mp.len() <= MAX_MONSTERS - 1
            &&& ip.len() <= MAX_ITEMS - 1
            &&& spawn_points_in(mp, room)
            &&& spawn_points_in(ip, room)
            &&& #[trigger] points_populated(pre, post, mp, ip)
        };
    let n = pre.entities.len() as int;
    let m = mp.len() as int;
    assert forall|e: int| 0 <= e < n implies post.entities@[e] == pre.entities@[e] by {
        assert(post.entities@.subrange(0, n)[e] == post.entities@[e]);
    }
    if i < n + m {
        assert(in_room(mp[i - n], room));
        assert(is_spawned_monster(post.entities@[i], position_of(mp[i - n])));
    } else {
        assert(in_room(ip[i - n - m], room));
        assert(is_spawned_item(post.entities@[i], position_of(ip[i - n - m])));
    }
    if j < n + m {
        assert(in_room(mp[j - n], room));
        assert(is_spawned_monster(post.entities@[j], position_of(mp[j - n])));
    } else {
        assert(in_room(ip[j - n - m], room));
        assert(is_spawned_item(post.entities@[j], position_of(ip[j - n - m])));
    }
    if i != j && i < n + m && j < n + m {
        assert(mp[i - n] != mp[j - n]);
    }
}

} // verus!
