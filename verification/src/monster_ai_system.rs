use vstd::prelude::*;
use crate::components::{Entity, Position, Viewshed, points_contain};
use crate::map::{GameMap, TileType, idx_of, in_grid, step_allowed, x_of, y_of};
use crate::world::{EntityData, World};

verus! {

/// The answer to a path query: whether the goal was reached, and if so the
/// tiles to walk over, the tile one starts from first.
#[derive(Debug)]
pub struct NavigationPath {
    pub destination: usize,
    pub success: bool,
    pub steps: Vec<usize>,
}

/// Entity `e` is a monster that can go after the player: it has a name, a
/// place and eyes.
pub open spec fn hunts(world: World, e: int) -> bool {
    &&& world.entities@[e].monster
    &&& world.entities@[e].name is Some
    &&& world.entities@[e].position is Some
    &&& world.entities@[e].viewshed is Some
}

/// Entity `e` is a monster that sees the cell the player stands on.
pub open spec fn chases(world: World, e: int) -> bool {
    &&& hunts(world, e)
    &&& world.entities@[e].viewshed.unwrap().visible_tiles@.contains(world.player_pos)
}

/// Each tile of `steps` is one step, straight or diagonal, from the tile
/// before it, and no tile after the first is a wall.
pub open spec fn is_walk(tiles: Seq<TileType>, steps: Seq<usize>) -> bool {
    forall|k: int|
        0 <= k && k + 1 < steps.len() ==> step_allowed(
            tiles,
            #[trigger] steps[k] as int,
            steps[k + 1] as int,
        )
}

/// Entity `e` stands on the player's cell or on a cell next to it,
/// straight or diagonal.
pub open spec fn beside_player(world: World, e: int) -> bool {
    &&& world.entities@[e].position is Some
    &&& -1 <= world.entities@[e].position.unwrap().x - world.player_pos.x <= 1
    &&& -1 <= world.entities@[e].position.unwrap().y - world.player_pos.y <= 1
}

/// `path` shows entity `e` a way to the player: it reaches its goal, and
/// its tiles are a walk of more than one step, hence of more than two
/// tiles, from where `e` stands to where the player stands.
pub open spec fn shows_the_way(world: World, path: NavigationPath, e: int) -> bool {
    &&& path.success
    &&& path.steps.len() > 2
    &&& path.steps@[0] == idx_of(
        world.entities@[e].position.unwrap().x as int,
        world.entities@[e].position.unwrap().y as int,
    )
    &&& path.steps@.last() == idx_of(world.player_pos.x as int, world.player_pos.y as int)
    &&& is_walk(world.map.tiles@, path.steps@)
}

/// The tile that monster `e` walks to: the second tile of its path, where
/// it chases the player, does not stand beside the player already, and its
/// path shows it the way.
pub open spec fn next_step(world: World, paths: Seq<NavigationPath>, e: int) -> Option<usize> {
    if chases(world, e) && !beside_player(world, e) && e < paths.len() && shows_the_way(
        world,
        paths[e],
        e,
    ) {
        Some(paths[e].steps@[1])
    } else {
        None
    }
}

/// The entity after it walked to tile `to`: it stands there, and what it
/// sees is out of date.
pub open spec fn walked_to(before: EntityData, to: usize) -> EntityData {
    EntityData {
        position: Some(Position { x: x_of(to as int) as i32, y: y_of(to as int) as i32 }),
        viewshed: Some(Viewshed { dirty: true, ..before.viewshed.unwrap() }),
        ..before
    }
}

/// `post` is `pre` after every monster that chases the player took the
/// first step of its path; `paths` holds, at the place of each entity's
/// handle, the path found for it. Nothing else differs.
pub open spec fn monsters_moved(pre: World, post: World, paths: Seq<NavigationPath>) -> bool {
    &&& post.wf()
    &&& post.same_frame(&pre)
    &&& post.entities.len() == pre.entities.len()
    &&& forall|e: int|
        0 <= e < pre.entities.len() ==> #[trigger] post.entities@[e] == match next_step(
            pre,
            paths,
            e,
        ) {
            Some(to) => walked_to(pre.entities@[e], to),
            None => pre.entities@[e],
        }
}

/// The path query of entity `e`: from the tile it stands on to the tile
/// the player stands on, if it is a monster that can go after the player.
pub fn path_request(ecs: &World, e: Entity) -> (request: Option<(usize, usize)>)
    requires
        ecs.wf(),
    ensures
        request == if e < ecs.entities.len() && hunts(*ecs, e as int) {
            Some(
                (
                    idx_of(
                        ecs.entities@[e as int].position.unwrap().x as int,
                        ecs.entities@[e as int].position.unwrap().y as int,
                    ) as usize,
                    idx_of(ecs.player_pos.x as int, ecs.player_pos.y as int) as usize,
                ),
            )
        } else {
            None
        },
{
    if e >= ecs.entities.len() {
        return None;
    }
    assert(ecs.entities@[e as int].wf());
    if !ecs.entities[e].monster || ecs.entities[e].name.is_none()
        || ecs.entities[e].viewshed.is_none() {
        return None;
    }
    match ecs.entities[e].position {
        Some(pos) => Some(
            (ecs.map.xy_idx(pos.x, pos.y), ecs.map.xy_idx(ecs.player_pos.x, ecs.player_pos.y)),
        ),
        None => None,
    }
}

/// Whether entity `e` sees the cell the player stands on.
fn sees_player(ecs: &World, e: Entity) -> (b: bool)
    requires
        e < ecs.entities.len(),
    ensures
        b == (ecs.entities@[e as int].viewshed is Some && ecs.entities@[e as int].viewshed.unwrap().visible_tiles@.contains(
            ecs.player_pos,
        )),
{
    match &ecs.entities[e].viewshed {
        Some(v) => points_contain(&v.visible_tiles, ecs.player_pos),
        None => false,
    }
}

/// Whether `steps` is a walk on `map`.
pub fn check_walk(map: &GameMap, steps: &Vec<usize>) -> (b: bool)
    requires
        map.wf(),
    ensures
        b == is_walk(map.tiles@, steps@),
{
    if steps.len() < 2 {
        return true;
    }
    let mut k: usize = 0;
    while k + 1 < steps.len()
        invariant
            map.wf(),
            k + 1 <= steps.len(),
            forall|j: int|
                0 <= j < k ==> step_allowed(
                    map.tiles@,
                    #[trigger] steps@[j] as int,
                    steps@[j + 1] as int,
                ),
        decreases steps.len() - k,
    {
        if !map.is_step(steps[k], steps[k + 1]) {
            return false;
        }
        k = k + 1;
    }
    true
}

/// Whether entity `e` stands on the player's cell or next to it.
fn stands_beside_player(ecs: &World, e: Entity) -> (b: bool)
    requires
        e < ecs.entities.len(),
    ensures
        b == beside_player(*ecs, e as int),
{
    match ecs.entities[e].position {
        Some(pos) => {
            let dx: i64 = pos.x as i64 - ecs.player_pos.x as i64;
            let dy: i64 = pos.y as i64 - ecs.player_pos.y as i64;
            -1 <= dx && dx <= 1 && -1 <= dy && dy <= 1
        },
        None => false,
    }
}

/// Whether `path` shows a way from tile `from` to tile `to`.
fn shows_way(map: &GameMap, path: &NavigationPath, from: usize, to: usize) -> (b: bool)
    requires
        map.wf(),
    ensures
        b == (path.success && path.steps.len() > 2 && path.steps@[0] == from && path.steps@.last()
            == to && is_walk(map.tiles@, path.steps@)),
{
    path.success && path.steps.len() > 2 && path.steps[0] == from && path.steps[path.steps.len()
        - 1] == to && check_walk(map, &path.steps)
}

/// The system that moves the monsters.
pub struct MonsterAI {}

impl MonsterAI {
    /// Moves every monster that chases the player, and does not stand
    /// beside the player yet, one step along its path.
    pub fn run(&mut self, ecs: &mut World, paths: &Vec<NavigationPath>)
        requires
            old(ecs).wf(),
        ensures
            monsters_moved(*old(ecs), *final(ecs), paths@),
    {
        let mut e: usize = 0;
        while e < ecs.entities.len()
            invariant
                e <= ecs.entities.len(),
                ecs.wf(),
                ecs.same_frame(old(ecs)),
                ecs.entities.len() == old(ecs).entities.len(),
                forall|i: int|
                    0 <= i < e ==> #[trigger] ecs.entities@[i] == match next_step(
                        *old(ecs),
                        paths@,
                        i,
                    ) {
                        Some(to) => walked_to(old(ecs).entities@[i], to),
                        None => old(ecs).entities@[i],
                    },
                forall|i: int|
                    e <= i < ecs.entities.len() ==> #[trigger] ecs.entities@[i] == old(
                        ecs,
                    ).entities@[i],
            decreases ecs.entities.len() - e,
        {
            let ghost before = *ecs;
            assert(before.entities@[e as int].wf());
            let request = path_request(ecs, e);
            let in_sight = sees_player(ecs, e);
            let beside = stands_beside_player(ecs, e);
            assert(chases(*ecs, e as int) == chases(*old(ecs), e as int));
            assert(beside_player(*ecs, e as int) == beside_player(*old(ecs), e as int));
            match request {
                Some((from, goal)) => {
                    if in_sight && !beside && e < paths.len() && shows_way(
                        &ecs.map,
                        &paths[e],
                        from,
                        goal,
                    ) {
                        let to = paths[e].steps[1];
                        ecs.entities[e].position = Some(
                            Position { x: (to % 80) as i32, y: (to / 80) as i32 },
                        );
                        match &mut ecs.entities[e].viewshed {
                            Some(v) => {
                                v.dirty = true;
                            },
                            None => {},
                        }
                        proof {
                            assert(next_step(*old(ecs), paths@, e as int) == Some(to));
                            assert(ecs.entities@[e as int] == walked_to(
                                old(ecs).entities@[e as int],
                                to,
                            ));
                            assert forall|i: int| 0 <= i < ecs.entities.len() implies (#[trigger] ecs.entities@[i]).wf() by {
                                assert(before.entities@[i].wf());
                            }
                        }
                    }
                },
                None => {},
            }
            e = e + 1;
        }
    }
}

proof fn lemma_rest_is_walk(tiles: Seq<TileType>, steps: Seq<usize>)
    requires
        is_walk(tiles, steps),
        steps.len() >= 1,
    ensures
        is_walk(tiles, steps.subrange(1, steps.len() as int)),
{
    let rest = steps.subrange(1, steps.len() as int);
    assert forall|k: int| 0 <= k && k + 1 < rest.len() implies step_allowed(
        tiles,
        #[trigger] rest[k] as int,
        rest[k + 1] as int,
    ) by {
        assert(rest[k] == steps[k + 1]);
        assert(rest[k + 1] == steps[k + 2]);
        assert(step_allowed(tiles, steps[k + 1] as int, steps[k + 2] as int));
    }
}

proof fn lemma_step_is_near(tiles: Seq<TileType>, fx: int, fy: int, to: int)
    requires
        in_grid(fx, fy),
        step_allowed(tiles, idx_of(fx, fy), to),
    ensures
        0 <= to < 4000,
        -1 <= x_of(to) - fx <= 1,
        -1 <= y_of(to) - fy <= 1,
        tiles[to] == TileType::Floor,
        idx_of(x_of(to), y_of(to)) == to,
{
    let from = idx_of(fx, fy);
    assert(x_of(from) == fx && y_of(from) == fy);
}

/// A monster that does not see the player, that stands beside the player
/// or on the player's cell, or whose path does not reach the player or is
/// no longer than one step, stays as it is.
pub proof fn lemma_monster_stays(pre: World, post: World, paths: Seq<NavigationPath>, e: int)
    requires
        monsters_moved(pre, post, paths),
        0 <= e < pre.entities.len(),
        !chases(pre, e) || beside_player(pre, e) || e >= paths.len() || !paths[e].success
            || paths[e].steps.len() <= 2,
    ensures
        post.entities@[e] == pre.entities@[e],
{
    assert(next_step(pre, paths, e) is None);
}

/// A monster that moves stands afterwards on the second tile of its path,
/// one step from where it stood, on floor, and what is left of the path is
/// a walk from there to the player that is one step shorter.
pub proof fn lemma_monster_step(pre: World, post: World, paths: Seq<NavigationPath>, e: int)
    requires
        pre.wf(),
        monsters_moved(pre, post, paths),
        0 <= e < pre.entities.len(),
        post.entities@[e].position != pre.entities@[e].position,
    ensures
        chases(pre, e),
        !beside_player(pre, e),
        e < paths.len(),
        paths[e].steps.len() > 2,
        post.entities@[e].position is Some,
        ({
            let from = pre.entities@[e].position.unwrap();
            let to = post.entities@[e].position.unwrap();
            let rest = paths[e].steps@.subrange(1, paths[e].steps.len() as int);
            &&& idx_of(to.x as int, to.y as int) == paths[e].steps@[1]
            &&& -1 <= to.x - from.x <= 1
            &&& -1 <= to.y - from.y <= 1
            &&& pre.map.tiles@[idx_of(to.x as int, to.y as int)] == TileType::Floor
            &&& rest.len() == paths[e].steps.len() - 1
            &&& rest[0] == idx_of(to.x as int, to.y as int)
            &&& rest.last() == idx_of(pre.player_pos.x as int, pre.player_pos.y as int)
            &&& is_walk(pre.map.tiles@, rest)
        }),
{
    assert(pre.entities@[e].wf());
    let step = next_step(pre, paths, e);
    if step is None {
        assert(post.entities@[e] == pre.entities@[e]);
    } else {
        let to = step.unwrap();
        let steps = paths[e].steps@;
        let from = pre.entities@[e].position.unwrap();
        assert(post.entities@[e] == walked_to(pre.entities@[e], to));
        assert(to == steps[1]);
        assert(step_allowed(pre.map.tiles@, steps[0] as int, steps[1] as int));
        lemma_step_is_near(pre.map.tiles@, from.x as int, from.y as int, to as int);
        lemma_rest_is_walk(pre.map.tiles@, steps);
        let rest = steps.subrange(1, steps.len() as int);
        assert(rest[0] == steps[1]);
        assert(rest.last() == steps.last());
    }
}

/// There is a walk of more than one step from tile `from` to tile `to`.
pub open spec fn walk_exists(tiles: Seq<TileType>, from: int, to: int) -> bool {
    exists|steps: Seq<usize>|
        steps.len() > 2 && steps[0] == from && steps.last() == to && #[trigger] is_walk(
            tiles,
            steps,
        )
}

/// A monster that is walled off from the player never moves, whatever
/// paths are handed in: where no walk leads from where it stands to where
/// the player stands, it is after the monsters' move as it was before.
pub proof fn lemma_walled_off_monster_stays(
    pre: World,
    post: World,
    paths: Seq<NavigationPath>,
    e: int,
)
    requires
        monsters_moved(pre, post, paths),
        0 <= e < pre.entities.len(),
        pre.entities@[e].position is Some,
        !walk_exists(
            pre.map.tiles@,
            idx_of(
                pre.entities@[e].position.unwrap().x as int,
                pre.entities@[e].position.unwrap().y as int,
            ),
            idx_of(pre.player_pos.x as int, pre.player_pos.y as int),
        ),
    ensures
        post.entities@[e] == pre.entities@[e],
{
    if next_step(pre, paths, e) is Some {
        assert(is_walk(pre.map.tiles@, paths[e].steps@));
    }
}

} // verus!
