use vstd::prelude::*;
use crate::components::Entity;
use crate::map::{GameMap, TileType, idx_of};
use crate::world::{EntityData, World};

verus! {

/// Entity `e` stands on the tile with linear index `idx`.
pub open spec fn stands_on(entities: Seq<EntityData>, e: int, idx: int) -> bool {
    entities[e].position matches Some(p) && idx_of(p.x as int, p.y as int) == idx
}

/// Those of the first `n` entities that stand on tile `idx`, in the order
/// of their handles.
pub open spec fn occupants_upto(entities: Seq<EntityData>, idx: int, n: int) -> Seq<Entity>
    decreases n,
{
    if n <= 0 {
        Seq::empty()
    } else if stands_on(entities, n - 1, idx) {
        occupants_upto(entities, idx, n - 1).push((n - 1) as usize)
    } else {
        occupants_upto(entities, idx, n - 1)
    }
}

/// The entities that stand on tile `idx`, in the order of their handles.
pub open spec fn occupants(entities: Seq<EntityData>, idx: int) -> Seq<Entity> {
    occupants_upto(entities, idx, entities.len() as int)
}

/// One of the first `n` entities stands on tile `idx` and blocks it.
pub open spec fn blocker_upto(entities: Seq<EntityData>, idx: int, n: int) -> bool {
    exists|e: int| 0 <= e < n && stands_on(entities, e, idx) && #[trigger] entities[e].blocks_tile
}

/// Tile `idx` cannot be walked onto: it is a wall, or an entity that
/// blocks its tile stands on it.
pub open spec fn tile_blocked(tiles: Seq<TileType>, entities: Seq<EntityData>, idx: int) -> bool {
    tiles[idx] == TileType::Wall || blocker_upto(entities, idx, entities.len() as int)
}

/// The map's per-tile tables say of every tile whether it is blocked and
/// who stands on it, as the entities are placed now.
pub open spec fn indexed(map: &GameMap, entities: Seq<EntityData>) -> bool {
    &&& forall|idx: int|
        0 <= idx < 4000 ==> #[trigger] map.blocked@[idx] == tile_blocked(map.tiles@, entities, idx)
    &&& forall|idx: int|
        0 <= idx < 4000 ==> (#[trigger] map.tile_content@[idx])@ == occupants(entities, idx)
}

/// Every entity listed among the occupants of a tile stands on it, and
/// every entity that stands on it is listed.
pub proof fn lemma_occupants(entities: Seq<EntityData>, idx: int, n: int, e: Entity)
    requires
        0 <= n <= entities.len(),
        n <= usize::MAX,
    ensures
        occupants_upto(entities, idx, n).contains(e) <==> e < n && stands_on(
            entities,
            e as int,
            idx,
        ),
    decreases n,
{
    if n > 0 {
        lemma_occupants(entities, idx, n - 1, e);
        let prev = occupants_upto(entities, idx, n - 1);
        if stands_on(entities, n - 1, idx) {
            let next = prev.push((n - 1) as usize);
            assert(next[prev.len() as int] == (n - 1) as usize);
            if prev.contains(e) {
                let k = choose|k: int| 0 <= k < prev.len() && prev[k] == e;
                assert(next[k] == e);
            }
            if next.contains(e) && e != n - 1 {
                let k = choose|k: int| 0 <= k < next.len() && next[k] == e;
                assert(k < prev.len());
                assert(prev[k] == e);
            }
        }
    }
}

/// `post` is `pre` with the spatial index rebuilt: the map says of every
/// tile whether it is blocked and who stands on it; nothing else differs.
pub open spec fn index_rebuilt(pre: World, post: World) -> bool {
    &&& post.wf()
    &&& post.entities == pre.entities
    &&& post.player_entity == pre.player_entity
    &&& post.player_pos == pre.player_pos
    &&& post.log == pre.log
    &&& post.runstate == pre.runstate
    &&& post.rng == pre.rng
    &&& post.doomed == pre.doomed
    &&& post.map.tiles == pre.map.tiles
    &&& post.map.rooms == pre.map.rooms
    &&& post.map.revealed_tiles == pre.map.revealed_tiles
    &&& post.map.visible_tiles == pre.map.visible_tiles
    &&& indexed(&post.map, post.entities@)
}

/// The system that rebuilds the spatial index.
pub struct MapIndexingSystem {}

impl MapIndexingSystem {
    /// Rebuilds the spatial index from nothing: afterwards the map says of
    /// every tile whether it is blocked and who stands on it. Nothing else
    /// changes.
    pub fn run(&mut self, ecs: &mut World)
        requires
            old(ecs).wf(),
        ensures
            index_rebuilt(*old(ecs), *final(ecs)),
    {
        ecs.map.populate_blocked();
        ecs.map.clear_content_index();
        let mut e: usize = 0;
        while e < ecs.entities.len()
            invariant
                e <= ecs.entities.len(),
                ecs.wf(),
                ecs.entities == old(ecs).entities,
                ecs.player_entity == old(ecs).player_entity,
                ecs.player_pos == old(ecs).player_pos,
                ecs.log == old(ecs).log,
                ecs.runstate == old(ecs).runstate,
                ecs.rng == old(ecs).rng,
                ecs.doomed == old(ecs).doomed,
                ecs.map.tiles == old(ecs).map.tiles,
                ecs.map.rooms == old(ecs).map.rooms,
                ecs.map.revealed_tiles == old(ecs).map.revealed_tiles,
                ecs.map.visible_tiles == old(ecs).map.visible_tiles,
                forall|idx: int|
                    0 <= idx < 4000 ==> #[trigger] ecs.map.blocked@[idx] == (ecs.map.tiles@[idx]
                        == TileType::Wall || blocker_upto(ecs.entities@, idx, e as int)),
                forall|idx: int|
                    0 <= idx < 4000 ==> (#[trigger] ecs.map.tile_content@[idx])@ == occupants_upto(
                        ecs.entities@,
                        idx,
                        e as int,
                    ),
            decreases ecs.entities.len() - e,
        {
            let ghost ents = ecs.entities@;
            let ghost before = ecs.map;
            assert(ents[e as int].wf());
            match ecs.entities[e].position {
                Some(p) => {
                    let idx = ecs.map.xy_idx(p.x, p.y);
                    if ecs.entities[e].blocks_tile {
                        ecs.map.blocked.set(idx, true);
                    }
                    ecs.map.tile_content[idx].push(e);
                    assert(stands_on(ents, e as int, idx as int));
                },
                None => {},
            }
            proof {
                assert forall|idx: int| 0 <= idx < 4000 implies #[trigger] ecs.map.blocked@[idx] == (
                ecs.map.tiles@[idx] == TileType::Wall || blocker_upto(ents, idx, e + 1)) by {
                    if blocker_upto(ents, idx, e as int) {
                        let w = choose|w: int|
                            0 <= w < e && stands_on(ents, w, idx) && #[trigger] ents[w].blocks_tile;
                        assert(0 <= w < e + 1 && stands_on(ents, w, idx) && ents[w].blocks_tile);
                    }
                    if blocker_upto(ents, idx, e + 1) {
                        let w = choose|w: int|
                            0 <= w < e + 1 && stands_on(ents, w, idx)
                                && #[trigger] ents[w].blocks_tile;
                        if w < e {
                            assert(blocker_upto(ents, idx, e as int));
                        }
                    }
                    assert(before.blocked@[idx] == (ecs.map.tiles@[idx] == TileType::Wall
                        || blocker_upto(ents, idx, e as int)));
                }
                assert forall|idx: int| 0 <= idx < 4000 implies (#[trigger] ecs.map.tile_content@[idx])@
                    == occupants_upto(ents, idx, e + 1) by {
                    assert(before.tile_content@[idx]@ == occupants_upto(ents, idx, e as int));
                }
            }
            e = e + 1;
        }
    }
}

} // verus!
