use vstd::prelude::*;
use crate::components::{Coord, Viewshed};
use crate::fov::{cell_in_grid, field_of_view, fov_cells, retain_in_grid};
use crate::seq_filter::{lemma_filter_contains, lemma_filter_no_duplicates};
use crate::map::{GameMap, TileType, in_grid, x_of, y_of};
use crate::world::{EntityData, World};

verus! {

/// The cell of the tile with linear index `idx`.
pub open spec fn coord_of(idx: int) -> Coord {
    Coord { x: x_of(idx) as i32, y: y_of(idx) as i32 }
}

/// The entity stands somewhere and what it sees is out of date.
pub open spec fn needs_sight(e: EntityData) -> bool {
    e.position is Some && e.viewshed is Some && e.viewshed.unwrap().dirty
}

/// `after` is `before` with its sight computed anew on `tiles`: it sees,
/// each once, the cells of the grid that the field-of-view search finds
/// from where it stands, its own cell among them, and its sight is up to
/// date. Nothing else of it differs.
pub open spec fn sees_afresh(tiles: Seq<TileType>, before: EntityData, after: EntityData) -> bool {
    let pos = before.position.unwrap();
    let v = before.viewshed.unwrap();
    &&& after.viewshed is Some
    &&& after == EntityData { viewshed: after.viewshed, ..before }
    &&& after.viewshed.unwrap().range == v.range
    &&& !after.viewshed.unwrap().dirty
    &&& after.viewshed.unwrap().visible_tiles@.no_duplicates()
    &&& after.viewshed.unwrap().visible_tiles@.contains(Coord { x: pos.x, y: pos.y })
    &&& forall|p: Coord|
        after.viewshed.unwrap().visible_tiles@.contains(p) <==> fov_cells(
            pos.x as int,
            pos.y as int,
            v.range as int,
            tiles,
        ).contains(p) && in_grid(p.x as int, p.y as int)
}

/// The map's record of what the player sees and has seen, once the player
/// sees `seen`: a tile is visible where it is among `seen`, and revealed
/// where it was before or is visible now.
pub open spec fn overlays_show(before: &GameMap, after: &GameMap, seen: Seq<Coord>) -> bool {
    &&& forall|idx: int|
        0 <= idx < 4000 ==> #[trigger] after.visible_tiles@[idx] == seen.contains(coord_of(idx))
    &&& forall|idx: int|
        0 <= idx < 4000 ==> #[trigger] after.revealed_tiles@[idx] == (before.revealed_tiles@[idx]
            || after.visible_tiles@[idx])
}

/// `post` is `pre` after every entity whose sight was out of date looked
/// afresh. Where the world's player entity is one of them, the map records
/// what it sees and has seen; what other entities see leaves the map as it
/// was.
pub open spec fn sight_updated(pre: World, post: World) -> bool {
    let p = pre.player_entity as int;
    &&& post.wf()
    &&& post.player_entity == pre.player_entity
    &&& post.player_pos == pre.player_pos
    &&& post.log == pre.log
    &&& post.runstate == pre.runstate
    &&& post.rng == pre.rng
    &&& post.doomed == pre.doomed
    &&& post.map.tiles == pre.map.tiles
    &&& post.map.rooms == pre.map.rooms
    &&& post.map.blocked == pre.map.blocked
    &&& post.map.tile_content == pre.map.tile_content
    &&& post.entities.len() == pre.entities.len()
    &&& forall|e: int|
        0 <= e < pre.entities.len() ==> if needs_sight(#[trigger] pre.entities@[e]) {
            sees_afresh(pre.map.tiles@, pre.entities@[e], post.entities@[e])
        } else {
            post.entities@[e] == pre.entities@[e]
        }
    &&& if p < pre.entities.len() && needs_sight(pre.entities@[p]) {
        overlays_show(&pre.map, &post.map, post.entities@[p].viewshed.unwrap().visible_tiles@)
    } else {
        post.map.visible_tiles == pre.map.visible_tiles && post.map.revealed_tiles
            == pre.map.revealed_tiles
    }
}

/// Records on the map that the player now sees exactly `cells`.
fn mark_visible(map: &mut GameMap, cells: &Vec<Coord>)
    requires
        old(map).wf(),
        forall|k: int| 0 <= k < cells.len() ==> in_grid((#[trigger] cells@[k]).x as int, cells@[k].y as int),
    ensures
        final(map).wf(),
        final(map).tiles == old(map).tiles,
        final(map).rooms == old(map).rooms,
        final(map).blocked == old(map).blocked,
        final(map).tile_content == old(map).tile_content,
        overlays_show(old(map), final(map), cells@),
{
    let mut i: usize = 0;
    while i < 4000
        invariant
            i <= 4000,
            map.wf(),
            map.tiles == old(map).tiles,
            map.rooms == old(map).rooms,
            map.blocked == old(map).blocked,
            map.tile_content == old(map).tile_content,
            map.revealed_tiles == old(map).revealed_tiles,
            forall|idx: int| 0 <= idx < i ==> !(#[trigger] map.visible_tiles@[idx]),
        decreases 4000 - i,
    {
        map.visible_tiles.set(i, false);
        i = i + 1;
    }
    let mut k: usize = 0;
    while k < cells.len()
        invariant
            k <= cells.len(),
            map.wf(),
            map.tiles == old(map).tiles,
            map.rooms == old(map).rooms,
            map.blocked == old(map).blocked,
            map.tile_content == old(map).tile_content,
            forall|j: int|
                0 <= j < cells.len() ==> in_grid((#[trigger] cells@[j]).x as int, cells@[j].y as int),
            overlays_show(old(map), map, cells@.subrange(0, k as int)),
        decreases cells.len() - k,
    {
        let vis = cells[k];
        let idx = map.xy_idx(vis.x, vis.y);
        let ghost before = *map;
        let ghost head = cells@.subrange(0, k as int);
        let ghost next = cells@.subrange(0, k + 1);
        map.revealed_tiles.set(idx, true);
        map.visible_tiles.set(idx, true);
        proof {
            assert(next =~= head.push(vis));
            assert(coord_of(idx as int) == vis);
            assert forall|j: int| 0 <= j < 4000 implies #[trigger] map.visible_tiles@[j]
                == next.contains(coord_of(j)) by {
                assert(before.visible_tiles@[j] == head.contains(coord_of(j)));
                if head.contains(coord_of(j)) {
                    let w = choose|w: int| 0 <= w < head.len() && head[w] == coord_of(j);
                    assert(next[w] == coord_of(j));
                }
                assert(next[k as int] == vis);
                if next.contains(coord_of(j)) && j != idx {
                    let w = choose|w: int| 0 <= w < next.len() && next[w] == coord_of(j);
                    assert(coord_of(j) != vis);
                    assert(head[w] == coord_of(j));
                }
            }
            assert forall|j: int| 0 <= j < 4000 implies #[trigger] map.revealed_tiles@[j] == (old(
                map,
            ).revealed_tiles@[j] || map.visible_tiles@[j]) by {
                assert(before.revealed_tiles@[j] == (old(map).revealed_tiles@[j]
                    || before.visible_tiles@[j]));
                assert(before.visible_tiles@[j] == head.contains(coord_of(j)));
                assert(map.visible_tiles@[j] == next.contains(coord_of(j)));
                if head.contains(coord_of(j)) {
                    let w = choose|w: int| 0 <= w < head.len() && head[w] == coord_of(j);
                    assert(next[w] == coord_of(j));
                }
            }
        }
        k = k + 1;
    }
    assert(cells@.subrange(0, k as int) =~= cells@);
}

/// The system that keeps sight up to date.
pub struct VisibilitySystem {}

impl VisibilitySystem {
    /// Lets every entity whose sight is out of date look afresh, and
    /// records on the map what the player sees.
    pub fn run(&mut self, ecs: &mut World)
        requires
            old(ecs).wf(),
        ensures
            sight_updated(*old(ecs), *final(ecs)),
    {
        let mut e: usize = 0;
        while e < ecs.entities.len()
            invariant
                e <= ecs.entities.len(),
                ecs.wf(),
                ecs.player_entity == old(ecs).player_entity,
                ecs.player_pos == old(ecs).player_pos,
                ecs.log == old(ecs).log,
                ecs.runstate == old(ecs).runstate,
                ecs.rng == old(ecs).rng,
                ecs.doomed == old(ecs).doomed,
                ecs.map.tiles == old(ecs).map.tiles,
                ecs.map.rooms == old(ecs).map.rooms,
                ecs.map.blocked == old(ecs).map.blocked,
                ecs.map.tile_content == old(ecs).map.tile_content,
                ecs.entities.len() == old(ecs).entities.len(),
                forall|i: int|
                    0 <= i < e ==> if needs_sight(#[trigger] old(ecs).entities@[i]) {
                        sees_afresh(old(ecs).map.tiles@, old(ecs).entities@[i], ecs.entities@[i])
                    } else {
                        ecs.entities@[i] == old(ecs).entities@[i]
                    },
                forall|i: int|
                    e <= i < ecs.entities.len() ==> #[trigger] ecs.entities@[i] == old(
                        ecs,
                    ).entities@[i],
                if old(ecs).player_entity < e && needs_sight(
                    old(ecs).entities@[old(ecs).player_entity as int],
                ) {
                    overlays_show(
                        &old(ecs).map,
                        &ecs.map,
                        ecs.entities@[old(ecs).player_entity as int].viewshed.unwrap().visible_tiles@,
                    )
                } else {
                    ecs.map.visible_tiles == old(ecs).map.visible_tiles && ecs.map.revealed_tiles
                        == old(ecs).map.revealed_tiles
                },
            decreases ecs.entities.len() - e,
        {
            let ghost before = *ecs;
            assert(before.entities@[e as int].wf());
            let mut stale: Option<i32> = None;
            match &ecs.entities[e].viewshed {
                Some(v) => {
                    if v.dirty {
                        stale = Some(v.range);
                    }
                },
                None => {},
            }
            match (stale, ecs.entities[e].position) {
                (Some(range), Some(pos)) => {
                    let found = field_of_view(pos.x, pos.y, range, &ecs.map);
                    let cells = retain_in_grid(found);
                    proof {
                        lemma_filter_no_duplicates(found@, cell_in_grid());
                        assert forall|k: int| 0 <= k < cells.len() implies in_grid(
                            (#[trigger] cells@[k]).x as int,
                            cells@[k].y as int,
                        ) by {
                            assert(cells@.contains(cells@[k]));
                            lemma_filter_contains(found@, cell_in_grid(), cells@[k]);
                        }
                        assert forall|p: Coord| cells@.contains(p) <==> fov_cells(
                            pos.x as int,
                            pos.y as int,
                            range as int,
                            ecs.map.tiles@,
                        ).contains(p) && in_grid(p.x as int, p.y as int) by {
                            lemma_filter_contains(found@, cell_in_grid(), p);
                            assert(found@.to_set().contains(p) == found@.contains(p));
                        }
                    }
                    if e == ecs.player_entity {
                        mark_visible(&mut ecs.map, &cells);
                    }
                    ecs.entities[e].viewshed = Some(
                        Viewshed { visible_tiles: cells, range, dirty: false },
                    );
                    proof {
                        assert(sees_afresh(
                            old(ecs).map.tiles@,
                            old(ecs).entities@[e as int],
                            ecs.entities@[e as int],
                        ));
                        assert forall|i: int| 0 <= i < ecs.entities.len() implies (#[trigger] ecs.entities@[i]).wf() by {
                            assert(before.entities@[i].wf());
                        }
                    }
                },
                _ => {},
            }
            e = e + 1;
        }
    }
}

/// Whoever looked afresh sees its own cell and sees no cell outside the
/// grid, and its sight is up to date.
pub proof fn lemma_fresh_sight(pre: World, post: World, e: int)
    requires
        pre.wf(),
        sight_updated(pre, post),
        0 <= e < pre.entities.len(),
        needs_sight(pre.entities@[e]),
    ensures
        post.entities@[e].viewshed is Some,
        !post.entities@[e].viewshed.unwrap().dirty,
        post.entities@[e].position == pre.entities@[e].position,
        post.entities@[e].viewshed.unwrap().visible_tiles@.contains(
            Coord {
                x: pre.entities@[e].position.unwrap().x,
                y: pre.entities@[e].position.unwrap().y,
            },
        ),
        forall|p: Coord|
            post.entities@[e].viewshed.unwrap().visible_tiles@.contains(p) ==> in_grid(
                p.x as int,
                p.y as int,
            ),
{
    assert(sees_afresh(pre.map.tiles@, pre.entities@[e], post.entities@[e]));
}

} // verus!
