use vstd::prelude::*;
use crate::components::Entity;
use crate::map::idx_of;
use crate::world::{EntityData, World};

verus! {

/// Entity `e` is to be drawn: it has a place and a look, and the player
/// sees the tile it stands on.
pub open spec fn drawn(world: World, e: int) -> bool {
    &&& 0 <= e < world.entities.len()
    &&& world.entities@[e].position is Some
    &&& world.entities@[e].renderable is Some
    &&& world.map.visible_tiles@[idx_of(
        world.entities@[e].position.unwrap().x as int,
        world.entities@[e].position.unwrap().y as int,
    )]
}

/// The drawing priority of entity `e`.
pub open spec fn order_of(entities: Seq<EntityData>, e: Entity) -> int {
    entities[e as int].renderable.unwrap().render_order as int
}

/// Entity `a` is drawn before entity `b`: its priority is higher, or the
/// same and its handle lower. What is drawn later lies on top.
pub open spec fn draws_before(entities: Seq<EntityData>, a: Entity, b: Entity) -> bool {
    order_of(entities, a) > order_of(entities, b) || (order_of(entities, a) == order_of(
        entities,
        b,
    ) && a < b)
}

/// `list` holds the entities to be drawn, each once, in the order in which
/// to draw them.
pub open spec fn is_draw_list(world: World, list: Seq<Entity>) -> bool {
    &&& list.no_duplicates()
    &&& forall|e: Entity| list.contains(e) <==> drawn(world, e as int)
    &&& forall|i: int, j: int|
        0 <= i < j < list.len() ==> draws_before(world.entities@, #[trigger] list[i], #[trigger] list[j])
}

fn is_drawn(ecs: &World, e: Entity) -> (b: bool)
    requires
        ecs.wf(),
        e < ecs.entities.len(),
    ensures
        b == drawn(*ecs, e as int),
{
    assert(ecs.entities@[e as int].wf());
    match (ecs.entities[e].position, ecs.entities[e].renderable) {
        (Some(pos), Some(_render)) => {
            let idx = ecs.map.xy_idx(pos.x, pos.y);
            ecs.map.visible_tiles[idx]
        },
        _ => false,
    }
}

fn render_order(ecs: &World, e: Entity) -> (order: i32)
    requires
        drawn(*ecs, e as int),
    ensures
        order == order_of(ecs.entities@, e),
{
    match ecs.entities[e].renderable {
        Some(render) => render.render_order,
        None => 0,
    }
}

/// The entities to draw, in the order in which to draw them: those that
/// the player sees, by falling priority, and by rising handle where the
/// priority is the same.
pub fn draw_list(ecs: &World) -> (list: Vec<Entity>)
    requires
        ecs.wf(),
    ensures
        is_draw_list(*ecs, list@),
{
    let mut list: Vec<Entity> = Vec::new();
    let mut e: usize = 0;
    while e < ecs.entities.len()
        invariant
            e <= ecs.entities.len(),
            ecs.wf(),
            list@.no_duplicates(),
            forall|i: int| 0 <= i < list.len() ==> #[trigger] list@[i] < e && drawn(*ecs, list@[i] as int),
            forall|x: int| 0 <= x < e && #[trigger] drawn(*ecs, x) ==> list@.contains(x as usize),
            forall|i: int, j: int|
                0 <= i < j < list.len() ==> draws_before(
                    ecs.entities@,
                    #[trigger] list@[i],
                    #[trigger] list@[j],
                ),
        decreases ecs.entities.len() - e,
    {
        if is_drawn(ecs, e) {
            let order = render_order(ecs, e);
            let mut k: usize = 0;
            while k < list.len() && render_order_at(ecs, &list, k) >= order
                invariant
                    k <= list.len(),
                    e < ecs.entities.len(),
                    drawn(*ecs, e as int),
                    order == order_of(ecs.entities@, e),
                    forall|i: int| 0 <= i < list.len() ==> drawn(*ecs, #[trigger] list@[i] as int),
                    forall|i: int| 0 <= i < k ==> order_of(ecs.entities@, #[trigger] list@[i]) >= order,
                decreases list.len() - k,
            {
                k = k + 1;
            }
            let ghost before = list@;
            proof {
                assert forall|j: int| k <= j < before.len() implies order_of(
                    ecs.entities@,
                    #[trigger] before[j],
                ) < order by {
                    if j > k {
                        assert(draws_before(ecs.entities@, before[k as int], before[j]));
                    }
                }
            }
            list.insert(k, e);
            proof {
                let after = list@;
                assert(after == before.insert(k as int, e));
                assert(after.len() == before.len() + 1);
                assert forall|j: int| 0 <= j < after.len() implies #[trigger] after[j] == if j < k {
                    before[j]
                } else if j == k {
                    e
                } else {
                    before[j - 1]
                } by {}
                assert forall|i: int, j: int| 0 <= i < j < after.len() implies draws_before(
                    ecs.entities@,
                    #[trigger] after[i],
                    #[trigger] after[j],
                ) by {
                    if j < k {
                        assert(draws_before(ecs.entities@, before[i], before[j]));
                    } else if j == k {
                        assert(order_of(ecs.entities@, before[i]) >= order);
                        assert(before[i] < e);
                    } else if i < k {
                        assert(draws_before(ecs.entities@, before[i], before[j - 1]));
                    } else if i == k {
                        assert(order_of(ecs.entities@, before[j - 1]) < order);
                    } else {
                        assert(draws_before(ecs.entities@, before[i - 1], before[j - 1]));
                    }
                }
                assert forall|i: int, j: int|
                    0 <= i < after.len() && 0 <= j < after.len() && i != j implies after[i]
                    != after[j] by {
                    let bi = if i < k { i } else { i - 1 };
                    let bj = if j < k { j } else { j - 1 };
                    if i != k && j != k {
                        assert(before[bi] != before[bj]);
                    } else if i == k {
                        assert(before[bj] < e);
                    } else {
                        assert(before[bi] < e);
                    }
                }
                assert forall|i: int| 0 <= i < after.len() implies #[trigger] after[i] < e + 1
                    && drawn(*ecs, after[i] as int) by {
                    if i < k {
                        assert(before[i] < e);
                    } else if i > k {
                        assert(before[i - 1] < e);
                    }
                }
                assert forall|x: int| 0 <= x < e + 1 && #[trigger] drawn(
                    *ecs,
                    x,
                ) implies after.contains(x as usize) by {
                    if x < e {
                        let j = choose|j: int| 0 <= j < before.len() && before[j] == x as usize;
                        if j < k {
                            assert(after[j] == x as usize);
                        } else {
                            assert(after[j + 1] == x as usize);
                        }
                    } else {
                        assert(after[k as int] == x as usize);
                    }
                }
            }
        }
        e = e + 1;
    }
    proof {
        assert forall|x: Entity| list@.contains(x) <==> drawn(*ecs, x as int) by {
            if list@.contains(x) {
                let j = choose|j: int| 0 <= j < list@.len() && list@[j] == x;
                assert(drawn(*ecs, list@[j] as int));
            }
        }
    }
    list
}

fn render_order_at(ecs: &World, list: &Vec<Entity>, k: usize) -> (order: i32)
    requires
        k < list.len(),
        forall|i: int| 0 <= i < list.len() ==> drawn(*ecs, #[trigger] list@[i] as int),
    ensures
        order == order_of(ecs.entities@, list@[k as int]),
{
    render_order(ecs, list[k])
}

/// Entity `e` is named, stands on the cell `(x, y)`, and the player sees
/// that cell.
pub open spec fn shown_at(world: World, e: int, x: int, y: int) -> bool {
    &&& world.entities@[e].name is Some
    &&& world.entities@[e].position is Some
    &&& world.entities@[e].position.unwrap().x == x
    &&& world.entities@[e].position.unwrap().y == y
    &&& world.map.visible_tiles@[idx_of(x, y)]
}

/// The named entities, among the first `n`, that stand on the cell
/// `(x, y)` in the player's sight, in the order of their handles.
pub open spec fn tooltip_upto(world: World, x: int, y: int, n: int) -> Seq<Entity>
    decreases n,
{
    if n <= 0 {
        Seq::empty()
    } else if shown_at(world, n - 1, x, y) {
        tooltip_upto(world, x, y, n - 1).push((n - 1) as usize)
    } else {
        tooltip_upto(world, x, y, n - 1)
    }
}

/// The entities to name in a tooltip over the cell `(x, y)`: the named
/// ones that stand there in the player's sight, in the order of their
/// handles.
pub fn tooltip_entities(ecs: &World, x: i32, y: i32) -> (named: Vec<Entity>)
    requires
        ecs.wf(),
    ensures
        named@ == tooltip_upto(*ecs, x as int, y as int, ecs.entities.len() as int),
{
    let mut named: Vec<Entity> = Vec::new();
    let mut e: usize = 0;
    while e < ecs.entities.len()
        invariant
            e <= ecs.entities.len(),
            ecs.wf(),
            named@ == tooltip_upto(*ecs, x as int, y as int, e as int),
        decreases ecs.entities.len() - e,
    {
        assert(ecs.entities@[e as int].wf());
        if ecs.entities[e].name.is_some() {
            match ecs.entities[e].position {
                Some(pos) => {
                    if pos.x == x && pos.y == y {
                        let idx = ecs.map.xy_idx(pos.x, pos.y);
                        if ecs.map.visible_tiles[idx] {
                            named.push(e);
                        }
                    }
                },
                None => {},
            }
        }
        e = e + 1;
    }
    named
}

} // verus!
