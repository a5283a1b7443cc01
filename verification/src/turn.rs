use vstd::prelude::*;
use crate::components::{Entity, WantsToMelee, WantsToUseItem};
use crate::inventory_system::{
    blasted, dropped, drops_upto, healed_user, item_spent, item_used, picked_up, pickups_upto,
    spent_upto, use_effect, uses_upto, blast_radius,
};
use crate::components::{Coord, InBackpack, WantsToDropItem, WantsToPickupItem};
use crate::inventory_system::{in_blast, items_collected, items_dropped, items_used, use_is_valid};
use crate::map_indexing_system::index_rebuilt;
use crate::melee_combat_system::{blow, blows_upto, melee_resolved};
use crate::monster_ai_system::{NavigationPath, monsters_moved};
use crate::state::systems_ran;
use crate::visibility_system::sight_updated;
use crate::world::{EntityData, World, maintained};

verus! {

/// The two entities are of one kind: they agree in all but where they
/// stand or lie, what they see, their hit points and their intents.
pub open spec fn same_kind(a: EntityData, b: EntityData) -> bool {
    &&& a.alive == b.alive
    &&& a.renderable == b.renderable
    &&& a.player == b.player
    &&& a.monster == b.monster
    &&& a.name == b.name
    &&& a.blocks_tile == b.blocks_tile
    &&& a.item == b.item
    &&& a.consumable == b.consumable
    &&& a.provides_healing == b.provides_healing
    &&& a.inflicts_damage == b.inflicts_damage
    &&& a.ranged == b.ranged
    &&& a.area_of_effect == b.area_of_effect
}

/// No entity wants to attack entity `t`.
pub open spec fn nobody_attacks(entities: Seq<EntityData>, t: int) -> bool {
    forall|a: int|
        0 <= a < entities.len() ==> (#[trigger] entities[a]).wants_to_melee != Some(
            WantsToMelee { target: t as usize },
        )
}

/// No entity wants to pick entity `x` up.
pub open spec fn nobody_picks_up(entities: Seq<EntityData>, x: Entity) -> bool {
    forall|e: int|
        0 <= e < entities.len() && (#[trigger] entities[e]).wants_to_pickup is Some
            ==> entities[e].wants_to_pickup.unwrap().item != x
}

/// No entity wants to use entity `x`.
pub open spec fn nobody_uses(entities: Seq<EntityData>, x: Entity) -> bool {
    forall|e: int|
        0 <= e < entities.len() && (#[trigger] entities[e]).wants_to_use is Some
            ==> entities[e].wants_to_use.unwrap().item != x
}

/// No entity wants to put entity `x` down.
pub open spec fn nobody_drops(entities: Seq<EntityData>, x: Entity) -> bool {
    forall|e: int|
        0 <= e < entities.len() && (#[trigger] entities[e]).wants_to_drop is Some
            ==> entities[e].wants_to_drop.unwrap().item != x
}

/// No entity but `who` wants to pick entity `x` up.
pub open spec fn nobody_else_picks_up(entities: Seq<EntityData>, who: int, x: Entity) -> bool {
    forall|e: int|
        0 <= e < entities.len() && e != who && (#[trigger] entities[e]).wants_to_pickup is Some
            ==> entities[e].wants_to_pickup.unwrap().item != x
}

/// No entity but `who` wants to put entity `x` down.
pub open spec fn nobody_else_drops(entities: Seq<EntityData>, who: int, x: Entity) -> bool {
    forall|e: int|
        0 <= e < entities.len() && e != who && (#[trigger] entities[e]).wants_to_drop is Some
            ==> entities[e].wants_to_drop.unwrap().item != x
}

/// No entity but `who` wants to use an item.
pub open spec fn nobody_else_uses(entities: Seq<EntityData>, who: int) -> bool {
    forall|e: int|
        0 <= e < entities.len() && e != who ==> (#[trigger] entities[e]).wants_to_use is None
}

/// Where nobody attacks an entity, the blows on it come to nothing.
pub proof fn lemma_no_blows(entities: Seq<EntityData>, t: int, n: int)
    requires
        nobody_attacks(entities, t),
        0 <= n <= entities.len(),
        0 <= t <= usize::MAX,
    ensures
        blows_upto(entities, t, n) == 0,
    decreases n,
{
    if n > 0 {
        lemma_no_blows(entities, t, n - 1);
        assert(entities[n - 1].wants_to_melee != Some(WantsToMelee { target: t as usize }));
        assert(blow(entities, n - 1, t) == 0);
    }
}

/// One pickup changes nothing of an entity but where it lies and the
/// intent that is spent, and it moves the named item only.
pub proof fn lemma_picked_up_frame(
    entities: Seq<EntityData>,
    who: int,
    w: WantsToPickupItem,
    x: int,
)
    requires
        0 <= who < entities.len(),
        0 <= x < entities.len(),
    ensures
        picked_up(entities, who, w).len() == entities.len(),
        same_kind(picked_up(entities, who, w)[x], entities[x]),
        picked_up(entities, who, w)[x].combat_stats == entities[x].combat_stats,
        picked_up(entities, who, w)[x].viewshed == entities[x].viewshed,
        picked_up(entities, who, w)[x].wants_to_melee == entities[x].wants_to_melee,
        picked_up(entities, who, w)[x].wants_to_use == entities[x].wants_to_use,
        picked_up(entities, who, w)[x].wants_to_drop == entities[x].wants_to_drop,
        picked_up(entities, who, w)[x].wants_to_pickup == if x == who {
            None
        } else {
            entities[x].wants_to_pickup
        },
        x != w.item ==> picked_up(entities, who, w)[x].position == entities[x].position
            && picked_up(entities, who, w)[x].in_backpack == entities[x].in_backpack,
        x == w.item && entities[x].alive ==> picked_up(entities, who, w)[x].position is None
            && picked_up(entities, who, w)[x].in_backpack == Some(
            InBackpack { owner: w.collected_by },
        ),
{
    let taken = if w.item < entities.len() && entities[w.item as int].alive {
        entities.update(
            w.item as int,
            EntityData {
                position: None,
                in_backpack: Some(InBackpack { owner: w.collected_by }),
                ..entities[w.item as int]
            },
        )
    } else {
        entities
    };
    assert(taken.len() == entities.len());
    assert(same_kind(taken[x], entities[x]));
    assert(picked_up(entities, who, w) == taken.update(
        who,
        EntityData { wants_to_pickup: None, ..taken[who] },
    ));
}

/// Picking up changes nothing of an entity but where it lies and the
/// intent that is spent; it leaves alone where an entity lies that nobody
/// picks up.
pub proof fn lemma_pickups_frame(entities: Seq<EntityData>, n: int, x: int)
    requires
        0 <= n <= entities.len(),
        0 <= x < entities.len(),
    ensures
        pickups_upto(entities, n).len() == entities.len(),
        same_kind(pickups_upto(entities, n)[x], entities[x]),
        pickups_upto(entities, n)[x].combat_stats == entities[x].combat_stats,
        pickups_upto(entities, n)[x].viewshed == entities[x].viewshed,
        pickups_upto(entities, n)[x].wants_to_melee == entities[x].wants_to_melee,
        pickups_upto(entities, n)[x].wants_to_use == entities[x].wants_to_use,
        pickups_upto(entities, n)[x].wants_to_drop == entities[x].wants_to_drop,
        pickups_upto(entities, n)[x].wants_to_pickup == if x < n {
            None
        } else {
            entities[x].wants_to_pickup
        },
        nobody_picks_up(entities, x as usize) ==> pickups_upto(entities, n)[x].position
            == entities[x].position && pickups_upto(entities, n)[x].in_backpack
            == entities[x].in_backpack,
    decreases n,
{
    if n > 0 {
        lemma_pickups_frame(entities, n - 1, x);
        lemma_pickups_frame(entities, n - 1, n - 1);
        let prev = pickups_upto(entities, n - 1);
        if prev[n - 1].wants_to_pickup is Some {
            let w = prev[n - 1].wants_to_pickup.unwrap();
            assert(entities[n - 1].wants_to_pickup == Some(w));
            lemma_picked_up_frame(prev, n - 1, w, x);
            assert(pickups_upto(entities, n) == picked_up(prev, n - 1, w));
        } else {
            assert(pickups_upto(entities, n) == prev);
        }
    }
}

/// Where `who` alone wants to pick the live entity `x` up, `x` lies
/// nowhere afterwards and is in the backpack of the one that the intent
/// names as collector.
pub proof fn lemma_pickups_take(entities: Seq<EntityData>, n: int, who: int, x: Entity)
    requires
        0 <= who < n <= entities.len(),
        x < entities.len(),
        entities[x as int].alive,
        entities[who].wants_to_pickup is Some,
        entities[who].wants_to_pickup.unwrap().item == x,
        nobody_else_picks_up(entities, who, x),
    ensures
        pickups_upto(entities, n)[x as int].position is None,
        pickups_upto(entities, n)[x as int].in_backpack == Some(
            InBackpack { owner: entities[who].wants_to_pickup.unwrap().collected_by },
        ),
    decreases n,
{
    let prev = pickups_upto(entities, n - 1);
    lemma_pickups_frame(entities, n - 1, n - 1);
    lemma_pickups_frame(entities, n - 1, x as int);
    if n - 1 == who {
        let w = entities[who].wants_to_pickup.unwrap();
        assert(prev[who].wants_to_pickup == Some(w));
        lemma_picked_up_frame(prev, who, w, x as int);
        assert(pickups_upto(entities, n) == picked_up(prev, who, w));
    } else {
        lemma_pickups_take(entities, n - 1, who, x);
        if prev[n - 1].wants_to_pickup is Some {
            let w = prev[n - 1].wants_to_pickup.unwrap();
            assert(entities[n - 1].wants_to_pickup == Some(w));
            assert(w.item != x);
            lemma_picked_up_frame(prev, n - 1, w, x as int);
            assert(pickups_upto(entities, n) == picked_up(prev, n - 1, w));
        } else {
            assert(pickups_upto(entities, n) == prev);
        }
    }
}

/// One use of an item changes nothing of an entity but its hit points and
/// the intent that is spent.
pub proof fn lemma_item_used_frame(entities: Seq<EntityData>, who: int, w: WantsToUseItem, x: int)
    requires
        0 <= who < entities.len(),
        0 <= x < entities.len(),
    ensures
        item_used(entities, who, w).len() == entities.len(),
        same_kind(item_used(entities, who, w)[x], entities[x]),
        item_used(entities, who, w)[x].position == entities[x].position,
        item_used(entities, who, w)[x].in_backpack == entities[x].in_backpack,
        item_used(entities, who, w)[x].viewshed == entities[x].viewshed,
        item_used(entities, who, w)[x].wants_to_melee == entities[x].wants_to_melee,
        item_used(entities, who, w)[x].wants_to_pickup == entities[x].wants_to_pickup,
        item_used(entities, who, w)[x].wants_to_drop == entities[x].wants_to_drop,
        item_used(entities, who, w)[x].wants_to_use == if x == who {
            None
        } else {
            entities[x].wants_to_use
        },
        item_used(entities, who, w)[x].combat_stats is Some == entities[x].combat_stats is Some,
{
    let item = entities[w.item as int];
    let healed = healed_user(entities, who, item);
    assert(healed.len() == entities.len());
    assert(same_kind(healed[x], entities[x]));
    if item.inflicts_damage is Some && w.target is Some {
        let hit = blasted(
            healed,
            w.target.unwrap(),
            blast_radius(item),
            item.inflicts_damage.unwrap().damage as int,
        );
        assert(same_kind(hit[x], healed[x]));
        assert(use_effect(entities, who, w) == hit);
    } else {
        assert(use_effect(entities, who, w) == healed);
    }
}

/// Using items changes nothing of an entity but its hit points and the
/// intent that is spent.
pub proof fn lemma_uses_frame(entities: Seq<EntityData>, n: int, x: int)
    requires
        0 <= n <= entities.len(),
        0 <= x < entities.len(),
    ensures
        uses_upto(entities, n).len() == entities.len(),
        same_kind(uses_upto(entities, n)[x], entities[x]),
        uses_upto(entities, n)[x].position == entities[x].position,
        uses_upto(entities, n)[x].in_backpack == entities[x].in_backpack,
        uses_upto(entities, n)[x].viewshed == entities[x].viewshed,
        uses_upto(entities, n)[x].wants_to_melee == entities[x].wants_to_melee,
        uses_upto(entities, n)[x].wants_to_pickup == entities[x].wants_to_pickup,
        uses_upto(entities, n)[x].wants_to_drop == entities[x].wants_to_drop,
        uses_upto(entities, n)[x].wants_to_use == if x < n {
            None
        } else {
            entities[x].wants_to_use
        },
        uses_upto(entities, n)[x].combat_stats is Some == entities[x].combat_stats is Some,
    decreases n,
{
    if n > 0 {
        lemma_uses_frame(entities, n - 1, x);
        lemma_uses_frame(entities, n - 1, n - 1);
        let prev = uses_upto(entities, n - 1);
        if prev[n - 1].wants_to_use is Some {
            let w = prev[n - 1].wants_to_use.unwrap();
            lemma_item_used_frame(prev, n - 1, w, x);
            assert(uses_upto(entities, n) == item_used(prev, n - 1, w));
        }
    }
}

/// Where `who` alone wants to use an item, the uses of a turn are that one
/// use.
pub proof fn lemma_single_use(entities: Seq<EntityData>, doomed: Seq<Entity>, n: int, who: int)
    requires
        0 <= n <= entities.len(),
        0 <= who < entities.len(),
        entities[who].wants_to_use is Some,
        nobody_else_uses(entities, who),
    ensures
        uses_upto(entities, n) == if who < n {
            item_used(entities, who, entities[who].wants_to_use.unwrap())
        } else {
            entities
        },
        spent_upto(entities, doomed, n) == if who < n && item_spent(
            entities,
            entities[who].wants_to_use.unwrap(),
        ) {
            doomed.push(entities[who].wants_to_use.unwrap().item)
        } else {
            doomed
        },
    decreases n,
{
    if n > 0 {
        lemma_single_use(entities, doomed, n - 1, who);
        let prev = uses_upto(entities, n - 1);
        let w = entities[who].wants_to_use.unwrap();
        if n - 1 == who {
            assert(prev == entities);
        } else if who < n - 1 {
            lemma_item_used_frame(entities, who, w, n - 1);
            assert(prev[n - 1].wants_to_use is None);
        } else {
            assert(prev[n - 1].wants_to_use is None);
        }
    }
}

/// An item is asked to be removed after the uses of a turn only where it
/// was so before or somebody wanted to use it.
pub proof fn lemma_spent_names_used(entities: Seq<EntityData>, doomed: Seq<Entity>, n: int, x: Entity)
    requires
        0 <= n <= entities.len(),
        nobody_uses(entities, x),
        !doomed.contains(x),
    ensures
        !spent_upto(entities, doomed, n).contains(x),
    decreases n,
{
    if n > 0 {
        lemma_spent_names_used(entities, doomed, n - 1, x);
        lemma_uses_frame(entities, n - 1, n - 1);
        let prev = uses_upto(entities, n - 1);
        let asked = spent_upto(entities, doomed, n - 1);
        if prev[n - 1].wants_to_use is Some {
            let w = prev[n - 1].wants_to_use.unwrap();
            assert(entities[n - 1].wants_to_use == Some(w));
            assert(w.item != x);
            if item_spent(prev, w) {
                let next = asked.push(w.item);
                if next.contains(x) {
                    let k = choose|k: int| 0 <= k < next.len() && next[k] == x;
                    if k < asked.len() {
                        assert(asked[k] == x);
                    }
                }
            }
        }
    }
}

/// One putting down changes nothing of an entity but where it lies and
/// the intent that is spent, and it moves the named item only.
pub proof fn lemma_dropped_frame(entities: Seq<EntityData>, who: int, w: WantsToDropItem, x: int)
    requires
        0 <= who < entities.len(),
        0 <= x < entities.len(),
    ensures
        dropped(entities, who, w).len() == entities.len(),
        same_kind(dropped(entities, who, w)[x], entities[x]),
        dropped(entities, who, w)[x].combat_stats == entities[x].combat_stats,
        dropped(entities, who, w)[x].viewshed == entities[x].viewshed,
        dropped(entities, who, w)[x].wants_to_melee == entities[x].wants_to_melee,
        dropped(entities, who, w)[x].wants_to_use == entities[x].wants_to_use,
        dropped(entities, who, w)[x].wants_to_pickup == entities[x].wants_to_pickup,
        dropped(entities, who, w)[x].wants_to_drop == if x == who {
            None
        } else {
            entities[x].wants_to_drop
        },
        x != w.item ==> dropped(entities, who, w)[x].position == entities[x].position
            && dropped(entities, who, w)[x].in_backpack == entities[x].in_backpack,
        x == w.item && entities[x].alive && entities[who].position is Some ==> dropped(
            entities,
            who,
            w,
        )[x].position == entities[who].position && dropped(entities, who, w)[x].in_backpack
            is None,
{
    let put = if entities[who].position is Some && w.item < entities.len()
        && entities[w.item as int].alive {
        entities.update(
            w.item as int,
            EntityData {
                position: entities[who].position,
                in_backpack: None,
                ..entities[w.item as int]
            },
        )
    } else {
        entities
    };
    assert(put.len() == entities.len());
    assert(same_kind(put[x], entities[x]));
    assert(dropped(entities, who, w) == put.update(
        who,
        EntityData { wants_to_drop: None, ..put[who] },
    ));
}

/// Putting down changes nothing of an entity but where it lies and the
/// intent that is spent; it leaves alone where an entity lies that nobody
/// puts down.
pub proof fn lemma_drops_frame(entities: Seq<EntityData>, n: int, x: int)
    requires
        0 <= n <= entities.len(),
        0 <= x < entities.len(),
    ensures
        drops_upto(entities, n).len() == entities.len(),
        same_kind(drops_upto(entities, n)[x], entities[x]),
        drops_upto(entities, n)[x].combat_stats == entities[x].combat_stats,
        drops_upto(entities, n)[x].viewshed == entities[x].viewshed,
        drops_upto(entities, n)[x].wants_to_melee == entities[x].wants_to_melee,
        drops_upto(entities, n)[x].wants_to_use == entities[x].wants_to_use,
        drops_upto(entities, n)[x].wants_to_pickup == entities[x].wants_to_pickup,
        drops_upto(entities, n)[x].wants_to_drop == if x < n {
            None
        } else {
            entities[x].wants_to_drop
        },
        nobody_drops(entities, x as usize) ==> drops_upto(entities, n)[x].position
            == entities[x].position && drops_upto(entities, n)[x].in_backpack
            == entities[x].in_backpack,
    decreases n,
{
    if n > 0 {
        lemma_drops_frame(entities, n - 1, x);
        lemma_drops_frame(entities, n - 1, n - 1);
        let prev = drops_upto(entities, n - 1);
        if prev[n - 1].wants_to_drop is Some {
            let w = prev[n - 1].wants_to_drop.unwrap();
            assert(entities[n - 1].wants_to_drop == Some(w));
            lemma_dropped_frame(prev, n - 1, w, x);
            assert(drops_upto(entities, n) == dropped(prev, n - 1, w));
        } else {
            assert(drops_upto(entities, n) == prev);
        }
    }
}

/// Where `who` alone wants to put the live entity `x` down, and nobody
/// puts `who` down, `x` lies afterwards where `who` stands and is in no
/// backpack.
pub proof fn lemma_drops_put(entities: Seq<EntityData>, n: int, who: int, x: Entity)
    requires
        0 <= who < n <= entities.len(),
        x < entities.len(),
        entities[x as int].alive,
        entities[who].position is Some,
        entities[who].wants_to_drop is Some,
        entities[who].wants_to_drop.unwrap().item == x,
        nobody_else_drops(entities, who, x),
        nobody_drops(entities, who as usize),
    ensures
        drops_upto(entities, n)[x as int].position == entities[who].position,
        drops_upto(entities, n)[x as int].in_backpack is None,
    decreases n,
{
    let prev = drops_upto(entities, n - 1);
    lemma_drops_frame(entities, n - 1, n - 1);
    lemma_drops_frame(entities, n - 1, x as int);
    lemma_drops_frame(entities, n - 1, who);
    if n - 1 == who {
        let w = entities[who].wants_to_drop.unwrap();
        assert(prev[who].wants_to_drop == Some(w));
        assert(prev[who].position == entities[who].position);
        lemma_dropped_frame(prev, who, w, x as int);
        assert(drops_upto(entities, n) == dropped(prev, who, w));
    } else {
        lemma_drops_put(entities, n - 1, who, x);
        if prev[n - 1].wants_to_drop is Some {
            let w = prev[n - 1].wants_to_drop.unwrap();
            assert(entities[n - 1].wants_to_drop == Some(w));
            assert(w.item != x);
            lemma_dropped_frame(prev, n - 1, w, x as int);
            assert(drops_upto(entities, n) == dropped(prev, n - 1, w));
        } else {
            assert(drops_upto(entities, n) == prev);
        }
    }
}

/// Picking up, using and putting down leave the number of entities as it
/// is.
pub proof fn lemma_lengths_kept(entities: Seq<EntityData>, n: int)
    requires
        0 <= n <= entities.len(),
    ensures
        pickups_upto(entities, n).len() == entities.len(),
        uses_upto(entities, n).len() == entities.len(),
        drops_upto(entities, n).len() == entities.len(),
    decreases n,
{
    if n > 0 {
        lemma_lengths_kept(entities, n - 1);
        let p = pickups_upto(entities, n - 1);
        if p[n - 1].wants_to_pickup is Some {
            lemma_picked_up_frame(p, n - 1, p[n - 1].wants_to_pickup.unwrap(), 0);
        }
        let u = uses_upto(entities, n - 1);
        if u[n - 1].wants_to_use is Some {
            lemma_item_used_frame(u, n - 1, u[n - 1].wants_to_use.unwrap(), 0);
        }
        let d = drops_upto(entities, n - 1);
        if d[n - 1].wants_to_drop is Some {
            lemma_dropped_frame(d, n - 1, d[n - 1].wants_to_drop.unwrap(), 0);
        }
    }
}

/// The worlds are the stages of one run of all systems from `pre`, the
/// removals at its end not yet carried out.
spec fn stages(
    pre: World,
    w1: World,
    w2: World,
    w3: World,
    w4: World,
    w5: World,
    w6: World,
    w7: World,
    paths: Seq<NavigationPath>,
) -> bool {
    &&& sight_updated(pre, w1)
    &&& monsters_moved(w1, w2, paths)
    &&& index_rebuilt(w2, w3)
    &&& melee_resolved(w3, w4)
    &&& items_collected(w4, w5)
    &&& items_used(w5, w6)
    &&& items_dropped(w6, w7)
}

proof fn lemma_before_items(
    pre: World,
    w1: World,
    w2: World,
    w3: World,
    w4: World,
    paths: Seq<NavigationPath>,
    x: int,
)
    requires
        sight_updated(pre, w1),
        monsters_moved(w1, w2, paths),
        index_rebuilt(w2, w3),
        melee_resolved(w3, w4),
        0 <= x < pre.entities.len(),
    ensures
        w3.entities.len() == pre.entities.len(),
        w4.entities.len() == pre.entities.len(),
        w4.doomed == pre.doomed,
        same_kind(w3.entities@[x], pre.entities@[x]),
        w3.entities@[x].wants_to_melee == pre.entities@[x].wants_to_melee,
        w3.entities@[x].combat_stats == pre.entities@[x].combat_stats,
        same_kind(w4.entities@[x], pre.entities@[x]),
        w4.entities@[x].in_backpack == pre.entities@[x].in_backpack,
        w4.entities@[x].wants_to_pickup == pre.entities@[x].wants_to_pickup,
        w4.entities@[x].wants_to_use == pre.entities@[x].wants_to_use,
        w4.entities@[x].wants_to_drop == pre.entities@[x].wants_to_drop,
        w4.entities@[x].position == w2.entities@[x].position,
        !pre.entities@[x].monster ==> w4.entities@[x].position == pre.entities@[x].position,
        w4.entities@[x] == crate::melee_combat_system::after_blows(
            w3.entities@,
            x,
            w3.entities.len() as int,
        ),
{
    let a = pre.entities@[x];
    let b = w1.entities@[x];
    let c = w2.entities@[x];
    assert(same_kind(b, a) && b.position == a.position && b.in_backpack == a.in_backpack
        && b.combat_stats == a.combat_stats && b.wants_to_melee == a.wants_to_melee
        && b.wants_to_pickup == a.wants_to_pickup && b.wants_to_use == a.wants_to_use
        && b.wants_to_drop == a.wants_to_drop);
    assert(same_kind(c, b) && c.in_backpack == b.in_backpack && c.combat_stats == b.combat_stats
        && c.wants_to_melee == b.wants_to_melee && c.wants_to_pickup == b.wants_to_pickup
        && c.wants_to_use == b.wants_to_use && c.wants_to_drop == b.wants_to_drop);
    assert(!b.monster ==> c.position == b.position);
    assert(w3.entities@[x] == c);
}

proof fn lemma_stats_kept_before_items(
    pre: World,
    w1: World,
    w2: World,
    w3: World,
    w4: World,
    paths: Seq<NavigationPath>,
    x: int,
)
    requires
        sight_updated(pre, w1),
        monsters_moved(w1, w2, paths),
        index_rebuilt(w2, w3),
        melee_resolved(w3, w4),
        0 <= x < pre.entities.len(),
        pre.entities@[x].combat_stats is Some ==> pre.entities@[x].combat_stats.unwrap().wf(),
        nobody_attacks(pre.entities@, x),
    ensures
        w4.entities@[x].combat_stats == pre.entities@[x].combat_stats,
{
    lemma_before_items(pre, w1, w2, w3, w4, paths, x);
    assert forall|a: int| 0 <= a < w3.entities.len() implies (#[trigger] w3.entities@[a]).wants_to_melee
        != Some(WantsToMelee { target: x as usize }) by {
        lemma_before_items(pre, w1, w2, w3, w4, paths, a);
        assert(pre.entities@[a].wants_to_melee != Some(WantsToMelee { target: x as usize }));
    }
    lemma_no_blows(w3.entities@, x, w3.entities.len() as int);
}

/// What a run of all systems carries from stage to stage, for the entity
/// `x`.
proof fn lemma_carried(
    pre: World,
    w1: World,
    w2: World,
    w3: World,
    w4: World,
    w5: World,
    w6: World,
    w7: World,
    paths: Seq<NavigationPath>,
    x: int,
)
    requires
        stages(pre, w1, w2, w3, w4, w5, w6, w7, paths),
        0 <= x < pre.entities.len(),
    ensures
        w4.entities.len() == pre.entities.len(),
        w5.entities.len() == pre.entities.len(),
        w6.entities.len() == pre.entities.len(),
        w7.entities.len() == pre.entities.len(),
        w5.doomed == pre.doomed,
        w7.doomed == w6.doomed,
        same_kind(w4.entities@[x], pre.entities@[x]),
        same_kind(w5.entities@[x], pre.entities@[x]),
        same_kind(w6.entities@[x], pre.entities@[x]),
        same_kind(w7.entities@[x], pre.entities@[x]),
        w4.entities@[x].wants_to_pickup == pre.entities@[x].wants_to_pickup,
        w4.entities@[x].in_backpack == pre.entities@[x].in_backpack,
        !pre.entities@[x].monster ==> w4.entities@[x].position == pre.entities@[x].position,
        w5.entities@[x].wants_to_use == pre.entities@[x].wants_to_use,
        w5.entities@[x].combat_stats == w4.entities@[x].combat_stats,
        w6.entities@[x].wants_to_drop == pre.entities@[x].wants_to_drop,
        w6.entities@[x].position == w5.entities@[x].position,
        w6.entities@[x].in_backpack == w5.entities@[x].in_backpack,
        w7.entities@[x].combat_stats == w6.entities@[x].combat_stats,
{
    let n = pre.entities.len() as int;
    lemma_before_items(pre, w1, w2, w3, w4, paths, x);
    lemma_pickups_frame(w4.entities@, n, x);
    lemma_uses_frame(w5.entities@, n, x);
    lemma_drops_frame(w6.entities@, n, x);
}

/// An item that one entity wants to pick up, and that nobody else reaches
/// for, uses or puts down in the same turn, is after a run of all systems
/// in the backpack of that entity and lies nowhere; it is else what it
/// was, and the intent is spent.
pub proof fn lemma_run_picks_up(
    pre: World,
    post: World,
    paths: Seq<NavigationPath>,
    who: int,
    item: Entity,
)
    requires
        systems_ran(pre, post, paths),
        0 <= who < pre.entities.len(),
        item < pre.entities.len(),
        pre.entities@[item as int].alive,
        pre.entities@[who].wants_to_pickup == Some(
            WantsToPickupItem { collected_by: who as usize, item },
        ),
        nobody_else_picks_up(pre.entities@, who, item),
        nobody_uses(pre.entities@, item),
        nobody_drops(pre.entities@, item),
        !pre.doomed@.contains(item),
    ensures
        post.entities.len() == pre.entities.len(),
        post.entities@[item as int].position is None,
        post.entities@[item as int].in_backpack == Some(InBackpack { owner: who as usize }),
        same_kind(post.entities@[item as int], pre.entities@[item as int]),
        post.entities@[who].wants_to_pickup is None,
{
    let (w1, w2, w3, w4, w5, w6, w7) = choose|
        w1: World,
        w2: World,
        w3: World,
        w4: World,
        w5: World,
        w6: World,
        w7: World,
    |
        #![trigger
            sight_updated(pre, w1),
            monsters_moved(w1, w2, paths),
            index_rebuilt(w2, w3),
            melee_resolved(w3, w4),
            items_collected(w4, w5),
            items_used(w5, w6),
            items_dropped(w6, w7)
        ]
        stages(pre, w1, w2, w3, w4, w5, w6, w7, paths) && maintained(w7, post);
    let n = pre.entities.len() as int;
    let i = item as int;
    lemma_carried(pre, w1, w2, w3, w4, w5, w6, w7, paths, i);
    lemma_carried(pre, w1, w2, w3, w4, w5, w6, w7, paths, who);
    assert forall|e: int| 0 <= e < n implies w4.entities@[e].wants_to_pickup
        == pre.entities@[e].wants_to_pickup && w5.entities@[e].wants_to_use
        == pre.entities@[e].wants_to_use && w6.entities@[e].wants_to_drop
        == pre.entities@[e].wants_to_drop by {
        lemma_carried(pre, w1, w2, w3, w4, w5, w6, w7, paths, e);
    }
    assert(nobody_else_picks_up(w4.entities@, who, item)) by {
        assert forall|e: int|
            0 <= e < n && e != who && (#[trigger] w4.entities@[e]).wants_to_pickup is Some implies w4.entities@[e].wants_to_pickup.unwrap().item
            != item by {
            assert(pre.entities@[e].wants_to_pickup is Some);
        }
    }
    lemma_pickups_take(w4.entities@, n, who, item);
    assert(nobody_uses(w5.entities@, item)) by {
        assert forall|e: int|
            0 <= e < n && (#[trigger] w5.entities@[e]).wants_to_use is Some implies w5.entities@[e].wants_to_use.unwrap().item
            != item by {
            assert(pre.entities@[e].wants_to_use is Some);
        }
    }
    lemma_spent_names_used(w5.entities@, w5.doomed@, n, item);
    assert(nobody_drops(w6.entities@, item)) by {
        assert forall|e: int|
            0 <= e < n && (#[trigger] w6.entities@[e]).wants_to_drop is Some implies w6.entities@[e].wants_to_drop.unwrap().item
            != item by {
            assert(pre.entities@[e].wants_to_drop is Some);
        }
    }
    lemma_drops_frame(w6.entities@, n, i);
    lemma_drops_frame(w6.entities@, n, who);
    lemma_uses_frame(w5.entities@, n, who);
    lemma_pickups_frame(w4.entities@, n, who);
    assert(!w7.doomed@.contains(item));
    assert(post.entities@[i] == w7.entities@[i]);
}

/// An item that one entity wants to put down, while that entity stands
/// somewhere and is not moved, and while nobody else reaches for the item,
/// uses it or puts it down in the same turn, lies after a run of all
/// systems where that entity stands and is in no backpack; it is else what
/// it was, and the intent is spent.
pub proof fn lemma_run_puts_down(
    pre: World,
    post: World,
    paths: Seq<NavigationPath>,
    who: int,
    item: Entity,
)
    requires
        systems_ran(pre, post, paths),
        0 <= who < pre.entities.len(),
        item < pre.entities.len(),
        pre.entities@[item as int].alive,
        pre.entities@[who].position is Some,
        !pre.entities@[who].monster,
        pre.entities@[who].wants_to_drop == Some(WantsToDropItem { item }),
        nobody_else_drops(pre.entities@, who, item),
        nobody_drops(pre.entities@, who as usize),
        nobody_picks_up(pre.entities@, who as usize),
        nobody_picks_up(pre.entities@, item),
        nobody_uses(pre.entities@, item),
        !pre.doomed@.contains(item),
    ensures
        post.entities.len() == pre.entities.len(),
        post.entities@[item as int].position == pre.entities@[who].position,
        post.entities@[item as int].in_backpack is None,
        same_kind(post.entities@[item as int], pre.entities@[item as int]),
        post.entities@[who].wants_to_drop is None,
{
    let (w1, w2, w3, w4, w5, w6, w7) = choose|
        w1: World,
        w2: World,
        w3: World,
        w4: World,
        w5: World,
        w6: World,
        w7: World,
    |
        #![trigger
            sight_updated(pre, w1),
            monsters_moved(w1, w2, paths),
            index_rebuilt(w2, w3),
            melee_resolved(w3, w4),
            items_collected(w4, w5),
            items_used(w5, w6),
            items_dropped(w6, w7)
        ]
        stages(pre, w1, w2, w3, w4, w5, w6, w7, paths) && maintained(w7, post);
    let n = pre.entities.len() as int;
    assert forall|e: int| 0 <= e < n implies w4.entities@[e].wants_to_pickup
        == pre.entities@[e].wants_to_pickup && w5.entities@[e].wants_to_use
        == pre.entities@[e].wants_to_use && w6.entities@[e].wants_to_drop
        == pre.entities@[e].wants_to_drop by {
        lemma_carried(pre, w1, w2, w3, w4, w5, w6, w7, paths, e);
    }
    let i = item as int;
    lemma_carried(pre, w1, w2, w3, w4, w5, w6, w7, paths, i);
    lemma_carried(pre, w1, w2, w3, w4, w5, w6, w7, paths, who);
    assert(nobody_picks_up(w4.entities@, who as usize)) by {
        assert forall|e: int|
            0 <= e < n && (#[trigger] w4.entities@[e]).wants_to_pickup is Some implies w4.entities@[e].wants_to_pickup.unwrap().item
            != who as usize by {
            assert(pre.entities@[e].wants_to_pickup is Some);
        }
    }
    lemma_pickups_frame(w4.entities@, n, who);
    assert(w6.entities@[who].position == pre.entities@[who].position);
    assert(nobody_uses(w5.entities@, item)) by {
        assert forall|e: int|
            0 <= e < n && (#[trigger] w5.entities@[e]).wants_to_use is Some implies w5.entities@[e].wants_to_use.unwrap().item
            != item by {
            assert(pre.entities@[e].wants_to_use is Some);
        }
    }
    lemma_spent_names_used(w5.entities@, w5.doomed@, n, item);
    assert(nobody_else_drops(w6.entities@, who, item)) by {
        assert forall|e: int|
            0 <= e < n && e != who && (#[trigger] w6.entities@[e]).wants_to_drop is Some implies w6.entities@[e].wants_to_drop.unwrap().item
            != item by {
            assert(pre.entities@[e].wants_to_drop is Some);
        }
    }
    assert(nobody_drops(w6.entities@, who as usize)) by {
        assert forall|e: int|
            0 <= e < n && (#[trigger] w6.entities@[e]).wants_to_drop is Some implies w6.entities@[e].wants_to_drop.unwrap().item
            != who as usize by {
            assert(pre.entities@[e].wants_to_drop is Some);
        }
    }
    lemma_drops_put(w6.entities@, n, who, item);
    lemma_drops_frame(w6.entities@, n, who);
    assert(!w7.doomed@.contains(item));
    assert(post.entities@[i] == w7.entities@[i]);
}

/// An item that was picked up in one turn and is put down by its owner in
/// a later one is on the ground again, exactly where the owner stands, in
/// no backpack, and else what it was before it was picked up. `held` is
/// the world in which the owner asks to put the item down.
pub proof fn lemma_run_round_trip(
    pre: World,
    mid: World,
    held: World,
    post: World,
    taking: Seq<NavigationPath>,
    putting: Seq<NavigationPath>,
    who: int,
    item: Entity,
)
    requires
        systems_ran(pre, mid, taking),
        0 <= who < pre.entities.len(),
        item < pre.entities.len(),
        pre.entities@[item as int].alive,
        pre.entities@[who].wants_to_pickup == Some(
            WantsToPickupItem { collected_by: who as usize, item },
        ),
        nobody_else_picks_up(pre.entities@, who, item),
        nobody_uses(pre.entities@, item),
        nobody_drops(pre.entities@, item),
        !pre.doomed@.contains(item),
        held.entities.len() == mid.entities.len(),
        held.entities@[item as int] == mid.entities@[item as int],
        systems_ran(held, post, putting),
        held.entities@[who].position is Some,
        !held.entities@[who].monster,
        held.entities@[who].wants_to_drop == Some(WantsToDropItem { item }),
        nobody_else_drops(held.entities@, who, item),
        nobody_drops(held.entities@, who as usize),
        nobody_picks_up(held.entities@, who as usize),
        nobody_picks_up(held.entities@, item),
        nobody_uses(held.entities@, item),
        !held.doomed@.contains(item),
    ensures
        mid.entities@[item as int].position is None,
        mid.entities@[item as int].in_backpack == Some(InBackpack { owner: who as usize }),
        post.entities@[item as int].position == held.entities@[who].position,
        post.entities@[item as int].in_backpack is None,
        same_kind(post.entities@[item as int], pre.entities@[item as int]),
{
    lemma_run_picks_up(pre, mid, taking, who, item);
    lemma_run_puts_down(held, post, putting, who, item);
}

/// Where one entity uses an item that inflicts damage, aimed at a cell,
/// and nothing else touches the hit points or the place of an entity in
/// that turn, a run of all systems takes the item's damage, down to 0 at
/// most, from the entity if it stands within the item's radius of the
/// cell, the rim included, and leaves its hit points as they are if it
/// stands outside. No entity within the radius is passed over.
pub proof fn lemma_run_area_damage(
    pre: World,
    post: World,
    paths: Seq<NavigationPath>,
    user: int,
    w: WantsToUseItem,
    target: int,
)
    requires
        pre.wf(),
        systems_ran(pre, post, paths),
        0 <= user < pre.entities.len(),
        0 <= target < pre.entities.len(),
        pre.entities@[user].wants_to_use == Some(w),
        nobody_else_uses(pre.entities@, user),
        w.item < pre.entities.len(),
        w.item != target,
        pre.entities@[w.item as int].alive,
        pre.entities@[w.item as int].inflicts_damage is Some,
        pre.entities@[w.item as int].provides_healing is None,
        w.target is Some,
        pre.entities@[target].combat_stats is Some,
        !pre.entities@[target].monster,
        nobody_attacks(pre.entities@, target),
        nobody_picks_up(pre.entities@, target as usize),
        !pre.doomed@.contains(target as usize),
    ensures
        post.entities@[target].combat_stats == if in_blast(
            pre.entities@[target],
            w.target.unwrap(),
            blast_radius(pre.entities@[w.item as int]),
        ) {
            Some(
                pre.entities@[target].combat_stats.unwrap().damaged(
                    pre.entities@[w.item as int].inflicts_damage.unwrap().damage as int,
                ),
            )
        } else {
            pre.entities@[target].combat_stats
        },
        same_kind(post.entities@[target], pre.entities@[target]),
{
    let (w1, w2, w3, w4, w5, w6, w7) = choose|
        w1: World,
        w2: World,
        w3: World,
        w4: World,
        w5: World,
        w6: World,
        w7: World,
    |
        #![trigger
            sight_updated(pre, w1),
            monsters_moved(w1, w2, paths),
            index_rebuilt(w2, w3),
            melee_resolved(w3, w4),
            items_collected(w4, w5),
            items_used(w5, w6),
            items_dropped(w6, w7)
        ]
        stages(pre, w1, w2, w3, w4, w5, w6, w7, paths) && maintained(w7, post);
    let n = pre.entities.len() as int;
    assert forall|e: int| 0 <= e < n implies w4.entities@[e].wants_to_pickup
        == pre.entities@[e].wants_to_pickup && w5.entities@[e].wants_to_use
        == pre.entities@[e].wants_to_use && w6.entities@[e].wants_to_drop
        == pre.entities@[e].wants_to_drop by {
        lemma_carried(pre, w1, w2, w3, w4, w5, w6, w7, paths, e);
    }
    let i = w.item as int;
    let at: Coord = w.target.unwrap();
    lemma_carried(pre, w1, w2, w3, w4, w5, w6, w7, paths, i);
    lemma_carried(pre, w1, w2, w3, w4, w5, w6, w7, paths, target);
    lemma_carried(pre, w1, w2, w3, w4, w5, w6, w7, paths, user);
    assert(pre.entities@[target].wf());
    lemma_stats_kept_before_items(pre, w1, w2, w3, w4, paths, target);
    assert(nobody_picks_up(w4.entities@, target as usize)) by {
        assert forall|e: int|
            0 <= e < n && (#[trigger] w4.entities@[e]).wants_to_pickup is Some implies w4.entities@[e].wants_to_pickup.unwrap().item
            != target as usize by {
            assert(pre.entities@[e].wants_to_pickup is Some);
        }
    }
    lemma_pickups_frame(w4.entities@, n, target);
    let before = w5.entities@;
    assert(before[target].combat_stats == pre.entities@[target].combat_stats);
    assert(before[target].position == pre.entities@[target].position);
    assert(nobody_else_uses(before, user)) by {
        assert forall|e: int| 0 <= e < n && e != user implies (#[trigger] before[e]).wants_to_use is None by {
            assert(pre.entities@[e].wants_to_use is None);
        }
    }
    lemma_single_use(before, w5.doomed@, n, user);
    let item = before[i];
    assert(use_is_valid(before, w));
    assert(healed_user(before, user, item) == before);
    let hit = blasted(before, at, blast_radius(item), item.inflicts_damage.unwrap().damage as int);
    assert(use_effect(before, user, w) == hit);
    assert(hit[target].combat_stats == if in_blast(before[target], at, blast_radius(item)) {
        Some(before[target].combat_stats.unwrap().damaged(item.inflicts_damage.unwrap().damage as int))
    } else {
        before[target].combat_stats
    });
    assert(w6.entities@ == item_used(before, user, w));
    assert(w6.entities@[target].combat_stats == hit[target].combat_stats);
    assert(in_blast(before[target], at, blast_radius(item)) == in_blast(
        pre.entities@[target],
        at,
        blast_radius(pre.entities@[i]),
    ));
    let asked = w6.doomed@;
    if asked.contains(target as usize) {
        let k = choose|k: int| 0 <= k < asked.len() && asked[k] == target as usize;
        if k < w5.doomed@.len() {
            assert(w5.doomed@[k] == target as usize);
        }
    }
    assert(!w7.doomed@.contains(target as usize));
    assert(post.entities@[target] == w7.entities@[target]);
}

} // verus!
