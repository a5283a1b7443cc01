use vstd::prelude::*;
use crate::components::{
    Coord, Entity, InBackpack, WantsToDropItem, WantsToPickupItem, WantsToUseItem, in_radius,
    within_radius,
};
use crate::world::{EntityData, World};

verus! {

/// The entities after entity `who` carried out its intent `w` to pick an
/// item up: the item, if it is alive, lies nowhere and is in the backpack
/// of the collector, and the intent is spent.
pub open spec fn picked_up(entities: Seq<EntityData>, who: int, w: WantsToPickupItem) -> Seq<EntityData> {
    let taken = if w.item < entities.len() && entities[w.item as int].alive {
        entities.update(
            w.item as int,
            EntityData {
                position: None,
                in_backpack: Some(InBackpack { owner: w.collected_by }),
                ..entities[w.item as int]
            },
        )
    } else {
        entities
    };
    taken.update(who, EntityData { wants_to_pickup: None, ..taken[who] })
}

/// The entities after the first `n` of them, one after the other, carried
/// out their intents to pick an item up.
pub open spec fn pickups_upto(entities: Seq<EntityData>, n: int) -> Seq<EntityData>
    decreases n,
{
    if n <= 0 {
        entities
    } else {
        let prev = pickups_upto(entities, n - 1);
        match prev[n - 1].wants_to_pickup {
            Some(w) => picked_up(prev, n - 1, w),
            None => prev,
        }
    }
}

/// `post` is `pre` after all intents to pick an item up were carried out,
/// in the order of the handles of those who hold them.
pub open spec fn items_collected(pre: World, post: World) -> bool {
    &&& post.wf()
    &&& post.same_frame(&pre)
    &&& post.entities@ == pickups_upto(pre.entities@, pre.entities.len() as int)
}

/// The system that carries out intents to pick an item up.
pub struct ItemCollectionSystem {}

impl ItemCollectionSystem {
    /// Carries out every intent to pick an item up and deletes it.
    pub fn run(&mut self, ecs: &mut World)
        requires
            old(ecs).wf(),
        ensures
            items_collected(*old(ecs), *final(ecs)),
    {
        let n = ecs.entities.len();
        let mut e: usize = 0;
        while e < n
            invariant
                e <= n,
                n == ecs.entities.len(),
                n == old(ecs).entities.len(),
                ecs.wf(),
                ecs.same_frame(old(ecs)),
                ecs.entities@ == pickups_upto(old(ecs).entities@, e as int),
            decreases n - e,
        {
            let ghost before = ecs.entities@;
            match ecs.entities[e].wants_to_pickup {
                Some(w) => {
                    if w.item < n && ecs.entities[w.item].alive {
                        ecs.entities[w.item].position = None;
                        ecs.entities[w.item].in_backpack = Some(
                            InBackpack { owner: w.collected_by },
                        );
                    }
                    ecs.entities[e].wants_to_pickup = None;
                    proof {
                        assert(ecs.entities@ =~= picked_up(before, e as int, w));
                        assert forall|i: int| 0 <= i < n implies (#[trigger] ecs.entities@[i]).wf() by {
                            assert(before[i].wf());
                        }
                    }
                },
                None => {},
            }
            e = e + 1;
        }
    }
}

/// How far the effect of using `item` reaches from the cell it is aimed
/// at: its area of effect, or the cell alone.
pub open spec fn blast_radius(item: EntityData) -> int {
    match item.area_of_effect {
        Some(area) => area.radius as int,
        None => 0,
    }
}

/// The entity has combat stats and stands within `radius` of the cell
/// `at`, the rim included.
pub open spec fn in_blast(e: EntityData, at: Coord, radius: int) -> bool {
    &&& e.combat_stats is Some
    &&& e.position is Some
    &&& within_radius(
        e.position.unwrap().x as int,
        e.position.unwrap().y as int,
        at.x as int,
        at.y as int,
        radius,
    )
}

/// The entity with `amount` hit points taken away, down to 0 at most.
pub open spec fn hurt(e: EntityData, amount: int) -> EntityData {
    EntityData { combat_stats: Some(e.combat_stats.unwrap().damaged(amount)), ..e }
}

/// The entities after `amount` damage fell on every one of them that has
/// combat stats and stands within `radius` of `at`; the others are as they
/// were.
pub open spec fn blasted(entities: Seq<EntityData>, at: Coord, radius: int, amount: int) -> Seq<EntityData> {
    Seq::new(
        entities.len(),
        |t: int|
            if in_blast(entities[t], at, radius) {
                hurt(entities[t], amount)
            } else {
                entities[t]
            },
    )
}

/// The use `w` can be carried out: the item is alive, and it is aimed where
/// it inflicts damage.
pub open spec fn use_is_valid(entities: Seq<EntityData>, w: WantsToUseItem) -> bool {
    &&& w.item < entities.len()
    &&& entities[w.item as int].alive
    &&& !(entities[w.item as int].inflicts_damage is Some && w.target is None)
}

/// The entities after `item` healed entity `who`, as far as the item heals
/// and `who` has combat stats.
pub open spec fn healed_user(entities: Seq<EntityData>, who: int, item: EntityData) -> Seq<EntityData> {
    if item.provides_healing is Some && entities[who].combat_stats is Some {
        entities.update(
            who,
            EntityData {
                combat_stats: Some(
                    entities[who].combat_stats.unwrap().healed(
                        item.provides_healing.unwrap().heal_amount as int,
                    ),
                ),
                ..entities[who]
            },
        )
    } else {
        entities
    }
}

/// The entities after the effects of the valid use `w` by entity `who`:
/// first the healing of the user, then the damage round the target.
pub open spec fn use_effect(entities: Seq<EntityData>, who: int, w: WantsToUseItem) -> Seq<EntityData> {
    let item = entities[w.item as int];
    let healed = healed_user(entities, who, item);
    if item.inflicts_damage is Some && w.target is Some {
        blasted(
            healed,
            w.target.unwrap(),
            blast_radius(item),
            item.inflicts_damage.unwrap().damage as int,
        )
    } else {
        healed
    }
}

/// The entities after entity `who` carried out its intent `w` to use an
/// item: the effects have taken place if the use is valid, and the intent
/// is spent either way.
pub open spec fn item_used(entities: Seq<EntityData>, who: int, w: WantsToUseItem) -> Seq<EntityData> {
    let effect = if use_is_valid(entities, w) {
        use_effect(entities, who, w)
    } else {
        entities
    };
    effect.update(who, EntityData { wants_to_use: None, ..effect[who] })
}

/// The use `w` uses the item up: it is valid and the item is consumable.
pub open spec fn item_spent(entities: Seq<EntityData>, w: WantsToUseItem) -> bool {
    use_is_valid(entities, w) && entities[w.item as int].consumable
}

/// The entities after the first `n` of them, one after the other, carried
/// out their intents to use an item.
pub open spec fn uses_upto(entities: Seq<EntityData>, n: int) -> Seq<EntityData>
    decreases n,
{
    if n <= 0 {
        entities
    } else {
        let prev = uses_upto(entities, n - 1);
        match prev[n - 1].wants_to_use {
            Some(w) => item_used(prev, n - 1, w),
            None => prev,
        }
    }
}

/// The removals asked for once the first `n` entities carried out their
/// intents to use an item: those asked for before, and then each item that
/// was used up, in the order of the uses.
pub open spec fn spent_upto(entities: Seq<EntityData>, doomed: Seq<Entity>, n: int) -> Seq<Entity>
    decreases n,
{
    if n <= 0 {
        doomed
    } else {
        let prev = uses_upto(entities, n - 1);
        let asked = spent_upto(entities, doomed, n - 1);
        match prev[n - 1].wants_to_use {
            Some(w) => if item_spent(prev, w) {
                asked.push(w.item)
            } else {
                asked
            },
            None => asked,
        }
    }
}

/// `post` is `pre` after all intents to use an item were carried out, in
/// the order of the handles of those who hold them. Items that were used
/// up are still there, and their removal is asked for.
pub open spec fn items_used(pre: World, post: World) -> bool {
    &&& post.wf()
    &&& post.map == pre.map
    &&& post.player_entity == pre.player_entity
    &&& post.player_pos == pre.player_pos
    &&& post.log == pre.log
    &&& post.runstate == pre.runstate
    &&& post.rng == pre.rng
    &&& post.entities@ == uses_upto(pre.entities@, pre.entities.len() as int)
    &&& post.doomed@ == spent_upto(pre.entities@, pre.doomed@, pre.entities.len() as int)
}

/// Damages every entity with combat stats within `radius` of `at`.
fn blast(ecs: &mut World, at: Coord, radius: i32, amount: i32)
    requires
        old(ecs).wf(),
    ensures
        final(ecs).wf(),
        final(ecs).same_frame(old(ecs)),
        final(ecs).entities@ == blasted(old(ecs).entities@, at, radius as int, amount as int),
{
    let n = ecs.entities.len();
    let mut t: usize = 0;
    while t < n
        invariant
            t <= n,
            n == ecs.entities.len(),
            n == old(ecs).entities.len(),
            ecs.wf(),
            ecs.same_frame(old(ecs)),
            forall|i: int|
                0 <= i < t ==> #[trigger] ecs.entities@[i] == if in_blast(
                    old(ecs).entities@[i],
                    at,
                    radius as int,
                ) {
                    hurt(old(ecs).entities@[i], amount as int)
                } else {
                    old(ecs).entities@[i]
                },
            forall|i: int| t <= i < n ==> #[trigger] ecs.entities@[i] == old(ecs).entities@[i],
        decreases n - t,
    {
        let ghost before = ecs.entities@;
        assert(before[t as int].wf());
        match (ecs.entities[t].combat_stats, ecs.entities[t].position) {
            (Some(stats), Some(pos)) => {
                if in_radius(pos.x, pos.y, at.x, at.y, radius) {
                    let mut stats = stats;
                    stats.take_damage(amount);
                    ecs.entities[t].combat_stats = Some(stats);
                    proof {
                        assert(ecs.entities@[t as int] == hurt(before[t as int], amount as int));
                        assert forall|i: int| 0 <= i < n implies (#[trigger] ecs.entities@[i]).wf() by {
                            assert(before[i].wf());
                        }
                    }
                }
            },
            _ => {},
        }
        t = t + 1;
    }
    assert(ecs.entities@ =~= blasted(old(ecs).entities@, at, radius as int, amount as int));
}

/// Entity `who` uses an item as its intent `w` says. Says whether the item
/// was used up; its removal is then asked for.
pub fn use_item(ecs: &mut World, who: Entity, w: WantsToUseItem) -> (spent: bool)
    requires
        old(ecs).wf(),
        who < old(ecs).entities.len(),
    ensures
        final(ecs).wf(),
        final(ecs).map == old(ecs).map,
        final(ecs).player_entity == old(ecs).player_entity,
        final(ecs).player_pos == old(ecs).player_pos,
        final(ecs).log == old(ecs).log,
        final(ecs).runstate == old(ecs).runstate,
        final(ecs).rng == old(ecs).rng,
        final(ecs).entities@ == item_used(old(ecs).entities@, who as int, w),
        spent == item_spent(old(ecs).entities@, w),
        final(ecs).doomed@ == if spent {
            old(ecs).doomed@.push(w.item)
        } else {
            old(ecs).doomed@
        },
{
    let n = ecs.entities.len();
    let mut spent = false;
    let valid = w.item < n && ecs.entities[w.item].alive && !(
    ecs.entities[w.item].inflicts_damage.is_some() && w.target.is_none());
    if valid {
        let heals = ecs.entities[w.item].provides_healing;
        let damages = ecs.entities[w.item].inflicts_damage;
        let area = ecs.entities[w.item].area_of_effect;
        let consumable = ecs.entities[w.item].consumable;
        let ghost item = ecs.entities@[w.item as int];
        assert(ecs.entities@[who as int].wf());
        match (heals, ecs.entities[who].combat_stats) {
            (Some(healer), Some(stats)) => {
                let mut stats = stats;
                stats.heal(healer.heal_amount);
                ecs.entities[who].combat_stats = Some(stats);
                proof {
                    assert forall|i: int| 0 <= i < n implies (#[trigger] ecs.entities@[i]).wf() by {
                        assert(old(ecs).entities@[i].wf());
                    }
                }
            },
            _ => {},
        }
        assert(ecs.entities@ =~= healed_user(old(ecs).entities@, who as int, item));
        match (damages, w.target) {
            (Some(damage), Some(at)) => {
                let radius = match area {
                    Some(area) => area.radius,
                    None => 0,
                };
                blast(ecs, at, radius, damage.damage);
            },
            _ => {},
        }
        assert(ecs.entities@ == use_effect(old(ecs).entities@, who as int, w));
        if consumable {
            ecs.doom(w.item);
            spent = true;
        }
    }
    let ghost effect = ecs.entities@;
    ecs.entities[who].wants_to_use = None;
    proof {
        assert(ecs.entities@ =~= item_used(old(ecs).entities@, who as int, w));
        assert forall|i: int| 0 <= i < n implies (#[trigger] ecs.entities@[i]).wf() by {
            assert(effect[i].wf());
        }
    }
    spent
}

/// The system that carries out intents to use an item.
pub struct ItemUseSystem {}

impl ItemUseSystem {
    /// Carries out every intent to use an item and deletes it.
    pub fn run(&mut self, ecs: &mut World)
        requires
            old(ecs).wf(),
        ensures
            items_used(*old(ecs), *final(ecs)),
    {
        let n = ecs.entities.len();
        let mut e: usize = 0;
        while e < n
            invariant
                e <= n,
                n == ecs.entities.len(),
                n == old(ecs).entities.len(),
                ecs.wf(),
                ecs.map == old(ecs).map,
                ecs.player_entity == old(ecs).player_entity,
                ecs.player_pos == old(ecs).player_pos,
                ecs.log == old(ecs).log,
                ecs.runstate == old(ecs).runstate,
                ecs.rng == old(ecs).rng,
                ecs.entities@ == uses_upto(old(ecs).entities@, e as int),
                ecs.doomed@ == spent_upto(old(ecs).entities@, old(ecs).doomed@, e as int),
            decreases n - e,
        {
            match ecs.entities[e].wants_to_use {
                Some(w) => {
                    use_item(ecs, e, w);
                },
                None => {},
            }
            e = e + 1;
        }
    }
}

/// The entities after entity `who` carried out its intent `w` to put an
/// item down: the item, if it is alive and `who` stands somewhere, lies
/// where `who` stands and is in no backpack, and the intent is spent.
pub open spec fn dropped(entities: Seq<EntityData>, who: int, w: WantsToDropItem) -> Seq<EntityData> {
    let put = if entities[who].position is Some && w.item < entities.len()
        && entities[w.item as int].alive {
        entities.update(
            w.item as int,
            EntityData {
                position: entities[who].position,
                in_backpack: None,
                ..entities[w.item as int]
            },
        )
    } else {
        entities
    };
    put.update(who, EntityData { wants_to_drop: None, ..put[who] })
}

/// The entities after the first `n` of them, one after the other, carried
/// out their intents to put an item down.
pub open spec fn drops_upto(entities: Seq<EntityData>, n: int) -> Seq<EntityData>
    decreases n,
{
    if n <= 0 {
        entities
    } else {
        let prev = drops_upto(entities, n - 1);
        match prev[n - 1].wants_to_drop {
            Some(w) => dropped(prev, n - 1, w),
            None => prev,
        }
    }
}

/// `post` is `pre` after all intents to put an item down were carried out,
/// in the order of the handles of those who hold them.
pub open spec fn items_dropped(pre: World, post: World) -> bool {
    &&& post.wf()
    &&& post.same_frame(&pre)
    &&& post.entities@ == drops_upto(pre.entities@, pre.entities.len() as int)
}

/// The system that carries out intents to put an item down.
pub struct ItemDropSystem {}

impl ItemDropSystem {
    /// Carries out every intent to put an item down and deletes it.
    pub fn run(&mut self, ecs: &mut World)
        requires
            old(ecs).wf(),
        ensures
            items_dropped(*old(ecs), *final(ecs)),
    {
        let n = ecs.entities.len();
        let mut e: usize = 0;
        while e < n
            invariant
                e <= n,
                n == ecs.entities.len(),
                n == old(ecs).entities.len(),
                ecs.wf(),
                ecs.same_frame(old(ecs)),
                ecs.entities@ == drops_upto(old(ecs).entities@, e as int),
            decreases n - e,
        {
            let ghost before = ecs.entities@;
            match ecs.entities[e].wants_to_drop {
                Some(w) => {
                    match ecs.entities[e].position {
                        Some(pos) => {
                            if w.item < n && ecs.entities[w.item].alive {
                                ecs.entities[w.item].position = Some(pos);
                                ecs.entities[w.item].in_backpack = None;
                            }
                        },
                        None => {},
                    }
                    ecs.entities[e].wants_to_drop = None;
                    proof {
                        assert(ecs.entities@ =~= dropped(before, e as int, w));
                        assert forall|i: int| 0 <= i < n implies (#[trigger] ecs.entities@[i]).wf() by {
                            assert(before[i].wf());
                        }
                    }
                },
                None => {},
            }
            e = e + 1;
        }
    }
}

/// An item that was picked up lies nowhere and is in the collector's
/// backpack; put down again by the collector, it lies exactly where the
/// collector stands and is in no backpack.
pub proof fn lemma_pickup_then_drop(entities: Seq<EntityData>, who: int, item: Entity)
    requires
        0 <= who < entities.len(),
        item < entities.len(),
        who != item,
        entities[item as int].alive,
        entities[who].position is Some,
    ensures
        ({
            let held = picked_up(
                entities,
                who,
                WantsToPickupItem { collected_by: who as usize, item },
            );
            let put = dropped(held, who, WantsToDropItem { item });
            &&& held[item as int].position is None
            &&& held[item as int].in_backpack == Some(InBackpack { owner: who as usize })
            &&& put[item as int].position == entities[who].position
            &&& put[item as int].in_backpack is None
            &&& put[item as int] == (EntityData {
                position: entities[who].position,
                in_backpack: None,
                ..entities[item as int]
            })
        }),
{
}

/// Using an item that inflicts damage over an area takes that damage,
/// down to 0 at most, from every entity with combat stats within the
/// radius of the target, and leaves all other entities as they were.
pub proof fn lemma_area_damage(entities: Seq<EntityData>, at: Coord, radius: int, amount: int, t: int)
    requires
        0 <= t < entities.len(),
    ensures
        in_blast(entities[t], at, radius) ==> blasted(entities, at, radius, amount)[t].combat_stats
            == Some(entities[t].combat_stats.unwrap().damaged(amount)),
        !in_blast(entities[t], at, radius) ==> blasted(entities, at, radius, amount)[t]
            == entities[t],
        blasted(entities, at, radius, amount)[t].position == entities[t].position,
{
}

} // verus!
