use vstd::prelude::*;
use crate::world::{EntityData, World, bare_entity};

verus! {

/// The entity has combat stats and no hit point left.
pub open spec fn is_dead(e: EntityData) -> bool {
    e.combat_stats is Some && e.combat_stats.unwrap().hp < 1
}

/// `post` is `pre` after the death sweep: every entity without a hit point
/// is gone with all that was attached to it, and every other entity is as
/// it was.
pub open spec fn dead_removed(pre: World, post: World) -> bool {
    &&& post.wf()
    &&& post.same_frame(&pre)
    &&& post.entities.len() == pre.entities.len()
    &&& forall|e: int|
        0 <= e < pre.entities.len() ==> #[trigger] post.entities@[e] == if is_dead(
            pre.entities@[e],
        ) {
            bare_entity(false)
        } else {
            pre.entities@[e]
        }
}

/// The death sweep: removes every entity whose hit points are used up.
pub fn delete_the_dead(ecs: &mut World)
    requires
        old(ecs).wf(),
    ensures
        dead_removed(*old(ecs), *final(ecs)),
{
    let mut e: usize = 0;
    while e < ecs.entities.len()
        invariant
            e <= ecs.entities.len(),
            ecs.wf(),
            ecs.same_frame(old(ecs)),
            ecs.entities.len() == old(ecs).entities.len(),
            forall|i: int|
                0 <= i < e ==> #[trigger] ecs.entities@[i] == if is_dead(old(ecs).entities@[i]) {
                    bare_entity(false)
                } else {
                    old(ecs).entities@[i]
                },
            forall|i: int|
                e <= i < ecs.entities.len() ==> #[trigger] ecs.entities@[i] == old(ecs).entities@[i],
        decreases ecs.entities.len() - e,
    {
        let dead = match ecs.entities[e].combat_stats {
            Some(stats) => stats.hp < 1,
            None => false,
        };
        if dead {
            assert(ecs.entities@[e as int].wf());
            ecs.delete_entity(e);
        }
        e = e + 1;
    }
}

/// Damage that is at least the hit points an entity has left leaves it
/// dead, so that the next death sweep removes it: it then has no position,
/// nothing to draw, and nothing else.
pub proof fn lemma_fatal_damage_removes(pre: World, hurt: World, post: World, e: int, amount: int)
    requires
        pre.wf(),
        0 <= e < pre.entities.len(),
        pre.entities@[e].combat_stats is Some,
        amount >= pre.entities@[e].combat_stats.unwrap().hp,
        hurt.entities.len() == pre.entities.len(),
        hurt.entities@[e].combat_stats == Some(pre.entities@[e].combat_stats.unwrap().damaged(amount)),
        dead_removed(hurt, post),
    ensures
        post.entities@[e] == bare_entity(false),
        post.entities@[e].position is None,
        post.entities@[e].renderable is None,
        !post.is_alive(e as usize),
{
    assert(pre.entities@[e].wf());
    assert(is_dead(hurt.entities@[e]));
}

} // verus!
