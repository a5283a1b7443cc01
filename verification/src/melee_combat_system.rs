use vstd::prelude::*;
use crate::components::{CombatStats, WantsToMelee, melee_damage, damaged_hp};
use crate::world::{EntityData, World};

verus! {

/// The damage that the blow of entity `a` deals to entity `t`: none unless
/// `a` has combat stats and wants to attack `t`, and `t` has combat stats.
pub open spec fn blow(entities: Seq<EntityData>, a: int, t: int) -> int {
    if entities[a].wants_to_melee == Some(WantsToMelee { target: t as usize })
        && entities[a].combat_stats is Some && entities[t].combat_stats is Some {
        melee_damage(
            entities[a].combat_stats.unwrap().power as int,
            entities[t].combat_stats.unwrap().defense as int,
        )
    } else {
        0
    }
}

/// The damage that the blows of the first `n` entities deal to entity `t`.
pub open spec fn blows_upto(entities: Seq<EntityData>, t: int, n: int) -> int
    decreases n,
{
    if n <= 0 {
        0
    } else {
        blows_upto(entities, t, n - 1) + blow(entities, n - 1, t)
    }
}

/// Entity `t` once the blows of the first `n` entities have fallen and
/// their intents are spent.
pub open spec fn after_blows(entities: Seq<EntityData>, t: int, n: int) -> EntityData {
    EntityData {
        wants_to_melee: if t < n {
            None
        } else {
            entities[t].wants_to_melee
        },
        combat_stats: match entities[t].combat_stats {
            Some(s) => Some(s.damaged(blows_upto(entities, t, n))),
            None => None,
        },
        ..entities[t]
    }
}

/// `post` is `pre` after all melee intents were resolved: every entity
/// lost, down to 0 at most, as many hit points as the blows aimed at it
/// deal together, and no entity wants to attack any more.
pub open spec fn melee_resolved(pre: World, post: World) -> bool {
    &&& post.wf()
    &&& post.same_frame(&pre)
    &&& post.entities.len() == pre.entities.len()
    &&& forall|t: int|
        0 <= t < pre.entities.len() ==> #[trigger] post.entities@[t] == after_blows(
            pre.entities@,
            t,
            pre.entities.len() as int,
        )
}

proof fn lemma_blows_nonnegative(entities: Seq<EntityData>, t: int, n: int)
    ensures
        blows_upto(entities, t, n) >= 0,
    decreases n,
{
    if n > 0 {
        lemma_blows_nonnegative(entities, t, n - 1);
    }
}

/// The system that resolves melee intents.
pub struct MeleeCombatSystem {}

impl MeleeCombatSystem {
    /// Resolves every melee intent and deletes it.
    pub fn run(&mut self, ecs: &mut World)
        requires
            old(ecs).wf(),
        ensures
            melee_resolved(*old(ecs), *final(ecs)),
    {
        let n = ecs.entities.len();
        let mut a: usize = 0;
        proof {
            assert forall|t: int| 0 <= t < n implies #[trigger] ecs.entities@[t] == after_blows(
                old(ecs).entities@,
                t,
                0,
            ) by {
                assert(old(ecs).entities@[t].wf());
            }
        }
        while a < n
            invariant
                a <= n,
                n == ecs.entities.len(),
                n == old(ecs).entities.len(),
                old(ecs).wf(),
                ecs.wf(),
                ecs.same_frame(old(ecs)),
                forall|t: int|
                    0 <= t < n ==> #[trigger] ecs.entities@[t] == after_blows(
                        old(ecs).entities@,
                        t,
                        a as int,
                    ),
            decreases n - a,
        {
            let ghost before = ecs.entities@;
            let ghost start = old(ecs).entities@;
            let mut hit: Option<usize> = None;
            match (ecs.entities[a].wants_to_melee, ecs.entities[a].combat_stats) {
                (Some(wants_melee), Some(stats)) => {
                    let target = wants_melee.target;
                    if target < n {
                        assert(before[target as int].wf());
                        match ecs.entities[target].combat_stats {
                            Some(target_stats) => {
                                let damage: i64 = stats.power as i64 - target_stats.defense as i64;
                                if damage > 0 {
                                    let rest: i64 = target_stats.hp as i64 - damage;
                                    let hp: i32 = if rest < 0 { 0 } else { rest as i32 };
                                    ecs.entities[target].combat_stats = Some(
                                        CombatStats { hp, ..target_stats },
                                    );
                                }
                                hit = Some(target);
                            },
                            None => {},
                        }
                    }
                },
                _ => {},
            }
            ecs.entities[a].wants_to_melee = None;
            proof {
                assert forall|t: int| 0 <= t < n implies #[trigger] ecs.entities@[t] == after_blows(
                    start,
                    t,
                    a + 1,
                ) by {
                    lemma_blows_nonnegative(start, t, a as int);
                    assert(before[t] == after_blows(start, t, a as int));
                    assert(start[t].wf());
                    assert(before[a as int] == after_blows(start, a as int, a as int));
                    if hit == Some(t as usize) {
                        let s = start[t].combat_stats.unwrap();
                        let sofar = blows_upto(start, t, a as int);
                        let d = blow(start, a as int, t);
                        assert(damaged_hp(damaged_hp(s.hp as int, sofar), d) == damaged_hp(
                            s.hp as int,
                            sofar + d,
                        ));
                    } else {
                        assert(blow(start, a as int, t) == 0);
                    }
                }
                assert forall|t: int| 0 <= t < n implies (#[trigger] ecs.entities@[t]).wf() by {
                    assert(before[t].wf());
                    assert(start[t].wf());
                    lemma_blows_nonnegative(start, t, a + 1);
                }
            }
            a = a + 1;
        }
    }
}

} // verus!
