use vstd::prelude::*;
use crate::inventory_system::{items_collected, items_dropped, items_used};
use crate::map_indexing_system::index_rebuilt;
use crate::melee_combat_system::melee_resolved;
use crate::monster_ai_system::{NavigationPath, monsters_moved};
use crate::state::systems_ran;
use crate::turn::{
    lemma_drops_frame, lemma_lengths_kept, lemma_pickups_frame, lemma_uses_frame,
};
use crate::visibility_system::sight_updated;
use crate::world::{EntityData, World, maintained};

verus! {

/// The entity holds no intent.
pub open spec fn no_intent(e: EntityData) -> bool {
    &&& e.wants_to_melee is None
    &&& e.wants_to_pickup is None
    &&& e.wants_to_use is None
    &&& e.wants_to_drop is None
}

/// No intent outlives the turn in which it was made: once all systems have
/// run, no entity holds an intent and no removal is waiting.
pub proof fn lemma_intents_are_spent(pre: World, post: World, paths: Seq<NavigationPath>, e: int)
    requires
        systems_ran(pre, post, paths),
        0 <= e < post.entities.len(),
    ensures
        no_intent(post.entities@[e]),
        post.doomed@.len() == 0,
{
    let (w1, w2, w3, w4, w5, w6, w7) = choose|
        w1: World,
        w2: World,
        w3: World,
        w4: World,
        w5: World,
        w6: World,
        w7: World,
    |
        #![trigger
            sight_updated(pre, w1),
            monsters_moved(w1, w2, paths),
            index_rebuilt(w2, w3),
            melee_resolved(w3, w4),
            items_collected(w4, w5),
            items_used(w5, w6),
            items_dropped(w6, w7)
        ]
        {
            &&& sight_updated(pre, w1)
            &&& monsters_moved(w1, w2, paths)
            &&& index_rebuilt(w2, w3)
            &&& melee_resolved(w3, w4)
            &&& items_collected(w4, w5)
            &&& items_used(w5, w6)
            &&& items_dropped(w6, w7)
            &&& maintained(w7, post)
        };
    let n = w4.entities.len() as int;
    lemma_lengths_kept(w4.entities@, n);
    lemma_lengths_kept(w5.entities@, n);
    lemma_lengths_kept(w6.entities@, n);
    lemma_pickups_frame(w4.entities@, n, e);
    lemma_uses_frame(w5.entities@, n, e);
    lemma_drops_frame(w6.entities@, n, e);
    assert(w4.entities@[e].wants_to_melee is None);
    assert(no_intent(w7.entities@[e]));
}

} // verus!
