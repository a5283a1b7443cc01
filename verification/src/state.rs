use vstd::prelude::*;
use crate::components::{Coord, Entity, WantsToDropItem, WantsToUseItem};
use crate::damage_system::{dead_removed, delete_the_dead};
use crate::gui::{
    ItemMenuResult, backpack_of, drop_item_menu, menu_choice, ranged_target, show_inventory,
    targeting_choice,
};
use crate::input::Key;
use crate::inventory_system::{
    ItemCollectionSystem, ItemDropSystem, ItemUseSystem, items_collected, items_dropped,
    items_used,
};
use crate::map_indexing_system::{MapIndexingSystem, index_rebuilt};
use crate::melee_combat_system::{MeleeCombatSystem, melee_resolved};
use crate::monster_ai_system::{MonsterAI, NavigationPath, monsters_moved};
use crate::player::{input_handled, player_input};
use crate::visibility_system::{VisibilitySystem, sight_updated};
use crate::world::{EntityData, World, maintained};

verus! {

/// Where the game stands between two ticks.
#[derive(Clone, Copy, Debug, PartialEq, Eq, Structural)]
pub enum RunState {
    AwaitingInput,
    PreRun,
    PlayerTurn,
    MonsterTurn,
    ShowInventory,
    ShowDropItem,
    ShowTargeting { range: i32, item: Entity },
}

/// The game: a world, driven tick by tick.
pub struct State {
    pub ecs: World,
}

/// What the collaborators hand over for one tick: the key that was
/// pressed, if any, where the mouse is and whether it was clicked, and, at
/// the place of each entity's handle, the path found for it.
pub struct TickInput {
    pub key: Option<Key>,
    pub mouse_pos: (i32, i32),
    pub left_click: bool,
    pub paths: Vec<NavigationPath>,
}

/// The run state is one in which a tick runs all systems, and hence has
/// the monsters move along the paths that are handed in.
pub open spec fn runs_systems(runstate: RunState) -> bool {
    runstate == RunState::PreRun || runstate == RunState::PlayerTurn || runstate
        == RunState::MonsterTurn
}

/// `w` in the run state `runstate`.
pub open spec fn with_runstate(w: World, runstate: RunState) -> World {
    World { runstate, ..w }
}

/// `post` is `pre` after one run of all systems, in their fixed order:
/// sight, the monsters' moves, the spatial index, melee, picking up, using
/// and putting down of items, and the removals that were asked for.
pub open spec fn systems_ran(pre: World, post: World, paths: Seq<NavigationPath>) -> bool {
    exists|w1: World, w2: World, w3: World, w4: World, w5: World, w6: World, w7: World|
        #![trigger
            sight_updated(pre, w1),
            monsters_moved(w1, w2, paths),
            index_rebuilt(w2, w3),
            melee_resolved(w3, w4),
            items_collected(w4, w5),
            items_used(w5, w6),
            items_dropped(w6, w7)
        ]
        {
            &&& sight_updated(pre, w1)
            &&& monsters_moved(w1, w2, paths)
            &&& index_rebuilt(w2, w3)
            &&& melee_resolved(w3, w4)
            &&& items_collected(w4, w5)
            &&& items_used(w5, w6)
            &&& items_dropped(w6, w7)
            &&& maintained(w7, post)
        }
}

/// `post` is `pre` after a run of all systems that leads to the run state
/// `next`.
pub open spec fn turn_taken(pre: World, post: World, paths: Seq<NavigationPath>, next: RunState) -> bool {
    exists|mid: World| #[trigger] systems_ran(pre, mid, paths) && post == with_runstate(mid, next)
}

/// `post` is `pre` after the player entity was given the intent to use an
/// item as `w` says, which takes the player's turn. Without a live player
/// entity nothing is queued and the game goes back to waiting.
pub open spec fn use_queued(pre: World, post: World, w: WantsToUseItem) -> bool {
    let p = pre.player_entity;
    if pre.is_alive(p) {
        &&& post.same_frame(&with_runstate(pre, RunState::PlayerTurn))
        &&& post.entities@ == pre.entities@.update(
            p as int,
            EntityData { wants_to_use: Some(w), ..pre.entities@[p as int] },
        )
    } else {
        post == with_runstate(pre, RunState::AwaitingInput)
    }
}

/// `post` is `pre` after the player entity was given the intent to put an
/// item down as `w` says, which takes the player's turn. Without a live
/// player entity nothing is queued and the game goes back to waiting.
pub open spec fn drop_queued(pre: World, post: World, w: WantsToDropItem) -> bool {
    let p = pre.player_entity;
    if pre.is_alive(p) {
        &&& post.same_frame(&with_runstate(pre, RunState::PlayerTurn))
        &&& post.entities@ == pre.entities@.update(
            p as int,
            EntityData { wants_to_drop: Some(w), ..pre.entities@[p as int] },
        )
    } else {
        post == with_runstate(pre, RunState::AwaitingInput)
    }
}

/// `post` is `pre` after `item` was picked in the inventory menu: an item
/// with a range goes on to aiming, any other is queued for use at once.
pub open spec fn item_chosen(pre: World, post: World, item: Entity) -> bool {
    if item < pre.entities.len() && pre.entities@[item as int].ranged is Some {
        post == with_runstate(
            pre,
            RunState::ShowTargeting {
                range: pre.entities@[item as int].ranged.unwrap().range,
                item,
            },
        )
    } else {
        use_queued(pre, post, WantsToUseItem { item, target: None })
    }
}

/// `post` is `pre` after the step that the run state of `pre` asks for,
/// the death sweep not yet made. A state that runs the systems goes on to
/// the next in the cycle; the waiting state hands the key to the player; a
/// menu goes back to waiting when cancelled, stays without an answer, and
/// queues an intent when something was picked.
pub open spec fn state_stepped(pre: World, post: World, input: TickInput) -> bool {
    match pre.runstate {
        RunState::PreRun => turn_taken(pre, post, input.paths@, RunState::AwaitingInput),
        RunState::PlayerTurn => turn_taken(pre, post, input.paths@, RunState::MonsterTurn),
        RunState::MonsterTurn => turn_taken(pre, post, input.paths@, RunState::AwaitingInput),
        RunState::AwaitingInput => exists|mid: World, next: RunState| #[trigger]
            input_handled(pre, mid, input.key, next) && mid.wf() && post == with_runstate(
                mid,
                next,
            ),
        RunState::ShowInventory => match menu_choice(
            backpack_of(pre.entities@, pre.player_entity),
            input.key,
        ) {
            (ItemMenuResult::Cancel, _) => post == with_runstate(pre, RunState::AwaitingInput),
            (ItemMenuResult::Selected, Some(item)) => item_chosen(pre, post, item),
            _ => post == pre,
        },
        RunState::ShowTargeting { range, item } => match targeting_choice(
            &pre,
            range as int,
            Coord { x: input.mouse_pos.0, y: input.mouse_pos.1 },
            input.left_click,
        ) {
            (ItemMenuResult::Cancel, _) => post == with_runstate(pre, RunState::AwaitingInput),
            (ItemMenuResult::Selected, Some(at)) => use_queued(
                pre,
                post,
                WantsToUseItem { item, target: Some(at) },
            ),
            _ => post == pre,
        },
        RunState::ShowDropItem => match menu_choice(
            backpack_of(pre.entities@, pre.player_entity),
            input.key,
        ) {
            (ItemMenuResult::Cancel, _) => post == with_runstate(pre, RunState::AwaitingInput),
            (ItemMenuResult::Selected, Some(item)) => drop_queued(
                pre,
                post,
                WantsToDropItem { item },
            ),
            _ => post == pre,
        },
    }
}

/// `post` is `pre` one tick later: the step of the run state, then the
/// death sweep.
pub open spec fn ticked(pre: World, post: World, input: TickInput) -> bool {
    exists|mid: World| #[trigger] state_stepped(pre, mid, input) && dead_removed(mid, post)
}

impl State {
    /// Whether the next tick runs all systems, so that it needs the
    /// monsters' paths.
    pub fn needs_paths(&self) -> (b: bool)
        ensures
            b == runs_systems(self.ecs.runstate),
    {
        match self.ecs.runstate {
            RunState::PreRun | RunState::PlayerTurn | RunState::MonsterTurn => true,
            _ => false,
        }
    }

    /// Runs all systems once, in their fixed order, and carries out the
    /// removals that they asked for.
    pub fn run_systems(&mut self, paths: &Vec<NavigationPath>)
        requires
            old(self).ecs.wf(),
        ensures
            systems_ran(old(self).ecs, final(self).ecs, paths@),
            final(self).ecs.wf(),
            final(self).ecs.runstate == old(self).ecs.runstate,
    {
        let mut vis = VisibilitySystem {  };
        vis.run(&mut self.ecs);
        let ghost w1 = self.ecs;
        let mut mob = MonsterAI {  };
        mob.run(&mut self.ecs, paths);
        let ghost w2 = self.ecs;
        let mut mapindex = MapIndexingSystem {  };
        mapindex.run(&mut self.ecs);
        let ghost w3 = self.ecs;
        let mut melee_combat = MeleeCombatSystem {  };
        melee_combat.run(&mut self.ecs);
        let ghost w4 = self.ecs;
        let mut pickup_system = ItemCollectionSystem {  };
        pickup_system.run(&mut self.ecs);
        let ghost w5 = self.ecs;
        let mut use_system = ItemUseSystem {  };
        use_system.run(&mut self.ecs);
        let ghost w6 = self.ecs;
        let mut drop_items = ItemDropSystem {  };
        drop_items.run(&mut self.ecs);
        let ghost w7 = self.ecs;
        self.ecs.maintain();
        proof {
            assert(sight_updated(old(self).ecs, w1) && monsters_moved(w1, w2, paths@)
                && index_rebuilt(w2, w3) && melee_resolved(w3, w4) && items_collected(w4, w5)
                && items_used(w5, w6) && items_dropped(w6, w7) && maintained(w7, self.ecs));
        }
    }

    fn take_turn(&mut self, paths: &Vec<NavigationPath>, next: RunState)
        requires
            old(self).ecs.wf(),
        ensures
            turn_taken(old(self).ecs, final(self).ecs, paths@, next),
            final(self).ecs.wf(),
    {
        self.run_systems(paths);
        let ghost mid = self.ecs;
        self.ecs.runstate = next;
        assert(systems_ran(old(self).ecs, mid, paths@) && self.ecs == with_runstate(mid, next));
    }

    fn queue_use(&mut self, w: WantsToUseItem)
        requires
            old(self).ecs.wf(),
        ensures
            use_queued(old(self).ecs, final(self).ecs, w),
            final(self).ecs.wf(),
    {
        let p = self.ecs.player_entity;
        if self.ecs.alive(p) {
            self.ecs.entities[p].wants_to_use = Some(w);
            self.ecs.runstate = RunState::PlayerTurn;
            proof {
                assert(self.ecs.entities@ =~= old(self).ecs.entities@.update(
                    p as int,
                    EntityData { wants_to_use: Some(w), ..old(self).ecs.entities@[p as int] },
                ));
                assert forall|e: int| 0 <= e < self.ecs.entities.len() implies (
                #[trigger] self.ecs.entities@[e]).wf() by {
                    assert(old(self).ecs.entities@[e].wf());
                }
            }
        } else {
            self.ecs.runstate = RunState::AwaitingInput;
        }
    }

    fn queue_drop(&mut self, w: WantsToDropItem)
        requires
            old(self).ecs.wf(),
        ensures
            drop_queued(old(self).ecs, final(self).ecs, w),
            final(self).ecs.wf(),
    {
        let p = self.ecs.player_entity;
        if self.ecs.alive(p) {
            self.ecs.entities[p].wants_to_drop = Some(w);
            self.ecs.runstate = RunState::PlayerTurn;
            proof {
                assert(self.ecs.entities@ =~= old(self).ecs.entities@.update(
                    p as int,
                    EntityData { wants_to_drop: Some(w), ..old(self).ecs.entities@[p as int] },
                ));
                assert forall|e: int| 0 <= e < self.ecs.entities.len() implies (
                #[trigger] self.ecs.entities@[e]).wf() by {
                    assert(old(self).ecs.entities@[e].wf());
                }
            }
        } else {
            self.ecs.runstate = RunState::AwaitingInput;
        }
    }

    fn step(&mut self, input: &TickInput)
        requires
            old(self).ecs.wf(),
        ensures
            state_stepped(old(self).ecs, final(self).ecs, *input),
            final(self).ecs.wf(),
    {
        let runstate = self.ecs.runstate;
        match runstate {
            RunState::PreRun => {
                self.take_turn(&input.paths, RunState::AwaitingInput);
            },
            RunState::AwaitingInput => {
                let next = player_input(self, input.key);
                let ghost mid = self.ecs;
                self.ecs.runstate = next;
                assert(input_handled(old(self).ecs, mid, input.key, next) && mid.wf() && self.ecs
                    == with_runstate(mid, next));
            },
            RunState::PlayerTurn => {
                self.take_turn(&input.paths, RunState::MonsterTurn);
            },
            RunState::MonsterTurn => {
                self.take_turn(&input.paths, RunState::AwaitingInput);
            },
            RunState::ShowInventory => {
                let result = show_inventory(self, input.key);
                match result.0 {
                    ItemMenuResult::Cancel => {
                        self.ecs.runstate = RunState::AwaitingInput;
                    },
                    ItemMenuResult::NoResponse => {},
                    ItemMenuResult::Selected => {
                        match result.1 {
                            Some(item_entity) => {
                                let mut aimed: Option<i32> = None;
                                if item_entity < self.ecs.entities.len() {
                                    match self.ecs.entities[item_entity].ranged {
                                        Some(ranged) => {
                                            aimed = Some(ranged.range);
                                        },
                                        None => {},
                                    }
                                }
                                match aimed {
                                    Some(range) => {
                                        self.ecs.runstate = RunState::ShowTargeting {
                                            range,
                                            item: item_entity,
                                        };
                                    },
                                    None => {
                                        self.queue_use(
                                            WantsToUseItem { item: item_entity, target: None },
                                        );
                                    },
                                }
                            },
                            None => {},
                        }
                    },
                }
            },
            RunState::ShowTargeting { range, item } => {
                let result = ranged_target(self, range, input.mouse_pos, input.left_click);
                match result.0 {
                    ItemMenuResult::Cancel => {
                        self.ecs.runstate = RunState::AwaitingInput;
                    },
                    ItemMenuResult::NoResponse => {},
                    ItemMenuResult::Selected => {
                        match result.1 {
                            Some(at) => {
                                self.queue_use(WantsToUseItem { item, target: Some(at) });
                            },
                            None => {},
                        }
                    },
                }
            },
            RunState::ShowDropItem => {
                let result = drop_item_menu(self, input.key);
                match result.0 {
                    ItemMenuResult::Cancel => {
                        self.ecs.runstate = RunState::AwaitingInput;
                    },
                    ItemMenuResult::NoResponse => {},
                    ItemMenuResult::Selected => {
                        match result.1 {
                            Some(item_entity) => {
                                self.queue_drop(WantsToDropItem { item: item_entity });
                            },
                            None => {},
                        }
                    },
                }
            },
        }
    }

    /// One tick of the game: the step that the run state asks for, then
    /// the death sweep.
    pub fn tick(&mut self, input: &TickInput)
        requires
            old(self).ecs.wf(),
        ensures
            ticked(old(self).ecs, final(self).ecs, *input),
            final(self).ecs.wf(),
    {
        self.step(input);
        let ghost mid = self.ecs;
        delete_the_dead(&mut self.ecs);
        assert(state_stepped(old(self).ecs, mid, *input) && dead_removed(mid, self.ecs));
    }
}

} // verus!
