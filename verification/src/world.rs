use vstd::prelude::*;
use crate::components::{Entity, Coord, Position, Renderable, Viewshed, CombatStats, WantsToMelee, WantsToPickupItem, WantsToUseItem, WantsToDropItem, InBackpack, ProvidesHealing, InflictsDamage, Ranged, AreaOfEffect};
use crate::gamelog::GameLog;
use crate::map::{GameMap, in_grid};
use crate::state::RunState;

verus! {

/// Sight ranges up to this one are accepted. The field-of-view search sets
/// aside room for four times the square of the range in cells, which has
/// to stay within what a game may ask of the machine.
pub const MAX_SIGHT_RANGE: i32 = 1000;

/// Everything attached to one entity. A slot that is not alive holds
/// nothing.
#[derive(Debug)]
pub struct EntityData {
    pub alive: bool,
    pub position: Option<Position>,
    pub renderable: Option<Renderable>,
    pub player: bool,
    pub monster: bool,
    pub name: Option<String>,
    pub viewshed: Option<Viewshed>,
    pub blocks_tile: bool,
    pub combat_stats: Option<CombatStats>,
    pub wants_to_melee: Option<WantsToMelee>,
    pub item: bool,
    pub consumable: bool,
    pub provides_healing: Option<ProvidesHealing>,
    pub inflicts_damage: Option<InflictsDamage>,
    pub ranged: Option<Ranged>,
    pub area_of_effect: Option<AreaOfEffect>,
    pub in_backpack: Option<InBackpack>,
    pub wants_to_pickup: Option<WantsToPickupItem>,
    pub wants_to_use: Option<WantsToUseItem>,
    pub wants_to_drop: Option<WantsToDropItem>,
}

/// A slot with nothing attached, alive or not.
pub open spec fn bare_entity(alive: bool) -> EntityData {
    EntityData {
        alive,
        position: None,
        renderable: None,
        player: false,
        monster: false,
        name: None,
        viewshed: None,
        blocks_tile: false,
        combat_stats: None,
        wants_to_melee: None,
        item: false,
        consumable: false,
        provides_healing: None,
        inflicts_damage: None,
        ranged: None,
        area_of_effect: None,
        in_backpack: None,
        wants_to_pickup: None,
        wants_to_use: None,
        wants_to_drop: None,
    }
}

/// Whether every cell of `cells` lies in the grid.
pub fn all_in_grid(cells: &Vec<Coord>) -> (b: bool)
    ensures
        b == forall|k: int|
            0 <= k < cells.len() ==> in_grid((#[trigger] cells@[k]).x as int, cells@[k].y as int),
{
    let mut k: usize = 0;
    while k < cells.len()
        invariant
            k <= cells.len(),
            forall|j: int| 0 <= j < k ==> in_grid((#[trigger] cells@[j]).x as int, cells@[j].y as int),
        decreases cells.len() - k,
    {
        let p = cells[k];
        if p.x < 0 || p.x >= 80 || p.y < 0 || p.y >= 50 {
            assert(!in_grid(cells@[k as int].x as int, cells@[k as int].y as int));
            return false;
        }
        k = k + 1;
    }
    true
}

impl EntityData {
    /// What holds of every slot: a dead one is bare; a position lies in the
    /// grid; hit points lie between 0 and their maximum; the sight range is
    /// one that can be searched and all that is seen lies in the grid; an
    /// item is not both on the ground and in a backpack.
    pub open spec fn wf(&self) -> bool {
        &&& !self.alive ==> *self == bare_entity(false)
        &&& self.position matches Some(p) ==> in_grid(p.x as int, p.y as int)
        &&& self.combat_stats matches Some(s) ==> s.wf()
        &&& self.viewshed matches Some(v) ==> 0 <= v.range <= MAX_SIGHT_RANGE && forall|k: int|
            0 <= k < v.visible_tiles.len() ==> in_grid(
                (#[trigger] v.visible_tiles@[k]).x as int,
                v.visible_tiles@[k].y as int,
            )
        &&& !(self.position is Some && self.in_backpack is Some)
    }

    /// Whether the slot is well formed.
    pub fn is_wf(&self) -> (b: bool)
        ensures
            b == self.wf(),
    {
        if !self.alive {
            let bare = self.position.is_none() && self.renderable.is_none() && !self.player
                && !self.monster && self.name.is_none() && self.viewshed.is_none()
                && !self.blocks_tile && self.combat_stats.is_none()
                && self.wants_to_melee.is_none() && !self.item && !self.consumable
                && self.provides_healing.is_none() && self.inflicts_damage.is_none()
                && self.ranged.is_none() && self.area_of_effect.is_none()
                && self.in_backpack.is_none() && self.wants_to_pickup.is_none()
                && self.wants_to_use.is_none() && self.wants_to_drop.is_none();
            return bare;
        }
        match self.position {
            Some(p) => {
                if p.x < 0 || p.x >= 80 || p.y < 0 || p.y >= 50 || self.in_backpack.is_some() {
                    return false;
                }
            },
            None => {},
        }
        match self.combat_stats {
            Some(s) => {
                if s.hp < 0 || s.hp > s.max_hp {
                    return false;
                }
            },
            None => {},
        }
        match &self.viewshed {
            Some(v) => {
                if v.range < 0 || v.range > MAX_SIGHT_RANGE {
                    return false;
                }
                if !all_in_grid(&v.visible_tiles) {
                    return false;
                }
            },
            None => {},
        }
        true
    }

    /// A slot with nothing attached.
    pub fn new(alive: bool) -> (e: EntityData)
        ensures
            e == bare_entity(alive),
    {
        EntityData {
            alive,
            position: None,
            renderable: None,
            player: false,
            monster: false,
            name: None,
            viewshed: None,
            blocks_tile: false,
            combat_stats: None,
            wants_to_melee: None,
            item: false,
            consumable: false,
            provides_healing: None,
            inflicts_damage: None,
            ranged: None,
            area_of_effect: None,
            in_backpack: None,
            wants_to_pickup: None,
            wants_to_use: None,
            wants_to_drop: None,
        }
    }
}

/// The whole state of a game: the entity table, the map and the few values
/// that belong to the game as such.
pub struct World {
    pub entities: Vec<EntityData>,
    pub map: GameMap,
    pub player_entity: Entity,
    pub player_pos: Coord,
    pub log: GameLog,
    pub runstate: RunState,
    pub rng: rltk::RandomNumberGenerator,
    /// Entities whose removal was asked for and is carried out by `maintain`.
    pub doomed: Vec<Entity>,
}

/// `post` is `pre` with the removals carried out that were asked for:
/// every entity named in `pre.doomed` is gone with all that was attached
/// to it, every other entity is as it was, and no removal is asked for any
/// more.
pub open spec fn maintained(pre: World, post: World) -> bool {
    &&& post.wf()
    &&& post.map == pre.map
    &&& post.player_entity == pre.player_entity
    &&& post.player_pos == pre.player_pos
    &&& post.log == pre.log
    &&& post.runstate == pre.runstate
    &&& post.rng == pre.rng
    &&& post.doomed@ == Seq::<Entity>::empty()
    &&& post.entities.len() == pre.entities.len()
    &&& forall|e: int|
        0 <= e < pre.entities.len() ==> #[trigger] post.entities@[e] == if pre.doomed@.contains(
            e as usize,
        ) {
            bare_entity(false)
        } else {
            pre.entities@[e]
        }
}

impl World {
    /// The map is well formed, the player's cell lies in the grid, and
    /// every slot of the entity table is well formed.
    pub open spec fn wf(&self) -> bool {
        &&& self.map.wf()
        &&& in_grid(self.player_pos.x as int, self.player_pos.y as int)
        &&& forall|e: int| 0 <= e < self.entities.len() ==> (#[trigger] self.entities@[e]).wf()
    }

    /// All but the entity table is the same in `self` and `other`.
    pub open spec fn same_frame(&self, other: &World) -> bool {
        &&& self.map == other.map
        &&& self.player_entity == other.player_entity
        &&& self.player_pos == other.player_pos
        &&& self.log == other.log
        &&& self.runstate == other.runstate
        &&& self.rng == other.rng
        &&& self.doomed == other.doomed
    }

    /// `e` is the handle of a live entity.
    pub open spec fn is_alive(&self, e: Entity) -> bool {
        e < self.entities.len() && self.entities@[e as int].alive
    }

    /// Whether the world is well formed.
    pub fn is_wf(&self) -> (b: bool)
        ensures
            b == self.wf(),
    {
        if !self.map.is_wf() || self.player_pos.x < 0 || self.player_pos.x >= 80
            || self.player_pos.y < 0 || self.player_pos.y >= 50 {
            return false;
        }
        let mut e: usize = 0;
        while e < self.entities.len()
            invariant
                e <= self.entities.len(),
                forall|i: int| 0 <= i < e ==> (#[trigger] self.entities@[i]).wf(),
            decreases self.entities.len() - e,
        {
            if !self.entities[e].is_wf() {
                return false;
            }
            e = e + 1;
        }
        true
    }

    /// A world on `map` without entities, whose log holds a greeting and
    /// whose first system run is still to come.
    pub fn new(map: GameMap, rng: rltk::RandomNumberGenerator) -> (world: World)
        requires
            map.wf(),
        ensures
            world.wf(),
            world.entities@ == Seq::<EntityData>::empty(),
            world.map == map,
            world.rng == rng,
            world.player_entity == 0,
            world.player_pos == (Coord { x: 0, y: 0 }),
            world.log@ == seq!["Welcome to Rusty Roguelike"@],
            world.runstate == RunState::PreRun,
            world.doomed@ == Seq::<Entity>::empty(),
    {
        World {
            entities: Vec::new(),
            map,
            player_entity: 0,
            player_pos: Coord { x: 0, y: 0 },
            log: GameLog::new("Welcome to Rusty Roguelike"),
            runstate: RunState::PreRun,
            rng,
            doomed: Vec::new(),
        }
    }

    /// Whether `e` is the handle of a live entity.
    pub fn alive(&self, e: Entity) -> (b: bool)
        ensures
            b == self.is_alive(e),
    {
        e < self.entities.len() && self.entities[e].alive
    }

    /// Adds a live entity with nothing attached and hands out its handle.
    pub fn create_entity(&mut self) -> (e: Entity)
        requires
            old(self).wf(),
        ensures
            final(self).wf(),
            final(self).same_frame(old(self)),
            e == old(self).entities.len(),
            final(self).entities@ == old(self).entities@.push(bare_entity(true)),
    {
        let e = self.entities.len();
        self.entities.push(EntityData::new(true));
        e
    }

    /// Removes `e` with all that is attached to it, at once. Handles of
    /// other entities stay as they are; a handle that is not alive is
    /// passed over.
    pub fn delete_entity(&mut self, e: Entity)
        requires
            old(self).wf(),
        ensures
            final(self).wf(),
            final(self).same_frame(old(self)),
            final(self).entities@ == if old(self).is_alive(e) {
                old(self).entities@.update(e as int, bare_entity(false))
            } else {
                old(self).entities@
            },
    {
        if e < self.entities.len() && self.entities[e].alive {
            self.entities.set(e, EntityData::new(false));
        }
    }

    /// Asks for the removal of `e` at the next `maintain`.
    pub fn doom(&mut self, e: Entity)
        ensures
            final(self).entities == old(self).entities,
            final(self).map == old(self).map,
            final(self).player_entity == old(self).player_entity,
            final(self).player_pos == old(self).player_pos,
            final(self).log == old(self).log,
            final(self).runstate == old(self).runstate,
            final(self).rng == old(self).rng,
            final(self).doomed@ == old(self).doomed@.push(e),
    {
        self.doomed.push(e);
    }

    /// Carries out the removals that were asked for since the last call:
    /// every entity named in `doomed` is gone, and the list is empty.
    pub fn maintain(&mut self)
        requires
            old(self).wf(),
        ensures
            maintained(*old(self), *final(self)),
    {
        let mut i: usize = 0;
        while i < self.doomed.len()
            invariant
                i <= self.doomed.len(),
                self.wf(),
                self.map == old(self).map,
                self.player_entity == old(self).player_entity,
                self.player_pos == old(self).player_pos,
                self.log == old(self).log,
                self.runstate == old(self).runstate,
                self.rng == old(self).rng,
                self.doomed == old(self).doomed,
                self.entities.len() == old(self).entities.len(),
                forall|e: int|
                    0 <= e < old(self).entities.len() ==> #[trigger] self.entities@[e] == if old(
                        self,
                    ).doomed@.subrange(0, i as int).contains(e as usize) {
                        bare_entity(false)
                    } else {
                        old(self).entities@[e]
                    },
            decreases self.doomed.len() - i,
        {
            let e = self.doomed[i];
            let ghost before = self.entities@;
            self.delete_entity(e);
            proof {
                let prev = old(self).doomed@.subrange(0, i as int);
                let next = old(self).doomed@.subrange(0, i + 1);
                assert(next =~= prev.push(e));
                assert forall|x: int| 0 <= x < old(self).entities.len() implies #[trigger] self.entities@[x]
                    == if next.contains(x as usize) {
                    bare_entity(false)
                } else {
                    old(self).entities@[x]
                } by {
                    if next.contains(x as usize) {
                        let k = choose|k: int| 0 <= k < next.len() && next[k] == x as usize;
                        if k < i {
                            assert(prev[k] == x as usize);
                            assert(prev.contains(x as usize));
                        } else {
                            assert(x == e);
                            assert(before[x].wf());
                        }
                    } else {
                        if prev.contains(x as usize) {
                            let k = choose|k: int| 0 <= k < prev.len() && prev[k] == x as usize;
                            assert(next[k] == x as usize);
                        }
                        assert(next[i as int] == e);
                    }
                }
            }
            i = i + 1;
        }
        assert(old(self).doomed@.subrange(0, i as int) =~= old(self).doomed@);
        self.doomed.clear();
    }
}

} // verus!
