use vstd::prelude::*;

verus! {

/// Handle of an entity: its slot in the world's entity table.
pub type Entity = usize;

/// A grid cell, as used for sight, targeting and the player's whereabouts.
#[derive(Clone, Copy, Debug, PartialEq, Eq, Structural)]
pub struct Coord {
    pub x: i32,
    pub y: i32,
}

impl Coord {
    /// The cell in column `x`, row `y`.
    pub fn new(x: i32, y: i32) -> (p: Coord)
        ensures
            p == (Coord { x, y }),
    {
        Coord { x, y }
    }
}

/// The grid cell an entity stands on.
#[derive(Clone, Copy, Debug, PartialEq, Eq, Structural)]
pub struct Position {
    pub x: i32,
    pub y: i32,
}

/// A colour, by its red, green and blue parts.
#[derive(Clone, Copy, Debug, PartialEq, Eq, Structural)]
pub struct Color {
    pub r: u8,
    pub g: u8,
    pub b: u8,
}

/// How an entity is drawn: a code-page-437 glyph, two colours and a drawing
/// priority (lower is drawn later, hence on top).
#[derive(Clone, Copy, Debug, PartialEq, Eq, Structural)]
pub struct Renderable {
    pub glyph: u16,
    pub fg: Color,
    pub bg: Color,
    pub render_order: i32,
}

/// What an entity currently sees, how far it can see, and whether the set
/// has to be computed anew.
#[derive(Debug)]
pub struct Viewshed {
    pub visible_tiles: Vec<Coord>,
    pub range: i32,
    pub dirty: bool,
}

/// What an entity brings to a fight: its hit points and their maximum, the
/// damage it wards off and the damage it deals.
#[derive(Clone, Copy, Debug, PartialEq, Eq, Structural)]
pub struct CombatStats {
    pub max_hp: i32,
    pub hp: i32,
    pub defense: i32,
    pub power: i32,
}

/// Intent: attack `target` this turn.
#[derive(Clone, Copy, Debug, PartialEq, Eq, Structural)]
pub struct WantsToMelee {
    pub target: Entity,
}

/// Intent: `collected_by` picks `item` up this turn.
#[derive(Clone, Copy, Debug, PartialEq, Eq, Structural)]
pub struct WantsToPickupItem {
    pub collected_by: Entity,
    pub item: Entity,
}

/// Intent: use `item` this turn, aimed at `target` where the item is aimed.
#[derive(Clone, Copy, Debug, PartialEq, Eq, Structural)]
pub struct WantsToUseItem {
    pub item: Entity,
    pub target: Option<Coord>,
}

/// Intent: put `item` down this turn.
#[derive(Clone, Copy, Debug, PartialEq, Eq, Structural)]
pub struct WantsToDropItem {
    pub item: Entity,
}

/// The item is carried by `owner`.
#[derive(Clone, Copy, Debug, PartialEq, Eq, Structural)]
pub struct InBackpack {
    pub owner: Entity,
}

/// Using the item restores `heal_amount` hit points to its user.
#[derive(Clone, Copy, Debug, PartialEq, Eq, Structural)]
pub struct ProvidesHealing {
    pub heal_amount: i32,
}

/// Using the item takes `damage` hit points from whoever it hits.
#[derive(Clone, Copy, Debug, PartialEq, Eq, Structural)]
pub struct InflictsDamage {
    pub damage: i32,
}

/// The item is aimed at a cell up to `range` away from its user.
#[derive(Clone, Copy, Debug, PartialEq, Eq, Structural)]
pub struct Ranged {
    pub range: i32,
}

/// The item hits everybody within `radius` of the cell it is aimed at.
#[derive(Clone, Copy, Debug, PartialEq, Eq, Structural)]
pub struct AreaOfEffect {
    pub radius: i32,
}

/// Hit points after healing `amount`: never above `max_hp`, never below 0.
pub open spec fn healed_hp(hp: int, max_hp: int, amount: int) -> int {
    if hp + amount > max_hp {
        max_hp
    } else if hp + amount < 0 {
        0
    } else {
        hp + amount
    }
}

/// Hit points after taking `amount` damage: never below 0. A negative
/// amount does no damage.
pub open spec fn damaged_hp(hp: int, amount: int) -> int {
    if amount <= 0 {
        hp
    } else if hp - amount < 0 {
        0
    } else {
        hp - amount
    }
}

/// Damage of one melee blow: power less defense, never negative.
pub open spec fn melee_damage(power: int, defense: int) -> int {
    if power - defense > 0 { power - defense } else { 0 }
}

impl CombatStats {
    /// Hit points lie between 0 and the maximum.
    pub open spec fn wf(&self) -> bool {
        0 <= self.hp <= self.max_hp
    }

    /// The stats with `amount` hit points restored.
    pub open spec fn healed(self, amount: int) -> CombatStats {
        CombatStats { hp: healed_hp(self.hp as int, self.max_hp as int, amount) as i32, ..self }
    }

    /// The stats with `amount` hit points taken away.
    pub open spec fn damaged(self, amount: int) -> CombatStats {
        CombatStats { hp: damaged_hp(self.hp as int, amount) as i32, ..self }
    }

    /// Restores `amount` hit points, up to the maximum.
    pub fn heal(&mut self, amount: i32)
        requires
            old(self).wf(),
        ensures
            *final(self) == old(self).healed(amount as int),
            final(self).wf(),
    {
        let sum: i64 = self.hp as i64 + amount as i64;
        if sum > self.max_hp as i64 {
            self.hp = self.max_hp;
        } else if sum < 0 {
            self.hp = 0;
        } else {
            self.hp = sum as i32;
        }
    }

    /// Takes `amount` hit points away, down to 0.
    pub fn take_damage(&mut self, amount: i32)
        requires
            old(self).wf(),
        ensures
            *final(self) == old(self).damaged(amount as int),
            final(self).wf(),
    {
        if amount > 0 {
            let rest: i64 = self.hp as i64 - amount as i64;
            if rest < 0 {
                self.hp = 0;
            } else {
                self.hp = rest as i32;
            }
        }
    }
}

/// Whether `p` is one of `points`.
pub fn points_contain(points: &Vec<Coord>, p: Coord) -> (b: bool)
    ensures
        b == points@.contains(p),
{
    let mut k: usize = 0;
    while k < points.len()
        invariant
            k <= points.len(),
            forall|j: int| 0 <= j < k ==> points@[j] != p,
        decreases points.len() - k,
    {
        if points[k].x == p.x && points[k].y == p.y {
            assert(points@[k as int] == p);
            return true;
        }
        k = k + 1;
    }
    false
}

/// Squared straight-line distance between two cells.
pub open spec fn distance_sq(ax: int, ay: int, bx: int, by: int) -> int {
    (ax - bx) * (ax - bx) + (ay - by) * (ay - by)
}

/// Whether cell `(ax, ay)` lies within `radius` of `(bx, by)`, the rim
/// included. No cell lies within a negative radius.
pub open spec fn within_radius(ax: int, ay: int, bx: int, by: int, radius: int) -> bool {
    radius >= 0 && distance_sq(ax, ay, bx, by) <= radius * radius
}

/// Whether cell `(ax, ay)` lies within `radius` of `(bx, by)`.
pub fn in_radius(ax: i32, ay: i32, bx: i32, by: i32, radius: i32) -> (b: bool)
    ensures
        b == within_radius(ax as int, ay as int, bx as int, by as int, radius as int),
{
    if radius < 0 {
        return false;
    }
    let dx: i128 = ax as i128 - bx as i128;
    let dy: i128 = ay as i128 - by as i128;
    let r: i128 = radius as i128;
    assert(dx * dx <= 0x1_0000_0000 * 0x1_0000_0000 && dx * dx >= 0) by (nonlinear_arith)
        requires -0x1_0000_0000 <= dx <= 0x1_0000_0000;
    assert(dy * dy <= 0x1_0000_0000 * 0x1_0000_0000 && dy * dy >= 0) by (nonlinear_arith)
        requires -0x1_0000_0000 <= dy <= 0x1_0000_0000;
    assert(r * r <= 0x1_0000_0000 * 0x1_0000_0000 && r * r >= 0) by (nonlinear_arith)
        requires 0 <= r <= 0x1_0000_0000;
    dx * dx + dy * dy <= r * r
}

} // verus!
