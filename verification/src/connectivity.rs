use vstd::prelude::*;
use crate::map::{TileType, is_floor, row_is_floor, column_is_floor, corridor_joins, well_built, between};
use crate::rect::Rect;

verus! {

/// Two cells share an edge.
pub open spec fn adjacent(a: (int, int), b: (int, int)) -> bool {
    ||| (a.0 == b.0 && (a.1 - b.1 == 1 || b.1 - a.1 == 1))
    ||| (a.1 == b.1 && (a.0 - b.0 == 1 || b.0 - a.0 == 1))
}

/// Every cell of `path` is floor and each shares an edge with the next.
pub open spec fn is_floor_path(tiles: Seq<TileType>, path: Seq<(int, int)>) -> bool {
    &&& forall|k: int| 0 <= k < path.len() ==> is_floor(tiles, (#[trigger] path[k]).0, path[k].1)
    &&& forall|k: int| 0 <= k && k + 1 < path.len() ==> adjacent(#[trigger] path[k], path[k + 1])
}

/// `path` is a floor path that starts at `a` and ends at `b`.
pub open spec fn leads(tiles: Seq<TileType>, path: Seq<(int, int)>, a: (int, int), b: (int, int)) -> bool {
    path.len() > 0 && path[0] == a && path.last() == b && is_floor_path(tiles, path)
}

/// One can walk from `a` to `b` over floor, stepping from a cell to a cell
/// that shares an edge with it.
pub open spec fn floor_connected(tiles: Seq<TileType>, a: (int, int), b: (int, int)) -> bool {
    exists|path: Seq<(int, int)>| leads(tiles, path, a, b)
}

proof fn lemma_row_connected(tiles: Seq<TileType>, x1: int, x2: int, y: int)
    requires
        row_is_floor(tiles, x1, x2, y),
    ensures
        floor_connected(tiles, (x1, y), (x2, y)),
{
    let n = if x1 <= x2 { x2 - x1 + 1 } else { x1 - x2 + 1 };
    let path = Seq::new(n as nat, |k: int| (if x1 <= x2 { x1 + k } else { x1 - k }, y));
    assert forall|k: int| 0 <= k < path.len() implies is_floor(
        tiles,
        (#[trigger] path[k]).0,
        path[k].1,
    ) by {
        assert(between(x1, x2, path[k].0));
    }
    assert(leads(tiles, path, (x1, y), (x2, y)));
}

proof fn lemma_column_connected(tiles: Seq<TileType>, y1: int, y2: int, x: int)
    requires
        column_is_floor(tiles, y1, y2, x),
    ensures
        floor_connected(tiles, (x, y1), (x, y2)),
{
    let n = if y1 <= y2 { y2 - y1 + 1 } else { y1 - y2 + 1 };
    let path = Seq::new(n as nat, |k: int| (x, if y1 <= y2 { y1 + k } else { y1 - k }));
    assert forall|k: int| 0 <= k < path.len() implies is_floor(
        tiles,
        (#[trigger] path[k]).0,
        path[k].1,
    ) by {
        assert(between(y1, y2, path[k].1));
    }
    assert(leads(tiles, path, (x, y1), (x, y2)));
}

/// Walks over floor can be put end to end.
pub proof fn lemma_connected_trans(tiles: Seq<TileType>, a: (int, int), b: (int, int), c: (int, int))
    requires
        floor_connected(tiles, a, b),
        floor_connected(tiles, b, c),
    ensures
        floor_connected(tiles, a, c),
{
    let p = choose|path: Seq<(int, int)>| leads(tiles, path, a, b);
    let q = choose|path: Seq<(int, int)>| leads(tiles, path, b, c);
    let r = p + q.subrange(1, q.len() as int);
    assert forall|k: int| 0 <= k < r.len() implies is_floor(tiles, (#[trigger] r[k]).0, r[k].1) by {
        if k < p.len() {
            assert(r[k] == p[k]);
        } else {
            assert(r[k] == q[k - p.len() + 1]);
        }
    }
    assert forall|k: int| 0 <= k && k + 1 < r.len() implies adjacent(#[trigger] r[k], r[k + 1]) by {
        if k + 1 < p.len() {
            assert(r[k] == p[k] && r[k + 1] == p[k + 1]);
        } else if k + 1 == p.len() {
            assert(r[k] == p[k]);
            assert(p[k] == q[0]);
            assert(r[k + 1] == q[1]);
            assert(adjacent(q[0], q[1]));
        } else {
            let j = k - p.len() + 1;
            assert(r[k] == q[j] && r[k + 1] == q[j + 1]);
            assert(adjacent(q[j], q[j + 1]));
        }
    }
    if q.len() == 1 {
        assert(r =~= p);
        assert(b == c);
    } else {
        assert(r.last() == q.last());
    }
    assert(leads(tiles, r, a, c));
}

/// A corridor between two rooms is a walk over floor from the centre of
/// the one to the centre of the other.
pub proof fn lemma_corridor_connects(tiles: Seq<TileType>, a: Rect, b: Rect)
    requires
        corridor_joins(tiles, a, b),
    ensures
        floor_connected(tiles, (a.center_x(), a.center_y()), (b.center_x(), b.center_y())),
{
    let (ax, ay) = (a.center_x(), a.center_y());
    let (bx, by) = (b.center_x(), b.center_y());
    if row_is_floor(tiles, ax, bx, ay) && column_is_floor(tiles, ay, by, bx) {
        lemma_row_connected(tiles, ax, bx, ay);
        lemma_column_connected(tiles, ay, by, bx);
        lemma_connected_trans(tiles, (ax, ay), (bx, ay), (bx, by));
    } else {
        lemma_column_connected(tiles, ay, by, ax);
        lemma_row_connected(tiles, ax, bx, by);
        lemma_connected_trans(tiles, (ax, ay), (ax, by), (bx, by));
    }
}

/// In a well-built level every room's interior is floor, no two rooms
/// overlap, and from the centre of each room one can walk over floor to the
/// centre of the room accepted after it.
pub proof fn lemma_level_rooms(rooms: Seq<Rect>, tiles: Seq<TileType>, i: int, j: int, x: int, y: int)
    requires
        well_built(rooms, tiles),
        0 <= i < rooms.len(),
        0 <= j < rooms.len(),
    ensures
        rooms[i].interior_contains(x, y) ==> is_floor(tiles, x, y),
        i != j ==> !rooms[i].overlaps(rooms[j]),
        j == i + 1 ==> floor_connected(
            tiles,
            (rooms[i].center_x(), rooms[i].center_y()),
            (rooms[j].center_x(), rooms[j].center_y()),
        ),
{
    if i < j {
        assert(!rooms[i].overlaps(rooms[j]));
    } else if j < i {
        assert(!rooms[j].overlaps(rooms[i]));
    }
    if j == i + 1 {
        assert(corridor_joins(tiles, rooms[i], rooms[i + 1]));
        lemma_corridor_connects(tiles, rooms[i], rooms[j]);
    }
    if rooms[i].interior_contains(x, y) {
        assert(crate::map::room_carved(tiles, rooms[i]));
    }
}

} // verus!
