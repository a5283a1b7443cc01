use vstd::prelude::*;
use crate::components::Entity;
use crate::rect::{Rect, lemma_center_in_interior};
use crate::rng::{new_rng, range, roll_dice};

verus! {

/// Columns of the grid.
pub const MAPWIDTH: usize = 80;

/// Rows of the grid.
pub const MAPHEIGHT: usize = 50;

/// Tiles of the grid.
pub const MAPCOUNT: usize = 4000;

/// What a tile is made of.
#[derive(Clone, Copy, Debug, PartialEq, Eq, Structural)]
pub enum TileType {
    Wall,
    Floor,
}

/// The cell `(x, y)` is one of the grid.
pub open spec fn in_grid(x: int, y: int) -> bool {
    0 <= x < 80 && 0 <= y < 50
}

/// Where the cell `(x, y)` stands in the row-major tile sequence.
pub open spec fn idx_of(x: int, y: int) -> int {
    y * 80 + x
}

/// `v` lies between `a` and `b`, whichever of the two is the smaller.
pub open spec fn between(a: int, b: int, v: int) -> bool {
    (a <= v && v <= b) || (b <= v && v <= a)
}

/// The tiles with the interior of `room` turned into floor.
pub open spec fn carve_room(tiles: Seq<TileType>, room: Rect) -> Seq<TileType> {
    Seq::new(
        tiles.len(),
        |i: int|
            if room.interior_contains(i % 80, i / 80) {
                TileType::Floor
            } else {
                tiles[i]
            },
    )
}

/// The tiles with the cells of row `y` from column `x1` to column `x2`
/// turned into floor; cells outside the grid are passed over.
pub open spec fn carve_horizontal(tiles: Seq<TileType>, x1: int, x2: int, y: int) -> Seq<TileType> {
    Seq::new(
        tiles.len(),
        |i: int|
            if i / 80 == y && between(x1, x2, i % 80) {
                TileType::Floor
            } else {
                tiles[i]
            },
    )
}

/// The tiles with the cells of column `x` from row `y1` to row `y2` turned
/// into floor; cells outside the grid are passed over.
pub open spec fn carve_vertical(tiles: Seq<TileType>, y1: int, y2: int, x: int) -> Seq<TileType> {
    Seq::new(
        tiles.len(),
        |i: int|
            if i % 80 == x && between(y1, y2, i / 80) {
                TileType::Floor
            } else {
                tiles[i]
            },
    )
}

/// Linear index of the tile at column `x`, row `y`.
pub fn xy_idx(x: i32, y: i32) -> (idx: usize)
    requires
        0 <= x,
        0 <= y,
        y * 80 + x <= usize::MAX,
    ensures
        idx == idx_of(x as int, y as int),
{
    (y as usize * 80) + x as usize
}

fn min_i32(a: i32, b: i32) -> (m: i32)
    ensures
        m == if a <= b { a } else { b },
{
    if a <= b { a } else { b }
}

fn max_i32(a: i32, b: i32) -> (m: i32)
    ensures
        m == if a >= b { a } else { b },
{
    if a >= b { a } else { b }
}

/// Turns every interior cell of `room` into floor.
pub fn apply_room_to_map(room: &Rect, map: &mut Vec<TileType>)
    requires
        old(map).len() == 4000,
        room.x1 < room.x2 && room.y1 < room.y2 ==> room.interior_in_grid(),
    ensures
        final(map)@ == carve_room(old(map)@, *room),
{
    if room.x1 >= room.x2 || room.y1 >= room.y2 {
        assert(map@ =~= carve_room(map@, *room));
        return ;
    }
    let ghost before = map@;
    let mut y: i32 = room.y1 + 1;
    while y <= room.y2
        invariant
            map.len() == 4000,
            before.len() == 4000,
            0 <= room.x1 + 1 && room.x1 < room.x2 && room.x2 < 80,
            0 <= room.y1 + 1 && room.y2 < 50,
            room.y1 < y <= room.y2 + 1,
            forall|i: int|
                0 <= i < 4000 ==> #[trigger] map@[i] == if room.x1 < i % 80 <= room.x2 && room.y1
                    < i / 80 < y {
                    TileType::Floor
                } else {
                    before[i]
                },
        decreases room.y2 + 1 - y,
    {
        let mut x: i32 = room.x1 + 1;
        while x <= room.x2
            invariant
                map.len() == 4000,
                before.len() == 4000,
                0 <= room.x1 + 1 && room.x1 < room.x2 && room.x2 < 80,
                0 <= room.y1 + 1 && room.y2 < 50,
                room.y1 < y <= room.y2,
                room.x1 < x <= room.x2 + 1,
                forall|i: int|
                    0 <= i < 4000 ==> #[trigger] map@[i] == if room.x1 < i % 80 <= room.x2 && (
                    room.y1 < i / 80 < y || (i / 80 == y && i % 80 < x)) {
                        TileType::Floor
                    } else {
                        before[i]
                    },
            decreases room.x2 + 1 - x,
        {
            let idx = xy_idx(x, y);
            map.set(idx, TileType::Floor);
            x = x + 1;
        }
        y = y + 1;
    }
    assert(map@ =~= carve_room(before, *room));
}

/// Carves a corridor along row `y` between columns `x1` and `x2`. Cells
/// outside the grid are passed over.
pub fn apply_horizontal_tunnel(map: &mut Vec<TileType>, x1: i32, x2: i32, y: i32)
    requires
        old(map).len() == 4000,
    ensures
        final(map)@ == carve_horizontal(old(map)@, x1 as int, x2 as int, y as int),
{
    let ghost before = map@;
    if y < 0 || y >= 50 {
        assert(map@ =~= carve_horizontal(before, x1 as int, x2 as int, y as int));
        return ;
    }
    let lo = max_i32(min_i32(x1, x2), 0);
    let hi = min_i32(max_i32(x1, x2), 79);
    let mut x: i32 = lo;
    while x <= hi
        invariant
            map.len() == 4000,
            before.len() == 4000,
            0 <= y < 50,
            lo == if x1 <= x2 { if x1 >= 0 { x1 } else { 0 } } else { if x2 >= 0 { x2 } else { 0 } },
            hi == if x1 >= x2 { if x1 <= 79 { x1 } else { 79 } } else { if x2 <= 79 { x2 } else { 79 } },
            lo <= x,
            lo <= hi ==> x <= hi + 1,
            lo > hi ==> x == lo,
            forall|i: int|
                0 <= i < 4000 ==> #[trigger] map@[i] == if i / 80 == y && lo <= i % 80
                    < x {
                    TileType::Floor
                } else {
                    before[i]
                },
        decreases hi + 1 - x,
    {
        let idx = xy_idx(x, y);
        if idx < MAPCOUNT {
            map.set(idx, TileType::Floor);
        }
        x = x + 1;
    }
    assert(map@ =~= carve_horizontal(before, x1 as int, x2 as int, y as int));
}

/// Carves a corridor along column `x` between rows `y1` and `y2`. Cells
/// outside the grid are passed over.
pub fn apply_vertical_tunnel(map: &mut Vec<TileType>, y1: i32, y2: i32, x: i32)
    requires
        old(map).len() == 4000,
    ensures
        final(map)@ == carve_vertical(old(map)@, y1 as int, y2 as int, x as int),
{
    let ghost before = map@;
    if x < 0 || x >= 80 {
        assert(map@ =~= carve_vertical(before, y1 as int, y2 as int, x as int));
        return ;
    }
    let lo = max_i32(min_i32(y1, y2), 0);
    let hi = min_i32(max_i32(y1, y2), 49);
    let mut y: i32 = lo;
    while y <= hi
        invariant
            map.len() == 4000,
            before.len() == 4000,
            0 <= x < 80,
            lo == if y1 <= y2 { if y1 >= 0 { y1 } else { 0 } } else { if y2 >= 0 { y2 } else { 0 } },
            hi == if y1 >= y2 { if y1 <= 49 { y1 } else { 49 } } else { if y2 <= 49 { y2 } else { 49 } },
            lo <= y,
            lo <= hi ==> y <= hi + 1,
            lo > hi ==> y == lo,
            forall|i: int|
                0 <= i < 4000 ==> #[trigger] map@[i] == if i % 80 == x && lo <= i / 80
                    < y {
                    TileType::Floor
                } else {
                    before[i]
                },
        decreases hi + 1 - y,
    {
        let idx = xy_idx(x, y);
        if idx < MAPCOUNT {
            map.set(idx, TileType::Floor);
        }
        y = y + 1;
    }
    assert(map@ =~= carve_vertical(before, y1 as int, y2 as int, x as int));
}

/// The cell `(x, y)` is a floor tile of the grid.
pub open spec fn is_floor(tiles: Seq<TileType>, x: int, y: int) -> bool {
    in_grid(x, y) && tiles[idx_of(x, y)] == TileType::Floor
}

/// Every interior cell of `room` is floor.
pub open spec fn room_carved(tiles: Seq<TileType>, room: Rect) -> bool {
    forall|x: int, y: int| room.interior_contains(x, y) ==> #[trigger] is_floor(tiles, x, y)
}

/// Row `y` is floor from column `x1` to column `x2`.
pub open spec fn row_is_floor(tiles: Seq<TileType>, x1: int, x2: int, y: int) -> bool {
    forall|x: int| between(x1, x2, x) ==> #[trigger] is_floor(tiles, x, y)
}

/// Column `x` is floor from row `y1` to row `y2`.
pub open spec fn column_is_floor(tiles: Seq<TileType>, y1: int, y2: int, x: int) -> bool {
    forall|y: int| between(y1, y2, y) ==> #[trigger] is_floor(tiles, x, y)
}

/// An L-shaped run of floor joins the centres of `a` and `b`: along the
/// row of one centre and the column of the other.
pub open spec fn corridor_joins(tiles: Seq<TileType>, a: Rect, b: Rect) -> bool {
    ||| (row_is_floor(tiles, a.center_x(), b.center_x(), a.center_y()) && column_is_floor(
        tiles,
        a.center_y(),
        b.center_y(),
        b.center_x(),
    ))
    ||| (column_is_floor(tiles, a.center_y(), b.center_y(), a.center_x()) && row_is_floor(
        tiles,
        a.center_x(),
        b.center_x(),
        b.center_y(),
    ))
}

/// What holds of rooms and tiles at every stage of building a level: the
/// rooms fit the grid, their interiors are floor, no two of them overlap,
/// and each is joined to the next by a corridor.
pub open spec fn well_built(rooms: Seq<Rect>, tiles: Seq<TileType>) -> bool {
    &&& tiles.len() == 4000
    &&& forall|i: int| 0 <= i < rooms.len() ==> (#[trigger] rooms[i]).fits_grid()
    &&& forall|i: int| 0 <= i < rooms.len() ==> room_carved(tiles, #[trigger] rooms[i])
    &&& forall|i: int, j: int|
        0 <= i < j < rooms.len() ==> !(#[trigger] rooms[i]).overlaps(#[trigger] rooms[j])
    &&& forall|i: int|
        0 <= i && i + 1 < rooms.len() ==> corridor_joins(tiles, #[trigger] rooms[i], rooms[i + 1])
}

/// `room` overlaps none of `rooms`.
pub open spec fn room_is_free(rooms: Seq<Rect>, room: Rect) -> bool {
    forall|i: int| 0 <= i < rooms.len() ==> !room.overlaps(#[trigger] rooms[i])
}

/// The tiles after `room` was accepted: its interior carved, and a corridor
/// from the centre of the room before it, if there is one.
pub open spec fn place_room_tiles(
    rooms: Seq<Rect>,
    tiles: Seq<TileType>,
    room: Rect,
    horizontal_first: bool,
) -> Seq<TileType> {
    let carved = carve_room(tiles, room);
    if rooms.len() == 0 {
        carved
    } else {
        let prev = rooms.last();
        if horizontal_first {
            carve_vertical(
                carve_horizontal(carved, prev.center_x(), room.center_x(), prev.center_y()),
                prev.center_y(),
                room.center_y(),
                room.center_x(),
            )
        } else {
            carve_horizontal(
                carve_vertical(carved, prev.center_y(), room.center_y(), prev.center_x()),
                prev.center_x(),
                room.center_x(),
                room.center_y(),
            )
        }
    }
}

/// Every floor tile of `before` is a floor tile of `after`.
pub open spec fn floor_kept(before: Seq<TileType>, after: Seq<TileType>) -> bool {
    &&& before.len() == after.len()
    &&& forall|i: int|
        0 <= i < before.len() && before[i] == TileType::Floor ==> #[trigger] after[i]
            == TileType::Floor
}

proof fn lemma_room_kept(before: Seq<TileType>, after: Seq<TileType>, r: Rect)
    requires
        floor_kept(before, after),
        r.fits_grid(),
        before.len() == 4000,
        room_carved(before, r),
    ensures
        room_carved(after, r),
{
    assert forall|x: int, y: int| r.interior_contains(x, y) implies #[trigger] is_floor(
        after,
        x,
        y,
    ) by {
        assert(is_floor(before, x, y));
        assert(after[idx_of(x, y)] == TileType::Floor);
    }
}

proof fn lemma_row_kept(before: Seq<TileType>, after: Seq<TileType>, x1: int, x2: int, y: int)
    requires
        floor_kept(before, after),
        before.len() == 4000,
        row_is_floor(before, x1, x2, y),
    ensures
        row_is_floor(after, x1, x2, y),
{
    assert forall|x: int| between(x1, x2, x) implies #[trigger] is_floor(after, x, y) by {
        assert(is_floor(before, x, y));
        assert(after[idx_of(x, y)] == TileType::Floor);
    }
}

proof fn lemma_column_kept(before: Seq<TileType>, after: Seq<TileType>, y1: int, y2: int, x: int)
    requires
        floor_kept(before, after),
        before.len() == 4000,
        column_is_floor(before, y1, y2, x),
    ensures
        column_is_floor(after, y1, y2, x),
{
    assert forall|y: int| between(y1, y2, y) implies #[trigger] is_floor(after, x, y) by {
        assert(is_floor(before, x, y));
        assert(after[idx_of(x, y)] == TileType::Floor);
    }
}

proof fn lemma_corridor_kept(before: Seq<TileType>, after: Seq<TileType>, a: Rect, b: Rect)
    requires
        floor_kept(before, after),
        before.len() == 4000,
        corridor_joins(before, a, b),
    ensures
        corridor_joins(after, a, b),
{
    if row_is_floor(before, a.center_x(), b.center_x(), a.center_y()) && column_is_floor(
        before,
        a.center_y(),
        b.center_y(),
        b.center_x(),
    ) {
        lemma_row_kept(before, after, a.center_x(), b.center_x(), a.center_y());
        lemma_column_kept(before, after, a.center_y(), b.center_y(), b.center_x());
    } else {
        lemma_column_kept(before, after, a.center_y(), b.center_y(), a.center_x());
        lemma_row_kept(before, after, a.center_x(), b.center_x(), b.center_y());
    }
}

proof fn lemma_carve_room(tiles: Seq<TileType>, room: Rect)
    requires
        tiles.len() == 4000,
        room.fits_grid(),
    ensures
        floor_kept(tiles, carve_room(tiles, room)),
        room_carved(carve_room(tiles, room), room),
{
    let carved = carve_room(tiles, room);
    assert forall|x: int, y: int| room.interior_contains(x, y) implies #[trigger] is_floor(
        carved,
        x,
        y,
    ) by {
        let i = idx_of(x, y);
        assert(i % 80 == x && i / 80 == y);
    }
}

proof fn lemma_carve_horizontal(tiles: Seq<TileType>, x1: int, x2: int, y: int)
    requires
        tiles.len() == 4000,
        0 <= x1 < 80,
        0 <= x2 < 80,
        0 <= y < 50,
    ensures
        floor_kept(tiles, carve_horizontal(tiles, x1, x2, y)),
        row_is_floor(carve_horizontal(tiles, x1, x2, y), x1, x2, y),
{
    let after = carve_horizontal(tiles, x1, x2, y);
    assert forall|x: int| between(x1, x2, x) implies #[trigger] is_floor(after, x, y) by {
        let i = idx_of(x, y);
        assert(i % 80 == x && i / 80 == y);
    }
}

proof fn lemma_carve_vertical(tiles: Seq<TileType>, y1: int, y2: int, x: int)
    requires
        tiles.len() == 4000,
        0 <= y1 < 50,
        0 <= y2 < 50,
        0 <= x < 80,
    ensures
        floor_kept(tiles, carve_vertical(tiles, y1, y2, x)),
        column_is_floor(carve_vertical(tiles, y1, y2, x), y1, y2, x),
{
    let after = carve_vertical(tiles, y1, y2, x);
    assert forall|y: int| between(y1, y2, y) implies #[trigger] is_floor(after, x, y) by {
        let i = idx_of(x, y);
        assert(i % 80 == x && i / 80 == y);
    }
}

proof fn lemma_floor_kept_trans(a: Seq<TileType>, b: Seq<TileType>, c: Seq<TileType>)
    requires
        floor_kept(a, b),
        floor_kept(b, c),
    ensures
        floor_kept(a, c),
{
    assert forall|i: int| 0 <= i < a.len() && a[i] == TileType::Floor implies #[trigger] c[i]
        == TileType::Floor by {
        assert(b[i] == TileType::Floor);
    }
}

proof fn lemma_place_room_keeps_floor(
    rooms: Seq<Rect>,
    tiles: Seq<TileType>,
    room: Rect,
    horizontal_first: bool,
)
    ensures
        floor_kept(tiles, place_room_tiles(rooms, tiles, room, horizontal_first)),
{
    let after = place_room_tiles(rooms, tiles, room, horizontal_first);
    let carved = carve_room(tiles, room);
    if rooms.len() > 0 {
        let prev = rooms.last();
        let px = prev.center_x();
        let py = prev.center_y();
        let rx = room.center_x();
        let ry = room.center_y();
        if horizontal_first {
            let mid = carve_horizontal(carved, px, rx, py);
            lemma_floor_kept_trans(carved, mid, after);
            lemma_floor_kept_trans(tiles, carved, after);
        } else {
            let mid = carve_vertical(carved, py, ry, px);
            lemma_floor_kept_trans(carved, mid, after);
            lemma_floor_kept_trans(tiles, carved, after);
        }
    }
}

proof fn lemma_place_room_tiles(
    rooms: Seq<Rect>,
    tiles: Seq<TileType>,
    room: Rect,
    horizontal_first: bool,
)
    requires
        tiles.len() == 4000,
        room.fits_grid(),
        rooms.len() > 0 ==> rooms.last().fits_grid(),
    ensures
        floor_kept(tiles, place_room_tiles(rooms, tiles, room, horizontal_first)),
        room_carved(place_room_tiles(rooms, tiles, room, horizontal_first), room),
        rooms.len() > 0 ==> corridor_joins(
            place_room_tiles(rooms, tiles, room, horizontal_first),
            rooms.last(),
            room,
        ),
{
    let after = place_room_tiles(rooms, tiles, room, horizontal_first);
    let carved = carve_room(tiles, room);
    lemma_carve_room(tiles, room);
    lemma_place_room_keeps_floor(rooms, tiles, room, horizontal_first);
    if rooms.len() > 0 {
        let prev = rooms.last();
        lemma_center_in_interior(prev);
        lemma_center_in_interior(room);
        let px = prev.center_x();
        let py = prev.center_y();
        let rx = room.center_x();
        let ry = room.center_y();
        if horizontal_first {
            let mid = carve_horizontal(carved, px, rx, py);
            lemma_carve_horizontal(carved, px, rx, py);
            lemma_carve_vertical(mid, py, ry, rx);
            lemma_floor_kept_trans(carved, mid, after);
            lemma_row_kept(mid, after, px, rx, py);
            lemma_room_kept(carved, after, room);
        } else {
            let mid = carve_vertical(carved, py, ry, px);
            lemma_carve_vertical(carved, py, ry, px);
            lemma_carve_horizontal(mid, px, rx, ry);
            lemma_floor_kept_trans(carved, mid, after);
            lemma_column_kept(mid, after, py, ry, px);
            lemma_room_kept(carved, after, room);
        }
    }
}

/// Accepting a room that fits the grid and is free keeps a level well built.
pub proof fn lemma_place_room_well_built(
    rooms: Seq<Rect>,
    tiles: Seq<TileType>,
    room: Rect,
    horizontal_first: bool,
)
    requires
        well_built(rooms, tiles),
        room.fits_grid(),
        room_is_free(rooms, room),
    ensures
        well_built(rooms.push(room), place_room_tiles(rooms, tiles, room, horizontal_first)),
        floor_kept(tiles, place_room_tiles(rooms, tiles, room, horizontal_first)),
{
    let after = place_room_tiles(rooms, tiles, room, horizontal_first);
    let new_rooms = rooms.push(room);
    if rooms.len() > 0 {
        assert(rooms.last() == rooms[rooms.len() - 1]);
    }
    lemma_place_room_tiles(rooms, tiles, room, horizontal_first);
    assert forall|i: int| 0 <= i < new_rooms.len() implies room_carved(
        after,
        #[trigger] new_rooms[i],
    ) by {
        if i < rooms.len() {
            assert(rooms[i].fits_grid());
            lemma_room_kept(tiles, after, rooms[i]);
        }
    }
    assert forall|i: int, j: int| 0 <= i < j < new_rooms.len() implies !(#[trigger] new_rooms[i]).overlaps(
        #[trigger] new_rooms[j],
    ) by {
        if j < rooms.len() {
            assert(!rooms[i].overlaps(rooms[j]));
        } else {
            assert(!room.overlaps(rooms[i]));
        }
    }
    assert forall|i: int| 0 <= i && i + 1 < new_rooms.len() implies corridor_joins(
        after,
        #[trigger] new_rooms[i],
        new_rooms[i + 1],
    ) by {
        if i + 1 < rooms.len() {
            lemma_corridor_kept(tiles, after, rooms[i], rooms[i + 1]);
        } else {
            assert(new_rooms[i] == rooms.last());
            assert(new_rooms[i + 1] == room);
        }
    }
}

/// Whether `room` overlaps none of the rooms accepted so far.
pub fn can_place_room(rooms: &Vec<Rect>, room: &Rect) -> (ok: bool)
    ensures
        ok == room_is_free(rooms@, *room),
{
    let mut ok = true;
    let mut i: usize = 0;
    while i < rooms.len()
        invariant
            i <= rooms.len(),
            ok == forall|k: int| 0 <= k < i ==> !room.overlaps(#[trigger] rooms@[k]),
        decreases rooms.len() - i,
    {
        if room.intersect(&rooms[i]) {
            ok = false;
        }
        i = i + 1;
    }
    ok
}

/// Accepts `new_room`: carves it, joins it to the room accepted before it
/// by an L-shaped corridor between the two centres, along the row first if
/// `horizontal_first` and along the column first if not, and records it.
/// A level that was well built stays so, where the room fits the grid and
/// overlaps no room of the level.
pub fn place_room(
    rooms: &mut Vec<Rect>,
    map: &mut Vec<TileType>,
    new_room: Rect,
    horizontal_first: bool,
)
    requires
        old(map).len() == 4000,
        new_room.x1 < new_room.x2 && new_room.y1 < new_room.y2 ==> new_room.interior_in_grid(),
        new_room.has_center(),
        old(rooms).len() > 0 ==> old(rooms)@.last().has_center(),
    ensures
        final(rooms)@ == old(rooms)@.push(new_room),
        final(map)@ == place_room_tiles(old(rooms)@, old(map)@, new_room, horizontal_first),
        floor_kept(old(map)@, final(map)@),
        well_built(old(rooms)@, old(map)@) && new_room.fits_grid() && room_is_free(
            old(rooms)@,
            new_room,
        ) ==> well_built(final(rooms)@, final(map)@),
{
    proof {
        lemma_place_room_keeps_floor(rooms@, map@, new_room, horizontal_first);
        if well_built(rooms@, map@) && new_room.fits_grid() && room_is_free(rooms@, new_room) {
            lemma_place_room_well_built(rooms@, map@, new_room, horizontal_first);
        }
    }
    apply_room_to_map(&new_room, map);
    if !rooms.is_empty() {
        let (new_x, new_y) = new_room.center();
        let (prev_x, prev_y) = rooms[rooms.len() - 1].center();
        if horizontal_first {
            apply_horizontal_tunnel(map, prev_x, new_x, prev_y);
            apply_vertical_tunnel(map, prev_y, new_y, new_x);
        } else {
            apply_vertical_tunnel(map, prev_y, new_y, prev_x);
            apply_horizontal_tunnel(map, prev_x, new_x, new_y);
        }
    }
    rooms.push(new_room);
}

/// How many rooms the generator tries to place.
pub const MAX_ROOMS: i32 = 30;

/// The least width and height of a room.
pub const MIN_SIZE: i32 = 6;

/// The width and height that a room stays below.
pub const MAX_SIZE: i32 = 10;

/// The tiles of a level into which the first `n` of `rooms` were accepted
/// one after the other, starting from solid rock; `flips[i]` says whether
/// the corridor to room `i` runs along the row first.
pub open spec fn level_tiles(rooms: Seq<Rect>, flips: Seq<bool>, n: int) -> Seq<TileType>
    decreases n,
{
    if n <= 0 {
        Seq::new(4000, |i: int| TileType::Wall)
    } else {
        place_room_tiles(
            rooms.subrange(0, n - 1),
            level_tiles(rooms, flips, n - 1),
            rooms[n - 1],
            flips[n - 1],
        )
    }
}

/// Every room is at least `MIN_SIZE` and less than `MAX_SIZE` wide and
/// high.
pub open spec fn rooms_sized(rooms: Seq<Rect>) -> bool {
    forall|i: int|
        0 <= i < rooms.len() ==> MIN_SIZE <= (#[trigger] rooms[i]).x2 - rooms[i].x1 < MAX_SIZE
            && MIN_SIZE <= rooms[i].y2 - rooms[i].y1 < MAX_SIZE
}

/// Every room keeps clear of the rim of the grid: it lies between column
/// 0 and column 78 and between row 0 and row 48, so that its interior and
/// its centre are inner cells.
pub open spec fn rooms_inside(rooms: Seq<Rect>) -> bool {
    forall|i: int|
        0 <= i < rooms.len() ==> 0 <= (#[trigger] rooms[i]).x1 && rooms[i].x2 <= 78 && 0
            <= rooms[i].y1 && rooms[i].y2 <= 48
}

/// Every tile on the rim of the grid is wall.
pub open spec fn rim_is_wall(tiles: Seq<TileType>) -> bool {
    forall|x: int, y: int| on_border(x, y) ==> tiles[#[trigger] idx_of(x, y)] == TileType::Wall
}

/// `rooms` and `tiles` are a level as the generator builds them: at least
/// one and at most `MAX_ROOMS` rooms of the configured size that keep
/// clear of the rim, well built, the rim all wall, and no tile is floor
/// but those of the rooms and of the corridors between each room and the
/// next.
pub open spec fn is_level(rooms: Seq<Rect>, tiles: Seq<TileType>) -> bool {
    &&& 1 <= rooms.len() <= MAX_ROOMS
    &&& rooms_sized(rooms)
    &&& rooms_inside(rooms)
    &&& well_built(rooms, tiles)
    &&& rim_is_wall(tiles)
    &&& exists|flips: Seq<bool>|
        flips.len() == rooms.len() && tiles == #[trigger] level_tiles(
            rooms,
            flips,
            rooms.len() as int,
        )
}

/// The room is of the configured size and keeps clear of the rim.
spec fn inner_room(room: Rect) -> bool {
    &&& 0 <= room.x1 && room.x2 <= 78 && 0 <= room.y1 && room.y2 <= 48
    &&& MIN_SIZE <= room.x2 - room.x1 < MAX_SIZE
    &&& MIN_SIZE <= room.y2 - room.y1 < MAX_SIZE
}

proof fn lemma_place_room_keeps_rim(
    rooms: Seq<Rect>,
    tiles: Seq<TileType>,
    room: Rect,
    horizontal_first: bool,
)
    requires
        tiles.len() == 4000,
        rim_is_wall(tiles),
        inner_room(room),
        rooms.len() > 0 ==> inner_room(rooms.last()),
    ensures
        rim_is_wall(place_room_tiles(rooms, tiles, room, horizontal_first)),
{
    let after = place_room_tiles(rooms, tiles, room, horizontal_first);
    let carved = carve_room(tiles, room);
    assert forall|x: int, y: int| on_border(x, y) implies after[#[trigger] idx_of(x, y)]
        == TileType::Wall by {
        let i = idx_of(x, y);
        assert(i % 80 == x && i / 80 == y);
        assert(tiles[i] == TileType::Wall);
        assert(carved[i] == TileType::Wall);
        if rooms.len() > 0 {
            let prev = rooms.last();
            let px = prev.center_x();
            let py = prev.center_y();
            let rx = room.center_x();
            let ry = room.center_y();
            assert(1 <= px <= 77 && 1 <= py <= 47 && 1 <= rx <= 77 && 1 <= ry <= 47);
            if horizontal_first {
                let mid = carve_horizontal(carved, px, rx, py);
                assert(mid[i] == TileType::Wall);
            } else {
                let mid = carve_vertical(carved, py, ry, px);
                assert(mid[i] == TileType::Wall);
            }
        }
    }
}

proof fn lemma_level_tiles_prefix(
    rooms: Seq<Rect>,
    flips: Seq<bool>,
    more_rooms: Seq<Rect>,
    more_flips: Seq<bool>,
    n: int,
)
    requires
        0 <= n <= rooms.len(),
        n <= flips.len(),
        rooms.len() <= more_rooms.len(),
        flips.len() <= more_flips.len(),
        forall|i: int| 0 <= i < n ==> rooms[i] == more_rooms[i],
        forall|i: int| 0 <= i < n ==> flips[i] == more_flips[i],
    ensures
        level_tiles(rooms, flips, n) == level_tiles(more_rooms, more_flips, n),
    decreases n,
{
    if n > 0 {
        lemma_level_tiles_prefix(rooms, flips, more_rooms, more_flips, n - 1);
        assert(rooms.subrange(0, n - 1) =~= more_rooms.subrange(0, n - 1));
    }
}

/// Builds a level with the numbers that `rng` hands out: `MAX_ROOMS` times
/// over it draws a room of random size and place and accepts it where it
/// overlaps no room accepted before, joining it to the room before it.
/// Whatever the numbers, the outcome is a level.
pub fn build_rooms_and_corridors(rng: &mut rltk::RandomNumberGenerator) -> (level: (
    Vec<Rect>,
    Vec<TileType>,
))
    ensures
        is_level(level.0@, level.1@),
{
    let mut map = vec![TileType::Wall; MAPCOUNT];
    let mut rooms: Vec<Rect> = Vec::new();
    let ghost mut flips: Seq<bool> = Seq::empty();
    assert(map@ =~= level_tiles(rooms@, flips, 0));
    let mut n: i32 = 0;
    while n < MAX_ROOMS
        invariant
            0 <= n <= 30,
            rooms.len() <= n,
            n > 0 ==> rooms.len() >= 1,
            forall|i: int| 0 <= i < rooms.len() ==> inner_room(#[trigger] rooms@[i]),
            well_built(rooms@, map@),
            rim_is_wall(map@),
            flips.len() == rooms.len(),
            map@ == level_tiles(rooms@, flips, rooms.len() as int),
        decreases 30 - n,
    {
        let w = range(rng, MIN_SIZE, MAX_SIZE);
        let h = range(rng, MIN_SIZE, MAX_SIZE);
        let x = roll_dice(rng, 1, 80 - w - 1) - 1;
        let y = roll_dice(rng, 1, 50 - h - 1) - 1;
        let new_room = Rect::new(x, y, w, h);
        if can_place_room(&rooms, &new_room) {
            let mut horizontal_first = false;
            if !rooms.is_empty() {
                horizontal_first = range(rng, 0, 2) == 1;
                assert(rooms@.last() == rooms@[rooms.len() - 1]);
            }
            let ghost before_rooms = rooms@;
            let ghost before_flips = flips;
            proof {
                lemma_place_room_keeps_rim(rooms@, map@, new_room, horizontal_first);
            }
            place_room(&mut rooms, &mut map, new_room, horizontal_first);
            proof {
                flips = flips.push(horizontal_first);
                let k = before_rooms.len() as int;
                lemma_level_tiles_prefix(before_rooms, before_flips, rooms@, flips, k);
                assert(rooms@.subrange(0, k) =~= before_rooms);
                assert forall|i: int| 0 <= i < rooms.len() implies inner_room(
                    #[trigger] rooms@[i],
                ) by {
                    if i < k {
                        assert(rooms@[i] == before_rooms[i]);
                    }
                }
            }
        }
        n = n + 1;
    }
    proof {
        assert forall|i: int| 0 <= i < rooms.len() implies MIN_SIZE <= (#[trigger] rooms@[i]).x2
            - rooms@[i].x1 < MAX_SIZE && MIN_SIZE <= rooms@[i].y2 - rooms@[i].y1 < MAX_SIZE by {
            assert(inner_room(rooms@[i]));
        }
        assert forall|i: int| 0 <= i < rooms.len() implies 0 <= (#[trigger] rooms@[i]).x1
            && rooms@[i].x2 <= 78 && 0 <= rooms@[i].y1 && rooms@[i].y2 <= 48 by {
            assert(inner_room(rooms@[i]));
        }
    }
    (rooms, map)
}

/// A freshly built level of rooms and corridors.
pub fn new_map_rooms_and_corridors() -> (level: (Vec<Rect>, Vec<TileType>))
    ensures
        is_level(level.0@, level.1@),
{
    let mut rng = new_rng();
    build_rooms_and_corridors(&mut rng)
}

/// The cell `(x, y)` is on the rim of the grid.
pub open spec fn on_border(x: int, y: int) -> bool {
    in_grid(x, y) && (x == 0 || x == 79 || y == 0 || y == 49)
}

/// What holds of every test arena: the rim is wall and the middle cell,
/// where play starts, is floor.
pub open spec fn is_test_arena(tiles: Seq<TileType>) -> bool {
    &&& tiles.len() == 4000
    &&& forall|x: int, y: int| on_border(x, y) ==> tiles[#[trigger] idx_of(x, y)] == TileType::Wall
    &&& tiles[idx_of(40, 25)] == TileType::Floor
}

/// An open arena: floor everywhere but on the rim.
pub fn walled_arena() -> (map: Vec<TileType>)
    ensures
        map.len() == 4000,
        forall|x: int, y: int|
            in_grid(x, y) ==> map@[#[trigger] idx_of(x, y)] == if on_border(x, y) {
                TileType::Wall
            } else {
                TileType::Floor
            },
{
    let mut map = vec![TileType::Floor; MAPCOUNT];
    let mut x: i32 = 0;
    while x < 80
        invariant
            0 <= x <= 80,
            map.len() == 4000,
            forall|i: int|
                0 <= i < 4000 ==> #[trigger] map@[i] == if (i / 80 == 0 || i / 80 == 49) && i % 80
                    < x {
                    TileType::Wall
                } else {
                    TileType::Floor
                },
        decreases 80 - x,
    {
        map.set(xy_idx(x, 0), TileType::Wall);
        map.set(xy_idx(x, 49), TileType::Wall);
        x = x + 1;
    }
    let mut y: i32 = 0;
    while y < 50
        invariant
            0 <= y <= 50,
            map.len() == 4000,
            forall|i: int|
                0 <= i < 4000 ==> #[trigger] map@[i] == if i / 80 == 0 || i / 80 == 49 || ((i % 80
                    == 0 || i % 80 == 79) && i / 80 < y) {
                    TileType::Wall
                } else {
                    TileType::Floor
                },
        decreases 50 - y,
    {
        map.set(xy_idx(0, y), TileType::Wall);
        map.set(xy_idx(79, y), TileType::Wall);
        y = y + 1;
    }
    assert forall|x: int, y: int| in_grid(x, y) implies map@[#[trigger] idx_of(x, y)] == if on_border(
        x,
        y,
    ) {
        TileType::Wall
    } else {
        TileType::Floor
    } by {
        let i = idx_of(x, y);
        assert(i % 80 == x && i / 80 == y);
    }
    map
}

/// Puts a wall on the cell `(x, y)`, unless that is the middle cell.
pub fn place_test_wall(map: &mut Vec<TileType>, x: i32, y: i32)
    requires
        old(map).len() == 4000,
        in_grid(x as int, y as int),
    ensures
        final(map)@ == if idx_of(x as int, y as int) != idx_of(40, 25) {
            old(map)@.update(idx_of(x as int, y as int), TileType::Wall)
        } else {
            old(map)@
        },
{
    let idx = xy_idx(x, y);
    if idx != xy_idx(40, 25) {
        map.set(idx, TileType::Wall);
    }
}

/// A test arena with up to 400 walls strewn at random over its floor.
pub fn new_map_test() -> (map: Vec<TileType>)
    ensures
        is_test_arena(map@),
{
    let mut map = walled_arena();
    assert(map@[idx_of(40, 25)] == TileType::Floor);
    let mut rng = new_rng();
    let mut i: i32 = 0;
    while i < 400
        invariant
            0 <= i <= 400,
            is_test_arena(map@),
        decreases 400 - i,
    {
        let x = roll_dice(&mut rng, 1, 79);
        let y = roll_dice(&mut rng, 1, 49);
        place_test_wall(&mut map, x, y);
        i = i + 1;
    }
    map
}

/// The level together with what is derived from it turn by turn: what the
/// player has seen and sees, which tiles are blocked, and who stands where.
pub struct GameMap {
    pub tiles: Vec<TileType>,
    pub rooms: Vec<Rect>,
    pub width: i32,
    pub height: i32,
    pub revealed_tiles: Vec<bool>,
    pub visible_tiles: Vec<bool>,
    pub blocked: Vec<bool>,
    pub tile_content: Vec<Vec<Entity>>,
}

/// Column of the tile with linear index `idx`.
pub open spec fn x_of(idx: int) -> int {
    idx % 80
}

/// Row of the tile with linear index `idx`.
pub open spec fn y_of(idx: int) -> int {
    idx / 80
}

/// One step, straight or diagonal, leads from tile `from` to tile `to`, and
/// `to` is no wall.
pub open spec fn step_allowed(tiles: Seq<TileType>, from: int, to: int) -> bool {
    &&& 0 <= from < 4000
    &&& 0 <= to < 4000
    &&& from != to
    &&& -1 <= x_of(to) - x_of(from) <= 1
    &&& -1 <= y_of(to) - y_of(from) <= 1
    &&& tiles[to] == TileType::Floor
}

impl GameMap {
    /// The grid is 80 by 50 and every per-tile table covers it.
    pub open spec fn wf(&self) -> bool {
        &&& self.width == 80
        &&& self.height == 50
        &&& self.tiles.len() == 4000
        &&& self.revealed_tiles.len() == 4000
        &&& self.visible_tiles.len() == 4000
        &&& self.blocked.len() == 4000
        &&& self.tile_content.len() == 4000
    }

    /// Whether the map is well formed.
    pub fn is_wf(&self) -> (b: bool)
        ensures
            b == self.wf(),
    {
        self.width == 80 && self.height == 50 && self.tiles.len() == 4000
            && self.revealed_tiles.len() == 4000 && self.visible_tiles.len() == 4000
            && self.blocked.len() == 4000 && self.tile_content.len() == 4000
    }

    /// A map of the given level on which nothing has been seen yet, nothing
    /// is blocked and nobody stands.
    pub fn new(rooms: Vec<Rect>, tiles: Vec<TileType>) -> (map: GameMap)
        requires
            tiles.len() == 4000,
        ensures
            map.wf(),
            map.tiles == tiles,
            map.rooms == rooms,
            forall|i: int| 0 <= i < 4000 ==> !(#[trigger] map.revealed_tiles@[i]),
            forall|i: int| 0 <= i < 4000 ==> !(#[trigger] map.visible_tiles@[i]),
            forall|i: int| 0 <= i < 4000 ==> !(#[trigger] map.blocked@[i]),
            forall|i: int| 0 <= i < 4000 ==> (#[trigger] map.tile_content@[i])@ == Seq::<Entity>::empty(),
    {
        let mut tile_content: Vec<Vec<Entity>> = Vec::new();
        let mut i: usize = 0;
        while i < 4000
            invariant
                i <= 4000,
                tile_content.len() == i,
                forall|k: int| 0 <= k < i ==> (#[trigger] tile_content@[k])@ == Seq::<Entity>::empty(),
            decreases 4000 - i,
        {
            tile_content.push(Vec::new());
            i = i + 1;
        }
        GameMap {
            tiles,
            rooms,
            width: MAPWIDTH as i32,
            height: MAPHEIGHT as i32,
            revealed_tiles: vec![false; MAPCOUNT],
            visible_tiles: vec![false; MAPCOUNT],
            blocked: vec![false; MAPCOUNT],
            tile_content,
        }
    }

    /// Linear index of the tile at column `x`, row `y`.
    pub fn xy_idx(&self, x: i32, y: i32) -> (idx: usize)
        requires
            in_grid(x as int, y as int),
        ensures
            idx == idx_of(x as int, y as int),
            idx < 4000,
            x_of(idx as int) == x,
            y_of(idx as int) == y,
    {
        (y as usize * MAPWIDTH) + x as usize
    }

    /// Marks as blocked exactly the tiles that are walls.
    pub fn populate_blocked(&mut self)
        requires
            old(self).wf(),
        ensures
            final(self).wf(),
            final(self).tiles == old(self).tiles,
            final(self).rooms == old(self).rooms,
            final(self).revealed_tiles == old(self).revealed_tiles,
            final(self).visible_tiles == old(self).visible_tiles,
            final(self).tile_content == old(self).tile_content,
            forall|i: int|
                0 <= i < 4000 ==> #[trigger] final(self).blocked@[i] == (old(self).tiles@[i]
                    == TileType::Wall),
    {
        let mut i: usize = 0;
        while i < 4000
            invariant
                i <= 4000,
                self.wf(),
                self.tiles == old(self).tiles,
                self.rooms == old(self).rooms,
                self.revealed_tiles == old(self).revealed_tiles,
                self.visible_tiles == old(self).visible_tiles,
                self.tile_content == old(self).tile_content,
                forall|k: int|
                    0 <= k < i ==> #[trigger] self.blocked@[k] == (self.tiles@[k] == TileType::Wall),
            decreases 4000 - i,
        {
            let wall = self.tiles[i] == TileType::Wall;
            self.blocked.set(i, wall);
            i = i + 1;
        }
    }

    /// Empties the list of occupants of every tile.
    pub fn clear_content_index(&mut self)
        requires
            old(self).wf(),
        ensures
            final(self).wf(),
            final(self).tiles == old(self).tiles,
            final(self).rooms == old(self).rooms,
            final(self).revealed_tiles == old(self).revealed_tiles,
            final(self).visible_tiles == old(self).visible_tiles,
            final(self).blocked == old(self).blocked,
            forall|i: int|
                0 <= i < 4000 ==> (#[trigger] final(self).tile_content@[i])@ == Seq::<
                    Entity,
                >::empty(),
    {
        let mut i: usize = 0;
        while i < 4000
            invariant
                i <= 4000,
                self.wf(),
                self.tiles == old(self).tiles,
                self.rooms == old(self).rooms,
                self.revealed_tiles == old(self).revealed_tiles,
                self.visible_tiles == old(self).visible_tiles,
                self.blocked == old(self).blocked,
                forall|k: int|
                    0 <= k < i ==> (#[trigger] self.tile_content@[k])@ == Seq::<Entity>::empty(),
            decreases 4000 - i,
        {
            self.tile_content[i].clear();
            i = i + 1;
        }
    }

    /// Whether one step leads from tile `from` to tile `to`.
    pub fn is_step(&self, from: usize, to: usize) -> (b: bool)
        requires
            self.wf(),
        ensures
            b == step_allowed(self.tiles@, from as int, to as int),
    {
        if from >= 4000 || to >= 4000 || from == to {
            return false;
        }
        let fx = (from % 80) as i32;
        let fy = (from / 80) as i32;
        let tx = (to % 80) as i32;
        let ty = (to / 80) as i32;
        tx - fx >= -1 && tx - fx <= 1 && ty - fy >= -1 && ty - fy <= 1 && self.tiles[to]
            != TileType::Wall
    }

    /// The tiles that one step leads to from tile `idx`, by rising index.
    pub fn get_available_exits(&self, idx: usize) -> (exits: Vec<usize>)
        requires
            self.wf(),
        ensures
            forall|to: int|
                exits@.contains(to as usize) && 0 <= to <= usize::MAX <==> step_allowed(
                    self.tiles@,
                    idx as int,
                    to,
                ),
            forall|i: int, j: int| 0 <= i < j < exits.len() ==> exits@[i] < exits@[j],
    {
        let mut exits: Vec<usize> = Vec::new();
        if idx >= 4000 {
            return exits;
        }
        let mut to: usize = if idx >= 81 { idx - 81 } else { 0 };
        let last: usize = if idx + 81 < 4000 { idx + 81 } else { 3999 };
        while to <= last
            invariant
                self.wf(),
                idx < 4000,
                last == if idx + 81 < 4000 { idx + 81 } else { 3999 },
                to <= last + 1,
                forall|k: int| 0 <= k < exits.len() ==> exits@[k] < to,
                forall|i: int, j: int| 0 <= i < j < exits.len() ==> exits@[i] < exits@[j],
                forall|t: int|
                    0 <= t < to && step_allowed(self.tiles@, idx as int, t) ==> exits@.contains(
                        t as usize,
                    ),
                forall|k: int|
                    0 <= k < exits.len() ==> step_allowed(
                        self.tiles@,
                        idx as int,
                        #[trigger] exits@[k] as int,
                    ),
                forall|t: int|
                    0 <= t < 4000 && idx >= 81 && t < idx - 81 ==> !step_allowed(
                        self.tiles@,
                        idx as int,
                        t,
                    ),
            decreases last + 1 - to,
        {
            if self.is_step(idx, to) {
                let ghost before = exits@;
                exits.push(to);
                assert(exits@[before.len() as int] == to);
                assert forall|t: int|
                    0 <= t < to + 1 && step_allowed(
                        self.tiles@,
                        idx as int,
                        t,
                    ) implies exits@.contains(t as usize) by {
                    if t < to {
                        let k = choose|k: int| 0 <= k < before.len() && before[k] == t as usize;
                        assert(exits@[k] == t as usize);
                    }
                }
            }
            to = to + 1;
        }
        assert forall|to: int| step_allowed(self.tiles@, idx as int, to) implies exits@.contains(
            to as usize,
        ) && 0 <= to <= usize::MAX by {
            assert(to <= idx + 81);
        }
        exits
    }
}

} // verus!
