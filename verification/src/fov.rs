use vstd::prelude::*;
use crate::components::Coord;
use crate::map::{GameMap, TileType, in_grid};
use crate::seq_filter::lemma_filter_push;
use crate::world::MAX_SIGHT_RANGE;

verus! {

/// `rltk::Point`, the cell type of the field-of-view search. Nothing of
/// its inside is used here.
#[verifier::external_type_specification]
#[verifier::external_body]
pub struct ExPoint(rltk::Point);

/// What `rltk::field_of_view` finds from the cell `(x, y)` with sight
/// `range` on the 80 by 50 grid whose walls are the walls of `tiles`.
pub uninterp spec fn fov_cells(x: int, y: int, range: int, tiles: Seq<TileType>) -> Set<Coord>;

impl rltk::BaseMap for GameMap {
    /// A wall stops the eye, and so does anything beyond the tiles.
    fn is_opaque(&self, idx: usize) -> (opaque: bool)
        ensures
            opaque == (idx >= self.tiles.len() || self.tiles@[idx as int] == TileType::Wall),
    {
        idx >= self.tiles.len() || self.tiles[idx] == TileType::Wall
    }
}

impl rltk::Algorithm2D for GameMap {
    /// `rltk::Point::new` on the map's width and height: the size of the
    /// grid, as the field-of-view search asks for it.
    #[verifier::external_body]
    fn dimensions(&self) -> rltk::Point {
        rltk::Point::new(self.width, self.height)
    }
}

/// `rltk::field_of_view`: the cells seen from `(x, y)`, handed over as
/// points of this library. The search collects the cells in a hash set and
/// starts by putting the viewer's own cell in, so no cell comes twice and
/// the viewer's cell is among them; the order in which they come is left
/// open. The precondition leaves out a viewer outside the grid, on which
/// the search may fail to turn a cell into an index, and a range that is
/// negative or beyond `MAX_SIGHT_RANGE`, for which the search sets aside
/// room that grows with the square of the range.
#[verifier::external_body]
pub(crate) fn field_of_view(x: i32, y: i32, range: i32, map: &GameMap) -> (cells: Vec<Coord>)
    requires
        map.wf(),
        in_grid(x as int, y as int),
        0 <= range <= MAX_SIGHT_RANGE,
    ensures
        cells@.no_duplicates(),
        cells@.to_set() == fov_cells(x as int, y as int, range as int, map.tiles@),
        cells@.contains(Coord { x, y }),
{
    rltk::field_of_view(rltk::Point::new(x, y), range, map).iter().map(
        |p| Coord { x: p.x, y: p.y },
    ).collect()
}

/// The test that a cell lies in the grid.
pub open spec fn cell_in_grid() -> spec_fn(Coord) -> bool {
    |p: Coord| in_grid(p.x as int, p.y as int)
}

/// The cells of `cells` that lie in the grid, in the order in which they
/// come.
pub fn retain_in_grid(cells: Vec<Coord>) -> (kept: Vec<Coord>)
    ensures
        kept@ == cells@.filter(cell_in_grid()),
{
    let mut kept: Vec<Coord> = Vec::new();
    let mut k: usize = 0;
    proof {
        assert(cells@.subrange(0, 0) =~= Seq::<Coord>::empty());
        Seq::<Coord>::empty().lemma_filter_len(cell_in_grid());
        assert(kept@ =~= cells@.subrange(0, 0).filter(cell_in_grid()));
    }
    while k < cells.len()
        invariant
            k <= cells.len(),
            kept@ == cells@.subrange(0, k as int).filter(cell_in_grid()),
        decreases cells.len() - k,
    {
        let p = cells[k];
        proof {
            assert(cells@.subrange(0, k + 1) =~= cells@.subrange(0, k as int).push(p));
            lemma_filter_push(cells@.subrange(0, k as int), p, cell_in_grid());
        }
        if p.x >= 0 && p.x < 80 && p.y >= 0 && p.y < 50 {
            kept.push(p);
        }
        k = k + 1;
    }
    assert(cells@.subrange(0, k as int) =~= cells@);
    kept
}

} // verus!
