//! The board of Hive: a hex grid of pieces, with the two questions the rules
//! ask of a cell's neighbourhood.

use vstd::prelude::*;
use crate::grid::dynhex::DynamicHexGrid;
use crate::grid::{Coord, Grid, neighbors};
use crate::hive::pieces::{Bug, Color, HivePiece};

verus! {

/// A hex grid whose cells hold the pieces of Hive.
#[derive(Debug)]
pub struct HiveGrid {
    base_grid: DynamicHexGrid<HivePiece>,
}

impl View for HiveGrid {
    type V = Map<Coord, HivePiece>;

    closed spec fn view(&self) -> Map<Coord, HivePiece> {
        self.base_grid@
    }
}

impl HiveGrid {
    /// An empty board.
    pub fn new() -> (g: HiveGrid)
        ensures
            g@ == Map::<Coord, HivePiece>::empty(),
    {
        HiveGrid { base_grid: DynamicHexGrid::new() }
    }

    /// Those neighbours of `coord` for which `occupied` is `want`, in the
    /// order of the neighbourhood.
    fn adjacent_where(&self, coord: Coord, want: bool) -> (v: Vec<Coord>)
        ensures
            v@ == neighbors(coord).filter(|c: Coord| self@.contains_key(c) == want),
    {
        let all = self.adjacents(coord);
        let ghost keep = |c: Coord| self@.contains_key(c) == want;
        let mut v: Vec<Coord> = Vec::new();
        let mut i: usize = 0;
        assert(all@.take(0) =~= Seq::<Coord>::empty());
        while i < all.len()
            invariant
                i <= all.len(),
                all@ == neighbors(coord),
                keep == |c: Coord| self@.contains_key(c) == want,
                v@ == all@.take(i as int).filter(keep),
            decreases all.len() - i,
        {
            let c = all[i];
            proof {
                assert(all@.take(i + 1) =~= all@.take(i as int) + seq![c]);
                Seq::filter_distributes_over_add(all@.take(i as int), seq![c], keep);
                reveal_with_fuel(Seq::filter, 2);
                assert(seq![c].filter(keep) =~= if keep(c) { seq![c] } else { Seq::empty() });
            }
            if self.occupied(c) == want {
                v.push(c);
            }
            i += 1;
        }
        assert(all@.take(all.len() as int) =~= all@);
        v
    }

    /// The neighbours of `coord` on which a piece stands, in the order of
    /// the neighbourhood.
    pub fn adjacent_occupied(&self, coord: Coord) -> (v: Vec<Coord>)
        ensures
            v@ == neighbors(coord).filter(|c: Coord| self@.contains_key(c)),
    {
        let v = self.adjacent_where(coord, true);
        assert((|c: Coord| self@.contains_key(c) == true) =~= (|c: Coord| self@.contains_key(c)));
        v
    }

    /// The neighbours of `coord` on which nothing stands, in the order of
    /// the neighbourhood.
    pub fn adjacent_empty(&self, coord: Coord) -> (v: Vec<Coord>)
        ensures
            v@ == neighbors(coord).filter(|c: Coord| !self@.contains_key(c)),
    {
        let v = self.adjacent_where(coord, false);
        assert((|c: Coord| self@.contains_key(c) == false) =~= (|c: Coord| !self@.contains_key(c)));
        v
    }
}

impl Grid<HivePiece> for HiveGrid {
    open spec fn cells(&self) -> Map<Coord, HivePiece> {
        self@
    }

    proof fn lemma_cells_finite(&self) {
        self.base_grid.lemma_cells_finite();
    }

    fn height(&mut self) -> (h: usize) {
        self.base_grid.height()
    }

    fn width(&mut self) -> (w: usize) {
        self.base_grid.width()
    }

    fn min(&mut self) -> (m: (i16, i16)) {
        self.base_grid.min()
    }

    fn max(&mut self) -> (m: (i16, i16)) {
        self.base_grid.max()
    }

    fn add(&mut self, coord: Coord, piece: HivePiece) {
        self.base_grid.add(coord, piece)
    }

    fn remove(&mut self, coord: Coord) {
        self.base_grid.remove(coord)
    }

    fn at(&self, coord: Coord) -> (p: Option<&HivePiece>) {
        self.base_grid.at(coord)
    }

    fn num_pieces(&self) -> (n: usize) {
        self.base_grid.num_pieces()
    }

    fn adjacents(&self, coord: Coord) -> (v: Vec<Coord>) {
        self.base_grid.adjacents(coord)
    }
}

/// A beetle climbs onto an occupied cell when the cell's piece is put back
/// wrapped in the beetle. The board then has as many occupied cells as
/// before, the cell shows the beetle and no longer the piece beneath it,
/// that piece is what the beetle stands on, and every other cell is as it
/// was.
pub proof fn lemma_climb_keeps_count(cells: Map<Coord, HivePiece>, coord: Coord, color: Color)
    requires
        cells.dom().finite(),
        cells.contains_key(coord),
    ensures
        ({
            let beetle = HivePiece { color, bug: Bug::Beetle(Box::new(cells[coord])) };
            let after = cells.insert(coord, beetle);
            &&& after.len() == cells.len()
            &&& after.dom() == cells.dom()
            &&& after[coord] == beetle
            &&& after[coord] != cells[coord]
            &&& after[coord].below() == Some(cells[coord])
            &&& after[coord].stack_height() == cells[coord].stack_height() + 1
            &&& forall|c: Coord| c != coord && cells.contains_key(c) ==> after[c] == cells[c]
        }),
{
    let beetle = HivePiece { color, bug: Bug::Beetle(Box::new(cells[coord])) };
    let after = cells.insert(coord, beetle);
    assert(after.dom() =~= cells.dom());
}

} // verus!
