//! The sparse hex grid that grows and shrinks with its contents.
//!
//! ```text
//!        0 1 2 3 4 5 6 7 8
//!     0   * * * * * * * * *
//!     1    * * * + * * * * *
//!     2     * * * * * @ * * *
//! ```
//!
//! Here `+` is (3, 1) and `@` is (5, 2). The cells next to `+` are (3, 0),
//! (4, 0), (2, 1), (4, 1), (2, 2) and (3, 2).
//!
//! The grid has no fixed extent: its bounding box follows the pieces placed
//! on it and taken off it, and negative coordinates are as good as any.

use std::collections::HashMap;
use vstd::prelude::*;
use vstd::set_lib::lemma_map_size;
use vstd::relations::injective_on;
use vstd::std_specs::hash::{group_hash_axioms, spec_keys_iter};
use vstd::std_specs::iter::IteratorSpec;
use super::{
    Coord, Grid, Piece, is_max_corner, is_min_corner, lemma_corners_ordered,
    lemma_max_corner_unique, lemma_min_corner_unique, neighbors, saturated,
};

verus! {

broadcast use group_hash_axioms;

/// The storage key of a cell: its two components, each shifted into the
/// unsigned range, side by side in one 32-bit number.
spec fn cell_key(c: Coord) -> u32 {
    ((c.x + 32768) * 65536 + (c.y + 32768)) as u32
}

/// The cell that a storage key stands for.
spec fn key_cell(k: u32) -> Coord {
    Coord { x: (k / 65536 - 32768) as i16, y: (k % 65536 - 32768) as i16 }
}

/// The map from cells to pieces that a keyed store stands for.
spec fn cells_of<T>(m: Map<u32, T>) -> Map<Coord, T> {
    Map::new(|c: Coord| m.contains_key(cell_key(c)), |c: Coord| m[cell_key(c)])
}

/// Keys and cells correspond one to one.
proof fn lemma_key_round_trip()
    ensures
        forall|c: Coord| #[trigger] key_cell(cell_key(c)) == c,
        forall|k: u32| #[trigger] cell_key(key_cell(k)) == k,
{
}

/// Storing under a cell's key is inserting at the cell.
proof fn lemma_cells_insert<T>(m: Map<u32, T>, c: Coord, v: T)
    ensures
        cells_of(m.insert(cell_key(c), v)) == cells_of(m).insert(c, v),
{
    lemma_key_round_trip();
    assert forall|d: Coord| cell_key(d) == cell_key(c) implies d == c by {
        assert(key_cell(cell_key(d)) == d);
        assert(key_cell(cell_key(c)) == c);
    }
    assert(cells_of(m.insert(cell_key(c), v)) =~= cells_of(m).insert(c, v));
}

/// Dropping a cell's key is removing the cell.
proof fn lemma_cells_remove<T>(m: Map<u32, T>, c: Coord)
    ensures
        cells_of(m.remove(cell_key(c))) == cells_of(m).remove(c),
{
    lemma_key_round_trip();
    assert forall|d: Coord| cell_key(d) == cell_key(c) implies d == c by {
        assert(key_cell(cell_key(d)) == d);
        assert(key_cell(cell_key(c)) == c);
    }
    assert(cells_of(m.remove(cell_key(c))) =~= cells_of(m).remove(c));
}

/// A finite store stands for as many cells as it has keys.
proof fn lemma_cells_len<T>(m: Map<u32, T>)
    requires
        m.dom().finite(),
    ensures
        cells_of(m).dom().finite(),
        cells_of(m).len() == m.len(),
{
    lemma_key_round_trip();
    let f = |k: u32| key_cell(k);
    assert(injective_on(f, m.dom())) by {
        assert forall|a: u32, b: u32| #[trigger] f(a) == #[trigger] f(b) implies a == b by {
            assert(cell_key(key_cell(a)) == a);
            assert(cell_key(key_cell(b)) == b);
        }
    }
    assert(m.dom().map(f) =~= cells_of(m).dom()) by {
        assert forall|c: Coord| cells_of(m).dom().contains(c) implies m.dom().map(f).contains(
            c,
        ) by {
            assert(m.dom().contains(cell_key(c)) && f(cell_key(c)) == c);
        }
    }
    lemma_map_size(m.dom(), cells_of(m).dom(), f);
}

/// The key under which a cell is stored.
fn key_of(c: Coord) -> (k: u32)
    ensures
        k == cell_key(c),
{
    let hi: u32 = (c.x as i32 + 32768) as u32;
    let lo: u32 = (c.y as i32 + 32768) as u32;
    hi * 65536 + lo
}

/// The cell stored under a key.
fn cell_of(k: u32) -> (c: Coord)
    ensures
        c == key_cell(k),
{
    let x: i32 = (k / 65536) as i32 - 32768;
    let y: i32 = (k % 65536) as i32 - 32768;
    Coord { x: x as i16, y: y as i16 }
}

/// One step from `v` in the direction `d`, or none at the end of the range.
fn step(v: i16, d: i8) -> (r: i16)
    requires
        -1 <= d <= 1,
    ensures
        r == saturated(v + d),
{
    if d == 1 {
        if v == i16::MAX { v } else { v + 1 }
    } else if d == -1 {
        if v == i16::MIN { v } else { v - 1 }
    } else {
        v
    }
}

/// A hex grid that stores only its occupied cells. The corners of the
/// bounding box are kept from one query to the next and worked out afresh,
/// in one pass over the occupied cells, by the first query after a change.
#[derive(Debug)]
pub struct DynamicHexGrid<T> {
    min_max_dirty: bool,
    min_x: i16,
    min_y: i16,
    max_x: i16,
    max_y: i16,
    pieces: HashMap<u32, T>,
}

impl<T> View for DynamicHexGrid<T> {
    type V = Map<Coord, T>;

    closed spec fn view(&self) -> Map<Coord, T> {
        cells_of(self.pieces@)
    }
}

impl<T> DynamicHexGrid<T> {
    /// The corners that are kept are those of the occupied cells, unless
    /// they are marked as stale.
    #[verifier::type_invariant]
    spec fn corners_kept(&self) -> bool {
        !self.min_max_dirty ==> {
            &&& is_min_corner(cells_of(self.pieces@).dom(), (self.min_x, self.min_y))
            &&& is_max_corner(cells_of(self.pieces@).dom(), (self.max_x, self.max_y))
        }
    }

    /// Whether the next query of the bounding box must scan the cells.
    pub closed spec fn stale(&self) -> bool {
        self.min_max_dirty
    }

    /// An empty grid.
    pub fn new() -> (g: Self)
        ensures
            g@ == Map::<Coord, T>::empty(),
            !g.stale(),
    {
        let g = DynamicHexGrid {
            min_max_dirty: false,
            min_x: 0,
            min_y: 0,
            max_x: 0,
            max_y: 0,
            pieces: HashMap::new(),
        };
        assert(g@ =~= Map::<Coord, T>::empty());
        assert(g.corners_kept());
        g
    }

    /// Brings the kept corners up to date: scans the occupied cells if
    /// anything changed since the last scan, and does nothing otherwise.
    pub fn ensure_min_max(&mut self)
        ensures
            final(self)@ == old(self)@,
            !final(self).stale(),
            !old(self).stale() ==> *final(self) == *old(self),
    {
        if self.min_max_dirty {
            let mut lo_x: i16 = 0;
            let mut lo_y: i16 = 0;
            let mut hi_x: i16 = 0;
            let mut hi_y: i16 = 0;
            let mut first = true;
            let ghost keys = spec_keys_iter(&self.pieces).remaining();
            for k in it: self.pieces.keys()
                invariant
                    self.min_max_dirty,
                    it.seq() == keys,
                    first <==> it.index() == 0,
                    first ==> lo_x == 0 && lo_y == 0 && hi_x == 0 && hi_y == 0,
                    forall|j: int|
                        0 <= j < it.index() ==> {
                            let c = #[trigger] key_cell(*it.seq()[j]);
                            lo_x <= c.x <= hi_x && lo_y <= c.y <= hi_y
                        },
                    !first ==> exists|j: int|
                        0 <= j < it.index() && (#[trigger] key_cell(*it.seq()[j])).x == lo_x,
                    !first ==> exists|j: int|
                        0 <= j < it.index() && (#[trigger] key_cell(*it.seq()[j])).y == lo_y,
                    !first ==> exists|j: int|
                        0 <= j < it.index() && (#[trigger] key_cell(*it.seq()[j])).x == hi_x,
                    !first ==> exists|j: int|
                        0 <= j < it.index() && (#[trigger] key_cell(*it.seq()[j])).y == hi_y,
            {
                let c = cell_of(*k);
                if first {
                    lo_x = c.x;
                    hi_x = c.x;
                    lo_y = c.y;
                    hi_y = c.y;
                    first = false;
                } else {
                    if c.x < lo_x {
                        lo_x = c.x;
                    }
                    if c.x > hi_x {
                        hi_x = c.x;
                    }
                    if c.y < lo_y {
                        lo_y = c.y;
                    }
                    if c.y > hi_y {
                        hi_y = c.y;
                    }
                }
            }
            proof {
                lemma_key_round_trip();
                let s = self@.dom();
                assert(keys.unref().to_set() == self.pieces@.dom());
                assert forall|c: Coord| s.contains(c) implies lo_x <= c.x <= hi_x && lo_y <= c.y
                    <= hi_y by {
                    assert(keys.unref().to_set().contains(cell_key(c)));
                    let j = choose|j: int| 0 <= j < keys.len() && keys.unref()[j] == cell_key(c);
                    assert(key_cell(*keys[j]) == c);
                }
                assert forall|j: int| 0 <= j < keys.len() implies s.contains(
                    #[trigger] key_cell(*keys[j]),
                ) by {
                    assert(keys.unref()[j] == *keys[j]);
                    assert(keys.unref().to_set().contains(*keys[j]));
                }
                if first {
                    assert(s.is_empty()) by {
                        if exists|c: Coord| s.contains(c) {
                            let c = choose|c: Coord| s.contains(c);
                            assert(keys.unref().to_set().contains(cell_key(c)));
                        }
                    }
                }
                assert(is_min_corner(s, (lo_x, lo_y)));
                assert(is_max_corner(s, (hi_x, hi_y)));
                // While the flag is up, the kept corners may be anything.
                assert(self.corners_kept());
            }
            self.min_x = lo_x;
            self.min_y = lo_y;
            self.max_x = hi_x;
            self.max_y = hi_y;
            self.min_max_dirty = false;
        }
    }
}

impl<T> Default for DynamicHexGrid<T> {
    fn default() -> (g: Self)
        ensures
            g@ == Map::<Coord, T>::empty(),
            !g.stale(),
    {
        DynamicHexGrid::new()
    }
}

impl<T> Grid<T> for DynamicHexGrid<T> where T: Piece {
    open spec fn cells(&self) -> Map<Coord, T> {
        self@
    }

    proof fn lemma_cells_finite(&self) {
        lemma_cells_len(self.pieces@);
    }

    fn min(&mut self) -> (m: (i16, i16))
        ensures
            !final(self).stale(),
            !old(self).stale() ==> *final(self) == *old(self),
    {
        self.ensure_min_max();
        proof {
            use_type_invariant(&*self);
            lemma_min_corner_unique(self@.dom(), (self.min_x, self.min_y));
        }
        (self.min_x, self.min_y)
    }

    fn max(&mut self) -> (m: (i16, i16))
        ensures
            !final(self).stale(),
            !old(self).stale() ==> *final(self) == *old(self),
    {
        self.ensure_min_max();
        proof {
            use_type_invariant(&*self);
            lemma_max_corner_unique(self@.dom(), (self.max_x, self.max_y));
        }
        (self.max_x, self.max_y)
    }

    fn height(&mut self) -> (h: usize)
        ensures
            !old(self)@.dom().is_empty() ==> !final(self).stale(),
            old(self)@.dom().is_empty() || !old(self).stale() ==> *final(self) == *old(self),
    {
        if self.num_pieces() == 0 {
            proof {
                lemma_cells_len(self.pieces@);
            }
            0
        } else {
            let hi = self.max();
            let lo = self.min();
            proof {
                lemma_cells_len(self.pieces@);
                lemma_corners_ordered(self@.dom());
            }
            (hi.1 as i32 - lo.1 as i32 + 1) as usize
        }
    }

    fn width(&mut self) -> (w: usize)
        ensures
            !old(self)@.dom().is_empty() ==> !final(self).stale(),
            old(self)@.dom().is_empty() || !old(self).stale() ==> *final(self) == *old(self),
    {
        if self.num_pieces() == 0 {
            proof {
                lemma_cells_len(self.pieces@);
            }
            0
        } else {
            let hi = self.max();
            let lo = self.min();
            proof {
                lemma_cells_len(self.pieces@);
                lemma_corners_ordered(self@.dom());
            }
            (hi.0 as i32 - lo.0 as i32 + 1) as usize
        }
    }

    fn add(&mut self, coord: Coord, piece: T)
        ensures
            final(self).stale(),
    {
        self.min_max_dirty = true;
        assert(self.corners_kept());
        let k = key_of(coord);
        proof {
            lemma_cells_insert(self.pieces@, coord, piece);
        }
        // The store is changed outside the grid, so that the grid is whole
        // at every moment, even if the insertion unwinds.
        let mut store: HashMap<u32, T> = HashMap::new();
        core::mem::swap(&mut self.pieces, &mut store);
        store.insert(k, piece);
        core::mem::swap(&mut self.pieces, &mut store);
    }

    fn remove(&mut self, coord: Coord)
        ensures
            final(self).stale(),
    {
        self.min_max_dirty = true;
        assert(self.corners_kept());
        let k = key_of(coord);
        proof {
            lemma_cells_remove(self.pieces@, coord);
        }
        let mut store: HashMap<u32, T> = HashMap::new();
        core::mem::swap(&mut self.pieces, &mut store);
        store.remove(&k);
        core::mem::swap(&mut self.pieces, &mut store);
    }

    fn at(&self, coord: Coord) -> (p: Option<&T>) {
        let k = key_of(coord);
        self.pieces.get(&k)
    }

    fn num_pieces(&self) -> (n: usize) {
        proof {
            lemma_cells_len(self.pieces@);
        }
        self.pieces.len()
    }

    fn adjacents(&self, coord: Coord) -> (v: Vec<Coord>) {
        let x = coord.x;
        let y = coord.y;
        let v = vec![
            Coord::new(x, step(y, -1)),
            Coord::new(step(x, 1), step(y, -1)),
            Coord::new(step(x, -1), y),
            Coord::new(step(x, 1), y),
            Coord::new(step(x, -1), step(y, 1)),
            Coord::new(x, step(y, 1)),
        ];
        assert(v@ =~= neighbors(coord));
        v
    }
}

} // verus!
