//! Coordinates, the geometry of the hex board, and the contract every grid
//! implementation meets.

use vstd::prelude::*;

pub mod dynhex;

verus! {

/// A cell position on the unbounded hex board. Any pair is a legal position.
#[derive(Debug, Copy, Clone, Eq, PartialEq, Structural, Default, Hash)]
pub struct Coord {
    pub x: i16,
    pub y: i16,
}

impl Coord {
    /// The cell in column `x` of row `y`.
    pub fn new(x: i16, y: i16) -> (c: Coord)
        ensures
            c == (Coord { x, y }),
    {
        Coord { x, y }
    }
}

/// `m` is the lower corner of the bounding box of `s`: the least `x` and the
/// least `y` that occur in `s`, or the origin when `s` is empty.
pub open spec fn is_min_corner(s: Set<Coord>, m: (i16, i16)) -> bool {
    if s.is_empty() {
        m == (0i16, 0i16)
    } else {
        &&& exists|c: Coord| #[trigger] s.contains(c) && c.x == m.0
        &&& exists|c: Coord| #[trigger] s.contains(c) && c.y == m.1
        &&& forall|c: Coord| #[trigger] s.contains(c) ==> m.0 <= c.x && m.1 <= c.y
    }
}

/// `m` is the upper corner of the bounding box of `s`: the greatest `x` and
/// the greatest `y` that occur in `s`, or the origin when `s` is empty.
pub open spec fn is_max_corner(s: Set<Coord>, m: (i16, i16)) -> bool {
    if s.is_empty() {
        m == (0i16, 0i16)
    } else {
        &&& exists|c: Coord| #[trigger] s.contains(c) && c.x == m.0
        &&& exists|c: Coord| #[trigger] s.contains(c) && c.y == m.1
        &&& forall|c: Coord| #[trigger] s.contains(c) ==> c.x <= m.0 && c.y <= m.1
    }
}

/// The lower corner of the bounding box of `s`.
pub open spec fn min_corner(s: Set<Coord>) -> (i16, i16) {
    choose|m: (i16, i16)| is_min_corner(s, m)
}

/// The upper corner of the bounding box of `s`.
pub open spec fn max_corner(s: Set<Coord>) -> (i16, i16) {
    choose|m: (i16, i16)| is_max_corner(s, m)
}

/// The number of rows that the bounding box of `s` spans; none when `s` is
/// empty, although its corners then coincide at the origin.
pub open spec fn rows_spanned(s: Set<Coord>) -> int {
    if s.is_empty() {
        0
    } else {
        max_corner(s).1 - min_corner(s).1 + 1
    }
}

/// The number of columns that the bounding box of `s` spans; none when `s` is
/// empty.
pub open spec fn columns_spanned(s: Set<Coord>) -> int {
    if s.is_empty() {
        0
    } else {
        max_corner(s).0 - min_corner(s).0 + 1
    }
}

/// A set has at most one lower corner, so whatever meets `is_min_corner` is
/// `min_corner`.
pub proof fn lemma_min_corner_unique(s: Set<Coord>, m: (i16, i16))
    requires
        is_min_corner(s, m),
    ensures
        min_corner(s) == m,
{
    let n = min_corner(s);
    assert(is_min_corner(s, n));
    if !s.is_empty() {
        let cx = choose|c: Coord| #[trigger] s.contains(c) && c.x == m.0;
        let cy = choose|c: Coord| #[trigger] s.contains(c) && c.y == m.1;
        let dx = choose|c: Coord| #[trigger] s.contains(c) && c.x == n.0;
        let dy = choose|c: Coord| #[trigger] s.contains(c) && c.y == n.1;
        assert(s.contains(cx) && s.contains(cy) && s.contains(dx) && s.contains(dy));
    }
}

/// A set has at most one upper corner, so whatever meets `is_max_corner` is
/// `max_corner`.
pub proof fn lemma_max_corner_unique(s: Set<Coord>, m: (i16, i16))
    requires
        is_max_corner(s, m),
    ensures
        max_corner(s) == m,
{
    let n = max_corner(s);
    assert(is_max_corner(s, n));
    if !s.is_empty() {
        let cx = choose|c: Coord| #[trigger] s.contains(c) && c.x == m.0;
        let cy = choose|c: Coord| #[trigger] s.contains(c) && c.y == m.1;
        let dx = choose|c: Coord| #[trigger] s.contains(c) && c.x == n.0;
        let dy = choose|c: Coord| #[trigger] s.contains(c) && c.y == n.1;
        assert(s.contains(cx) && s.contains(cy) && s.contains(dx) && s.contains(dy));
    }
}

/// Nothing is occupied on an empty board: both corners lie at the origin and
/// the bounding box spans no row and no column.
pub proof fn lemma_empty_bounds()
    ensures
        min_corner(Set::<Coord>::empty()) == (0i16, 0i16),
        max_corner(Set::<Coord>::empty()) == (0i16, 0i16),
        rows_spanned(Set::<Coord>::empty()) == 0,
        columns_spanned(Set::<Coord>::empty()) == 0,
{
    lemma_min_corner_unique(Set::<Coord>::empty(), (0i16, 0i16));
    lemma_max_corner_unique(Set::<Coord>::empty(), (0i16, 0i16));
}

/// With one cell occupied both corners are that cell, and the bounding box
/// spans one row and one column.
pub proof fn lemma_single_cell_bounds(c: Coord)
    ensures
        min_corner(set![c]) == (c.x, c.y),
        max_corner(set![c]) == (c.x, c.y),
        rows_spanned(set![c]) == 1,
        columns_spanned(set![c]) == 1,
{
    let s = set![c];
    assert(s.contains(c));
    lemma_min_corner_unique(s, (c.x, c.y));
    lemma_max_corner_unique(s, (c.x, c.y));
}

/// The corners follow from the set of occupied cells alone: every occupied
/// cell lies between them, and each of their four components is that of an
/// occupied cell. Boards with the same occupied cells have the same
/// bounding box, whatever was put on them and taken off them before.
pub proof fn lemma_corners_of_finite(s: Set<Coord>)
    requires
        s.finite(),
    ensures
        is_min_corner(s, min_corner(s)),
        is_max_corner(s, max_corner(s)),
    decreases s.len(),
{
    if s.is_empty() {
        assert(is_min_corner(s, (0i16, 0i16)));
        assert(is_max_corner(s, (0i16, 0i16)));
    } else {
        let c = s.choose();
        let rest = s.remove(c);
        lemma_corners_of_finite(rest);
        if rest.is_empty() {
            assert(s =~= set![c]);
            assert(is_min_corner(s, (c.x, c.y)));
            assert(is_max_corner(s, (c.x, c.y)));
        } else {
            let lo = min_corner(rest);
            let hi = max_corner(rest);
            let lo2 = (if c.x < lo.0 { c.x } else { lo.0 }, if c.y < lo.1 { c.y } else { lo.1 });
            let hi2 = (if c.x > hi.0 { c.x } else { hi.0 }, if c.y > hi.1 { c.y } else { hi.1 });
            let ax = choose|d: Coord| #[trigger] rest.contains(d) && d.x == lo.0;
            let ay = choose|d: Coord| #[trigger] rest.contains(d) && d.y == lo.1;
            let bx = choose|d: Coord| #[trigger] rest.contains(d) && d.x == hi.0;
            let by = choose|d: Coord| #[trigger] rest.contains(d) && d.y == hi.1;
            assert(s.contains(c) && s.contains(ax) && s.contains(ay) && s.contains(bx)
                && s.contains(by));
            assert forall|d: Coord| #[trigger] s.contains(d) implies lo2.0 <= d.x && lo2.1 <= d.y
                && d.x <= hi2.0 && d.y <= hi2.1 by {
                if d != c {
                    assert(rest.contains(d));
                }
            }
            assert(is_min_corner(s, lo2));
            assert(is_max_corner(s, hi2));
        }
    }
}

/// Occupying one more cell stretches the bounding box just far enough to
/// take the cell in: each component of a corner moves to the cell's only
/// where the cell lies beyond it.
pub proof fn lemma_corners_insert(s: Set<Coord>, c: Coord)
    requires
        s.finite(),
        !s.is_empty(),
    ensures
        min_corner(s.insert(c)) == (
            if c.x < min_corner(s).0 { c.x } else { min_corner(s).0 },
            if c.y < min_corner(s).1 { c.y } else { min_corner(s).1 },
        ),
        max_corner(s.insert(c)) == (
            if c.x > max_corner(s).0 { c.x } else { max_corner(s).0 },
            if c.y > max_corner(s).1 { c.y } else { max_corner(s).1 },
        ),
{
    lemma_corners_of_finite(s);
    let t = s.insert(c);
    let lo = min_corner(s);
    let hi = max_corner(s);
    let lo2 = (if c.x < lo.0 { c.x } else { lo.0 }, if c.y < lo.1 { c.y } else { lo.1 });
    let hi2 = (if c.x > hi.0 { c.x } else { hi.0 }, if c.y > hi.1 { c.y } else { hi.1 });
    let ax = choose|d: Coord| #[trigger] s.contains(d) && d.x == lo.0;
    let ay = choose|d: Coord| #[trigger] s.contains(d) && d.y == lo.1;
    let bx = choose|d: Coord| #[trigger] s.contains(d) && d.x == hi.0;
    let by = choose|d: Coord| #[trigger] s.contains(d) && d.y == hi.1;
    assert(t.contains(c) && t.contains(ax) && t.contains(ay) && t.contains(bx) && t.contains(by));
    assert(is_min_corner(t, lo2));
    assert(is_max_corner(t, hi2));
    lemma_min_corner_unique(t, lo2);
    lemma_max_corner_unique(t, hi2);
}

/// Where anything is occupied, the lower corner lies at or below the upper
/// corner in both components, so the bounding box spans at least one row and
/// one column, and no more than the coordinate range holds.
pub proof fn lemma_corners_ordered(s: Set<Coord>)
    requires
        s.finite(),
        !s.is_empty(),
    ensures
        min_corner(s).0 <= max_corner(s).0,
        min_corner(s).1 <= max_corner(s).1,
        1 <= rows_spanned(s) <= 65536,
        1 <= columns_spanned(s) <= 65536,
{
    lemma_corners_of_finite(s);
    let c = choose|c: Coord| s.contains(c);
    assert(s.contains(c));
}

/// Putting a piece on an occupied cell replaces what stood there: the same
/// cells are occupied, as many as before, the cell holds the new piece and
/// every other cell holds what it held.
pub proof fn lemma_add_overwrites<P>(cells: Map<Coord, P>, coord: Coord, piece: P)
    requires
        cells.dom().finite(),
        cells.contains_key(coord),
    ensures
        cells.insert(coord, piece).dom() == cells.dom(),
        cells.insert(coord, piece).len() == cells.len(),
        cells.insert(coord, piece)[coord] == piece,
        forall|c: Coord| c != coord && cells.contains_key(c) ==> cells.insert(coord, piece)[c]
            == cells[c],
{
    assert(cells.insert(coord, piece).dom() =~= cells.dom());
}

/// Clearing an empty cell changes nothing: the board, the number of its
/// pieces and its bounding box stay as they were.
pub proof fn lemma_remove_absent<P>(cells: Map<Coord, P>, coord: Coord)
    requires
        !cells.contains_key(coord),
    ensures
        cells.remove(coord) == cells,
        cells.remove(coord).len() == cells.len(),
        min_corner(cells.remove(coord).dom()) == min_corner(cells.dom()),
        max_corner(cells.remove(coord).dom()) == max_corner(cells.dom()),
        rows_spanned(cells.remove(coord).dom()) == rows_spanned(cells.dom()),
        columns_spanned(cells.remove(coord).dom()) == columns_spanned(cells.dom()),
{
    assert(cells.remove(coord) =~= cells);
}

/// Away from the rim of the coordinate range the neighbours of a cell are
/// the six cells around it, with nothing held back.
pub proof fn lemma_neighbors_inside(c: Coord)
    requires
        i16::MIN < c.x < i16::MAX,
        i16::MIN < c.y < i16::MAX,
    ensures
        neighbors(c) == seq![
            Coord { x: c.x, y: (c.y - 1) as i16 },
            Coord { x: (c.x + 1) as i16, y: (c.y - 1) as i16 },
            Coord { x: (c.x - 1) as i16, y: c.y },
            Coord { x: (c.x + 1) as i16, y: c.y },
            Coord { x: (c.x - 1) as i16, y: (c.y + 1) as i16 },
            Coord { x: c.x, y: (c.y + 1) as i16 },
        ],
{
}

/// `v` held to the range of a coordinate component: what lies beyond either
/// end of the range counts as that end.
pub open spec fn saturated(v: int) -> i16 {
    if v < i16::MIN {
        i16::MIN
    } else if v > i16::MAX {
        i16::MAX
    } else {
        v as i16
    }
}

/// The cell `dx` columns and `dy` rows from `c`, held to the board's range.
pub open spec fn shifted(c: Coord, dx: int, dy: int) -> Coord {
    Coord { x: saturated(c.x + dx), y: saturated(c.y + dy) }
}

/// The six hex neighbours of `c`, in the board's fixed order: the two above,
/// the two beside, the two below, each pair from left to right. Row `y` sits
/// half a cell to the right of row `y - 1`. At the rim of the coordinate
/// range a neighbour that would lie outside is held to the rim.
pub open spec fn neighbors(c: Coord) -> Seq<Coord> {
    seq![
        shifted(c, 0, -1),
        shifted(c, 1, -1),
        shifted(c, -1, 0),
        shifted(c, 1, 0),
        shifted(c, -1, 1),
        shifted(c, 0, 1),
    ]
}

/// Marks a type as something that a grid cell can hold.
pub trait Piece {
}

/// What every grid offers: a finite map from cells to pieces, the bounding
/// box of the occupied cells, and the hex neighbourhood of a cell.
pub trait Grid<P: Piece> {
    /// The occupied cells and what each holds.
    spec fn cells(&self) -> Map<Coord, P>;

    /// Only finitely many cells are ever occupied.
    proof fn lemma_cells_finite(&self)
        ensures
            self.cells().dom().finite(),
    ;

    /// The number of rows spanned by the occupied cells.
    fn height(&mut self) -> (h: usize)
        ensures
            final(self).cells() == old(self).cells(),
            h == rows_spanned(old(self).cells().dom()),
    ;

    /// The number of columns spanned by the occupied cells.
    fn width(&mut self) -> (w: usize)
        ensures
            final(self).cells() == old(self).cells(),
            w == columns_spanned(old(self).cells().dom()),
    ;

    /// The least `x` and the least `y` of any occupied cell. The pair need
    /// not be an occupied cell itself.
    fn min(&mut self) -> (m: (i16, i16))
        ensures
            final(self).cells() == old(self).cells(),
            m == min_corner(old(self).cells().dom()),
            is_min_corner(old(self).cells().dom(), m),
    ;

    /// The greatest `x` and the greatest `y` of any occupied cell.
    fn max(&mut self) -> (m: (i16, i16))
        ensures
            final(self).cells() == old(self).cells(),
            m == max_corner(old(self).cells().dom()),
            is_max_corner(old(self).cells().dom(), m),
    ;

    /// Puts `piece` on `coord`, in place of whatever stood there.
    fn add(&mut self, coord: Coord, piece: P)
        ensures
            final(self).cells() == old(self).cells().insert(coord, piece),
    ;

    /// Clears `coord`; nothing changes where it was empty already.
    fn remove(&mut self, coord: Coord)
        ensures
            final(self).cells() == old(self).cells().remove(coord),
    ;

    /// What stands on `coord`, if anything.
    fn at(&self, coord: Coord) -> (p: Option<&P>)
        ensures
            p is Some <==> self.cells().contains_key(coord),
            p matches Some(q) ==> *q == self.cells()[coord],
    ;

    /// Whether anything stands on `coord`.
    fn occupied(&self, coord: Coord) -> (b: bool)
        ensures
            b == self.cells().contains_key(coord),
    {
        self.at(coord).is_some()
    }

    /// The number of occupied cells.
    fn num_pieces(&self) -> (n: usize)
        ensures
            n == self.cells().len(),
    ;

    /// The six neighbours of `coord`, whatever the grid holds.
    fn adjacents(&self, coord: Coord) -> (v: Vec<Coord>)
        ensures
            v@ == neighbors(coord),
    ;
}

} // verus!
