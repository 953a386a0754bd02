//! The pieces of Hive. A cell holds one piece; where pieces stand on one
//! another, it holds the topmost, and each beetle holds what it stands on.

use vstd::prelude::*;
use vstd::std_specs::cmp::PartialEqSpecImpl;
use crate::grid::Piece;

verus! {

/// The two players.
#[derive(Copy, Clone, Debug, PartialEq, Eq, Structural)]
pub enum Color {
    Black,
    White,
}

/// The five kinds of piece. A beetle carries the piece right beneath it, so
/// a stack of `n` pieces on one cell is `n - 1` beetles, one inside the
/// other, around the piece at the bottom. A beetle always stands on
/// something: one on the bare board has no form in this model.
#[derive(Debug, Eq)]
pub enum Bug {
    Ant,
    Beetle(Box<HivePiece>),
    Grasshopper,
    QueenBee,
    Spider,
}

/// A piece with its owner, and with all that lies beneath it.
#[derive(Debug, Eq)]
pub struct HivePiece {
    pub color: Color,
    pub bug: Bug,
}

impl Piece for HivePiece {
}

fn same_piece(a: &HivePiece, b: &HivePiece) -> (r: bool)
    ensures
        r == (*a == *b),
    decreases *a,
{
    a.color == b.color && same_bug(&a.bug, &b.bug)
}

fn same_bug(a: &Bug, b: &Bug) -> (r: bool)
    ensures
        r == (*a == *b),
    decreases *a,
{
    match (a, b) {
        (Bug::Ant, Bug::Ant) => true,
        (Bug::Beetle(x), Bug::Beetle(y)) => same_piece(x, y),
        (Bug::Grasshopper, Bug::Grasshopper) => true,
        (Bug::QueenBee, Bug::QueenBee) => true,
        (Bug::Spider, Bug::Spider) => true,
        _ => false,
    }
}

fn copy_piece(a: &HivePiece) -> (r: HivePiece)
    ensures
        r == *a,
    decreases *a,
{
    HivePiece { color: a.color, bug: copy_bug(&a.bug) }
}

fn copy_bug(a: &Bug) -> (r: Bug)
    ensures
        r == *a,
    decreases *a,
{
    match a {
        Bug::Ant => Bug::Ant,
        Bug::Beetle(x) => Bug::Beetle(Box::new(copy_piece(x))),
        Bug::Grasshopper => Bug::Grasshopper,
        Bug::QueenBee => Bug::QueenBee,
        Bug::Spider => Bug::Spider,
    }
}

impl PartialEq for Bug {
    fn eq(&self, other: &Bug) -> (r: bool) {
        same_bug(self, other)
    }
}

impl PartialEqSpecImpl for Bug {
    open spec fn obeys_eq_spec() -> bool {
        true
    }

    open spec fn eq_spec(&self, other: &Bug) -> bool {
        *self == *other
    }
}

impl Clone for Bug {
    fn clone(&self) -> (r: Bug)
        ensures
            r == *self,
    {
        copy_bug(self)
    }
}

impl PartialEq for HivePiece {
    fn eq(&self, other: &HivePiece) -> (r: bool) {
        same_piece(self, other)
    }
}

impl PartialEqSpecImpl for HivePiece {
    open spec fn obeys_eq_spec() -> bool {
        true
    }

    open spec fn eq_spec(&self, other: &HivePiece) -> bool {
        *self == *other
    }
}

impl Clone for HivePiece {
    fn clone(&self) -> (r: HivePiece)
        ensures
            r == *self,
    {
        copy_piece(self)
    }
}

impl HivePiece {
    /// A piece of the given owner and kind.
    pub fn new(color: Color, bug: Bug) -> (p: HivePiece)
        ensures
            p == (HivePiece { color, bug }),
    {
        HivePiece { color, bug }
    }

    /// The piece right beneath this one, where this one is a beetle.
    pub open spec fn below(self) -> Option<HivePiece> {
        match self.bug {
            Bug::Beetle(under) => Some(*under),
            _ => None,
        }
    }

    /// How many pieces stand on the cell whose topmost piece this is.
    pub open spec fn stack_height(self) -> nat
        decreases self,
    {
        match self.bug {
            Bug::Beetle(under) => 1 + under.stack_height(),
            _ => 1,
        }
    }

    /// A beetle of the given owner that has climbed onto `under`.
    pub fn beetle_on(color: Color, under: HivePiece) -> (p: HivePiece)
        ensures
            p == (HivePiece { color, bug: Bug::Beetle(Box::new(under)) }),
            p.below() == Some(under),
            p.stack_height() == under.stack_height() + 1,
    {
        HivePiece { color, bug: Bug::Beetle(Box::new(under)) }
    }

    /// The piece right beneath this one, if this one is a beetle.
    pub fn beneath(&self) -> (u: Option<&HivePiece>)
        ensures
            u is Some <==> self.below() is Some,
            u matches Some(q) ==> Some(*q) == self.below(),
    {
        match &self.bug {
            Bug::Beetle(under) => Some(&**under),
            _ => None,
        }
    }
}

} // verus!
