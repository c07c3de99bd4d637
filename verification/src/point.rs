use vstd::prelude::*;

verus! {

/// One plot coordinate. A finite value is a fixed-point number counted
/// in thousandths of a data unit (so `2500` stands for `2.5`); the
/// `NonFinite` marker stands for a value that is not a usable number
/// (the callers' NaN or infinity). Non-finite coordinates never enter
/// bounds computation and never produce geometry.
#[derive(Clone, Copy, PartialEq, Eq, Structural, Debug)]
pub enum Coord {
    Finite(i64),
    NonFinite,
}

/// The number of fixed-point units in one data unit.
pub const UNITS_PER_ONE: i64 = 1000;

impl Coord {
    pub open spec fn is_finite(self) -> bool {
        self is Finite
    }

    /// The numeric value of a finite coordinate, in thousandths.
    pub open spec fn value(self) -> int {
        self->Finite_0 as int
    }
}

/// A 2-D point of two coordinates.
#[derive(Clone, Copy, PartialEq, Eq, Structural, Debug)]
pub struct Point {
    pub x: Coord,
    pub y: Coord,
}

impl Point {
    /// A point is finite exactly when both of its coordinates are.
    pub open spec fn is_finite(self) -> bool {
        self.x.is_finite() && self.y.is_finite()
    }

    /// Build a finite point from two fixed-point values.
    pub fn new(x: i64, y: i64) -> (r: Point)
        ensures
            r.x == Coord::Finite(x),
            r.y == Coord::Finite(y),
            r.is_finite(),
    {
        Point { x: Coord::Finite(x), y: Coord::Finite(y) }
    }

    /// Whether both coordinates are finite.
    pub fn finite(&self) -> (r: bool)
        ensures
            r == self.is_finite(),
    {
        match (self.x, self.y) {
            (Coord::Finite(_), Coord::Finite(_)) => true,
            _ => false,
        }
    }
}

/// The subsequence of finite points, in order.
pub open spec fn finite_only(s: Seq<Point>) -> Seq<Point>
    decreases s.len(),
{
    if s.len() == 0 {
        Seq::<Point>::empty()
    } else {
        finite_only(s.drop_last()) + if s.last().is_finite() {
            seq![s.last()]
        } else {
            Seq::<Point>::empty()
        }
    }
}

/// A non-finite point placed anywhere in a sequence leaves the
/// subsequence of finite points unchanged.
pub proof fn lemma_finite_only_skips_nonfinite(a: Seq<Point>, p: Point, b: Seq<Point>)
    requires
        !p.is_finite(),
    ensures
        finite_only(a + seq![p] + b) == finite_only(a + b),
    decreases b.len(),
{
    if b.len() == 0 {
        assert((a + seq![p] + b).drop_last() =~= a);
        assert((a + seq![p] + b).last() == p);
        assert(a + b =~= a);
        assert(finite_only(a + seq![p]) == finite_only(a));
    } else {
        lemma_finite_only_skips_nonfinite(a, p, b.drop_last());
        assert((a + seq![p] + b).drop_last() =~= a + seq![p] + b.drop_last());
        assert((a + b).drop_last() =~= a + b.drop_last());
        assert((a + seq![p] + b).last() == b.last());
        assert((a + b).last() == b.last());
    }
}

} // verus!
