use vstd::prelude::*;
use crate::point::Point;

verus! {

/// How a dual-access sequence satisfies its two traversals.
#[derive(Clone, Copy, PartialEq, Eq, Structural, Debug)]
pub enum Strategy {
    /// The source is cheap to duplicate: the first traversal runs on a
    /// duplicate, the second on the untouched original. No extra storage.
    Rederive,
    /// The source may be read only once: the first traversal copies every
    /// point into an owned buffer, the second replays that buffer.
    Capture,
    /// The data already sits materialized in memory; both traversals read it.
    Materialized,
}

/// Which traversals have happened so far. They must happen in order:
/// first pass, then second pass, and nothing after that.
#[derive(Clone, Copy, PartialEq, Eq, Structural, Debug)]
pub enum PassState {
    Fresh,
    FirstDone,
    Consumed,
}

/// A logical sequence of points that can be traversed exactly twice,
/// both traversals yielding the same points in the same order.
pub struct DualSeq {
    strategy: Strategy,
    src: Vec<Point>,
    buf: Vec<Point>,
    state: PassState,
}

/// Copy a point vector element by element.
fn copy_points(v: &Vec<Point>) -> (r: Vec<Point>)
    ensures
        r@ == v@,
{
    let mut r: Vec<Point> = Vec::new();
    let mut i: usize = 0;
    while i < v.len()
        invariant
            i <= v.len(),
            r@ == v@.subrange(0, i as int),
        decreases v.len() - i,
    {
        r.push(v[i]);
        proof {
            assert(r@ =~= v@.subrange(0, i + 1 as int));
        }
        i += 1;
    }
    proof {
        assert(r@ =~= v@);
    }
    r
}

impl DualSeq {
    /// The point sequence that both traversals yield.
    pub closed spec fn points(self) -> Seq<Point> {
        self.src@
    }

    pub closed spec fn state(self) -> PassState {
        self.state
    }

    pub closed spec fn strategy(self) -> Strategy {
        self.strategy
    }

    /// Internal consistency: once the first pass is done, a capturing
    /// sequence has buffered exactly the points of its source.
    pub closed spec fn inv(self) -> bool {
        (self.state is FirstDone && self.strategy is Capture) ==> self.buf@ == self.src@
    }

    /// Wrap a source that is cheap to obtain again.
    pub fn rederive(v: Vec<Point>) -> (r: DualSeq)
        ensures
            r.points() == v@,
            r.state() is Fresh,
            r.strategy() is Rederive,
            r.inv(),
    {
        DualSeq { strategy: Strategy::Rederive, src: v, buf: Vec::new(), state: PassState::Fresh }
    }

    /// Wrap a source that may be consumed only once; the first traversal
    /// stores its points for the second.
    pub fn capture(v: Vec<Point>) -> (r: DualSeq)
        ensures
            r.points() == v@,
            r.state() is Fresh,
            r.strategy() is Capture,
            r.inv(),
    {
        DualSeq { strategy: Strategy::Capture, src: v, buf: Vec::new(), state: PassState::Fresh }
    }

    /// Wrap data the caller has already materialized.
    pub fn materialized(v: Vec<Point>) -> (r: DualSeq)
        ensures
            r.points() == v@,
            r.state() is Fresh,
            r.strategy() is Materialized,
            r.inv(),
    {
        DualSeq {
            strategy: Strategy::Materialized,
            src: v,
            buf: Vec::new(),
            state: PassState::Fresh,
        }
    }

    /// First traversal. Yields the whole point sequence and readies the
    /// second traversal. Calling it on anything but a fresh sequence is a
    /// programming error and is excluded here.
    pub fn first_pass(&mut self) -> (r: Vec<Point>)
        requires
            old(self).state() is Fresh,
            old(self).inv(),
        ensures
            r@ == old(self).points(),
            final(self).points() == old(self).points(),
            final(self).state() is FirstDone,
            final(self).inv(),
    {
        let r = match self.strategy {
            Strategy::Rederive => copy_points(&self.src),
            Strategy::Capture => {
                let captured = copy_points(&self.src);
                self.buf = copy_points(&self.src);
                captured
            },
            Strategy::Materialized => copy_points(&self.src),
        };
        self.state = PassState::FirstDone;
        r
    }

    /// Second traversal. Yields the same point sequence as the first.
    /// Calling it before the first pass, or twice, is a programming error
    /// and is excluded here.
    pub fn second_pass(&mut self) -> (r: Vec<Point>)
        requires
            old(self).state() is FirstDone,
            old(self).inv(),
        ensures
            r@ == old(self).points(),
            final(self).state() is Consumed,
    {
        let r = match self.strategy {
            Strategy::Rederive => copy_points(&self.src),
            Strategy::Capture => copy_points(&self.buf),
            Strategy::Materialized => copy_points(&self.src),
        };
        self.state = PassState::Consumed;
        r
    }
}

/// The dual-access law: whatever the strategy, the two traversals of one
/// sequence yield element-wise equal point sequences of equal length.
/// `r1` is what the first pass returned, `d1` the sequence's state after
/// it, and `r2` what the second pass then returned; the contracts of
/// `first_pass` and `second_pass` supply exactly these premises.
pub proof fn lemma_two_passes_agree(d0: DualSeq, d1: DualSeq, r1: Seq<Point>, r2: Seq<Point>)
    requires
        r1 == d0.points(),
        d1.points() == d0.points(),
        r2 == d1.points(),
    ensures
        r1 == r2,
        r1.len() == r2.len(),
        forall|i: int| 0 <= i < r1.len() ==> r1[i] == r2[i],
{
}

} // verus!
