//! Trails of recent positions drawn behind moving bodies.
use std::collections::VecDeque;
use vstd::prelude::*;

verus! {

/// Number of points a trail keeps.
pub const TRAIL_LENGTH: usize = 300;

/// Recent points, newest first, at most `TRAIL_LENGTH` of them.
pub struct Trail<P> {
    points: VecDeque<P>,
}

impl<P> View for Trail<P> {
    type V = Seq<P>;

    closed spec fn view(&self) -> Seq<P> {
        self.points@
    }
}

impl<P> Trail<P> {
    /// An empty trail.
    pub fn new() -> (r: Self)
        ensures
            r@ == Seq::<P>::empty(),
    {
        Trail { points: VecDeque::new() }
    }

    /// Number of points held.
    pub fn len(&self) -> (r: usize)
        ensures
            r == self@.len(),
    {
        self.points.len()
    }

    /// The point at `index`, counted from the newest.
    pub fn point(&self, index: usize) -> (r: &P)
        requires
            index < self@.len(),
        ensures
            *r == self@[index as int],
    {
        &self.points[index]
    }

    /// Adds `point` as the newest; the oldest is dropped once more than
    /// `TRAIL_LENGTH` points are held.
    pub fn add_to_trail(&mut self, point: P)
        requires
            old(self)@.len() <= TRAIL_LENGTH,
        ensures
            final(self)@.len() <= TRAIL_LENGTH,
            final(self)@ == (seq![point] + old(self)@).take(
                if old(self)@.len() < TRAIL_LENGTH {
                    old(self)@.len() + 1int
                } else {
                    TRAIL_LENGTH as int
                },
            ),
    {
        self.points.push_front(point);
        if self.points.len() > TRAIL_LENGTH {
            self.points.pop_back();
        }
        assert(self@ =~= (seq![point] + old(self)@).take(
            if old(self)@.len() < TRAIL_LENGTH {
                old(self)@.len() + 1int
            } else {
                TRAIL_LENGTH as int
            },
        ));
    }
}

} // verus!
