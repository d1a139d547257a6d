//! State of the per-body editor windows, and picking bodies by their
//! detection proxies.
use crate::fixed::abs;
use crate::gravity::valid_position;
use crate::physics::{Body, Vector, World};
use vstd::prelude::*;

verus! {

/// Whether a body's editor window is open, and whether that just changed.
#[derive(Clone, Copy, Debug, PartialEq, Eq, Structural)]
pub struct EditorWindow {
    pub is_open: bool,
    pub just_changed: bool,
}

impl Default for EditorWindow {
    fn default() -> (r: Self)
        ensures
            !r.is_open && !r.just_changed,
    {
        EditorWindow { is_open: false, just_changed: false }
    }
}

impl EditorWindow {
    /// A window in the given state, marked as just changed.
    pub fn new(is_open: bool) -> (r: Self)
        ensures
            r.is_open == is_open,
            r.just_changed,
    {
        EditorWindow { is_open, just_changed: true }
    }

    /// Whether the window is open.
    pub fn get(&self) -> (r: bool)
        ensures
            r == self.is_open,
    {
        self.is_open
    }

    /// Opens or closes the window.
    pub fn set(&mut self, is_open: bool)
        ensures
            final(self).is_open == is_open,
            final(self).just_changed,
    {
        self.is_open = is_open;
        self.just_changed = true;
    }

    /// Opens a closed window, or closes an open one.
    pub fn toggle(&mut self)
        ensures
            final(self).is_open == !old(self).is_open,
            final(self).just_changed,
    {
        self.is_open = !self.is_open;
        self.just_changed = true;
    }

    /// Whether the window should now be placed at the cursor: only right after
    /// a change, and only when there is a cursor. Placing it clears the mark.
    pub fn place_at_cursor(&mut self, has_cursor: bool) -> (r: bool)
        ensures
            r == (has_cursor && old(self).just_changed),
            final(self).is_open == old(self).is_open,
            final(self).just_changed == (old(self).just_changed && !has_cursor),
    {
        if has_cursor && self.just_changed {
            self.just_changed = false;
            true
        } else {
            false
        }
    }
}

/// Two circles meet when the distance between their centers is at most the
/// sum of their radii.
pub open spec fn circles_meet(c1: Vector, r1: int, c2: Vector, r2: int) -> bool {
    (c2.x - c1.x) * (c2.x - c1.x) + (c2.y - c1.y) * (c2.y - c1.y) <= (r1 + r2) * (r1 + r2)
}

/// Whether the detection proxy of `b` meets the circle at `pointer`.
pub open spec fn body_picked(b: Body, pointer: Vector, radius: int) -> bool {
    match b.collider {
        Some(c) => circles_meet(c.center, c.radius as int, pointer, radius),
        None => false,
    }
}

/// Whether two circles with centers in the world and non-negative radii meet.
pub fn circles_intersect(c1: Vector, r1: i64, c2: Vector, r2: i64) -> (r: bool)
    requires
        valid_position(c1),
        valid_position(c2),
        r1 >= 0,
        r2 >= 0,
    ensures
        r == circles_meet(c1, r1 as int, c2, r2 as int),
{
    let dx: i128 = c2.x as i128 - c1.x as i128;
    let dy: i128 = c2.y as i128 - c1.y as i128;
    assert(dx * dx <= 0x4000_0000_0000_0000_0000_0000 && dy * dy <= 0x4000_0000_0000_0000_0000_0000) by (nonlinear_arith)
        requires
            abs(dx as int) <= 0x8000_0000_0000,
            abs(dy as int) <= 0x8000_0000_0000,
    ;
    assert(dx * dx >= 0 && dy * dy >= 0) by (nonlinear_arith);
    let d2: i128 = dx * dx + dy * dy;
    let sum: i128 = r1 as i128 + r2 as i128;
    if sum >= 0x1_0000_0000_0000 {
        assert(sum * sum >= 0x1_0000_0000_0000_0000_0000_0000) by (nonlinear_arith)
            requires
                sum >= 0x1_0000_0000_0000,
        ;
        true
    } else {
        assert(sum * sum < 0x1_0000_0000_0000_0000_0000_0000) by (nonlinear_arith)
            requires
                0 <= sum < 0x1_0000_0000_0000,
        ;
        d2 <= sum * sum
    }
}

/// Indices, ascending, of the bodies whose detection proxy meets the circle of
/// the given radius around the pointer.
pub fn picking_backend_physics(world: &World, pointer: Vector, pointer_radius: i64) -> (r: Vec<usize>)
    requires
        world.wf(),
        valid_position(pointer),
        pointer_radius >= 0,
    ensures
        forall|x: int| 0 <= x < r@.len() ==> #[trigger] r@[x] < world@.len() && body_picked(
            world@[r@[x] as int],
            pointer,
            pointer_radius as int,
        ),
        forall|x: int, y: int| 0 <= x < y < r@.len() ==> #[trigger] r@[x] < #[trigger] r@[y],
        forall|k: int|
            0 <= k < world@.len() && #[trigger] body_picked(world@[k], pointer, pointer_radius as int)
                ==> r@.contains(k as usize),
{
    let mut hits: Vec<usize> = Vec::new();
    let n = world.len();
    let mut k: usize = 0;
    while k < n
        invariant
            n == world@.len(),
            0 <= k <= n,
            world.wf(),
            valid_position(pointer),
            pointer_radius >= 0,
            forall|x: int| 0 <= x < hits@.len() ==> #[trigger] hits@[x] < k && body_picked(
                world@[hits@[x] as int],
                pointer,
                pointer_radius as int,
            ),
            forall|x: int, y: int| 0 <= x < y < hits@.len() ==> #[trigger] hits@[x] < #[trigger] hits@[y],
            forall|j: int|
                0 <= j < k && #[trigger] body_picked(world@[j], pointer, pointer_radius as int)
                    ==> hits@.contains(j as usize),
        decreases n - k,
    {
        let b = world.body(k);
        let ghost before = hits@;
        assert(world@[k as int].valid());
        if let Some(c) = b.collider {
            if circles_intersect(c.center, c.radius, pointer, pointer_radius) {
                hits.push(k);
                assert(hits@[hits@.len() - 1] == k);
            }
        }
        proof {
            assert forall|j: int|
                0 <= j < k + 1 && #[trigger] body_picked(world@[j], pointer, pointer_radius as int)
                    implies hits@.contains(j as usize) by {
                if j == k {
                    assert(hits@[hits@.len() - 1] == k);
                } else {
                    let idx = choose|i: int| 0 <= i < before.len() && before[i] == j as usize;
                    assert(hits@[idx] == j as usize);
                }
            }
        }
        k += 1;
    }
    hits
}

} // verus!
