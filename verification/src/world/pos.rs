use vstd::prelude::*;

verus! {

/// Largest coordinate magnitude that positions in a game take.
pub const COORD_LIMIT: i32 = 8192;

/// A tile coordinate.
#[derive(Debug, Clone, Copy, PartialEq, Eq, Hash, Structural)]
pub struct Pos {
    pub x: i32,
    pub y: i32,
}

pub open spec fn abs_int(v: int) -> int {
    if v < 0 { -v } else { v }
}

pub open spec fn sign_int(v: int) -> int {
    if v > 0 { 1 } else if v < 0 { -1 } else { 0 }
}

impl Pos {
    /// The coordinates are small enough for every distance computation.
    pub open spec fn bounded(self) -> bool {
        -COORD_LIMIT <= self.x <= COORD_LIMIT && -COORD_LIMIT <= self.y <= COORD_LIMIT
    }

    pub open spec fn spec_dist_sq(self, o: Pos) -> int {
        (self.x - o.x) * (self.x - o.x) + (self.y - o.y) * (self.y - o.y)
    }

    pub open spec fn spec_adjacent(self, o: Pos) -> bool {
        abs_int(self.x - o.x) <= 1 && abs_int(self.y - o.y) <= 1
    }

    /// One step toward `target`, along the axis with the larger sign magnitude;
    /// ties go along x.
    pub open spec fn spec_step_toward(self, target: Pos) -> Pos {
        let dx = sign_int(target.x - self.x);
        let dy = sign_int(target.y - self.y);
        if abs_int(dx) >= abs_int(dy) {
            Pos { x: (self.x + dx) as i32, y: self.y }
        } else {
            Pos { x: self.x, y: (self.y + dy) as i32 }
        }
    }

    pub fn new(x: i32, y: i32) -> (r: Self)
        ensures
            r.x == x,
            r.y == y,
    {
        Pos { x, y }
    }

    pub fn dist_sq(self, o: Pos) -> (r: i32)
        requires
            self.bounded(),
            o.bounded(),
        ensures
            r == self.spec_dist_sq(o),
            r >= 0,
    {
        let dx = self.x - o.x;
        let dy = self.y - o.y;
        assert(0 <= dx * dx <= 16384 * 16384) by (nonlinear_arith)
            requires -16384 <= dx <= 16384;
        assert(0 <= dy * dy <= 16384 * 16384) by (nonlinear_arith)
            requires -16384 <= dy <= 16384;
        dx * dx + dy * dy
    }

    /// The differences `step_toward` takes, and the coordinate it changes,
    /// fit in `i32`.
    pub open spec fn step_fits(self, target: Pos) -> bool {
        &&& i32::MIN <= target.x - self.x <= i32::MAX
        &&& i32::MIN <= target.y - self.y <= i32::MAX
        &&& i32::MIN <= self.spec_step_toward_x(target) <= i32::MAX
        &&& i32::MIN <= self.spec_step_toward_y(target) <= i32::MAX
    }

    /// The coordinates of one step toward `target`, as integers.
    pub open spec fn spec_step_toward_x(self, target: Pos) -> int {
        let dx = sign_int(target.x - self.x);
        let dy = sign_int(target.y - self.y);
        if abs_int(dx) >= abs_int(dy) { self.x + dx } else { self.x as int }
    }

    pub open spec fn spec_step_toward_y(self, target: Pos) -> int {
        let dx = sign_int(target.x - self.x);
        let dy = sign_int(target.y - self.y);
        if abs_int(dx) >= abs_int(dy) { self.y as int } else { self.y + dy }
    }

    pub fn step_toward(self, target: Pos) -> (r: Pos)
        requires
            self.step_fits(target),
        ensures
            r == self.spec_step_toward(target),
    {
        let dx: i32 = signum(target.x - self.x);
        let dy: i32 = signum(target.y - self.y);
        if abs_i32(dx) >= abs_i32(dy) {
            Pos::new(self.x + dx, self.y)
        } else {
            Pos::new(self.x, self.y + dy)
        }
    }

    /// The differences `adjacent` takes have an absolute value in `i32`
    /// (the rows' only where the columns are within one).
    pub open spec fn adjacent_fits(self, o: Pos) -> bool {
        &&& i32::MIN < self.x - o.x <= i32::MAX
        &&& abs_int(self.x - o.x) <= 1 ==> i32::MIN < self.y - o.y <= i32::MAX
    }

    pub fn adjacent(self, o: Pos) -> (r: bool)
        requires
            self.adjacent_fits(o),
        ensures
            r == self.spec_adjacent(o),
    {
        abs_i32(self.x - o.x) <= 1 && abs_i32(self.y - o.y) <= 1
    }
}

/// `i32::signum`.
pub fn signum(v: i32) -> (r: i32)
    ensures
        r == sign_int(v as int),
{
    if v > 0 {
        1
    } else if v < 0 {
        -1
    } else {
        0
    }
}

/// `i32::abs` on values that have an absolute value in `i32`.
pub fn abs_i32(v: i32) -> (r: i32)
    requires
        v > i32::MIN,
    ensures
        r == abs_int(v as int),
{
    if v < 0 {
        -v
    } else {
        v
    }
}

/// A step toward a different target, wherever its coordinates fit in `i32`,
/// takes one tile along a row or column (along the row while the columns
/// differ) and strictly shortens the squared distance to it.
pub proof fn lemma_step_toward_approaches(p: Pos, target: Pos)
    requires
        p.step_fits(target),
        p != target,
    ensures
        p.spec_adjacent(p.spec_step_toward(target)),
        abs_int(p.spec_step_toward(target).x - p.x) + abs_int(p.spec_step_toward(target).y - p.y) == 1,
        p.x != target.x ==> p.spec_step_toward(target).y == p.y,
        p.spec_step_toward(target).spec_dist_sq(target) < p.spec_dist_sq(target),
{
    let q = p.spec_step_toward(target);
    assert(q.x == p.spec_step_toward_x(target) && q.y == p.spec_step_toward_y(target));
    let dx = target.x - p.x;
    let dy = target.y - p.y;
    if dx != 0 {
        assert((q.x - target.x) * (q.x - target.x) < (p.x - target.x) * (p.x - target.x))
            by (nonlinear_arith)
            requires
                q.x - target.x == (p.x - target.x) + sign_int(target.x - p.x),
                p.x != target.x,
                sign_int(target.x - p.x) == if target.x > p.x { 1int } else { -1int },
        ;
    } else {
        assert((q.y - target.y) * (q.y - target.y) < (p.y - target.y) * (p.y - target.y))
            by (nonlinear_arith)
            requires
                q.y - target.y == (p.y - target.y) + sign_int(target.y - p.y),
                p.y != target.y,
                sign_int(target.y - p.y) == if target.y > p.y { 1int } else { -1int },
        ;
    }
}

/// Adjacency is symmetric and reflexive.
pub proof fn lemma_adjacent_symmetric(a: Pos, b: Pos)
    ensures
        a.spec_adjacent(b) == b.spec_adjacent(a),
        a.spec_adjacent(a),
        a.spec_dist_sq(b) == b.spec_dist_sq(a),
{
    assert((a.x - b.x) * (a.x - b.x) == (b.x - a.x) * (b.x - a.x)) by (nonlinear_arith);
    assert((a.y - b.y) * (a.y - b.y) == (b.y - a.y) * (b.y - a.y)) by (nonlinear_arith);
}

} // verus!
