use vstd::prelude::*;
use vstd::math::abs;
use crate::consts::{SCREEN_HALF, PIE_RADIUS, PIE_ACCEL, PLATE_W, PLATE_H, PLATE_Y, COORD_LIMIT};

verus! {

/// The mathematical value of a falling pie: the digit it carries and its
/// kinematic state over unbounded integers.
pub ghost struct PieModel {
    pub slices: u8,
    pub velocity: int,
    pub x: int,
    pub y: int,
}

/// A falling pie carrying one decimal digit.
#[derive(Clone, Copy, PartialEq, Eq, Structural, Debug)]
pub struct Pie {
    pub slices: u8,
    pub velocity: i64,
    pub x: i64,
    pub y: i64,
}

impl View for Pie {
    type V = PieModel;

    open spec fn view(&self) -> PieModel {
        PieModel {
            slices: self.slices,
            velocity: self.velocity as int,
            x: self.x as int,
            y: self.y as int,
        }
    }
}

/// The plate (paddle): a pointer-driven horizontal centre; its vertical
/// centre is the constant PLATE_Y.
#[derive(Clone, Copy, PartialEq, Eq, Structural, Debug)]
pub struct PiePlate {
    pub x: i64,
}

/// One physics tick: the velocity drops by PIE_ACCEL, then the position
/// moves by the new velocity.
pub open spec fn spec_advance(p: PieModel) -> PieModel {
    PieModel {
        slices: p.slices,
        velocity: p.velocity - PIE_ACCEL,
        x: p.x,
        y: p.y + p.velocity - PIE_ACCEL,
    }
}

/// The circle-vs-rectangle overlap test of the collision detector, over
/// mathematical coordinates: the pie is a circle of radius PIE_RADIUS centred
/// at (px, py); the plate is an axis-aligned rectangle of width PLATE_W and
/// height PLATE_H centred at (plate_x, PLATE_Y). Touching counts as overlap
/// in the inner branches; the first branch rejects only strictly-far pies.
pub open spec fn spec_collides(px: int, py: int, plate_x: int) -> bool {
    let dx = abs(px - plate_x) as int;
    let dy = abs(py - PLATE_Y) as int;
    if dx > PLATE_W / 2 + PIE_RADIUS && dy > PLATE_H / 2 + PIE_RADIUS {
        false
    } else if dx <= PLATE_W / 2 && dy <= PLATE_H / 2 {
        true
    } else {
        (dx - PLATE_W / 2) * (dx - PLATE_W / 2) + (dy - PLATE_H / 2) * (dy - PLATE_H / 2)
            <= PIE_RADIUS * PIE_RADIUS
    }
}

impl Pie {
    /// The pie the spawner introduces: at the top edge, at rest; the digit
    /// and the horizontal position come from the caller's random draws.
    pub fn new(slices: u8, x: i64) -> (p: Pie)
        requires
            slices <= 9,
            -SCREEN_HALF <= x <= SCREEN_HALF,
        ensures
            p@ == (PieModel { slices: slices, velocity: 0, x: x as int, y: SCREEN_HALF as int }),
    {
        Pie { slices, velocity: 0, x, y: SCREEN_HALF }
    }

    /// Advances this pie by one physics tick.
    pub fn advance(&mut self)
        requires
            -COORD_LIMIT <= old(self).velocity <= COORD_LIMIT,
            -COORD_LIMIT <= old(self).y <= COORD_LIMIT,
        ensures
            final(self)@ == spec_advance(old(self)@),
    {
        self.velocity = self.velocity - PIE_ACCEL;
        self.y = self.y + self.velocity;
    }

    /// Whether this pie overlaps the plate.
    pub fn collides(&self, plate: &PiePlate) -> (r: bool)
        requires
            -COORD_LIMIT <= self.x <= COORD_LIMIT,
            -COORD_LIMIT <= self.y <= COORD_LIMIT,
            -COORD_LIMIT <= plate.x <= COORD_LIMIT,
        ensures
            r == spec_collides(self@.x, self@.y, plate.x as int),
    {
        let dx = if self.x >= plate.x { self.x - plate.x } else { plate.x - self.x };
        let dy = if self.y >= PLATE_Y { self.y - PLATE_Y } else { PLATE_Y - self.y };
        if dx > PLATE_W / 2 + PIE_RADIUS && dy > PLATE_H / 2 + PIE_RADIUS {
            false
        } else if dx <= PLATE_W / 2 && dy <= PLATE_H / 2 {
            true
        } else {
            let cx = dx - PLATE_W / 2;
            let cy = dy - PLATE_H / 2;
            proof {
                assert(0 <= cx * cx <= 4_500_000_000_000_000_000) by (nonlinear_arith)
                    requires -2_100_000_000 <= cx <= 2_100_000_000,
                ;
                assert(0 <= cy * cy <= 4_500_000_000_000_000_000) by (nonlinear_arith)
                    requires -2_100_000_000 <= cy <= 2_100_000_000,
                ;
            }
            cx * cx + cy * cy <= PIE_RADIUS * PIE_RADIUS
        }
    }
}

/// The running total 1 + 2 + ... + n.
pub open spec fn sum_to(n: nat) -> int
    decreases n,
{
    if n == 0 {
        0
    } else {
        n + sum_to((n - 1) as nat)
    }
}

/// The pie after n physics ticks.
pub open spec fn fallen(p: PieModel, n: nat) -> PieModel
    decreases n,
{
    if n == 0 {
        p
    } else {
        spec_advance(fallen(p, (n - 1) as nat))
    }
}

/// Free fall from rest: after n ticks the velocity is -n * PIE_ACCEL and the
/// pie has dropped by PIE_ACCEL * (1 + 2 + ... + n), i.e. by
/// PIE_ACCEL * n * (n + 1) / 2; the digit and the horizontal position never
/// change.
pub proof fn lemma_free_fall(p: PieModel, n: nat)
    requires
        p.velocity == 0,
    ensures
        fallen(p, n).slices == p.slices,
        fallen(p, n).x == p.x,
        fallen(p, n).velocity == -(n as int) * PIE_ACCEL,
        fallen(p, n).y == p.y - PIE_ACCEL * sum_to(n),
        2 * sum_to(n) == n * (n + 1),
    decreases n,
{
    if n > 0 {
        let m = (n - 1) as nat;
        lemma_free_fall(p, m);
        assert(-(m as int) * PIE_ACCEL - PIE_ACCEL == -(n as int) * PIE_ACCEL) by (nonlinear_arith)
            requires m == n - 1,
        ;
        assert(2 * (n + sum_to(m)) == n * (n + 1)) by (nonlinear_arith)
            requires 2 * sum_to(m) == m * (m + 1) && m == n - 1,
        ;
    }
}

/// Reflection symmetry of the collision detector: mirroring the pie and the
/// plate together across the vertical axis does not change the outcome.
pub proof fn lemma_collides_reflection(px: int, py: int, plate_x: int)
    ensures
        spec_collides(-px, py, -plate_x) == spec_collides(px, py, plate_x),
{
}

/// The boundary of the collision detector at plate height: a pie centred
/// exactly one radius beyond the plate's right edge does not collide, while
/// a pie centred over the plate's right edge does.
pub proof fn lemma_collides_boundary(plate_x: int)
    ensures
        !spec_collides(plate_x + PLATE_W / 2 + PIE_RADIUS, PLATE_Y as int, plate_x),
        spec_collides(plate_x + PLATE_W / 2, PLATE_Y as int, plate_x),
{
    assert(abs(plate_x + PLATE_W / 2 + PIE_RADIUS - plate_x) == 1000);
    assert(abs(PLATE_Y as int - PLATE_Y) == 0);
    assert((1000int - 500) * (1000int - 500) + (0int - 100) * (0int - 100) == 260000)
        by (nonlinear_arith);
    assert(500int * 500int == 250000) by (nonlinear_arith);
}

} // verus!
