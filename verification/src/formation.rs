//! Flight paths: the elliptical loop that a wave of enemies shares, the
//! factory that hands it out, and the step of one enemy along it.

use vstd::prelude::*;
use vstd::arithmetic::div_mod::{lemma_mod_multiples_vanish, lemma_small_mod};
use crate::constants::{
    BASE_SPEED, FORMATION_MEMBERS_MAX, PI_UNITS, SNAP_DIVISOR, UNIT, WAVE_RADIUS_MAX,
    WAVE_RADIUS_MIN, WAVE_RADIUS_Y, WAVE_START_MARGIN, VIEW_MAX,
};
use crate::geometry::{Point, WinSize};
use crate::random::{random_between, random_ratio};

verus! {

/// The two radii of an ellipse.
#[derive(Clone, Copy, Debug, PartialEq, Eq, Structural)]
pub struct Radius {
    pub x: u32,
    pub y: u32,
}

/// An elliptical flight path, the same for every enemy of a wave.
#[derive(Clone, Copy, Debug, PartialEq, Eq, Structural)]
pub struct FormationData {
    pub start: Point,
    pub radius: Radius,
    pub pivot: Point,
    pub speed: u32,
}

/// What one enemy holds: the path of its wave and its own phase on it, in
/// millionths of a radian and within one turn.
#[derive(Clone, Copy, Debug, PartialEq, Eq, Structural)]
pub struct Formation {
    pub data: FormationData,
    pub angle: i64,
}

/// Cosine and sine of a phase, in millionths.
#[derive(Clone, Copy, Debug, PartialEq, Eq, Structural)]
pub struct Heading {
    pub cos: i32,
    pub sin: i32,
}

/// A full turn, in millionths of a radian.
pub open spec fn turn() -> int {
    2 * PI_UNITS
}

impl FormationData {
    /// Both radii are positive, and the whole ellipse lies in the field.
    pub open spec fn wf(self) -> bool {
        &&& 0 < self.radius.x <= VIEW_MAX / 2
        &&& 0 < self.radius.y <= VIEW_MAX / 2
        &&& -(VIEW_MAX / 2) <= self.pivot.x <= VIEW_MAX / 2
        &&& -(VIEW_MAX / 2) <= self.pivot.y <= VIEW_MAX / 2
    }

    /// Decides `wf`.
    pub fn is_wf(&self) -> (out: bool)
        ensures
            out == self.wf(),
    {
        let half: u32 = VIEW_MAX / 2;
        0 < self.radius.x && self.radius.x <= half && 0 < self.radius.y && self.radius.y <= half
            && -(half as i32) <= self.pivot.x && self.pivot.x <= half as i32 && -(half as i32)
            <= self.pivot.y && self.pivot.y <= half as i32
    }

    /// The smaller radius.
    pub open spec fn min_radius(self) -> int {
        if self.radius.x <= self.radius.y { self.radius.x as int } else { self.radius.y as int }
    }

    /// The angle by which a phase moves on in `dt` milliseconds: the way
    /// travelled, `speed * dt`, over a quarter of the circle of the smaller
    /// radius, `min_radius * pi / 2`.
    pub open spec fn phase_step(self, dt: u32) -> int {
        (2 * UNIT * UNIT * self.speed * dt) / (self.min_radius() * PI_UNITS)
    }

    /// The point of the ellipse at the phase with the given cosine and sine.
    pub open spec fn point_at(self, heading: Heading) -> Point {
        Point {
            x: (self.pivot.x + scale_by(self.radius.x as int, heading.cos as int)) as i32,
            y: (self.pivot.y + scale_by(self.radius.y as int, heading.sin as int)) as i32,
        }
    }
}

impl Heading {
    /// Neither part is beyond one.
    pub open spec fn wf(self) -> bool {
        &&& -UNIT <= self.cos <= UNIT
        &&& -UNIT <= self.sin <= UNIT
    }

    /// Decides `wf`.
    pub fn is_wf(&self) -> (out: bool)
        ensures
            out == self.wf(),
    {
        -UNIT <= self.cos && self.cos <= UNIT && -UNIT <= self.sin && self.sin <= UNIT
    }
}

/// `radius` times a factor in millionths, rounded toward zero.
pub open spec fn scale_by(radius: int, factor: int) -> int {
    if factor >= 0 {
        radius * factor / (UNIT as int)
    } else {
        -(radius * (-factor) / (UNIT as int))
    }
}

/// `root` is the square root of `n`, rounded down.
pub open spec fn is_floor_sqrt(n: int, root: int) -> bool {
    0 <= root && root * root <= n < (root + 1) * (root + 1)
}

/// The square root of `n`, rounded down.
pub open spec fn floor_sqrt(n: int) -> int {
    choose|root: int| is_floor_sqrt(n, root)
}

proof fn lemma_square_monotone(a: int, b: int)
    requires
        0 <= a <= b,
    ensures
        a * a <= b * b,
{
    assert(a * a <= b * b) by (nonlinear_arith)
        requires
            0 <= a <= b,
    ;
}

/// A number has one floored square root only, so one that is found is `floor_sqrt`.
pub proof fn lemma_floor_sqrt_unique(n: int, root: int)
    requires
        is_floor_sqrt(n, root),
    ensures
        floor_sqrt(n) == root,
{
    let other = floor_sqrt(n);
    assert(is_floor_sqrt(n, other));
    if other < root {
        lemma_square_monotone(other + 1, root);
    } else if root < other {
        lemma_square_monotone(root + 1, other);
    }
}

/// Square root, rounded down, by bisection.
pub fn isqrt(n: u128) -> (root: u128)
    ensures
        is_floor_sqrt(n as int, root as int),
        root == floor_sqrt(n as int),
        root < 0x1_0000_0000_0000_0000,
{
    let mut low: u128 = 0;
    let mut high: u128 = 0x1_0000_0000_0000_0000;
    assert(0x1_0000_0000_0000_0000int * 0x1_0000_0000_0000_0000int
        == 0x1_0000_0000_0000_0000_0000_0000_0000_0000int) by (nonlinear_arith);
    while high - low > 1
        invariant
            low < high <= 0x1_0000_0000_0000_0000,
            low * low <= n < high * high,
        decreases high - low,
    {
        let mid: u128 = low + (high - low) / 2;
        assert(mid * mid < 0x1_0000_0000_0000_0000_0000_0000_0000_0000int) by (nonlinear_arith)
            requires
                0 <= mid < 0x1_0000_0000_0000_0000int,
        ;
        if mid * mid <= n {
            low = mid;
        } else {
            high = mid;
        }
    }
    proof {
        lemma_floor_sqrt_unique(n as int, low as int);
    }
    low
}

/// How far a coordinate gets from `from` toward `to` when the whole way is
/// `distance` long and `budget` of it may be covered: the share of the
/// coordinate's own way, rounded toward `from`, and never past `to`.
pub open spec fn approach(from: int, to: int, budget: int, distance: int) -> int {
    if distance == 0 {
        from
    } else if from > to {
        let moved = from - (from - to) * budget / distance;
        if moved > to { moved } else { to }
    } else {
        let moved = from + (to - from) * budget / distance;
        if moved < to { moved } else { to }
    }
}

fn approach_axis(from: i32, to: i32, budget: u64, distance: u128) -> (out: i32)
    ensures
        out == approach(from as int, to as int, budget as int, distance as int),
        from <= out <= to || to <= out <= from,
{
    if distance == 0 {
        return from;
    }
    let way: u128 = if from > to {
        (from as i64 - to as i64) as u128
    } else {
        (to as i64 - from as i64) as u128
    };
    assert(way * budget <= 0x1_0000_0000 * 0x1_0000_0000_0000_0000) by (nonlinear_arith)
        requires
            0 <= way <= 0x1_0000_0000,
            0 <= budget <= 0x1_0000_0000_0000_0000,
    ;
    let share: u128 = way * (budget as u128) / distance;
    if share >= way {
        to
    } else if from > to {
        (from as i64 - share as i64) as i32
    } else {
        (from as i64 + share as i64) as i32
    }
}

impl Formation {
    /// The phase lies within one turn.
    pub open spec fn wf(self) -> bool {
        &&& self.data.wf()
        &&& 0 <= self.angle < turn()
    }

    /// Decides `wf`.
    pub fn is_wf(&self) -> (out: bool)
        ensures
            out == self.wf(),
    {
        self.data.is_wf() && 0 <= self.angle && self.angle < 2 * (PI_UNITS as i64)
    }

    /// The phase that the enemy heads for in a tick of `dt` milliseconds:
    /// its own, moved back by the path's step, within one turn. The
    /// direction of rotation is the same for every wave.
    pub open spec fn candidate_spec(self, dt: u32) -> int {
        (self.angle - self.data.phase_step(dt)) % turn()
    }

    /// Computes `candidate_spec`.
    pub fn candidate(&self, dt: u32) -> (out: i64)
        requires
            self.wf(),
        ensures
            out == self.candidate_spec(dt),
            0 <= out < turn(),
    {
        let min_radius: u32 = if self.data.radius.x <= self.data.radius.y {
            self.data.radius.x
        } else {
            self.data.radius.y
        };
        assert(self.data.speed * dt <= 0xFFFF_FFFF * 0xFFFF_FFFF) by (nonlinear_arith)
            requires
                self.data.speed <= 0xFFFF_FFFF,
                dt <= 0xFFFF_FFFF,
        ;
        let way: u128 = (self.data.speed as u128) * (dt as u128);
        let numerator: u128 = 2_000_000_000_000u128 * way;
        assert(numerator == 2 * UNIT * UNIT * self.data.speed * dt) by (nonlinear_arith)
            requires
                numerator == 2_000_000_000_000 * way,
                way == (self.data.speed as int) * (dt as int),
                UNIT == 1_000_000,
        ;
        let denominator: u128 = (min_radius as u128) * (PI_UNITS as u128);
        assert(denominator > 0) by (nonlinear_arith)
            requires
                denominator == min_radius * PI_UNITS,
                min_radius > 0,
                PI_UNITS > 0,
        ;
        let step: u128 = numerator / denominator;
        let full: u128 = 2 * (PI_UNITS as u128);
        let back: i64 = (step % full) as i64;
        let moved: i64 = self.angle - back;
        let out: i64 = if moved < 0 { moved + full as i64 } else { moved };
        proof {
            let s = step as int;
            let t = turn();
            // angle - s  ==  out - t * (s / t)  or  out - t - t * (s / t)
            let q = s / t;
            assert(s == t * q + s % t) by {
                vstd::arithmetic::div_mod::lemma_fundamental_div_mod(s, t);
            }
            lemma_small_mod(out as nat, t as nat);
            if moved < 0 {
                assert(self.angle - s == t * (-q - 1) + out) by (nonlinear_arith)
                    requires
                        s == t * q + s % t,
                        out == self.angle - s % t + t,
                ;
                lemma_mod_multiples_vanish(-q - 1, out as int, t);
            } else {
                assert(self.angle - s == t * (-q) + out) by (nonlinear_arith)
                    requires
                        s == t * q + s % t,
                        out == self.angle - s % t,
                ;
                lemma_mod_multiples_vanish(-q, out as int, t);
            }
        }
        out
    }

    /// The square of the distance from `pos` to the point of the path at `heading`.
    pub open spec fn distance_squared(self, pos: Point, heading: Heading) -> int {
        let target = self.data.point_at(heading);
        (pos.x - target.x) * (pos.x - target.x) + (pos.y - target.y) * (pos.y - target.y)
    }

    /// Where an enemy at `pos` stands after a tick of `dt` milliseconds, when
    /// `heading` belongs to the phase it heads for: at most `speed * dt`
    /// closer to that point of the path, and on neither axis past it.
    pub open spec fn follow_position(self, pos: Point, dt: u32, heading: Heading) -> Point {
        let target = self.data.point_at(heading);
        let distance = floor_sqrt(self.distance_squared(pos, heading));
        let budget = self.data.speed * dt;
        Point {
            x: approach(pos.x as int, target.x as int, budget, distance) as i32,
            y: approach(pos.y as int, target.y as int, budget, distance) as i32,
        }
    }

    /// Whether the enemy at `pos` is near enough to the point it heads for to
    /// take up the new phase: nearer than a twentieth of the tick's travel.
    pub open spec fn snaps(self, pos: Point, dt: u32, heading: Heading) -> bool {
        floor_sqrt(self.distance_squared(pos, heading)) < (self.data.speed * dt) / (
        SNAP_DIVISOR as int)
    }

    /// The formation after that tick: the path stays, the phase moves on
    /// only where the enemy is near enough.
    pub open spec fn follow_phase(self, pos: Point, dt: u32, heading: Heading) -> Formation {
        Formation {
            data: self.data,
            angle: if self.snaps(pos, dt, heading) {
                self.candidate_spec(dt) as i64
            } else {
                self.angle
            },
        }
    }

    /// One tick of an enemy on its path. `heading` holds the cosine and sine
    /// of `self.candidate(dt)`, which only the caller can compute.
    pub fn follow(&self, pos: Point, dt: u32, heading: Heading) -> (out: (Point, Formation))
        requires
            self.wf(),
            heading.wf(),
        ensures
            out.0 == self.follow_position(pos, dt, heading),
            out.1 == self.follow_phase(pos, dt, heading),
            out.1.wf(),
        pos.in_field() ==> out.0.in_field(),
    {
        let target = point_on(&self.data, heading);
        let dx: i64 = pos.x as i64 - target.x as i64;
        let dy: i64 = pos.y as i64 - target.y as i64;
        assert(0 <= dx * dx <= 0x1_0000_0000 * 0x1_0000_0000) by (nonlinear_arith)
            requires
                -0x1_0000_0000 <= dx <= 0x1_0000_0000,
        ;
        assert(0 <= dy * dy <= 0x1_0000_0000 * 0x1_0000_0000) by (nonlinear_arith)
            requires
                -0x1_0000_0000 <= dy <= 0x1_0000_0000,
        ;
        let squared: u128 = (dx as i128 * dx as i128) as u128 + (dy as i128 * dy as i128) as u128;
        let distance: u128 = isqrt(squared);
        assert(self.data.speed * dt <= 0xFFFF_FFFF * 0xFFFF_FFFF) by (nonlinear_arith)
            requires
                self.data.speed <= 0xFFFF_FFFF,
                dt <= 0xFFFF_FFFF,
        ;
        let budget: u64 = self.data.speed as u64 * dt as u64;
        let x: i32 = approach_axis(pos.x, target.x, budget, distance);
        let y: i32 = approach_axis(pos.y, target.y, budget, distance);
        let angle: i64 = if distance < (budget / SNAP_DIVISOR as u64) as u128 {
            self.candidate(dt)
        } else {
            self.angle
        };
        (Point { x, y }, Formation { data: self.data, angle })
    }
}

fn scale(radius: u32, factor: i32) -> (out: i64)
    requires
        -UNIT <= factor <= UNIT,
    ensures
        out == scale_by(radius as int, factor as int),
        -(radius as int) <= out <= radius,
{
    if factor >= 0 {
        assert(radius * factor <= radius * UNIT) by (nonlinear_arith)
            requires
                0 <= factor <= UNIT,
                0 <= radius,
        ;
        assert(0 <= radius * factor) by (nonlinear_arith)
            requires
                0 <= factor,
                0 <= radius,
        ;
        (radius as i64 * factor as i64) / 1_000_000i64
    } else {
        assert(radius * (-factor) <= radius * UNIT) by (nonlinear_arith)
            requires
                0 <= -factor <= UNIT,
                0 <= radius,
        ;
        assert(0 <= radius * (-factor)) by (nonlinear_arith)
            requires
                0 <= -factor,
                0 <= radius,
        ;
        -((radius as i64 * (-(factor as i64))) / 1_000_000i64)
    }
}

/// Computes `FormationData::point_at`.
pub fn point_on(data: &FormationData, heading: Heading) -> (out: Point)
    requires
        data.wf(),
        heading.wf(),
    ensures
        out == data.point_at(heading),
        out.x == data.pivot.x + scale_by(data.radius.x as int, heading.cos as int),
        out.y == data.pivot.y + scale_by(data.radius.y as int, heading.sin as int),
        out.in_field(),
{
    let x: i64 = data.pivot.x as i64 + scale(data.radius.x, heading.cos);
    let y: i64 = data.pivot.y as i64 + scale(data.radius.y, heading.sin);
    Point { x: x as i32, y: y as i32 }
}

/// The answer of the factory: a place in the wave under way, with the
/// formation of that wave, or a place in a wave whose starting phase is
/// still wanted, with its path.
#[derive(Clone, Copy, Debug, PartialEq, Eq, Structural)]
pub enum Made {
    Member(Formation),
    Fresh(FormationData),
}

/// Hands out flight paths, the same one to every enemy of a wave. While
/// `phase_pending` holds, the wave under way has its path but not yet its
/// starting phase, and the template's angle is nought.
#[derive(Clone, Copy, Debug, PartialEq, Eq, Structural)]
pub struct FormationMaker {
    pub current_template: Option<Formation>,
    pub current_members: u32,
    pub phase_pending: bool,
}

/// `data` is a path that may be drawn for a view of size `win`: it starts
/// just outside the left or the right edge, at a height within the view and
/// its margin, turns about a point of the inner region of the view, and has a
/// horizontal radius from the fixed span.
pub open spec fn drawn_for(win: WinSize, data: FormationData) -> bool {
    let w_span = win.width / 2 + WAVE_START_MARGIN;
    let h_span = win.height / 2 + WAVE_START_MARGIN;
    &&& data.start.x == w_span || data.start.x == -w_span
    &&& -h_span <= data.start.y < h_span
    &&& -(win.width / 4) <= data.pivot.x < win.width / 4
    &&& 0 <= data.pivot.y < win.height / 3
    &&& WAVE_RADIUS_MIN <= data.radius.x < WAVE_RADIUS_MAX
    &&& data.radius.y == WAVE_RADIUS_Y
    &&& data.speed == BASE_SPEED
}

/// Decides `drawn_for`.
pub fn is_drawn_for(win: &WinSize, data: &FormationData) -> (out: bool)
    requires
        win.wf(),
    ensures
        out == drawn_for(*win, *data),
{
    let w_span: i32 = (win.width / 2 + WAVE_START_MARGIN) as i32;
    let h_span: i32 = (win.height / 2 + WAVE_START_MARGIN) as i32;
    let w_inner: i32 = (win.width / 4) as i32;
    let h_inner: i32 = (win.height / 3) as i32;
    (data.start.x == w_span || data.start.x == -w_span) && -h_span <= data.start.y && data.start.y
        < h_span && -w_inner <= data.pivot.x && data.pivot.x < w_inner && 0 <= data.pivot.y
        && data.pivot.y < h_inner && WAVE_RADIUS_MIN <= data.radius.x && data.radius.x
        < WAVE_RADIUS_MAX && data.radius.y == WAVE_RADIUS_Y && data.speed == BASE_SPEED
}

/// The path that four draws and a toss give.
pub open spec fn wave_of(
    win: WinSize,
    right: bool,
    start_y: i32,
    pivot_x: i32,
    pivot_y: i32,
    radius_x: u32,
) -> FormationData {
    let w_span = win.width / 2 + WAVE_START_MARGIN;
    FormationData {
        start: Point { x: if right { w_span as i32 } else { (-w_span) as i32 }, y: start_y },
        radius: Radius { x: radius_x, y: WAVE_RADIUS_Y },
        pivot: Point { x: pivot_x, y: pivot_y },
        speed: BASE_SPEED,
    }
}

/// Puts a path together from what was drawn.
pub fn wave_from_draws(
    win: &WinSize,
    right: bool,
    start_y: i32,
    pivot_x: i32,
    pivot_y: i32,
    radius_x: u32,
) -> (out: FormationData)
    requires
        win.wf(),
    ensures
        out == wave_of(*win, right, start_y, pivot_x, pivot_y, radius_x),
{
    let w_span: i32 = (win.width / 2 + WAVE_START_MARGIN) as i32;
    FormationData {
        start: Point { x: if right { w_span } else { -w_span }, y: start_y },
        radius: Radius { x: radius_x, y: WAVE_RADIUS_Y },
        pivot: Point { x: pivot_x, y: pivot_y },
        speed: BASE_SPEED,
    }
}

/// Draws the path of a new wave. Which one comes out is left to chance;
/// whichever it is, it is one that `drawn_for` admits.
pub fn draw_wave(win: &WinSize) -> (out: FormationData)
    requires
        win.wf(),
    ensures
        drawn_for(*win, out),
        out.wf(),
        out.start.in_field(),
{
    let right = random_ratio(1, 2);
    let h_span: i32 = (win.height / 2 + WAVE_START_MARGIN) as i32;
    let start_y: i32 = random_between(-h_span, h_span);
    let w_inner: i32 = (win.width / 4) as i32;
    let h_inner: i32 = (win.height / 3) as i32;
    let pivot_x: i32 = random_between(-w_inner, w_inner);
    let pivot_y: i32 = random_between(0, h_inner);
    let radius_x: i32 = random_between(WAVE_RADIUS_MIN as i32, WAVE_RADIUS_MAX as i32);
    wave_from_draws(win, right, start_y, pivot_x, pivot_y, radius_x as u32)
}

/// Brings any angle into one turn.
pub fn normalize(angle: i64) -> (out: i64)
    ensures
        out == (angle as int) % turn(),
        0 <= out < turn(),
{
    let full: i64 = 2 * (PI_UNITS as i64);
    if angle >= 0 {
        angle % full
    } else {
        let under: i64 = (-(angle + 1)) % full;
        let out: i64 = full - 1 - under;
        proof {
            let t = turn();
            let m = -(angle + 1) as int;
            let q = m / t;
            vstd::arithmetic::div_mod::lemma_fundamental_div_mod(m, t);
            assert(angle as int == t * (-q - 1) + out) by (nonlinear_arith)
                requires
                    m == t * q + under,
                    m == -(angle + 1),
                    out == t - 1 - under,
            ;
            lemma_small_mod(out as nat, t as nat);
            lemma_mod_multiples_vanish(-q - 1, out as int, t);
        }
        out
    }
}

impl FormationMaker {
    /// The path on offer, if there is one, is a valid one, and a phase is
    /// pending only for a path that is on offer.
    pub open spec fn wf(self) -> bool {
        &&& self.current_template matches Some(template) ==> template.wf()
            && template.data.start.in_field()
        &&& self.phase_pending ==> self.current_template.is_some()
            && self.current_template.unwrap().angle == 0
    }

    /// Decides `wf`.
    pub fn is_wf(&self) -> (out: bool)
        ensures
            out == self.wf(),
    {
        match self.current_template {
            Some(template) => template.is_wf() && template.data.start.is_in_field() && (
            !self.phase_pending || template.angle == 0),
            None => !self.phase_pending,
        }
    }

    /// A wave is under way and not yet full.
    pub open spec fn has_room(self) -> bool {
        self.current_template.is_some() && self.current_members < FORMATION_MEMBERS_MAX
    }

    /// The factory after one more enemy has joined the wave under way.
    pub open spec fn joined(self) -> FormationMaker {
        FormationMaker { current_members: (self.current_members + 1) as u32, ..self }
    }

    /// What an enemy gets that joins the wave under way: the formation of
    /// the wave, or only its path while the phase is pending.
    pub open spec fn place(self) -> Made {
        if self.phase_pending {
            Made::Fresh(self.current_template.unwrap().data)
        } else {
            Made::Member(self.current_template.unwrap())
        }
    }

    /// The factory after a new wave was drawn on `data`: the path is the
    /// template, the wave has one member, and its phase is pending.
    pub open spec fn drawn(data: FormationData) -> FormationMaker {
        FormationMaker {
            current_template: Some(Formation { data, angle: 0 }),
            current_members: 1,
            phase_pending: true,
        }
    }

    /// The formation with which a wave on `data` starts at `angle`.
    pub open spec fn opening(data: FormationData, angle: i64) -> Formation {
        Formation { data, angle: ((angle as int) % turn()) as i64 }
    }

    /// The factory after the pending phase was given as `angle`; where none
    /// is pending, the factory as it is.
    pub open spec fn phased(self, angle: i64) -> FormationMaker {
        if self.phase_pending && self.current_template.is_some() {
            FormationMaker {
                current_template: Some(Self::opening(self.current_template.unwrap().data, angle)),
                phase_pending: false,
                ..self
            }
        } else {
            self
        }
    }

    /// The factory after a wave was drawn on `data` and began at `angle`.
    pub open spec fn begun(data: FormationData, angle: i64) -> FormationMaker {
        Self::drawn(data).phased(angle)
    }

    /// The factory after `count` more enemies have joined.
    pub open spec fn after_members(self, count: nat) -> FormationMaker
        decreases count,
    {
        if count == 0 {
            self
        } else {
            self.after_members((count - 1) as nat).joined()
        }
    }

    /// A factory that has not made a wave yet.
    pub fn new() -> (out: FormationMaker)
        ensures
            out == (FormationMaker {
                current_template: None,
                current_members: 0,
                phase_pending: false,
            }),
            out.wf(),
            !out.has_room(),
    {
        FormationMaker { current_template: None, current_members: 0, phase_pending: false }
    }

    /// Decides `has_room`.
    pub fn room(&self) -> (out: bool)
        ensures
            out == self.has_room(),
    {
        self.current_template.is_some() && self.current_members < FORMATION_MEMBERS_MAX
    }

    /// Asks for a flight path. While the wave under way has room, the enemy
    /// joins it and gets its place in it. Otherwise a new wave is drawn: its
    /// path becomes the template at once, the enemy is its first member, and
    /// its starting phase is pending until `begin_wave` is told it.
    pub fn make(&mut self, win_size: &WinSize) -> (out: Made)
        requires
            win_size.wf(),
            old(self).wf(),
        ensures
            final(self).wf(),
            old(self).has_room() ==> *final(self) == old(self).joined() && out == old(self).place(),
            !old(self).has_room() ==> (out matches Made::Fresh(data) && drawn_for(*win_size, data)
                && data.wf() && data.start.in_field() && *final(self) == Self::drawn(data)),
    {
        match self.current_template {
            Some(template) => {
                if self.current_members < FORMATION_MEMBERS_MAX {
                    self.current_members = self.current_members + 1;
                    if self.phase_pending {
                        return Made::Fresh(template.data);
                    }
                    return Made::Member(template);
                }
            },
            None => {},
        }
        let data = draw_wave(win_size);
        self.current_template = Some(Formation { data, angle: 0 });
        self.current_members = 1;
        self.phase_pending = true;
        Made::Fresh(data)
    }

    /// Tells the factory the starting phase of the wave it drew last: the
    /// direction from the pivot to the start. Every member of the wave has
    /// the formation that is returned. Where no phase is pending nothing
    /// changes, so a wave that has begun is never begun again.
    pub fn begin_wave(&mut self, angle: i64) -> (out: Option<Formation>)
        requires
            old(self).wf(),
        ensures
            final(self).wf(),
            *final(self) == old(self).phased(angle),
            old(self).phase_pending ==> out == Some(
                Self::opening(old(self).current_template.unwrap().data, angle),
            ) && final(self).current_template == out,
            !old(self).phase_pending ==> out.is_none(),
    {
        if !self.phase_pending {
            return None;
        }
        match self.current_template {
            Some(template) => {
                let formation = Formation { data: template.data, angle: normalize(angle) };
                self.current_template = Some(formation);
                self.phase_pending = false;
                Some(formation)
            },
            None => None,
        }
    }
}

impl Default for FormationMaker {
    fn default() -> (out: Self)
        ensures
            out == (FormationMaker {
                current_template: None,
                current_members: 0,
                phase_pending: false,
            }),
    {
        FormationMaker { current_template: None, current_members: 0, phase_pending: false }
    }
}

/// Joining changes nothing but the count: after `count` enemies have
/// joined, the template and the pending phase are as before and the wave
/// has `count` more members.
pub proof fn joining_keeps_the_template(maker: FormationMaker, count: nat)
    requires
        maker.current_members + count <= u32::MAX,
    ensures
        maker.after_members(count) == (FormationMaker {
            current_members: (maker.current_members + count) as u32,
            ..maker
        }),
    decreases count,
{
    if count > 0 {
        joining_keeps_the_template(maker, (count - 1) as nat);
    }
}

/// Every enemy that joins a wave gets the formation the wave began with:
/// the same path and the same starting phase, however many joined before.
pub proof fn wave_members_share_formation(data: FormationData, angle: i64, count: nat)
    requires
        count < u32::MAX,
    ensures
        FormationMaker::begun(data, angle).after_members(count).place() == Made::Member(
            FormationMaker::opening(data, angle),
        ),
{
    joining_keeps_the_template(FormationMaker::begun(data, angle), count);
}

/// A wave has room until its last place is taken: the enemy for which it
/// was drawn is its first member, and after `count` more have joined, the
/// next request joins it exactly while `count + 1` is below the cap, and
/// otherwise draws a new wave. Whether the phase was given before or after
/// makes no difference to the count.
pub proof fn wave_fills_at_cap(data: FormationData, angle: i64, count: nat)
    requires
        count < u32::MAX,
    ensures
        FormationMaker::drawn(data).current_members == 1,
        FormationMaker::drawn(data).after_members(count).current_members == count + 1,
        FormationMaker::drawn(data).after_members(count).has_room() <==> count + 1
            < FORMATION_MEMBERS_MAX,
        FormationMaker::begun(data, angle).after_members(count).current_members == count + 1,
        FormationMaker::begun(data, angle).after_members(count).has_room() <==> count + 1
            < FORMATION_MEMBERS_MAX,
        FormationMaker::drawn(data).after_members(count).phased(angle) == FormationMaker::begun(
            data,
            angle,
        ).after_members(count),
{
    joining_keeps_the_template(FormationMaker::drawn(data), count);
    joining_keeps_the_template(FormationMaker::begun(data, angle), count);
}

} // verus!
