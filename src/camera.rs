use vstd::prelude::*;
use crate::route::WORLD_LIMIT;
use crate::vehicle::Vehicle;

verus! {

/// `scale` is stored in units of `1 / SCALE_ONE`.
pub const SCALE_ONE: u32 = 1000;

pub const SCALE_MIN: u32 = 100;

pub const SCALE_MAX: u32 = 50_000;

/// Largest absolute screen coordinate, drag delta or viewport size accepted.
pub const SCREEN_LIMIT: i64 = 1_000_000_000_000;

/// Largest absolute pan offset.
pub const PAN_LIMIT: i64 = 10_000_000_000_000_000;

/// Largest absolute world coordinate that can be projected to the screen.
pub const POINT_LIMIT: i64 = 20_000_000_000_000_000;

/// The view onto the world: a pan offset, a zoom factor, and the vehicle
/// being selected or followed.
#[derive(Clone, Copy, Debug, PartialEq, Eq, Structural)]
pub struct Camera {
    pub pan_x: i64,
    pub pan_y: i64,
    pub scale: u32,
    pub selected_vehicle: Option<usize>,
    pub follow: bool,
}

/// Screen coordinate of world coordinate `w`.
pub open spec fn to_screen(pan: int, scale: int, w: int) -> int {
    (w - pan) * scale / (SCALE_ONE as int)
}

/// World coordinate of screen coordinate `p`.
pub open spec fn to_world(pan: int, scale: int, p: int) -> int {
    p * (SCALE_ONE as int) / scale + pan
}

pub open spec fn clamp(v: int, lo: int, hi: int) -> int {
    if v < lo {
        lo
    } else if v > hi {
        hi
    } else {
        v
    }
}

pub open spec fn zoomed_in(scale: int) -> int {
    clamp(scale * 11 / 10, SCALE_MIN as int, SCALE_MAX as int)
}

pub open spec fn zoomed_out(scale: int) -> int {
    clamp(scale * 9 / 10, SCALE_MIN as int, SCALE_MAX as int)
}

/// Squared world distance from vehicle `v` to `(wx, wy)`.
pub open spec fn dist_sq(v: Vehicle, wx: int, wy: int) -> int {
    (v.x - wx) * (v.x - wx) + (v.y - wy) * (v.y - wy)
}

/// Squared distance `d2` is within the hit radius `threshold / scale`.
pub open spec fn in_radius(d2: int, scale: int, threshold: int) -> bool {
    d2 * scale * scale < threshold * threshold * (SCALE_ONE as int) * (SCALE_ONE as int)
}

/// Vehicle `i` is the one picked at world point `(wx, wy)`: within the
/// radius, nearest among those within it, and first among equally near ones.
pub open spec fn is_pick(fleet: Seq<Vehicle>, wx: int, wy: int, scale: int, threshold: int, i: int) -> bool {
    &&& 0 <= i < fleet.len()
    &&& in_radius(dist_sq(fleet[i], wx, wy), scale, threshold)
    &&& forall|j: int|
        0 <= j < fleet.len() && in_radius(#[trigger] dist_sq(fleet[j], wx, wy), scale, threshold)
            ==> dist_sq(fleet[i], wx, wy) <= dist_sq(fleet[j], wx, wy)
    &&& forall|j: int|
        0 <= j < i && in_radius(#[trigger] dist_sq(fleet[j], wx, wy), scale, threshold)
            ==> dist_sq(fleet[i], wx, wy) < dist_sq(fleet[j], wx, wy)
}

pub open spec fn fleet_in_world(fleet: Seq<Vehicle>) -> bool {
    forall|k: int|
        0 <= k < fleet.len() ==> -WORLD_LIMIT <= (#[trigger] fleet[k]).x <= WORLD_LIMIT
            && -WORLD_LIMIT <= fleet[k].y <= WORLD_LIMIT
}

/// Mapping a screen point to the world and back gives the point again up to
/// rounding: never beyond it, and short of it by less than
/// `(scale + SCALE_ONE) / SCALE_ONE` screen units.
pub proof fn lemma_screen_round_trip(pan: int, scale: int, p: int)
    requires
        SCALE_MIN <= scale <= SCALE_MAX,
    ensures
        to_screen(pan, scale, to_world(pan, scale, p)) <= p,
        (p - to_screen(pan, scale, to_world(pan, scale, p))) * (SCALE_ONE as int) < scale + SCALE_ONE,
{
    let one = SCALE_ONE as int;
    let q = p * one / scale;
    let r = to_screen(pan, scale, to_world(pan, scale, p));
    assert(to_world(pan, scale, p) - pan == q);
    assert(r == q * scale / one);
    assert(q * scale <= p * one < q * scale + scale) by (nonlinear_arith)
        requires
            q == p * one / scale,
            scale > 0,
    ;
    assert(r * one <= q * scale < r * one + one) by (nonlinear_arith)
        requires
            r == q * scale / one,
            one > 0,
    ;
    assert(r <= p) by (nonlinear_arith)
        requires
            r * one <= q * scale,
            q * scale <= p * one,
            one > 0,
    ;
}

/// With `pan = p - size * SCALE_ONE / (2 * scale)`, the point `p` projects
/// to the middle of `size` up to rounding: never past it, and short of it by
/// less than `(scale + SCALE_ONE) / SCALE_ONE` screen units.
pub proof fn lemma_follow_centres(p: int, size: int, scale: int)
    requires
        SCALE_MIN <= scale <= SCALE_MAX,
        size >= 0,
    ensures
        ({
            let pan = p - size * (SCALE_ONE as int) / (2 * scale);
            let r = to_screen(pan, scale, p);
            &&& 2 * r <= size
            &&& (size - 2 * r) * (SCALE_ONE as int) < 2 * (scale + SCALE_ONE)
        }),
{
    let one = SCALE_ONE as int;
    let q = size * one / (2 * scale);
    let pan = p - q;
    let r = to_screen(pan, scale, p);
    assert(r == q * scale / one);
    assert(q * 2 * scale <= size * one < q * 2 * scale + 2 * scale) by (nonlinear_arith)
        requires
            q == size * one / (2 * scale),
            scale > 0,
    ;
    assert(r * one <= q * scale < r * one + one) by (nonlinear_arith)
        requires
            r == q * scale / one,
            one > 0,
    ;
    assert(2 * r <= size) by (nonlinear_arith)
        requires
            r * one <= q * scale,
            q * 2 * scale <= size * one,
            one > 0,
    ;
    assert((size - 2 * r) * one < 2 * (scale + one)) by (nonlinear_arith)
        requires
            size * one < q * 2 * scale + 2 * scale,
            q * scale < r * one + one,
    ;
}

/// The scale after `n` notches of zoom in.
pub open spec fn zoomed_in_times(scale: int, n: nat) -> int
    decreases n,
{
    if n == 0 {
        scale
    } else {
        zoomed_in(zoomed_in_times(scale, (n - 1) as nat))
    }
}

/// The scale after `n` notches of zoom out.
pub open spec fn zoomed_out_times(scale: int, n: nat) -> int
    decreases n,
{
    if n == 0 {
        scale
    } else {
        zoomed_out(zoomed_out_times(scale, (n - 1) as nat))
    }
}

/// However often the view is zoomed in, the scale never exceeds
/// `SCALE_MAX`; however often it is zoomed out, it never drops below
/// `SCALE_MIN`.
pub proof fn lemma_zoom_stays_clamped(scale: int, n: nat)
    requires
        SCALE_MIN <= scale <= SCALE_MAX,
    ensures
        SCALE_MIN <= zoomed_in_times(scale, n) <= SCALE_MAX,
        SCALE_MIN <= zoomed_out_times(scale, n) <= SCALE_MAX,
    decreases n,
{
    if n > 0 {
        lemma_zoom_stays_clamped(scale, (n - 1) as nat);
    }
}

fn floor_div(a: i128, b: i128) -> (q: i128)
    requires
        b > 0,
        -0x1_0000_0000_0000_0000_0000_0000 <= a <= 0x1_0000_0000_0000_0000_0000_0000,
    ensures
        q == a / b,
{
    assert(-0x1_0000_0000_0000_0000_0000_0000 <= a / b <= 0x1_0000_0000_0000_0000_0000_0000) by (nonlinear_arith)
        requires
            b > 0,
            -0x1_0000_0000_0000_0000_0000_0000 <= a <= 0x1_0000_0000_0000_0000_0000_0000,
    ;
    match a.checked_div_euclid(b) {
        Some(q) => q,
        None => 0,
    }
}

fn project_to_screen(pan: i64, scale: u32, w: i64) -> (r: i64)
    requires
        -PAN_LIMIT <= pan <= PAN_LIMIT,
        SCALE_MIN <= scale <= SCALE_MAX,
        -POINT_LIMIT <= w <= POINT_LIMIT,
    ensures
        r == to_screen(pan as int, scale as int, w as int),
{
    let d: i128 = w as i128 - pan as i128;
    assert(-30_000_000_000_000_000 * 50_000 <= d * scale <= 30_000_000_000_000_000 * 50_000) by (nonlinear_arith)
        requires
            -30_000_000_000_000_000 <= d <= 30_000_000_000_000_000,
            0 <= scale <= 50_000,
    ;
    let q = floor_div(d * (scale as i128), SCALE_ONE as i128);
    assert(-30_000_000_000_000_000 * 50 - 1 <= q <= 30_000_000_000_000_000 * 50) by (nonlinear_arith)
        requires
            q == (d * scale) / 1000,
            -30_000_000_000_000_000 * 50_000 <= d * scale <= 30_000_000_000_000_000 * 50_000,
    ;
    q as i64
}

fn project_to_world(pan: i64, scale: u32, p: i64) -> (r: i64)
    requires
        -PAN_LIMIT <= pan <= PAN_LIMIT,
        SCALE_MIN <= scale <= SCALE_MAX,
        -SCREEN_LIMIT <= p <= SCREEN_LIMIT,
    ensures
        r == to_world(pan as int, scale as int, p as int),
        -POINT_LIMIT <= r <= POINT_LIMIT,
{
    let q = floor_div(p as i128 * 1000, scale as i128);
    assert(-SCREEN_LIMIT * 10 <= q <= SCREEN_LIMIT * 10) by (nonlinear_arith)
        requires
            q == (p * 1000) / (scale as int),
            -SCREEN_LIMIT <= p <= SCREEN_LIMIT,
            100 <= scale,
    ;
    (q + pan as i128) as i64
}

/// `pan - delta / scale`, kept within the pan limits.
fn panned(pan: i64, scale: u32, delta: i64) -> (r: i64)
    requires
        -PAN_LIMIT <= pan <= PAN_LIMIT,
        SCALE_MIN <= scale <= SCALE_MAX,
        -SCREEN_LIMIT <= delta <= SCREEN_LIMIT,
    ensures
        r == clamp(pan - delta * (SCALE_ONE as int) / (scale as int), -PAN_LIMIT as int, PAN_LIMIT as int),
{
    let q = floor_div(delta as i128 * 1000, scale as i128);
    assert(-SCREEN_LIMIT * 10 <= q <= SCREEN_LIMIT * 10) by (nonlinear_arith)
        requires
            q == (delta * 1000) / (scale as int),
            -SCREEN_LIMIT <= delta <= SCREEN_LIMIT,
            100 <= scale,
    ;
    let v: i128 = pan as i128 - q;
    if v < -(PAN_LIMIT as i128) {
        -PAN_LIMIT
    } else if v > PAN_LIMIT as i128 {
        PAN_LIMIT
    } else {
        v as i64
    }
}

/// Whether the vehicle at `(vx, vy)` is within `threshold / scale` of the
/// world point `(wx, wy)`, and its squared distance when it is.
fn hit_distance(vx: i64, vy: i64, wx: i64, wy: i64, scale: u32, threshold: u32) -> (r: Option<i128>)
    requires
        -WORLD_LIMIT <= vx <= WORLD_LIMIT,
        -WORLD_LIMIT <= vy <= WORLD_LIMIT,
        -POINT_LIMIT <= wx <= POINT_LIMIT,
        -POINT_LIMIT <= wy <= POINT_LIMIT,
        SCALE_MIN <= scale <= SCALE_MAX,
    ensures
        ({
            let d2 = (vx - wx) * (vx - wx) + (vy - wy) * (vy - wy);
            match r {
                Some(d) => d == d2 && in_radius(d2, scale as int, threshold as int),
                None => !in_radius(d2, scale as int, threshold as int),
            }
        }),
{
    let dx: i128 = vx as i128 - wx as i128;
    let dy: i128 = vy as i128 - wy as i128;
    let adx: i128 = if dx < 0 { -dx } else { dx };
    let ady: i128 = if dy < 0 { -dy } else { dy };
    let k: i128 = scale as i128;
    let reach: i128 = threshold as i128 * 1000;
    let ghost d2 = dx * dx + dy * dy;
    assert(adx * adx == dx * dx) by (nonlinear_arith)
        requires
            adx == dx || adx == -dx,
    ;
    assert(ady * ady == dy * dy) by (nonlinear_arith)
        requires
            ady == dy || ady == -dy,
    ;
    assert(0 <= adx * k <= 30_000_000_000_000_000 * 50_000) by (nonlinear_arith)
        requires
            0 <= adx <= 30_000_000_000_000_000,
            0 <= k <= 50_000,
    ;
    assert(0 <= ady * k <= 30_000_000_000_000_000 * 50_000) by (nonlinear_arith)
        requires
            0 <= ady <= 30_000_000_000_000_000,
            0 <= k <= 50_000,
    ;
    if adx * k > reach || ady * k > reach {
        assert(!in_radius(d2, scale as int, threshold as int)) by (nonlinear_arith)
            requires
                adx * k > reach || ady * k > reach,
                reach == threshold * 1000,
                reach >= 0,
                k == scale,
                adx * adx == dx * dx,
                ady * ady == dy * dy,
                adx >= 0,
                ady >= 0,
                k > 0,
                d2 == dx * dx + dy * dy,
        ;
        return None;
    }
    assert(adx <= 4_294_967_295 * 1000 && ady <= 4_294_967_295 * 1000) by (nonlinear_arith)
        requires
            adx * k <= reach,
            ady * k <= reach,
            reach <= 4_294_967_295 * 1000,
            k >= 100,
            adx >= 0,
            ady >= 0,
    ;
    assert(0 <= adx * adx <= 4_294_967_295_000 * 4_294_967_295_000) by (nonlinear_arith)
        requires
            0 <= adx <= 4_294_967_295_000,
    ;
    assert(0 <= ady * ady <= 4_294_967_295_000 * 4_294_967_295_000) by (nonlinear_arith)
        requires
            0 <= ady <= 4_294_967_295_000,
    ;
    let d: i128 = dx * dx + dy * dy;
    assert(0 <= d * k <= 2 * 4_294_967_295_000 * 4_294_967_295_000 * 50_000) by (nonlinear_arith)
        requires
            0 <= d <= 2 * 4_294_967_295_000 * 4_294_967_295_000,
            0 <= k <= 50_000,
    ;
    let dk: i128 = d * k;
    assert(0 <= dk * k <= 2 * 4_294_967_295_000 * 4_294_967_295_000 * 50_000 * 50_000) by (nonlinear_arith)
        requires
            0 <= dk <= 2 * 4_294_967_295_000 * 4_294_967_295_000 * 50_000,
            0 <= k <= 50_000,
    ;
    assert(0 <= reach * reach <= 4_294_967_295_000 * 4_294_967_295_000) by (nonlinear_arith)
        requires
            0 <= reach <= 4_294_967_295_000,
    ;
    assert(dk * k == d2 * scale * scale) by (nonlinear_arith)
        requires
            dk == d * k,
            k == scale,
            d == d2,
    ;
    assert(reach * reach == threshold * threshold * 1000 * 1000) by (nonlinear_arith)
        requires
            reach == threshold * 1000,
    ;
    if dk * k < reach * reach {
        Some(d)
    } else {
        None
    }
}

impl Camera {
    pub open spec fn wf(&self) -> bool {
        &&& SCALE_MIN <= self.scale <= SCALE_MAX
        &&& -PAN_LIMIT <= self.pan_x <= PAN_LIMIT
        &&& -PAN_LIMIT <= self.pan_y <= PAN_LIMIT
    }

    /// A camera at the origin, at scale one, with nothing selected.
    pub fn new() -> (c: Self)
        ensures
            c.wf(),
            c.pan_x == 0 && c.pan_y == 0,
            c.scale == SCALE_ONE,
            c.selected_vehicle is None,
            !c.follow,
    {
        Camera { pan_x: 0, pan_y: 0, scale: SCALE_ONE, selected_vehicle: None, follow: false }
    }

    /// A camera from stored settings: the scale is brought within the scale
    /// limits and the pan within the pan limits.
    pub fn from_settings(pan_x: i64, pan_y: i64, scale: u32) -> (c: Self)
        ensures
            c.wf(),
            c.pan_x == clamp(pan_x as int, -PAN_LIMIT as int, PAN_LIMIT as int),
            c.pan_y == clamp(pan_y as int, -PAN_LIMIT as int, PAN_LIMIT as int),
            c.scale == clamp(scale as int, SCALE_MIN as int, SCALE_MAX as int),
            c.selected_vehicle is None,
            !c.follow,
    {
        let px = if pan_x < -PAN_LIMIT { -PAN_LIMIT } else if pan_x > PAN_LIMIT { PAN_LIMIT } else { pan_x };
        let py = if pan_y < -PAN_LIMIT { -PAN_LIMIT } else if pan_y > PAN_LIMIT { PAN_LIMIT } else { pan_y };
        let s = if scale < SCALE_MIN { SCALE_MIN } else if scale > SCALE_MAX { SCALE_MAX } else { scale };
        Camera { pan_x: px, pan_y: py, scale: s, selected_vehicle: None, follow: false }
    }

    /// `(p - pan) * scale`
    pub fn world_to_screen(&self, x: i64, y: i64) -> (r: (i64, i64))
        requires
            self.wf(),
            -POINT_LIMIT <= x <= POINT_LIMIT,
            -POINT_LIMIT <= y <= POINT_LIMIT,
        ensures
            r.0 == to_screen(self.pan_x as int, self.scale as int, x as int),
            r.1 == to_screen(self.pan_y as int, self.scale as int, y as int),
    {
        (project_to_screen(self.pan_x, self.scale, x), project_to_screen(self.pan_y, self.scale, y))
    }

    /// `p / scale + pan`
    pub fn screen_to_world(&self, x: i64, y: i64) -> (r: (i64, i64))
        requires
            self.wf(),
            -SCREEN_LIMIT <= x <= SCREEN_LIMIT,
            -SCREEN_LIMIT <= y <= SCREEN_LIMIT,
        ensures
            r.0 == to_world(self.pan_x as int, self.scale as int, x as int),
            r.1 == to_world(self.pan_y as int, self.scale as int, y as int),
            -POINT_LIMIT <= r.0 <= POINT_LIMIT,
            -POINT_LIMIT <= r.1 <= POINT_LIMIT,
    {
        (project_to_world(self.pan_x, self.scale, x), project_to_world(self.pan_y, self.scale, y))
    }

    /// Drags the view by a screen delta: `pan -= delta / scale`, so the world
    /// follows the pointer at any zoom.
    pub fn pan_by(&mut self, dx: i64, dy: i64)
        requires
            old(self).wf(),
            -SCREEN_LIMIT <= dx <= SCREEN_LIMIT,
            -SCREEN_LIMIT <= dy <= SCREEN_LIMIT,
        ensures
            final(self).wf(),
            final(self).pan_x == clamp(
                old(self).pan_x - dx * (SCALE_ONE as int) / (old(self).scale as int),
                -PAN_LIMIT as int,
                PAN_LIMIT as int,
            ),
            final(self).pan_y == clamp(
                old(self).pan_y - dy * (SCALE_ONE as int) / (old(self).scale as int),
                -PAN_LIMIT as int,
                PAN_LIMIT as int,
            ),
            final(self).scale == old(self).scale,
            final(self).selected_vehicle == old(self).selected_vehicle,
            final(self).follow == old(self).follow,
    {
        self.pan_x = panned(self.pan_x, self.scale, dx);
        self.pan_y = panned(self.pan_y, self.scale, dy);
    }

    /// One notch of zoom in: scale times 1.1, within the scale limits.
    pub fn zoom_in(&mut self)
        requires
            old(self).wf(),
        ensures
            final(self).wf(),
            final(self).scale == zoomed_in(old(self).scale as int),
            final(self).pan_x == old(self).pan_x && final(self).pan_y == old(self).pan_y,
            final(self).selected_vehicle == old(self).selected_vehicle,
            final(self).follow == old(self).follow,
    {
        let s: u64 = self.scale as u64 * 11 / 10;
        self.scale = if s < SCALE_MIN as u64 {
            SCALE_MIN
        } else if s > SCALE_MAX as u64 {
            SCALE_MAX
        } else {
            s as u32
        };
    }

    /// One notch of zoom out: scale times 0.9, within the scale limits.
    pub fn zoom_out(&mut self)
        requires
            old(self).wf(),
        ensures
            final(self).wf(),
            final(self).scale == zoomed_out(old(self).scale as int),
            final(self).pan_x == old(self).pan_x && final(self).pan_y == old(self).pan_y,
            final(self).selected_vehicle == old(self).selected_vehicle,
            final(self).follow == old(self).follow,
    {
        let s: u64 = self.scale as u64 * 9 / 10;
        self.scale = if s < SCALE_MIN as u64 {
            SCALE_MIN
        } else if s > SCALE_MAX as u64 {
            SCALE_MAX
        } else {
            s as u32
        };
    }

    /// Pinch zoom: the scale is multiplied by `current / previous` (the
    /// distances between two fingers), within the scale limits.
    pub fn zoom_by_ratio(&mut self, current: u32, previous: u32)
        requires
            old(self).wf(),
            previous > 0,
        ensures
            final(self).wf(),
            final(self).scale == clamp(
                old(self).scale * current / (previous as int),
                SCALE_MIN as int,
                SCALE_MAX as int,
            ),
            final(self).pan_x == old(self).pan_x && final(self).pan_y == old(self).pan_y,
            final(self).selected_vehicle == old(self).selected_vehicle,
            final(self).follow == old(self).follow,
    {
        assert(0 <= self.scale * current <= 50_000 * 4_294_967_295) by (nonlinear_arith)
            requires
                0 <= self.scale <= 50_000,
                0 <= current <= 4_294_967_295,
        ;
        let s: u64 = self.scale as u64 * current as u64 / previous as u64;
        self.scale = if s < SCALE_MIN as u64 {
            SCALE_MIN
        } else if s > SCALE_MAX as u64 {
            SCALE_MAX
        } else {
            s as u32
        };
    }

    /// Selects the vehicle nearest to a screen point, if one lies within
    /// `threshold_px / scale` world units of it; ties go to the lower index.
    /// With no vehicle in reach the selection is cleared and follow mode
    /// switched off.
    pub fn pick_vehicle(&mut self, fleet: &Vec<Vehicle>, screen_x: i64, screen_y: i64, threshold_px: u32) -> (r: Option<usize>)
        requires
            old(self).wf(),
            fleet_in_world(fleet@),
            -SCREEN_LIMIT <= screen_x <= SCREEN_LIMIT,
            -SCREEN_LIMIT <= screen_y <= SCREEN_LIMIT,
        ensures
            ({
                let wx = to_world(old(self).pan_x as int, old(self).scale as int, screen_x as int);
                let wy = to_world(old(self).pan_y as int, old(self).scale as int, screen_y as int);
                let k = old(self).scale as int;
                let t = threshold_px as int;
                match r {
                    Some(i) => is_pick(fleet@, wx, wy, k, t, i as int),
                    None => forall|j: int|
                        0 <= j < fleet@.len() ==> !in_radius(#[trigger] dist_sq(fleet@[j], wx, wy), k, t),
                }
            }),
            final(self).wf(),
            final(self).selected_vehicle == r,
            final(self).follow == (old(self).follow && r is Some),
            final(self).pan_x == old(self).pan_x && final(self).pan_y == old(self).pan_y,
            final(self).scale == old(self).scale,
    {
        let (wx, wy) = self.screen_to_world(screen_x, screen_y);
        let ghost k = self.scale as int;
        let ghost t = threshold_px as int;
        let mut best: Option<usize> = None;
        let mut best_d: i128 = 0;
        let mut i: usize = 0;
        while i < fleet.len()
            invariant
                self.wf(),
                k == self.scale,
                t == threshold_px,
                fleet_in_world(fleet@),
                -POINT_LIMIT <= wx <= POINT_LIMIT,
                -POINT_LIMIT <= wy <= POINT_LIMIT,
                i <= fleet@.len(),
                match best {
                    Some(b) => {
                        &&& b < i
                        &&& best_d == dist_sq(fleet@[b as int], wx as int, wy as int)
                        &&& in_radius(best_d as int, k, t)
                        &&& forall|j: int|
                            0 <= j < i && in_radius(#[trigger] dist_sq(fleet@[j], wx as int, wy as int), k, t)
                                ==> best_d <= dist_sq(fleet@[j], wx as int, wy as int)
                        &&& forall|j: int|
                            0 <= j < b && in_radius(#[trigger] dist_sq(fleet@[j], wx as int, wy as int), k, t)
                                ==> best_d < dist_sq(fleet@[j], wx as int, wy as int)
                    },
                    None => forall|j: int|
                        0 <= j < i ==> !in_radius(#[trigger] dist_sq(fleet@[j], wx as int, wy as int), k, t),
                },
            decreases fleet@.len() - i,
        {
            let v = fleet[i];
            assert(-WORLD_LIMIT <= fleet@[i as int].x <= WORLD_LIMIT);
            match hit_distance(v.x, v.y, wx, wy, self.scale, threshold_px) {
                Some(d) => {
                    let better = match best {
                        Some(_) => d < best_d,
                        None => true,
                    };
                    if better {
                        best = Some(i);
                        best_d = d;
                    }
                },
                None => {},
            }
            i = i + 1;
        }
        self.selected_vehicle = best;
        if best.is_none() {
            self.follow = false;
        }
        best
    }

    /// Turns follow mode on or off; it stays off while nothing is selected.
    pub fn set_follow(&mut self, on: bool)
        ensures
            final(self).follow == (on && old(self).selected_vehicle is Some),
            final(self).selected_vehicle == old(self).selected_vehicle,
            final(self).pan_x == old(self).pan_x && final(self).pan_y == old(self).pan_y,
            final(self).scale == old(self).scale,
    {
        self.follow = on && self.selected_vehicle.is_some();
    }

    /// In follow mode, moves the view so that the selected vehicle sits at
    /// the centre of a `width` by `height` viewport: `pan = p - size / scale / 2`.
    /// Nothing changes when follow mode is off or the selection is not a
    /// vehicle of `fleet`.
    pub fn follow_step(&mut self, fleet: &Vec<Vehicle>, width: i64, height: i64)
        requires
            old(self).wf(),
            fleet_in_world(fleet@),
            0 <= width <= SCREEN_LIMIT,
            0 <= height <= SCREEN_LIMIT,
        ensures
            final(self).wf(),
            final(self).scale == old(self).scale,
            final(self).selected_vehicle == old(self).selected_vehicle,
            final(self).follow == old(self).follow,
            ({
                let k = old(self).scale as int;
                match old(self).selected_vehicle {
                    Some(i) if old(self).follow && i < fleet@.len() => {
                        &&& final(self).pan_x == fleet@[i as int].x - width * (SCALE_ONE as int) / (2 * k)
                        &&& final(self).pan_y == fleet@[i as int].y - height * (SCALE_ONE as int) / (2 * k)
                        &&& 2 * to_screen(final(self).pan_x as int, k, fleet@[i as int].x as int) <= width
                        &&& 2 * to_screen(final(self).pan_y as int, k, fleet@[i as int].y as int) <= height
                        &&& (width - 2 * to_screen(final(self).pan_x as int, k, fleet@[i as int].x as int))
                            * (SCALE_ONE as int) < 2 * (k + SCALE_ONE)
                        &&& (height - 2 * to_screen(final(self).pan_y as int, k, fleet@[i as int].y as int))
                            * (SCALE_ONE as int) < 2 * (k + SCALE_ONE)
                    },
                    _ => final(self).pan_x == old(self).pan_x && final(self).pan_y == old(self).pan_y,
                }
            }),
    {
        if self.follow {
            match self.selected_vehicle {
                Some(i) => {
                    if i < fleet.len() {
                        let v = fleet[i];
                        assert(-WORLD_LIMIT <= fleet@[i as int].x <= WORLD_LIMIT);
                        let k2: i128 = 2 * self.scale as i128;
                        let ox = floor_div(width as i128 * 1000, k2);
                        let oy = floor_div(height as i128 * 1000, k2);
                        assert(0 <= ox <= SCREEN_LIMIT * 5 && 0 <= oy <= SCREEN_LIMIT * 5) by (nonlinear_arith)
                            requires
                                ox == (width * 1000) / (k2 as int),
                                oy == (height * 1000) / (k2 as int),
                                0 <= width <= SCREEN_LIMIT,
                                0 <= height <= SCREEN_LIMIT,
                                k2 >= 200,
                        ;
                        self.pan_x = (v.x as i128 - ox) as i64;
                        self.pan_y = (v.y as i128 - oy) as i64;
                        proof {
                            lemma_follow_centres(v.x as int, width as int, self.scale as int);
                            lemma_follow_centres(v.y as int, height as int, self.scale as int);
                        }
                    }
                },
                None => {},
            }
        }
    }
}

} // verus!
