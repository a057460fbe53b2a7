//! The camera: conversions between normalized device coordinates and world
//! coordinates, the view-projection uniform, and anchor-preserving zoom.

use vstd::prelude::*;

verus! {

use vstd::arithmetic::div_mod::lemma_div_pos_is_pos;
use crate::fixed::{
    clamped, mag, tdiv, tmod, clamp64, mul_div_clamp,
    lemma_tdiv_bound, lemma_tdiv_denominator, lemma_tdiv_near_multiple, lemma_tmod_bound,
    SCALE, ZOOM_MIN, ZOOM_MAX, POS_LIMIT, WORLD_LIMIT, NDC_LIMIT, ASPECT_MIN, ASPECT_MAX,
    FACTOR_MAX, MATRIX_LIMIT,
};
use crate::types::{Vec2, CameraUniform};

/// World-space focus point and zoom factor of the viewport.
pub struct Camera {
    pub position: Vec2,
    pub zoom: i64,
}

/// World x under normalized device x `nx`: `nx * aspect / zoom + position.x`.
pub open spec fn n2w_x(cam: Camera, nx: int, aspect: int) -> int {
    cam.position.x + tdiv(nx * aspect, cam.zoom as int)
}

/// World y under normalized device y `ny`: `ny / zoom + position.y`.
pub open spec fn n2w_y(cam: Camera, ny: int) -> int {
    cam.position.y + tdiv(ny * (SCALE as int), cam.zoom as int)
}

/// Normalized device x of world x `wx`, saturated at the device bound.
pub open spec fn w2n_x(cam: Camera, wx: int, aspect: int) -> int {
    clamped(
        tdiv((wx - cam.position.x) * cam.zoom, aspect),
        -NDC_LIMIT as int,
        NDC_LIMIT as int,
    )
}

/// Normalized device y of world y `wy`, saturated at the device bound.
pub open spec fn w2n_y(cam: Camera, wy: int) -> int {
    clamped(
        tdiv((wy - cam.position.y) * cam.zoom, SCALE as int),
        -NDC_LIMIT as int,
        NDC_LIMIT as int,
    )
}

/// One zoom step: the zoom times `factor`, clamped to the legal range.
pub open spec fn zoom_step(z: int, factor: int) -> int {
    clamped(tdiv(z * factor, SCALE as int), ZOOM_MIN as int, ZOOM_MAX as int)
}

/// Zoom after one step by `factor`, clamped to the legal range.
pub open spec fn zoomed_zoom(cam: Camera, factor: int) -> int {
    zoom_step(cam.zoom as int, factor)
}

/// The zoom after `k` steps by `factor`.
pub open spec fn zoom_iterated(z: int, factor: int, k: nat) -> int
    decreases k,
{
    if k == 0 {
        z
    } else {
        zoom_iterated(zoom_step(z, factor), factor, (k - 1) as nat)
    }
}

/// Focus x after an anchor-preserving zoom step, before position clamping:
/// the world point under `nx` keeps its place.
pub open spec fn zoomed_x(cam: Camera, nx: int, factor: int, aspect: int) -> int {
    n2w_x(cam, nx, aspect) - tdiv(nx * aspect, zoomed_zoom(cam, factor))
}

/// Focus y after an anchor-preserving zoom step, before position clamping.
pub open spec fn zoomed_y(cam: Camera, ny: int, factor: int) -> int {
    n2w_y(cam, ny) - tdiv(ny * (SCALE as int), zoomed_zoom(cam, factor))
}

/// The whole camera after an anchor-preserving zoom step.
pub open spec fn zoomed(cam: Camera, nx: int, ny: int, factor: int, aspect: int) -> Camera {
    Camera {
        position: Vec2 {
            x: clamped(zoomed_x(cam, nx, factor, aspect), -POS_LIMIT as int, POS_LIMIT as int) as i64,
            y: clamped(zoomed_y(cam, ny, factor), -POS_LIMIT as int, POS_LIMIT as int) as i64,
        },
        zoom: zoomed_zoom(cam, factor) as i64,
    }
}

/// The view-projection uniform: `sx = zoom / aspect`, `sy = zoom`,
/// `t = -position * scale`, translate entries saturated at the matrix bound.
pub open spec fn view_uniform(cam: Camera, aspect: int) -> CameraUniform {
    let sx = tdiv(cam.zoom * (SCALE as int), aspect);
    CameraUniform {
        sx: sx as i64,
        sy: cam.zoom,
        tx: clamped(
            tdiv(-cam.position.x * sx, SCALE as int),
            -MATRIX_LIMIT as int,
            MATRIX_LIMIT as int,
        ) as i64,
        ty: clamped(
            tdiv(-cam.position.y * cam.zoom, SCALE as int),
            -MATRIX_LIMIT as int,
            MATRIX_LIMIT as int,
        ) as i64,
    }
}

impl Camera {
    /// Zoom in range and focus inside the position bound.
    pub open spec fn wf(self) -> bool {
        &&& ZOOM_MIN <= self.zoom <= ZOOM_MAX
        &&& -POS_LIMIT <= self.position.x <= POS_LIMIT
        &&& -POS_LIMIT <= self.position.y <= POS_LIMIT
    }

    pub fn new(position: Vec2, zoom: i64) -> (cam: Camera)
        requires
            ZOOM_MIN <= zoom <= ZOOM_MAX,
            -POS_LIMIT <= position.x <= POS_LIMIT,
            -POS_LIMIT <= position.y <= POS_LIMIT,
        ensures
            cam.position == position,
            cam.zoom == zoom,
            cam.wf(),
    {
        Camera { position, zoom }
    }

    /// The world point under the given normalized device point.
    pub fn ndc_to_world(&self, ndc: Vec2, aspect: i64) -> (w: Vec2)
        requires
            self.wf(),
            ASPECT_MIN <= aspect <= ASPECT_MAX,
            -NDC_LIMIT <= ndc.x <= NDC_LIMIT,
            -NDC_LIMIT <= ndc.y <= NDC_LIMIT,
        ensures
            w.x == n2w_x(*self, ndc.x as int, aspect as int),
            w.y == n2w_y(*self, ndc.y as int),
            -WORLD_LIMIT <= w.x <= WORLD_LIMIT,
            -WORLD_LIMIT <= w.y <= WORLD_LIMIT,
    {
        proof {
            lemma_n2w_bounds(*self, ndc.x as int, ndc.y as int, aspect as int);
        }
        let tx = mul_div_clamp(ndc.x, aspect, self.zoom, -POS_LIMIT, POS_LIMIT);
        let ty = mul_div_clamp(ndc.y, SCALE, self.zoom, -POS_LIMIT, POS_LIMIT);
        Vec2 { x: self.position.x + tx, y: self.position.y + ty }
    }

    /// The normalized device point over the given world point, saturated at
    /// the device bound.
    pub fn world_to_ndc(&self, world: Vec2, aspect: i64) -> (n: Vec2)
        requires
            self.wf(),
            ASPECT_MIN <= aspect <= ASPECT_MAX,
            -WORLD_LIMIT <= world.x <= WORLD_LIMIT,
            -WORLD_LIMIT <= world.y <= WORLD_LIMIT,
        ensures
            n.x == w2n_x(*self, world.x as int, aspect as int),
            n.y == w2n_y(*self, world.y as int),
            -NDC_LIMIT <= n.x <= NDC_LIMIT,
            -NDC_LIMIT <= n.y <= NDC_LIMIT,
    {
        let dx = world.x - self.position.x;
        let dy = world.y - self.position.y;
        Vec2 {
            x: mul_div_clamp(dx, self.zoom, aspect, -NDC_LIMIT, NDC_LIMIT),
            y: mul_div_clamp(dy, self.zoom, SCALE, -NDC_LIMIT, NDC_LIMIT),
        }
    }

    /// Multiply the zoom by `factor`, clamp it to the legal range, then shift
    /// the focus so the world point under `ndc` stays put.
    pub fn zoom_at(&mut self, ndc: Vec2, factor: i64, aspect: i64)
        requires
            old(self).wf(),
            ASPECT_MIN <= aspect <= ASPECT_MAX,
            1 <= factor <= FACTOR_MAX,
            -NDC_LIMIT <= ndc.x <= NDC_LIMIT,
            -NDC_LIMIT <= ndc.y <= NDC_LIMIT,
        ensures
            *final(self) == zoomed(*old(self), ndc.x as int, ndc.y as int, factor as int, aspect as int),
            final(self).wf(),
    {
        let world_before = self.ndc_to_world(ndc, aspect);
        self.zoom = mul_div_clamp(self.zoom, factor, SCALE, ZOOM_MIN, ZOOM_MAX);
        let world_after = self.ndc_to_world(ndc, aspect);
        self.position.x = clamp64(
            self.position.x + (world_before.x - world_after.x),
            -POS_LIMIT,
            POS_LIMIT,
        );
        self.position.y = clamp64(
            self.position.y + (world_before.y - world_after.y),
            -POS_LIMIT,
            POS_LIMIT,
        );
    }

    /// The orthographic view-projection entries for the given aspect ratio.
    pub fn build_view_proj(&self, aspect: i64) -> (u: CameraUniform)
        requires
            self.wf(),
            ASPECT_MIN <= aspect <= ASPECT_MAX,
        ensures
            u == view_uniform(*self, aspect as int),
    {
        proof {
            let zs = (self.zoom as int) * (SCALE as int);
            assert(0 <= zs <= 100_000_000_000_000) by (nonlinear_arith)
                requires
                    ZOOM_MIN <= self.zoom <= ZOOM_MAX,
                    zs == (self.zoom as int) * (SCALE as int),
            ;
            lemma_div_pos_is_pos(zs, aspect as int);
            lemma_tdiv_bound(zs, 100_000_000_000_000, aspect as int);
            lemma_tdiv_denominator(100_000_000_000_000, ASPECT_MIN as int, aspect as int);
        }
        let sx = mul_div_clamp(self.zoom, SCALE, aspect, 0, MATRIX_LIMIT);
        let tx = mul_div_clamp(-self.position.x, sx, SCALE, -MATRIX_LIMIT, MATRIX_LIMIT);
        let ty = mul_div_clamp(-self.position.y, self.zoom, SCALE, -MATRIX_LIMIT, MATRIX_LIMIT);
        CameraUniform { sx, sy: self.zoom, tx, ty }
    }
}

/// The world point under a bounded device point stays inside the world bound.
pub proof fn lemma_n2w_bounds(cam: Camera, nx: int, ny: int, aspect: int)
    requires
        cam.wf(),
        ASPECT_MIN <= aspect <= ASPECT_MAX,
        -NDC_LIMIT <= nx <= NDC_LIMIT,
        -NDC_LIMIT <= ny <= NDC_LIMIT,
    ensures
        -POS_LIMIT <= tdiv(nx * aspect, cam.zoom as int) <= POS_LIMIT,
        -POS_LIMIT <= tdiv(ny * (SCALE as int), cam.zoom as int) <= POS_LIMIT,
        -WORLD_LIMIT <= n2w_x(cam, nx, aspect) <= WORLD_LIMIT,
        -WORLD_LIMIT <= n2w_y(cam, ny) <= WORLD_LIMIT,
{
    assert(-1_000_000_000_000_000_000 <= nx * aspect <= 1_000_000_000_000_000_000)
        by (nonlinear_arith)
        requires
            -NDC_LIMIT <= nx <= NDC_LIMIT,
            0 < aspect <= ASPECT_MAX,
    ;
    assert(-1_000_000_000_000_000_000 <= ny * (SCALE as int) <= 1_000_000_000_000_000_000)
        by (nonlinear_arith)
        requires
            -NDC_LIMIT <= ny <= NDC_LIMIT,
    ;
    lemma_tdiv_bound(nx * aspect, 1_000_000_000_000_000_000, cam.zoom as int);
    lemma_tdiv_bound(ny * (SCALE as int), 1_000_000_000_000_000_000, cam.zoom as int);
    lemma_tdiv_denominator(1_000_000_000_000_000_000, ZOOM_MIN as int, cam.zoom as int);
    assert(1_000_000_000_000_000_000int / 1_000int == 1_000_000_000_000_000);
}

/// Anchor invariance of zoom: as long as the position clamp does not engage,
/// the world point under the anchoring device point is the same before and
/// after a zoom step.
pub proof fn lemma_zoom_anchor(cam: Camera, nx: int, ny: int, factor: int, aspect: int)
    requires
        cam.wf(),
        ASPECT_MIN <= aspect <= ASPECT_MAX,
        1 <= factor <= FACTOR_MAX,
        -NDC_LIMIT <= nx <= NDC_LIMIT,
        -NDC_LIMIT <= ny <= NDC_LIMIT,
        -POS_LIMIT <= zoomed_x(cam, nx, factor, aspect) <= POS_LIMIT,
        -POS_LIMIT <= zoomed_y(cam, ny, factor) <= POS_LIMIT,
    ensures
        n2w_x(zoomed(cam, nx, ny, factor, aspect), nx, aspect) == n2w_x(cam, nx, aspect),
        n2w_y(zoomed(cam, nx, ny, factor, aspect), ny) == n2w_y(cam, ny),
{
    let c2 = zoomed(cam, nx, ny, factor, aspect);
    assert(c2.position.x == zoomed_x(cam, nx, factor, aspect));
    assert(c2.position.y == zoomed_y(cam, ny, factor));
    assert(c2.zoom == zoomed_zoom(cam, factor));
}

/// A zoom-out step strictly shrinks the zoom until it saturates at the
/// lower clamp, where it stays.
pub proof fn lemma_zoom_out_saturates(z: int, factor: int)
    requires
        ZOOM_MIN <= z <= ZOOM_MAX,
        1 <= factor < SCALE,
    ensures
        ZOOM_MIN <= zoom_step(z, factor) <= ZOOM_MAX,
        z > ZOOM_MIN ==> zoom_step(z, factor) < z,
        z == ZOOM_MIN ==> zoom_step(z, factor) == ZOOM_MIN,
{
    let p = z * factor;
    assert(0 <= p < z * (SCALE as int)) by (nonlinear_arith)
        requires
            1 <= factor < SCALE,
            z >= ZOOM_MIN,
            p == z * factor,
    ;
    lemma_tdiv_bound(p, p, SCALE as int);
    assert(tdiv(p, SCALE as int) == p / (SCALE as int));
    vstd::arithmetic::div_mod::lemma_multiply_divide_lt(p, z, SCALE as int);
}

/// A zoom-in step strictly grows the zoom until it saturates at the upper
/// clamp, where it stays. The step must exceed one by at least the smallest
/// zoom's grain.
pub proof fn lemma_zoom_in_saturates(z: int, factor: int)
    requires
        ZOOM_MIN <= z <= ZOOM_MAX,
        SCALE + ZOOM_MIN <= factor <= FACTOR_MAX,
    ensures
        ZOOM_MIN <= zoom_step(z, factor) <= ZOOM_MAX,
        z < ZOOM_MAX ==> zoom_step(z, factor) > z,
        z == ZOOM_MAX ==> zoom_step(z, factor) == ZOOM_MAX,
{
    let p = z * factor;
    assert(p >= (z + 1) * (SCALE as int)) by (nonlinear_arith)
        requires
            factor >= SCALE + ZOOM_MIN,
            z >= ZOOM_MIN,
            ZOOM_MIN == 1_000,
            SCALE == 1_000_000,
            p == z * factor,
    ;
    assert(p >= 0) by (nonlinear_arith)
        requires
            z >= 1,
            factor >= 1,
            p == z * factor,
    ;
    crate::fixed::lemma_tdiv_mono((z + 1) * (SCALE as int), p, SCALE as int);
    crate::fixed::lemma_tdiv_exact(z + 1, SCALE as int);
}

/// Repeated zoom-out eventually saturates: after enough steps the zoom sits
/// at the lower clamp exactly.
pub proof fn lemma_zoom_out_reaches_floor(z: int, factor: int, k: nat)
    requires
        ZOOM_MIN <= z <= ZOOM_MAX,
        1 <= factor < SCALE,
        z - ZOOM_MIN <= k,
    ensures
        zoom_iterated(z, factor, k) == ZOOM_MIN,
    decreases k,
{
    if k == 0 {
        assert(z == ZOOM_MIN);
    } else {
        lemma_zoom_out_saturates(z, factor);
        lemma_zoom_out_reaches_floor(zoom_step(z, factor), factor, (k - 1) as nat);
    }
}

/// Repeated zoom-in eventually saturates: after enough steps the zoom sits
/// at the upper clamp exactly.
pub proof fn lemma_zoom_in_reaches_ceiling(z: int, factor: int, k: nat)
    requires
        ZOOM_MIN <= z <= ZOOM_MAX,
        SCALE + ZOOM_MIN <= factor <= FACTOR_MAX,
        ZOOM_MAX - z <= k,
    ensures
        zoom_iterated(z, factor, k) == ZOOM_MAX,
    decreases k,
{
    if k == 0 {
        assert(z == ZOOM_MAX);
    } else {
        lemma_zoom_in_saturates(z, factor);
        lemma_zoom_in_reaches_ceiling(zoom_step(z, factor), factor, (k - 1) as nat);
    }
}

/// Round trip: converting a world point to device coordinates and back moves
/// it by at most one device grain's worth of world distance, provided the
/// device conversion did not saturate.
pub proof fn lemma_round_trip_x(cam: Camera, wx: int, aspect: int)
    requires
        cam.wf(),
        ASPECT_MIN <= aspect <= ASPECT_MAX,
        -NDC_LIMIT < tdiv((wx - cam.position.x) * cam.zoom, aspect) < NDC_LIMIT,
    ensures
        mag(n2w_x(cam, w2n_x(cam, wx, aspect), aspect) - wx) <= tdiv(aspect, cam.zoom as int) + 1,
{
    let q = wx - cam.position.x;
    let z = cam.zoom as int;
    let d = tdiv(q * z, aspect);
    assert(w2n_x(cam, wx, aspect) == d);
    lemma_tmod_bound(q * z, aspect);
    let r = tmod(q * z, aspect);
    assert(d * aspect == q * z - r) by (nonlinear_arith)
        requires
            q * z == aspect * d + r,
    ;
    lemma_tdiv_near_multiple(q, z, r, aspect);
    assert(n2w_x(cam, d, aspect) == cam.position.x + tdiv(d * aspect, z));
}

/// Round trip on the y axis, where the divisor is the unit scale.
pub proof fn lemma_round_trip_y(cam: Camera, wy: int)
    requires
        cam.wf(),
        -NDC_LIMIT < tdiv((wy - cam.position.y) * cam.zoom, SCALE as int) < NDC_LIMIT,
    ensures
        mag(n2w_y(cam, w2n_y(cam, wy)) - wy) <= tdiv(SCALE as int, cam.zoom as int) + 1,
{
    let q = wy - cam.position.y;
    let z = cam.zoom as int;
    let s = SCALE as int;
    let d = tdiv(q * z, s);
    assert(w2n_y(cam, wy) == d);
    lemma_tmod_bound(q * z, s);
    let r = tmod(q * z, s);
    assert(d * s == q * z - r) by (nonlinear_arith)
        requires
            q * z == s * d + r,
    ;
    lemma_tdiv_near_multiple(q, z, r, s);
    assert(n2w_y(cam, d) == cam.position.y + tdiv(d * s, z));
}

} // verus!
