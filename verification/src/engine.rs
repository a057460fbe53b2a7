//! The interaction engine: one owned struct holding the camera, the card
//! list, the selection, the pointer state machine and the render-buffer
//! manager, driven by plain-value events from the window shell.

use vstd::prelude::*;

verus! {

use crate::fixed::{
    clamped, mag, tdiv, clamp64, mul_div_clamp,
    lemma_tdiv_bound, lemma_tdiv_denominator, lemma_tdiv_neg,
    SCALE, ZOOM_MIN, ZOOM_MAX, POS_LIMIT, WORLD_LIMIT, NDC_LIMIT, ASPECT_MIN, ASPECT_MAX,
    PIXEL_LIMIT, MATRIX_LIMIT,
};
use crate::types::{
    Vec2, InstanceRaw, card_in_bounds, card_color, spec_card_color, MAX_CARDS,
    DEFAULT_GRID_COUNT, CARD_HALF_W, CARD_HALF_H, GRID_SPACING_X, GRID_SPACING_Y, grid_card,
    create_default_grid,
};
use crate::camera::{Camera, n2w_x, n2w_y, w2n_x, w2n_y, zoomed};
use crate::buffer::{BufferManager, FlushOutcome, line_verts_of};
use crate::panels::ToolbarAction;
use vstd::arithmetic::div_mod::{
    lemma_mod_bound, lemma_div_is_ordered, lemma_fundamental_div_mod_converse,
};

/// Zoom multiplier for one scroll step forward, the real value 1.1.
pub const ZOOM_STEP_IN: i64 = 1_100_000;

/// Zoom multiplier for one scroll step backward, the real value 1/1.1.
pub const ZOOM_STEP_OUT: i64 = 909_091;

/// The canvas sub-rectangle of the window, in fixed-point pixels.
#[derive(Clone, Copy, PartialEq, Eq, Structural, Debug)]
pub struct PixelRect {
    pub min_x: i64,
    pub min_y: i64,
    pub max_x: i64,
    pub max_y: i64,
}

impl PixelRect {
    /// All corners inside the pixel bound.
    pub open spec fn wf(self) -> bool {
        &&& -PIXEL_LIMIT <= self.min_x <= PIXEL_LIMIT
        &&& -PIXEL_LIMIT <= self.min_y <= PIXEL_LIMIT
        &&& -PIXEL_LIMIT <= self.max_x <= PIXEL_LIMIT
        &&& -PIXEL_LIMIT <= self.max_y <= PIXEL_LIMIT
    }

    /// A rectangle without positive area, in which pointer moves are ignored.
    pub open spec fn degenerate(self) -> bool {
        self.max_x - self.min_x <= 0 || self.max_y - self.min_y <= 0
    }
}

/// The pointer interaction state: exactly one mode at a time.
#[derive(Clone, Copy, PartialEq, Eq, Structural, Debug)]
pub enum InteractionMode {
    Idle,
    Panning { start_ndc: Vec2, start_camera: Vec2 },
    DragSelecting { start: Vec2, end: Vec2 },
    MovingSelection { last_world: Vec2 },
}

/// Both components inside `[-lim, lim]`.
pub open spec fn vec2_in(v: Vec2, lim: i64) -> bool {
    &&& -lim <= v.x <= lim
    &&& -lim <= v.y <= lim
}

/// The payload of each mode stays inside the bounds of its space.
pub open spec fn mode_wf(m: InteractionMode) -> bool {
    match m {
        InteractionMode::Idle => true,
        InteractionMode::Panning { start_ndc, start_camera } => {
            &&& vec2_in(start_ndc, NDC_LIMIT)
            &&& vec2_in(start_camera, POS_LIMIT)
        },
        InteractionMode::DragSelecting { start, end } => {
            &&& vec2_in(start, WORLD_LIMIT)
            &&& vec2_in(end, WORLD_LIMIT)
        },
        InteractionMode::MovingSelection { last_world } => vec2_in(last_world, WORLD_LIMIT),
    }
}

/// Selection indices all point at live cards and never repeat.
pub open spec fn sel_wf(sel: Seq<usize>, n: nat) -> bool {
    &&& forall|i: int| 0 <= i < sel.len() ==> (#[trigger] sel[i]) < n
    &&& forall|i: int, j: int| 0 <= i < j < sel.len() ==> sel[i] != sel[j]
}

/// Card count capped and every card center in bounds.
pub open spec fn cards_wf(cards: Seq<InstanceRaw>) -> bool {
    &&& cards.len() <= MAX_CARDS
    &&& forall|i: int| 0 <= i < cards.len() ==> card_in_bounds(#[trigger] cards[i])
}

/// The canvas engine.
pub struct Engine {
    pub camera: Camera,
    pub block_positions: Vec<InstanceRaw>,
    pub selected_indices: Vec<usize>,
    pub interaction: InteractionMode,
    pub space_pressed: bool,
    pub mouse_ndc: Vec2,
    pub mouse_pixel: Vec2,
    pub canvas_rect: PixelRect,
    pub config_width: u32,
    pub config_height: u32,
    pub buffers: BufferManager,
}

/// Aspect ratio of the canvas rectangle, falling back to the window's when
/// the rectangle is degenerate, clamped into the accepted range.
pub open spec fn spec_canvas_aspect(e: Engine) -> int {
    let r = e.canvas_rect;
    if !r.degenerate() {
        clamped(
            tdiv((r.max_x - r.min_x) * (SCALE as int), r.max_y - r.min_y),
            ASPECT_MIN as int,
            ASPECT_MAX as int,
        )
    } else {
        clamped(
            tdiv((e.config_width as int) * (SCALE as int), e.config_height as int),
            ASPECT_MIN as int,
            ASPECT_MAX as int,
        )
    }
}

/// The stored pointer position lies inside a canvas rectangle of positive
/// area.
pub open spec fn spec_pointer_in_canvas(e: Engine) -> bool {
    let r = e.canvas_rect;
    &&& !r.degenerate()
    &&& r.min_x <= e.mouse_pixel.x <= r.max_x
    &&& r.min_y <= e.mouse_pixel.y <= r.max_y
}

/// Cards, selection and buffers untouched.
pub open spec fn same_data(a: Engine, b: Engine) -> bool {
    &&& b.block_positions == a.block_positions
    &&& b.selected_indices == a.selected_indices
    &&& b.buffers == a.buffers
}

/// Stored pointer position and device coordinates untouched.
pub open spec fn same_pointer(a: Engine, b: Engine) -> bool {
    &&& b.mouse_ndc == a.mouse_ndc
    &&& b.mouse_pixel == a.mouse_pixel
}

/// Canvas rectangle and window size untouched.
pub open spec fn same_layout(a: Engine, b: Engine) -> bool {
    &&& b.canvas_rect == a.canvas_rect
    &&& b.config_width == a.config_width
    &&& b.config_height == a.config_height
}

impl Engine {
    /// The engine invariant, preserved by every operation.
    pub open spec fn wf(self) -> bool {
        &&& self.camera.wf()
        &&& cards_wf(self.block_positions@)
        &&& sel_wf(self.selected_indices@, self.block_positions@.len())
        &&& mode_wf(self.interaction)
        &&& vec2_in(self.mouse_ndc, NDC_LIMIT)
        &&& vec2_in(self.mouse_pixel, PIXEL_LIMIT)
        &&& self.canvas_rect.wf()
        &&& 1 <= self.config_width
        &&& 1 <= self.config_height
        &&& self.buffers.well_formed()
        &&& self.buffers.synced(self.block_positions@)
    }

    /// A fresh engine over a window of the given size: default card grid,
    /// camera over its middle, everything idle, buffers dirty.
    pub fn new(width: u32, height: u32) -> (e: Engine)
        requires
            1 <= width,
            1 <= height,
        ensures
            e.wf(),
            e.camera.position.x == 3_150_000 && e.camera.position.y == 2_250_000,
            e.camera.zoom == 300_000,
            e.block_positions@.len() == DEFAULT_GRID_COUNT,
            forall|i: int| 0 <= i < DEFAULT_GRID_COUNT ==> e.block_positions@[i] == grid_card(i),
            e.selected_indices@.len() == 0,
            e.interaction is Idle,
            !e.space_pressed,
            e.mouse_ndc.x == 0 && e.mouse_ndc.y == 0,
            e.mouse_pixel.x == 0 && e.mouse_pixel.y == 0,
            e.canvas_rect.min_x == 0 && e.canvas_rect.min_y == 0,
            e.canvas_rect.max_x == 0 && e.canvas_rect.max_y == 0,
            e.config_width == width && e.config_height == height,
            e.buffers.positions_dirty,
            e.buffers.instance_capacity == 2048,
            e.buffers.line_capacity == 4096,
            e.buffers.line_vertex_count == 0,
    {
        let block_positions = create_default_grid();
        let buffers = BufferManager::new(block_positions.len());
        Engine {
            camera: Camera::new(Vec2 { x: 3_150_000, y: 2_250_000 }, 300_000),
            block_positions,
            selected_indices: Vec::new(),
            interaction: InteractionMode::Idle,
            space_pressed: false,
            mouse_ndc: Vec2 { x: 0, y: 0 },
            mouse_pixel: Vec2 { x: 0, y: 0 },
            canvas_rect: PixelRect { min_x: 0, min_y: 0, max_x: 0, max_y: 0 },
            config_width: width,
            config_height: height,
            buffers,
        }
    }

    /// The aspect ratio the camera transform uses this frame.
    pub fn canvas_aspect(&self) -> (a: i64)
        requires
            self.wf(),
        ensures
            a == spec_canvas_aspect(*self),
            ASPECT_MIN <= a <= ASPECT_MAX,
    {
        let w = self.canvas_rect.max_x - self.canvas_rect.min_x;
        let h = self.canvas_rect.max_y - self.canvas_rect.min_y;
        if w > 0 && h > 0 {
            mul_div_clamp(w, SCALE, h, ASPECT_MIN, ASPECT_MAX)
        } else {
            mul_div_clamp(self.config_width as i64, SCALE, self.config_height as i64, ASPECT_MIN, ASPECT_MAX)
        }
    }

    /// Record this frame's canvas rectangle, as the panel layout reports it.
    pub fn set_canvas_rect(&mut self, min_x: i64, min_y: i64, max_x: i64, max_y: i64)
        requires
            old(self).wf(),
        ensures
            final(self).wf(),
            final(self).canvas_rect.min_x == clamped(min_x as int, -PIXEL_LIMIT as int, PIXEL_LIMIT as int),
            final(self).canvas_rect.min_y == clamped(min_y as int, -PIXEL_LIMIT as int, PIXEL_LIMIT as int),
            final(self).canvas_rect.max_x == clamped(max_x as int, -PIXEL_LIMIT as int, PIXEL_LIMIT as int),
            final(self).canvas_rect.max_y == clamped(max_y as int, -PIXEL_LIMIT as int, PIXEL_LIMIT as int),
            same_data(*old(self), *final(self)),
            same_pointer(*old(self), *final(self)),
            final(self).camera == old(self).camera,
            final(self).interaction == old(self).interaction,
            final(self).space_pressed == old(self).space_pressed,
            final(self).config_width == old(self).config_width,
            final(self).config_height == old(self).config_height,
    {
        self.canvas_rect = PixelRect {
            min_x: clamp64(min_x, -PIXEL_LIMIT, PIXEL_LIMIT),
            min_y: clamp64(min_y, -PIXEL_LIMIT, PIXEL_LIMIT),
            max_x: clamp64(max_x, -PIXEL_LIMIT, PIXEL_LIMIT),
            max_y: clamp64(max_y, -PIXEL_LIMIT, PIXEL_LIMIT),
        };
    }

    /// Note that the card list changed since the last flush.
    pub fn mark_positions_dirty(&mut self)
        requires
            old(self).wf(),
        ensures
            final(self).wf(),
            final(self).buffers.positions_dirty,
            final(self).buffers.instance_capacity == old(self).buffers.instance_capacity,
            final(self).buffers.line_capacity == old(self).buffers.line_capacity,
            final(self).buffers.line_vertex_count == old(self).buffers.line_vertex_count,
            final(self).buffers.cached_line_verts == old(self).buffers.cached_line_verts,
            final(self).block_positions == old(self).block_positions,
            final(self).selected_indices == old(self).selected_indices,
            same_pointer(*old(self), *final(self)),
            same_layout(*old(self), *final(self)),
            final(self).camera == old(self).camera,
            final(self).interaction == old(self).interaction,
            final(self).space_pressed == old(self).space_pressed,
    {
        self.buffers.mark_dirty();
    }

    /// Bring the render buffers up to date with the card list; reports what
    /// the backing store must do. A clean engine uploads nothing.
    pub fn update_gpu_buffers(&mut self) -> (outcome: FlushOutcome)
        requires
            old(self).wf(),
        ensures
            final(self).wf(),
            !old(self).buffers.positions_dirty ==> {
                &&& final(self).buffers == old(self).buffers
                &&& !outcome.uploaded
                &&& !outcome.reallocated
            },
            old(self).buffers.positions_dirty ==> {
                &&& outcome.uploaded
                &&& !final(self).buffers.positions_dirty
                &&& (outcome.reallocated <==> old(self).block_positions@.len()
                    > old(self).buffers.instance_capacity)
                &&& final(self).buffers.cached_line_verts@ == line_verts_of(
                    old(self).block_positions@,
                )
                &&& final(self).buffers.line_vertex_count == line_verts_of(
                    old(self).block_positions@,
                ).len()
                &&& final(self).buffers.instance_capacity == (
                if old(self).block_positions@.len() > old(self).buffers.instance_capacity {
                    crate::buffer::grown_capacity(old(self).block_positions@.len() as int)
                } else {
                    old(self).buffers.instance_capacity as int
                })
                &&& final(self).buffers.line_capacity == 2 * final(self).buffers.instance_capacity
                &&& final(self).buffers.instance_capacity >= old(self).block_positions@.len()
            },
            final(self).block_positions == old(self).block_positions,
            final(self).selected_indices == old(self).selected_indices,
            same_pointer(*old(self), *final(self)),
            same_layout(*old(self), *final(self)),
            final(self).camera == old(self).camera,
            final(self).interaction == old(self).interaction,
            final(self).space_pressed == old(self).space_pressed,
    {
        self.buffers.flush(&self.block_positions)
    }

    /// Adopt a new window size; a report with a zero side is ignored.
    pub fn handle_resize(&mut self, width: u32, height: u32)
        requires
            old(self).wf(),
        ensures
            final(self).wf(),
            width >= 1 && height >= 1 ==> {
                &&& final(self).config_width == width
                &&& final(self).config_height == height
            },
            !(width >= 1 && height >= 1) ==> {
                &&& final(self).config_width == old(self).config_width
                &&& final(self).config_height == old(self).config_height
            },
            same_data(*old(self), *final(self)),
            same_pointer(*old(self), *final(self)),
            final(self).canvas_rect == old(self).canvas_rect,
            final(self).camera == old(self).camera,
            final(self).interaction == old(self).interaction,
            final(self).space_pressed == old(self).space_pressed,
    {
        if width >= 1 && height >= 1 {
            self.config_width = width;
            self.config_height = height;
        }
    }

    /// Is the stored pointer position inside the canvas?
    pub fn is_pointer_in_canvas(&self) -> (b: bool)
        requires
            self.canvas_rect.wf(),
        ensures
            b == spec_pointer_in_canvas(*self),
    {
        let r = self.canvas_rect;
        r.max_x - r.min_x > 0 && r.max_y - r.min_y > 0 && self.mouse_pixel.x >= r.min_x
            && self.mouse_pixel.x <= r.max_x && self.mouse_pixel.y >= r.min_y
            && self.mouse_pixel.y <= r.max_y
    }

    /// Track the pan modifier key; releasing it cancels a pan in progress.
    pub fn handle_keyboard(&mut self, space: bool, pressed: bool)
        requires
            old(self).wf(),
        ensures
            final(self).wf(),
            final(self).space_pressed == (if space {
                pressed
            } else {
                old(self).space_pressed
            }),
            final(self).interaction == (if space && !pressed && old(self).interaction is Panning {
                InteractionMode::Idle
            } else {
                old(self).interaction
            }),
            same_data(*old(self), *final(self)),
            same_pointer(*old(self), *final(self)),
            same_layout(*old(self), *final(self)),
            final(self).camera == old(self).camera,
    {
        if space {
            self.space_pressed = pressed;
            if !pressed {
                if matches!(self.interaction, InteractionMode::Panning { .. }) {
                    self.interaction = InteractionMode::Idle;
                }
            }
        }
    }

    /// One wheel step: zoom anchored at the pointer, `1.1x` forward and
    /// `1/1.1x` backward, ignored while the pointer is off the canvas.
    pub fn handle_scroll(&mut self, scroll_y: i64)
        requires
            old(self).wf(),
        ensures
            final(self).wf(),
            !spec_pointer_in_canvas(*old(self)) ==> final(self).camera == old(self).camera,
            spec_pointer_in_canvas(*old(self)) ==> final(self).camera == zoomed(
                old(self).camera,
                old(self).mouse_ndc.x as int,
                old(self).mouse_ndc.y as int,
                (if scroll_y > 0 {
                    ZOOM_STEP_IN
                } else {
                    ZOOM_STEP_OUT
                }) as int,
                spec_canvas_aspect(*old(self)),
            ),
            same_data(*old(self), *final(self)),
            same_pointer(*old(self), *final(self)),
            same_layout(*old(self), *final(self)),
            final(self).interaction == old(self).interaction,
            final(self).space_pressed == old(self).space_pressed,
    {
        if !self.is_pointer_in_canvas() {
            return;
        }
        let factor = if scroll_y > 0 {
            ZOOM_STEP_IN
        } else {
            ZOOM_STEP_OUT
        };
        let aspect = self.canvas_aspect();
        let ndc = self.mouse_ndc;
        self.camera.zoom_at(ndc, factor, aspect);
    }
}

/// A raw pixel coordinate pulled into the accepted pixel range.
pub open spec fn clamp_px(v: int) -> int {
    clamped(v, -PIXEL_LIMIT as int, PIXEL_LIMIT as int)
}

/// Normalized device x of a pixel x inside the canvas rectangle.
pub open spec fn ndc_from_px_x(r: PixelRect, px: int) -> int {
    clamped(
        tdiv((px - r.min_x) * (2 * SCALE as int), r.max_x - r.min_x) - SCALE,
        -NDC_LIMIT as int,
        NDC_LIMIT as int,
    )
}

/// Normalized device y of a pixel y inside the canvas rectangle; device y
/// grows upward while pixel y grows downward.
pub open spec fn ndc_from_px_y(r: PixelRect, py: int) -> int {
    clamped(
        SCALE - tdiv((py - r.min_y) * (2 * SCALE as int), r.max_y - r.min_y),
        -NDC_LIMIT as int,
        NDC_LIMIT as int,
    )
}

/// Camera focus x while panning: the focus at the pan's start shifted
/// against the device-space drag, clamped into the position bound.
pub open spec fn panned_x(start_x: int, dn: int, aspect: int, zoom: int) -> int {
    clamped(start_x - tdiv(dn * aspect, zoom), -POS_LIMIT as int, POS_LIMIT as int)
}

/// Camera focus y while panning.
pub open spec fn panned_y(start_y: int, dn: int, zoom: int) -> int {
    clamped(start_y - tdiv(dn * (SCALE as int), zoom), -POS_LIMIT as int, POS_LIMIT as int)
}

/// World x under the pointer after a move to pixel x `px`.
pub open spec fn cursor_world_x(e: Engine, px: int) -> int {
    n2w_x(e.camera, ndc_from_px_x(e.canvas_rect, px), spec_canvas_aspect(e))
}

/// World y under the pointer after a move to pixel y `py`.
pub open spec fn cursor_world_y(e: Engine, py: int) -> int {
    n2w_y(e.camera, ndc_from_px_y(e.canvas_rect, py))
}

/// Some index before position `j` of the selection holds card `i`.
pub open spec fn sel_has_before(sel: Seq<usize>, j: int, i: int) -> bool {
    exists|t: int| 0 <= t < j && sel[t] == i
}

/// A card shifted by a world-space delta, clamped into the position bound.
pub open spec fn moved_card(c: InstanceRaw, dx: int, dy: int) -> InstanceRaw {
    InstanceRaw {
        position: Vec2 {
            x: clamped(c.position.x + dx, -POS_LIMIT as int, POS_LIMIT as int) as i64,
            y: clamped(c.position.y + dy, -POS_LIMIT as int, POS_LIMIT as int) as i64,
        },
        color: c.color,
    }
}

/// The card list after a group move: every selected card shifted by the
/// delta, every other card untouched.
pub open spec fn moved_cards(cards: Seq<InstanceRaw>, sel: Seq<usize>, dx: int, dy: int) -> Seq<
    InstanceRaw,
> {
    Seq::new(
        cards.len(),
        |i: int|
            if sel_has_before(sel, sel.len() as int, i) {
                moved_card(cards[i], dx, dy)
            } else {
                cards[i]
            },
    )
}

/// `tdiv(a * b, d)` for a device-scale numerator over a zoom divisor; the
/// result fits well inside the world bound.
fn ndc_scale_div(a: i64, b: i64, zoom: i64) -> (r: i64)
    requires
        ZOOM_MIN <= zoom <= ZOOM_MAX,
        -2 * NDC_LIMIT <= a <= 2 * NDC_LIMIT,
        1 <= b <= ASPECT_MAX,
    ensures
        r == tdiv((a as int) * (b as int), zoom as int),
        -2 * POS_LIMIT <= r <= 2 * POS_LIMIT,
{
    proof {
        assert(-2_000_000_000_000_000_000 <= (a as int) * (b as int) <= 2_000_000_000_000_000_000)
            by (nonlinear_arith)
            requires
                -2 * NDC_LIMIT <= a <= 2 * NDC_LIMIT,
                1 <= b <= ASPECT_MAX,
        ;
        lemma_tdiv_bound((a as int) * (b as int), 2_000_000_000_000_000_000, zoom as int);
        lemma_tdiv_denominator(2_000_000_000_000_000_000, ZOOM_MIN as int, zoom as int);
        assert(2_000_000_000_000_000_000int / 1_000int == 2_000_000_000_000_000);
    }
    mul_div_clamp(a, b, zoom, -2 * POS_LIMIT, 2 * POS_LIMIT)
}

/// `tdiv(a * 2 * SCALE, d)` for a pixel-scale numerator; used to place a
/// pixel offset on the device scale.
fn px_scale_div(a: i64, d: i64) -> (r: i64)
    requires
        1 <= d,
        -2 * PIXEL_LIMIT <= a <= 2 * PIXEL_LIMIT,
    ensures
        r == tdiv((a as int) * (2 * SCALE as int), d as int),
        -MATRIX_LIMIT <= r <= MATRIX_LIMIT,
{
    proof {
        assert(-4_000_000_000_000_000_000 <= (a as int) * (2 * SCALE as int)
            <= 4_000_000_000_000_000_000) by (nonlinear_arith)
            requires
                -2 * PIXEL_LIMIT <= a <= 2 * PIXEL_LIMIT,
        ;
        lemma_tdiv_bound((a as int) * (2 * SCALE as int), 4_000_000_000_000_000_000, d as int);
        vstd::arithmetic::div_mod::lemma_div_nonincreasing(4_000_000_000_000_000_000, d as int);
    }
    mul_div_clamp(a, 2 * SCALE, d, -MATRIX_LIMIT, MATRIX_LIMIT)
}

impl Engine {
    /// A pointer move: store the position, drop it if the canvas is
    /// degenerate or the pointer is outside an idle canvas, otherwise update
    /// the device position and act on the current mode: recompute the pan,
    /// stretch the drag rectangle, or shift the selected cards.
    pub fn handle_cursor_moved(&mut self, x: i64, y: i64)
        requires
            old(self).wf(),
        ensures
            final(self).wf(),
            final(self).mouse_pixel.x == clamp_px(x as int),
            final(self).mouse_pixel.y == clamp_px(y as int),
            same_layout(*old(self), *final(self)),
            final(self).space_pressed == old(self).space_pressed,
            final(self).selected_indices == old(self).selected_indices,
            old(self).canvas_rect.degenerate() ==> {
                &&& final(self).mouse_ndc == old(self).mouse_ndc
                &&& final(self).camera == old(self).camera
                &&& final(self).interaction == old(self).interaction
                &&& final(self).block_positions == old(self).block_positions
                &&& final(self).buffers == old(self).buffers
            },
            !old(self).canvas_rect.degenerate() && !cursor_in_canvas(
                old(self).canvas_rect,
                clamp_px(x as int),
                clamp_px(y as int),
            ) && old(self).interaction is Idle ==> {
                &&& final(self).mouse_ndc == old(self).mouse_ndc
                &&& final(self).camera == old(self).camera
                &&& final(self).interaction == old(self).interaction
                &&& final(self).block_positions == old(self).block_positions
                &&& final(self).buffers == old(self).buffers
            },
            !old(self).canvas_rect.degenerate() && (cursor_in_canvas(
                old(self).canvas_rect,
                clamp_px(x as int),
                clamp_px(y as int),
            ) || !(old(self).interaction is Idle)) ==> {
                &&& final(self).mouse_ndc.x == ndc_from_px_x(old(self).canvas_rect, clamp_px(x as int))
                &&& final(self).mouse_ndc.y == ndc_from_px_y(old(self).canvas_rect, clamp_px(y as int))
                &&& (old(self).interaction is Idle ==> {
                    &&& final(self).camera == old(self).camera
                    &&& final(self).interaction == old(self).interaction
                    &&& final(self).block_positions == old(self).block_positions
                    &&& final(self).buffers == old(self).buffers
                })
                &&& (old(self).interaction matches InteractionMode::Panning {
                    start_ndc,
                    start_camera,
                } ==> {
                    &&& final(self).camera.zoom == old(self).camera.zoom
                    &&& final(self).camera.position.x == panned_x(
                        start_camera.x as int,
                        ndc_from_px_x(old(self).canvas_rect, clamp_px(x as int)) - start_ndc.x,
                        spec_canvas_aspect(*old(self)),
                        old(self).camera.zoom as int,
                    )
                    &&& final(self).camera.position.y == panned_y(
                        start_camera.y as int,
                        ndc_from_px_y(old(self).canvas_rect, clamp_px(y as int)) - start_ndc.y,
                        old(self).camera.zoom as int,
                    )
                    &&& final(self).interaction == old(self).interaction
                    &&& final(self).block_positions == old(self).block_positions
                    &&& final(self).buffers == old(self).buffers
                })
                &&& (old(self).interaction matches InteractionMode::DragSelecting { start, end } ==> {
                    &&& final(self).camera == old(self).camera
                    &&& final(self).interaction matches InteractionMode::DragSelecting {
                        start: s2,
                        end: e2,
                    } && s2 == start && e2.x == cursor_world_x(*old(self), clamp_px(x as int))
                        && e2.y == cursor_world_y(*old(self), clamp_px(y as int))
                    &&& final(self).block_positions == old(self).block_positions
                    &&& final(self).buffers == old(self).buffers
                })
                &&& (old(self).interaction matches InteractionMode::MovingSelection { last_world } ==> {
                    &&& final(self).camera == old(self).camera
                    &&& final(self).block_positions@ == moved_cards(
                        old(self).block_positions@,
                        old(self).selected_indices@,
                        cursor_world_x(*old(self), clamp_px(x as int)) - last_world.x,
                        cursor_world_y(*old(self), clamp_px(y as int)) - last_world.y,
                    )
                    &&& final(self).interaction matches InteractionMode::MovingSelection {
                        last_world: l2,
                    } && l2.x == cursor_world_x(*old(self), clamp_px(x as int)) && l2.y
                        == cursor_world_y(*old(self), clamp_px(y as int))
                    &&& final(self).buffers.positions_dirty
                    &&& final(self).buffers.instance_capacity == old(self).buffers.instance_capacity
                })
            },
    {
        let px = clamp64(x, -PIXEL_LIMIT, PIXEL_LIMIT);
        let py = clamp64(y, -PIXEL_LIMIT, PIXEL_LIMIT);
        self.mouse_pixel = Vec2 { x: px, y: py };

        let r = self.canvas_rect;
        let w = r.max_x - r.min_x;
        let h = r.max_y - r.min_y;
        if w <= 0 || h <= 0 {
            return;
        }
        let in_canvas = px >= r.min_x && px <= r.max_x && py >= r.min_y && py <= r.max_y;
        let is_active = !matches!(self.interaction, InteractionMode::Idle);
        if !in_canvas && !is_active {
            return;
        }

        let tx = px_scale_div(px - r.min_x, w);
        let ty = px_scale_div(py - r.min_y, h);
        let nx = clamp64(tx - SCALE, -NDC_LIMIT, NDC_LIMIT);
        let ny = clamp64(SCALE - ty, -NDC_LIMIT, NDC_LIMIT);
        self.mouse_ndc = Vec2 { x: nx, y: ny };

        match self.interaction {
            InteractionMode::Panning { start_ndc, start_camera } => {
                let aspect = self.canvas_aspect();
                let dnx = nx - start_ndc.x;
                let dny = ny - start_ndc.y;
                let sx = ndc_scale_div(dnx, aspect, self.camera.zoom);
                let sy = ndc_scale_div(dny, SCALE, self.camera.zoom);
                self.camera.position = Vec2 {
                    x: clamp64(start_camera.x - sx, -POS_LIMIT, POS_LIMIT),
                    y: clamp64(start_camera.y - sy, -POS_LIMIT, POS_LIMIT),
                };
            },
            InteractionMode::DragSelecting { start, end: _ } => {
                let aspect = self.canvas_aspect();
                let world = self.camera.ndc_to_world(self.mouse_ndc, aspect);
                self.interaction = InteractionMode::DragSelecting { start, end: world };
            },
            InteractionMode::MovingSelection { last_world } => {
                let aspect = self.canvas_aspect();
                let world = self.camera.ndc_to_world(self.mouse_ndc, aspect);
                let dx = world.x - last_world.x;
                let dy = world.y - last_world.y;
                self.shift_selected(dx, dy);
                self.interaction = InteractionMode::MovingSelection { last_world: world };
            },
            InteractionMode::Idle => {},
        }
    }

    /// Shift every selected card by a world-space delta and mark the render
    /// buffers stale; cards outside the selection keep their place.
    fn shift_selected(&mut self, dx: i64, dy: i64)
        requires
            old(self).wf(),
            -2 * WORLD_LIMIT <= dx <= 2 * WORLD_LIMIT,
            -2 * WORLD_LIMIT <= dy <= 2 * WORLD_LIMIT,
        ensures
            final(self).wf(),
            final(self).block_positions@ == moved_cards(
                old(self).block_positions@,
                old(self).selected_indices@,
                dx as int,
                dy as int,
            ),
            final(self).selected_indices == old(self).selected_indices,
            final(self).camera == old(self).camera,
            final(self).interaction == old(self).interaction,
            final(self).space_pressed == old(self).space_pressed,
            final(self).buffers.positions_dirty,
            final(self).buffers.instance_capacity == old(self).buffers.instance_capacity,
            final(self).buffers.line_capacity == old(self).buffers.line_capacity,
            final(self).buffers.line_vertex_count == old(self).buffers.line_vertex_count,
            final(self).buffers.cached_line_verts == old(self).buffers.cached_line_verts,
            same_pointer(*old(self), *final(self)),
            same_layout(*old(self), *final(self)),
    {
        let ghost pre = *self;
        let ghost cards0 = self.block_positions@;
        let ghost sel = self.selected_indices@;
        let n = self.selected_indices.len();
        let mut j: usize = 0;
        while j < n
            invariant
                *self == (Engine { block_positions: self.block_positions, ..pre }),
                n == sel.len(),
                j <= n,
                pre.wf(),
                cards0 == pre.block_positions@,
                sel == pre.selected_indices@,
                -2 * WORLD_LIMIT <= dx <= 2 * WORLD_LIMIT,
                -2 * WORLD_LIMIT <= dy <= 2 * WORLD_LIMIT,
                self.block_positions@.len() == cards0.len(),
                forall|i: int|
                    0 <= i < cards0.len() ==> #[trigger] self.block_positions@[i] == (
                    if sel_has_before(sel, j as int, i) {
                        moved_card(cards0[i], dx as int, dy as int)
                    } else {
                        cards0[i]
                    }),
            decreases n - j,
        {
            let idx = self.selected_indices[j];
            assert(idx < self.block_positions.len());
            assert(!sel_has_before(sel, j as int, idx as int)) by {
                if sel_has_before(sel, j as int, idx as int) {
                    let t = choose|t: int| 0 <= t < j && sel[t] == idx as int;
                    assert(sel[t] == sel[j as int]);
                }
            }
            let c = self.block_positions[idx];
            let nxp = clamp64(c.position.x + dx, -POS_LIMIT, POS_LIMIT);
            let nyp = clamp64(c.position.y + dy, -POS_LIMIT, POS_LIMIT);
            self.block_positions[idx] = InstanceRaw {
                position: Vec2 { x: nxp, y: nyp },
                color: c.color,
            };
            proof {
                assert forall|i: int| 0 <= i < cards0.len() implies #[trigger] self
                    .block_positions@[i] == (if sel_has_before(sel, j + 1, i) {
                    moved_card(cards0[i], dx as int, dy as int)
                } else {
                    cards0[i]
                }) by {
                    if i == idx as int {
                        assert(sel[j as int] == idx as int);
                        assert(sel_has_before(sel, j + 1, i));
                    } else {
                        if sel_has_before(sel, j + 1, i) {
                            let t = choose|t: int| 0 <= t < j + 1 && sel[t] == i;
                            assert(t != j as int);
                            assert(sel_has_before(sel, j as int, i));
                        }
                        if sel_has_before(sel, j as int, i) {
                            let t = choose|t: int| 0 <= t < j && sel[t] == i;
                            assert(0 <= t < j + 1 && sel[t] == i);
                            assert(sel_has_before(sel, j + 1, i));
                        }
                    }
                }
            }
            j = j + 1;
        }
        proof {
            assert(self.block_positions@ =~= moved_cards(cards0, sel, dx as int, dy as int));
            assert forall|i: int| 0 <= i < self.block_positions@.len() implies card_in_bounds(
                #[trigger] self.block_positions@[i],
            ) by {
                assert(card_in_bounds(cards0[i]));
            }
        }
        self.buffers.mark_dirty();
    }
}

/// The clamped pixel position lies inside the (non-degenerate) rectangle.
pub open spec fn cursor_in_canvas(r: PixelRect, px: int, py: int) -> bool {
    &&& r.min_x <= px <= r.max_x
    &&& r.min_y <= py <= r.max_y
}

/// Panning by a device delta and then by its negation returns the camera
/// focus to its starting value, as long as the position clamp does not
/// engage. The same statement covers the y axis with the unit scale as the
/// aspect.
pub proof fn lemma_pan_reversible(start: int, dn: int, aspect: int, zoom: int)
    requires
        ZOOM_MIN <= zoom,
        1 <= aspect,
        -POS_LIMIT <= start <= POS_LIMIT,
        -POS_LIMIT <= start - tdiv(dn * aspect, zoom) <= POS_LIMIT,
    ensures
        panned_x(panned_x(start, dn, aspect, zoom), -dn, aspect, zoom) == start,
{
    lemma_tdiv_neg(dn * aspect, zoom);
    assert((-dn) * aspect == -(dn * aspect)) by (nonlinear_arith);
}

/// The pointer's world point, hit at the stored device coordinates.
pub open spec fn pointer_world_x(e: Engine) -> int {
    n2w_x(e.camera, e.mouse_ndc.x as int, spec_canvas_aspect(e))
}

/// The pointer's world y.
pub open spec fn pointer_world_y(e: Engine) -> int {
    n2w_y(e.camera, e.mouse_ndc.y as int)
}

/// The world point lands inside the card's hit box.
pub open spec fn hit(c: InstanceRaw, wx: int, wy: int) -> bool {
    &&& mag(c.position.x - wx) < CARD_HALF_W
    &&& mag(c.position.y - wy) < CARD_HALF_H
}

/// The first card, in list order, hit by the world point at or after index
/// `from`; earlier cards win over later overlapping ones.
pub open spec fn first_hit(cards: Seq<InstanceRaw>, wx: int, wy: int, from: int) -> Option<int>
    decreases cards.len() - from,
{
    if from < 0 || from >= cards.len() {
        None
    } else if hit(cards[from], wx, wy) {
        Some(from)
    } else {
        first_hit(cards, wx, wy, from + 1)
    }
}

/// The card's center lies inside the closed box.
pub open spec fn in_box(c: InstanceRaw, min_x: int, max_x: int, min_y: int, max_y: int) -> bool {
    &&& min_x <= c.position.x <= max_x
    &&& min_y <= c.position.y <= max_y
}

/// Indices of the first `n` cards inside the closed box, in ascending order.
pub open spec fn box_select(
    cards: Seq<InstanceRaw>,
    min_x: int,
    max_x: int,
    min_y: int,
    max_y: int,
    n: int,
) -> Seq<usize>
    decreases n,
{
    if n <= 0 {
        Seq::empty()
    } else {
        let rest = box_select(cards, min_x, max_x, min_y, max_y, n - 1);
        if in_box(cards[n - 1], min_x, max_x, min_y, max_y) {
            rest.push((n - 1) as usize)
        } else {
            rest
        }
    }
}

/// A card's index is in the box selection of the first `n` cards exactly
/// when its center lies inside the box; every selected index points below
/// `n`.
pub proof fn lemma_box_select_membership(
    cards: Seq<InstanceRaw>,
    min_x: int,
    max_x: int,
    min_y: int,
    max_y: int,
    n: int,
)
    requires
        0 <= n <= cards.len(),
        n <= usize::MAX,
    ensures
        forall|t: int|
            0 <= t < box_select(cards, min_x, max_x, min_y, max_y, n).len() ==> (
            #[trigger] box_select(cards, min_x, max_x, min_y, max_y, n)[t]) < n,
        forall|i: int|
            0 <= i < n ==> (box_select(cards, min_x, max_x, min_y, max_y, n).contains(i as usize)
                <==> in_box(#[trigger] cards[i], min_x, max_x, min_y, max_y)),
    decreases n,
{
    if n > 0 {
        lemma_box_select_membership(cards, min_x, max_x, min_y, max_y, n - 1);
        let rest = box_select(cards, min_x, max_x, min_y, max_y, n - 1);
        let cur = box_select(cards, min_x, max_x, min_y, max_y, n);
        assert forall|i: int|
            0 <= i < n && cur.contains(i as usize) implies in_box(
            #[trigger] cards[i],
            min_x,
            max_x,
            min_y,
            max_y,
        ) by {
            let t = choose|t: int| 0 <= t < cur.len() && cur[t] == i as usize;
            if in_box(cards[n - 1], min_x, max_x, min_y, max_y) {
                if t < rest.len() {
                    assert(rest.contains(i as usize));
                    assert(rest[t] < n - 1);
                    assert(i < n - 1);
                } else {
                    assert(cur[t] == (n - 1) as usize);
                    assert(i == n - 1);
                }
            } else {
                assert(rest.contains(i as usize));
                assert(rest[t] < n - 1);
                assert(i < n - 1);
            }
        }
        assert forall|i: int|
            0 <= i < n && in_box(#[trigger] cards[i], min_x, max_x, min_y, max_y) implies cur
            .contains(i as usize) by {
            if i < n - 1 {
                assert(rest.contains(i as usize));
                let t = choose|t: int| 0 <= t < rest.len() && rest[t] == i as usize;
                assert(cur[t] == i as usize);
            } else {
                assert(in_box(cards[n - 1], min_x, max_x, min_y, max_y));
                assert(cur[cur.len() - 1] == (n - 1) as usize);
            }
        }
    }
}

/// The first `k` selection entries that still point below `n`, in order.
pub open spec fn kept_selection(sel: Seq<usize>, n: int, k: int) -> Seq<usize>
    decreases k,
{
    if k <= 0 {
        Seq::empty()
    } else {
        let rest = kept_selection(sel, n, k - 1);
        if sel[k - 1] < n {
            rest.push(sel[k - 1])
        } else {
            rest
        }
    }
}

/// Purging a duplicate-free selection leaves a well-formed selection whose
/// entries all come from the purged prefix.
pub proof fn lemma_kept_selection_wf(sel: Seq<usize>, n: int, k: int)
    requires
        0 <= k <= sel.len(),
        0 <= n,
        forall|i: int, j: int| 0 <= i < j < sel.len() ==> sel[i] != sel[j],
    ensures
        sel_wf(kept_selection(sel, n, k), n as nat),
        forall|x: usize|
            #[trigger] kept_selection(sel, n, k).contains(x) ==> sel_has_before(sel, k, x as int),
    decreases k,
{
    if k > 0 {
        lemma_kept_selection_wf(sel, n, k - 1);
        let rest = kept_selection(sel, n, k - 1);
        let cur = kept_selection(sel, n, k);
        assert forall|x: usize| #[trigger] cur.contains(x) implies sel_has_before(
            sel,
            k,
            x as int,
        ) by {
            let t = choose|t: int| 0 <= t < cur.len() && cur[t] == x;
            if sel[k - 1] < n {
                if t < rest.len() {
                    assert(rest.contains(x));
                    let u = choose|u: int| 0 <= u < k - 1 && #[trigger] sel[u] == x as int;
                    assert(0 <= u < k && sel[u] == x as int);
                } else {
                    assert(cur[t] == sel[k - 1]);
                    assert(0 <= k - 1 < k && sel[k - 1] == x as int);
                }
            } else {
                assert(rest.contains(x));
                let u = choose|u: int| 0 <= u < k - 1 && #[trigger] sel[u] == x as int;
                assert(0 <= u < k && sel[u] == x as int);
            }
        }
        if sel[k - 1] < n {
            assert(!rest.contains(sel[k - 1])) by {
                if rest.contains(sel[k - 1]) {
                    let u = choose|u: int| 0 <= u < k - 1 && #[trigger] sel[u] == sel[k - 1] as int;
                    assert(sel[u] == sel[k - 1]);
                }
            }
            assert forall|i: int, j: int| 0 <= i < j < cur.len() implies cur[i] != cur[j] by {
                if j == cur.len() - 1 {
                    assert(cur[i] == rest[i]);
                    assert(rest.contains(rest[i]));
                } else {
                    assert(cur[i] == rest[i] && cur[j] == rest[j]);
                }
            }
        }
    }
}

/// The smaller of two values.
pub open spec fn min2(a: int, b: int) -> int {
    if a < b {
        a
    } else {
        b
    }
}

/// The larger of two values.
pub open spec fn max2(a: int, b: int) -> int {
    if a < b {
        b
    } else {
        a
    }
}

/// First list-order hit of the world point, if any.
fn hit_test(cards: &Vec<InstanceRaw>, wx: i64, wy: i64) -> (r: Option<usize>)
    requires
        cards_wf(cards@),
        -WORLD_LIMIT <= wx <= WORLD_LIMIT,
        -WORLD_LIMIT <= wy <= WORLD_LIMIT,
    ensures
        r matches Some(i) ==> first_hit(cards@, wx as int, wy as int, 0) == Some(i as int) && i
            < cards@.len(),
        r is None ==> first_hit(cards@, wx as int, wy as int, 0) is None,
{
    let n = cards.len();
    let mut i: usize = 0;
    while i < n
        invariant
            n == cards@.len(),
            i <= n,
            cards_wf(cards@),
            -WORLD_LIMIT <= wx <= WORLD_LIMIT,
            -WORLD_LIMIT <= wy <= WORLD_LIMIT,
            first_hit(cards@, wx as int, wy as int, 0) == first_hit(
                cards@,
                wx as int,
                wy as int,
                i as int,
            ),
        decreases n - i,
    {
        let c = cards[i];
        let dx = c.position.x - wx;
        let adx = if dx < 0 {
            -dx
        } else {
            dx
        };
        let dy = c.position.y - wy;
        let ady = if dy < 0 {
            -dy
        } else {
            dy
        };
        if adx < CARD_HALF_W && ady < CARD_HALF_H {
            return Some(i);
        }
        i = i + 1;
    }
    None
}

/// Does the selection hold this index?
fn sel_contains(v: &Vec<usize>, x: usize) -> (b: bool)
    ensures
        b == v@.contains(x),
{
    let n = v.len();
    let mut i: usize = 0;
    while i < n
        invariant
            n == v@.len(),
            i <= n,
            forall|k: int| 0 <= k < i ==> v@[k] != x,
        decreases n - i,
    {
        if v[i] == x {
            return true;
        }
        i = i + 1;
    }
    proof {
        if v@.contains(x) {
            let k = choose|k: int| 0 <= k < v@.len() && v@[k] == x;
        }
    }
    false
}

/// Least `r` at or above `from` with `r * r >= n` (capped at `n`).
pub open spec fn ceil_sqrt_from(n: int, from: int) -> int
    decreases n - from,
{
    if from >= n {
        n
    } else if from * from >= n {
        from
    } else {
        ceil_sqrt_from(n, from + 1)
    }
}

/// Least `r` with `r * r >= n`: the side of the smallest square grid that
/// holds `n` cards.
pub open spec fn spec_ceil_sqrt(n: int) -> int {
    ceil_sqrt_from(n, 0)
}

/// The side of the smallest square grid holding `n` cards.
fn ceil_sqrt(n: usize) -> (r: usize)
    requires
        1 <= n <= MAX_CARDS,
    ensures
        r == spec_ceil_sqrt(n as int),
        1 <= r <= 10_000,
        r * r >= n,
{
    let mut r: usize = 0;
    while r < n && r * r < n
        invariant
            r <= n,
            1 <= n <= MAX_CARDS,
            r <= 10_000,
            (r as int) * (r as int) <= 400_000_000,
            spec_ceil_sqrt(n as int) == ceil_sqrt_from(n as int, r as int),
        decreases n - r,
    {
        proof {
            assert(r < 10_000 && (r + 1) * (r + 1) <= 400_000_000) by (nonlinear_arith)
                requires
                    (r as int) * (r as int) < n,
                    n <= 100_000_000,
                    r >= 0,
            ;
        }
        r = r + 1;
    }
    proof {
        if r >= n {
            assert((n as int) * (n as int) >= n) by (nonlinear_arith)
                requires
                    n >= 1,
            ;
        }
    }
    r
}

/// A card added at the camera focus, tinted by the next palette entry.
pub open spec fn added_card(cam: Camera, idx: int) -> InstanceRaw {
    InstanceRaw { position: cam.position, color: spec_card_color(idx) }
}

/// Card `i` of a square batch grid anchored at the camera focus.
pub open spec fn batch_card(cam: Camera, start: int, cols: int, i: int) -> InstanceRaw {
    InstanceRaw {
        position: Vec2 {
            x: clamped(
                cam.position.x + (i % cols) * (GRID_SPACING_X as int),
                -POS_LIMIT as int,
                POS_LIMIT as int,
            ) as i64,
            y: clamped(
                cam.position.y + (i / cols) * (GRID_SPACING_Y as int),
                -POS_LIMIT as int,
                POS_LIMIT as int,
            ) as i64,
        },
        color: spec_card_color(start + i),
    }
}

/// The card list after the single-add request.
pub open spec fn after_add(cards: Seq<InstanceRaw>, cam: Camera, add_node: bool) -> Seq<
    InstanceRaw,
> {
    if add_node {
        cards.push(added_card(cam, cards.len() as int))
    } else {
        cards
    }
}

/// The card list after the batch-add request.
pub open spec fn after_batch(cards: Seq<InstanceRaw>, cam: Camera, batch: int) -> Seq<InstanceRaw> {
    if batch > 0 {
        cards + Seq::new(
            batch as nat,
            |i: int| batch_card(cam, cards.len() as int, spec_ceil_sqrt(batch), i),
        )
    } else {
        cards
    }
}

/// The default grid as a sequence.
pub open spec fn default_grid_seq() -> Seq<InstanceRaw> {
    Seq::new(DEFAULT_GRID_COUNT as nat, |i: int| grid_card(i))
}

impl Engine {
    /// A primary-button edge. A press outside the canvas is dropped; a press
    /// with the modifier held starts a pan; otherwise a press on a card
    /// starts a group move (resetting the selection to that card unless it
    /// was already selected) and a press on empty space starts a drag
    /// selection. A release completes a drag selection by selecting every
    /// card inside the dragged box and always returns to idle.
    pub fn handle_mouse_button(&mut self, pressed: bool)
        requires
            old(self).wf(),
        ensures
            final(self).wf(),
            same_pointer(*old(self), *final(self)),
            same_layout(*old(self), *final(self)),
            final(self).space_pressed == old(self).space_pressed,
            final(self).camera == old(self).camera,
            final(self).block_positions == old(self).block_positions,
            final(self).buffers == old(self).buffers,
            pressed && !spec_pointer_in_canvas(*old(self)) ==> {
                &&& final(self).interaction == old(self).interaction
                &&& final(self).selected_indices == old(self).selected_indices
            },
            pressed && spec_pointer_in_canvas(*old(self)) && old(self).space_pressed ==> {
                &&& final(self).interaction matches InteractionMode::Panning {
                    start_ndc,
                    start_camera,
                } && start_ndc == old(self).mouse_ndc && start_camera == old(self).camera.position
                &&& final(self).selected_indices == old(self).selected_indices
            },
            pressed && spec_pointer_in_canvas(*old(self)) && !old(self).space_pressed ==> {
                let wx = pointer_world_x(*old(self));
                let wy = pointer_world_y(*old(self));
                match first_hit(old(self).block_positions@, wx, wy, 0) {
                    Some(i) => {
                        &&& final(self).interaction matches InteractionMode::MovingSelection {
                            last_world,
                        } && last_world.x == wx && last_world.y == wy
                        &&& (old(self).selected_indices@.contains(i as usize) ==> final(self).selected_indices == old(self).selected_indices)
                        &&& (!old(self).selected_indices@.contains(i as usize) ==> final(self).selected_indices@ =~= seq![i as usize])
                    },
                    None => {
                        &&& final(self).interaction matches InteractionMode::DragSelecting {
                            start,
                            end,
                        } && start.x == wx && start.y == wy && end.x == wx && end.y == wy
                        &&& final(self).selected_indices@.len() == 0
                    },
                }
            },
            !pressed ==> {
                &&& final(self).interaction is Idle
                &&& (old(self).interaction matches InteractionMode::DragSelecting { start, end }
                    ==> final(self).selected_indices@ == box_select(
                    old(self).block_positions@,
                    min2(start.x as int, end.x as int),
                    max2(start.x as int, end.x as int),
                    min2(start.y as int, end.y as int),
                    max2(start.y as int, end.y as int),
                    old(self).block_positions@.len() as int,
                ))
                &&& (!(old(self).interaction is DragSelecting) ==> final(self).selected_indices
                    == old(self).selected_indices)
            },
    {
        if pressed {
            if !self.is_pointer_in_canvas() {
                return;
            }
            if self.space_pressed {
                self.interaction = InteractionMode::Panning {
                    start_ndc: self.mouse_ndc,
                    start_camera: self.camera.position,
                };
            } else {
                let aspect = self.canvas_aspect();
                let w = self.camera.ndc_to_world(self.mouse_ndc, aspect);
                match hit_test(&self.block_positions, w.x, w.y) {
                    Some(idx) => {
                        if !sel_contains(&self.selected_indices, idx) {
                            self.selected_indices.clear();
                            self.selected_indices.push(idx);
                        }
                        self.interaction = InteractionMode::MovingSelection { last_world: w };
                    },
                    None => {
                        self.selected_indices.clear();
                        self.interaction = InteractionMode::DragSelecting { start: w, end: w };
                    },
                }
            }
        } else {
            if let InteractionMode::DragSelecting { start, end } = self.interaction {
                let bxl = if start.x < end.x {
                    start.x
                } else {
                    end.x
                };
                let bxh = if start.x < end.x {
                    end.x
                } else {
                    start.x
                };
                let byl = if start.y < end.y {
                    start.y
                } else {
                    end.y
                };
                let byh = if start.y < end.y {
                    end.y
                } else {
                    start.y
                };
                self.selected_indices.clear();
                let ghost pre = *self;
                let ghost cards0 = self.block_positions@;
                let n = self.block_positions.len();
                let mut i: usize = 0;
                while i < n
                    invariant
                        *self == (Engine { selected_indices: self.selected_indices, ..pre }),
                        n == cards0.len(),
                        cards0 == self.block_positions@,
                        i <= n,
                        self.selected_indices@ == box_select(
                            cards0,
                            bxl as int,
                            bxh as int,
                            byl as int,
                            byh as int,
                            i as int,
                        ),
                        forall|k: int|
                            0 <= k < self.selected_indices@.len() ==> (
                            #[trigger] self.selected_indices@[k]) < i,
                        forall|k1: int, k2: int|
                            0 <= k1 < k2 < self.selected_indices@.len()
                                ==> self.selected_indices@[k1] < self.selected_indices@[k2],
                    decreases n - i,
                {
                    let c = self.block_positions[i];
                    if bxl <= c.position.x && c.position.x <= bxh && byl <= c.position.y
                        && c.position.y <= byh {
                        self.selected_indices.push(i);
                    }
                    i = i + 1;
                }
            }
            self.interaction = InteractionMode::Idle;
        }
    }

    /// Apply one frame's toolbar requests, in their fixed order: a single
    /// add, then a batch add in a square grid, then a reset to the default
    /// grid. A reset purges selection entries that no longer point at a
    /// card. Every structural change marks the render buffers stale.
    pub fn apply_toolbar_action(&mut self, action: &ToolbarAction)
        requires
            old(self).wf(),
            old(self).block_positions@.len() + (if action.add_node {
                1int
            } else {
                0int
            }) + action.add_batch <= MAX_CARDS,
        ensures
            final(self).wf(),
            final(self).block_positions@ == (if action.reset {
                default_grid_seq()
            } else {
                after_batch(
                    after_add(old(self).block_positions@, old(self).camera, action.add_node),
                    old(self).camera,
                    action.add_batch as int,
                )
            }),
            action.reset ==> final(self).selected_indices@ == kept_selection(
                old(self).selected_indices@,
                DEFAULT_GRID_COUNT as int,
                old(self).selected_indices@.len() as int,
            ),
            !action.reset ==> final(self).selected_indices == old(self).selected_indices,
            (action.add_node || action.add_batch > 0 || action.reset) ==> {
                &&& final(self).buffers.positions_dirty
                &&& final(self).buffers.instance_capacity == old(self).buffers.instance_capacity
                &&& final(self).buffers.line_capacity == old(self).buffers.line_capacity
                &&& final(self).buffers.line_vertex_count == old(self).buffers.line_vertex_count
                &&& final(self).buffers.cached_line_verts == old(self).buffers.cached_line_verts
            },
            !(action.add_node || action.add_batch > 0 || action.reset) ==> final(self).buffers
                == old(self).buffers,
            final(self).camera == old(self).camera,
            final(self).interaction == old(self).interaction,
            final(self).space_pressed == old(self).space_pressed,
            same_pointer(*old(self), *final(self)),
            same_layout(*old(self), *final(self)),
    {
        if action.add_node {
            let color = card_color(self.block_positions.len());
            self.block_positions.push(
                InstanceRaw { position: self.camera.position, color },
            );
            self.buffers.mark_dirty();
        }
        if action.add_batch > 0 {
            let batch = action.add_batch;
            let start = self.block_positions.len();
            let cols = ceil_sqrt(batch);
            let ghost pre2 = *self;
            let ghost cards1 = self.block_positions@;
            let mut i: usize = 0;
            while i < batch
                invariant
                    *self == (Engine { block_positions: self.block_positions, ..pre2 }),
                    cols == spec_ceil_sqrt(batch as int),
                    1 <= cols <= 10_000,
                    cols * cols >= batch,
                    batch <= MAX_CARDS,
                    start == cards1.len(),
                    start + batch <= MAX_CARDS,
                    i <= batch,
                    self.camera.wf(),
                    self.block_positions@.len() == start + i,
                    forall|k: int| 0 <= k < start ==> self.block_positions@[k] == cards1[k],
                    forall|k: int|
                        0 <= k < i ==> self.block_positions@[start + k] == batch_card(
                            self.camera,
                            start as int,
                            cols as int,
                            k,
                        ),
                decreases batch - i,
            {
                let col = i % cols;
                let row = i / cols;
                proof {
                    lemma_mod_bound(i as int, cols as int);
                    lemma_div_is_ordered(i as int, (cols as int) * (cols as int) - 1, cols as int);
                    assert((cols as int) * (cols as int) - 1 == (cols as int - 1) * (cols as int) + (
                    cols as int - 1)) by (nonlinear_arith);
                    lemma_fundamental_div_mod_converse(
                        (cols as int) * (cols as int) - 1,
                        cols as int,
                        cols as int - 1,
                        cols as int - 1,
                    );
                }
                let px = clamp64(
                    self.camera.position.x + (col as i64) * GRID_SPACING_X,
                    -POS_LIMIT,
                    POS_LIMIT,
                );
                let py = clamp64(
                    self.camera.position.y + (row as i64) * GRID_SPACING_Y,
                    -POS_LIMIT,
                    POS_LIMIT,
                );
                let color = card_color(start + i);
                self.block_positions.push(
                    InstanceRaw { position: Vec2 { x: px, y: py }, color },
                );
                i = i + 1;
            }
            proof {
                assert(self.block_positions@ =~= after_batch(
                    cards1,
                    self.camera,
                    batch as int,
                ));
            }
            self.buffers.mark_dirty();
        }
        if action.reset {
            self.block_positions = create_default_grid();
            proof {
                assert(self.block_positions@ =~= default_grid_seq());
            }
            let ghost sel0 = self.selected_indices@;
            let mut kept: Vec<usize> = Vec::new();
            let seln = self.selected_indices.len();
            let mut k: usize = 0;
            while k < seln
                invariant
                    seln == sel0.len(),
                    sel0 == self.selected_indices@,
                    k <= seln,
                    kept@ == kept_selection(sel0, DEFAULT_GRID_COUNT as int, k as int),
                decreases seln - k,
            {
                let idx = self.selected_indices[k];
                if idx < DEFAULT_GRID_COUNT {
                    kept.push(idx);
                }
                k = k + 1;
            }
            proof {
                lemma_kept_selection_wf(sel0, DEFAULT_GRID_COUNT as int, sel0.len() as int);
            }
            self.selected_indices = kept;
            self.buffers.mark_dirty();
        }
    }

    /// The active drag-selection rectangle in device coordinates, for the
    /// overlay highlight; the aspect falls back to one when the canvas
    /// rectangle is degenerate.
    pub fn selection_rect_ndc(&self) -> (r: Option<(Vec2, Vec2)>)
        requires
            self.wf(),
        ensures
            r is Some <==> self.interaction is DragSelecting,
            self.interaction matches InteractionMode::DragSelecting { start, end } ==> (r
                matches Some(p) && p.0.x == w2n_x(self.camera, start.x as int, overlay_aspect(*self))
                && p.0.y == w2n_y(self.camera, start.y as int) && p.1.x == w2n_x(
                self.camera,
                end.x as int,
                overlay_aspect(*self),
            ) && p.1.y == w2n_y(self.camera, end.y as int)),
    {
        if let InteractionMode::DragSelecting { start, end } = self.interaction {
            let w = self.canvas_rect.max_x - self.canvas_rect.min_x;
            let h = self.canvas_rect.max_y - self.canvas_rect.min_y;
            let aspect = if w > 0 && h > 0 {
                mul_div_clamp(w, SCALE, h, ASPECT_MIN, ASPECT_MAX)
            } else {
                SCALE
            };
            let p0 = self.camera.world_to_ndc(start, aspect);
            let p1 = self.camera.world_to_ndc(end, aspect);
            Some((p0, p1))
        } else {
            None
        }
    }

    /// A device point mapped back to window pixels inside the canvas
    /// rectangle, for the overlay highlight.
    pub fn ndc_to_pixel(&self, ndc: Vec2) -> (p: Vec2)
        requires
            self.wf(),
            vec2_in(ndc, NDC_LIMIT),
        ensures
            p.x == ndc_to_px_x(self.canvas_rect, ndc.x as int),
            p.y == ndc_to_px_y(self.canvas_rect, ndc.y as int),
    {
        let r = self.canvas_rect;
        let w = r.max_x - r.min_x;
        let h = r.max_y - r.min_y;
        proof {
            lemma_px_back((ndc.x + SCALE) as int, w as int);
            lemma_px_back((SCALE - ndc.y) as int, h as int);
        }
        let tx = mul_div_clamp(ndc.x + SCALE, w, 2 * SCALE, -2 * POS_LIMIT, 2 * POS_LIMIT);
        let ty = mul_div_clamp(SCALE - ndc.y, h, 2 * SCALE, -2 * POS_LIMIT, 2 * POS_LIMIT);
        Vec2 { x: r.min_x + tx, y: r.min_y + ty }
    }
}

/// Aspect used for the drag-selection overlay: the canvas rectangle's, or
/// one when the rectangle is degenerate.
pub open spec fn overlay_aspect(e: Engine) -> int {
    let r = e.canvas_rect;
    if !r.degenerate() {
        clamped(
            tdiv((r.max_x - r.min_x) * (SCALE as int), r.max_y - r.min_y),
            ASPECT_MIN as int,
            ASPECT_MAX as int,
        )
    } else {
        SCALE as int
    }
}

/// Device x mapped back into the canvas rectangle's pixels.
pub open spec fn ndc_to_px_x(r: PixelRect, nx: int) -> int {
    r.min_x + tdiv((nx + SCALE) * (r.max_x - r.min_x), 2 * SCALE as int)
}

/// Device y mapped back into the canvas rectangle's pixels.
pub open spec fn ndc_to_px_y(r: PixelRect, ny: int) -> int {
    r.min_y + tdiv((SCALE - ny) * (r.max_y - r.min_y), 2 * SCALE as int)
}

/// A device-scale numerator over the doubled unit scale stays inside twice
/// the position bound.
proof fn lemma_px_back(a: int, w: int)
    requires
        -2_000_000_000 <= a <= 2_000_000_000,
        -2 * PIXEL_LIMIT <= w <= 2 * PIXEL_LIMIT,
    ensures
        -2 * POS_LIMIT <= tdiv(a * w, 2 * SCALE as int) <= 2 * POS_LIMIT,
{
    assert(-4_000_000_000_000_000_000_000 <= a * w <= 4_000_000_000_000_000_000_000)
        by (nonlinear_arith)
        requires
            -2_000_000_000 <= a <= 2_000_000_000,
            -2 * PIXEL_LIMIT <= w <= 2 * PIXEL_LIMIT,
    ;
    lemma_tdiv_bound(a * w, 4_000_000_000_000_000_000_000, 2 * SCALE as int);
    assert(4_000_000_000_000_000_000_000int / 2_000_000int == 2_000_000_000_000_000);
}

} // verus!
