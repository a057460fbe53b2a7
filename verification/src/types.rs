//! Shared data shapes: points, colors, vertex and instance records, the
//! card-layout constants and the default card grid.

use vstd::prelude::*;

verus! {

use vstd::arithmetic::div_mod::{lemma_div_is_ordered, lemma_div_pos_is_pos, lemma_mod_bound};
use crate::fixed::POS_LIMIT;

/// A two-dimensional point in fixed-point scalars.
#[derive(Clone, Copy, PartialEq, Eq, Structural, Debug)]
pub struct Vec2 {
    pub x: i64,
    pub y: i64,
}

/// An RGB color with fixed-point channels in `[0, SCALE]`.
#[derive(Clone, Copy, PartialEq, Eq, Structural, Debug)]
pub struct Rgb {
    pub r: i64,
    pub g: i64,
    pub b: i64,
}

/// One line-list vertex handed to the graphics backend.
#[derive(Clone, Copy, PartialEq, Eq, Structural, Debug)]
pub struct Vertex {
    pub position: Vec2,
    pub color: Rgb,
}

/// Per-card instance attributes handed to the graphics backend.
#[derive(Clone, Copy, PartialEq, Eq, Structural, Debug)]
pub struct InstanceRaw {
    pub position: Vec2,
    pub color: Rgb,
}

/// The four scale/translate entries of the camera's orthographic matrix;
/// the remaining entries of the 4x4 matrix are constant.
#[derive(Clone, Copy, PartialEq, Eq, Structural, Debug)]
pub struct CameraUniform {
    pub sx: i64,
    pub sy: i64,
    pub tx: i64,
    pub ty: i64,
}

/// Half width of a card's hit box, the real value 0.25.
pub const CARD_HALF_W: i64 = 250_000;

/// Half height of a card's hit box, the real value 0.15.
pub const CARD_HALF_H: i64 = 150_000;

/// Half width of the drawn card quad (shadow margin included), 0.28.
pub const CARD_QUAD_W: i64 = 280_000;

/// Half height of the drawn card quad, 0.18.
pub const CARD_QUAD_H: i64 = 180_000;

/// Columns of the default card grid.
pub const GRID_COLS: usize = 10;

/// Horizontal grid spacing, the real value 0.7.
pub const GRID_SPACING_X: i64 = 700_000;

/// Vertical grid spacing, the real value 0.5.
pub const GRID_SPACING_Y: i64 = 500_000;

/// Number of cards in the default grid.
pub const DEFAULT_GRID_COUNT: usize = 100;

/// Hard cap on the number of cards the engine manages.
pub const MAX_CARDS: usize = 100_000_000;

/// A card whose center stays inside the world bound.
pub open spec fn card_in_bounds(c: InstanceRaw) -> bool {
    &&& -POS_LIMIT <= c.position.x <= POS_LIMIT
    &&& -POS_LIMIT <= c.position.y <= POS_LIMIT
}

/// The six-entry border palette, cycled by card index.
pub open spec fn spec_card_color(i: int) -> Rgb {
    let m = i % 6;
    if m == 0 {
        Rgb { r: 940_000, g: 330_000, b: 460_000 }
    } else if m == 1 {
        Rgb { r: 550_000, g: 480_000, b: 820_000 }
    } else if m == 2 {
        Rgb { r: 950_000, g: 730_000, b: 150_000 }
    } else if m == 3 {
        Rgb { r: 300_000, g: 820_000, b: 880_000 }
    } else if m == 4 {
        Rgb { r: 960_000, g: 580_000, b: 220_000 }
    } else {
        Rgb { r: 250_000, g: 250_000, b: 300_000 }
    }
}

/// Palette entry for card index `i`.
pub fn card_color(i: usize) -> (c: Rgb)
    ensures
        c == spec_card_color(i as int),
{
    let m = i % 6;
    if m == 0 {
        Rgb { r: 940_000, g: 330_000, b: 460_000 }
    } else if m == 1 {
        Rgb { r: 550_000, g: 480_000, b: 820_000 }
    } else if m == 2 {
        Rgb { r: 950_000, g: 730_000, b: 150_000 }
    } else if m == 3 {
        Rgb { r: 300_000, g: 820_000, b: 880_000 }
    } else if m == 4 {
        Rgb { r: 960_000, g: 580_000, b: 220_000 }
    } else {
        Rgb { r: 250_000, g: 250_000, b: 300_000 }
    }
}

/// Card `i` of the default grid: ten columns, palette cycled by index.
pub open spec fn grid_card(i: int) -> InstanceRaw {
    InstanceRaw {
        position: Vec2 {
            x: ((i % (GRID_COLS as int)) * GRID_SPACING_X) as i64,
            y: ((i / (GRID_COLS as int)) * GRID_SPACING_Y) as i64,
        },
        color: spec_card_color(i),
    }
}

/// The default ten-by-ten card grid.
pub fn create_default_grid() -> (r: Vec<InstanceRaw>)
    ensures
        r@.len() == DEFAULT_GRID_COUNT,
        forall|i: int| 0 <= i < DEFAULT_GRID_COUNT ==> r@[i] == grid_card(i),
        forall|i: int| 0 <= i < DEFAULT_GRID_COUNT ==> card_in_bounds(#[trigger] r@[i]),
{
    let mut r: Vec<InstanceRaw> = Vec::new();
    let mut i: usize = 0;
    while i < DEFAULT_GRID_COUNT
        invariant
            i <= DEFAULT_GRID_COUNT,
            r@.len() == i,
            forall|k: int| 0 <= k < i ==> r@[k] == grid_card(k),
            forall|k: int| 0 <= k < i ==> card_in_bounds(#[trigger] r@[k]),
        decreases DEFAULT_GRID_COUNT - i,
    {
        let col = i % GRID_COLS;
        let row = i / GRID_COLS;
        proof {
            lemma_mod_bound(i as int, GRID_COLS as int);
            lemma_div_pos_is_pos(i as int, GRID_COLS as int);
            lemma_div_is_ordered(i as int, 99, GRID_COLS as int);
        }
        let card = InstanceRaw {
            position: Vec2 {
                x: (col as i64) * GRID_SPACING_X,
                y: (row as i64) * GRID_SPACING_Y,
            },
            color: card_color(i),
        };
        r.push(card);
        i = i + 1;
    }
    r
}

/// The four corners of the shared card quad, counter-clockwise as the
/// triangle strip expects them, with a black placeholder color.
pub fn card_quad_vertices() -> (r: Vec<Vertex>)
    ensures
        r@.len() == 4,
        r@[0].position.x == -CARD_QUAD_W && r@[0].position.y == CARD_QUAD_H,
        r@[1].position.x == -CARD_QUAD_W && r@[1].position.y == -CARD_QUAD_H,
        r@[2].position.x == CARD_QUAD_W && r@[2].position.y == CARD_QUAD_H,
        r@[3].position.x == CARD_QUAD_W && r@[3].position.y == -CARD_QUAD_H,
        forall|i: int| 0 <= i < 4 ==> (#[trigger] r@[i]).color == (Rgb { r: 0, g: 0, b: 0 }),
{
    let black = Rgb { r: 0, g: 0, b: 0 };
    let mut r: Vec<Vertex> = Vec::new();
    r.push(Vertex { position: Vec2 { x: -CARD_QUAD_W, y: CARD_QUAD_H }, color: black });
    r.push(Vertex { position: Vec2 { x: -CARD_QUAD_W, y: -CARD_QUAD_H }, color: black });
    r.push(Vertex { position: Vec2 { x: CARD_QUAD_W, y: CARD_QUAD_H }, color: black });
    r.push(Vertex { position: Vec2 { x: CARD_QUAD_W, y: -CARD_QUAD_H }, color: black });
    r
}

} // verus!
