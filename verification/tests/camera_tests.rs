use card_canvas::camera::Camera;
use card_canvas::fixed::{SCALE, ZOOM_MAX, ZOOM_MIN};
use card_canvas::types::{CameraUniform, Vec2};

#[test]
fn zoom_anchor_is_invariant_zooming_in() {
    let mut cam = Camera::new(Vec2 { x: 3_150_000, y: 2_250_000 }, 300_000);
    let ndc = Vec2 { x: 350_000, y: -200_000 };
    let aspect: i64 = 1_777_777;
    let before = cam.ndc_to_world(ndc, aspect);
    cam.zoom_at(ndc, 1_100_000, aspect);
    assert_eq!(cam.zoom, 330_000);
    let after = cam.ndc_to_world(ndc, aspect);
    assert_eq!(before, after);
}

#[test]
fn zoom_anchor_is_invariant_zooming_out() {
    let mut cam = Camera::new(Vec2 { x: -1_234_567, y: 888_888 }, 7_654_321);
    let ndc = Vec2 { x: -999_999, y: 777_777 };
    let aspect: i64 = 1_333_333;
    let before = cam.ndc_to_world(ndc, aspect);
    cam.zoom_at(ndc, 909_091, aspect);
    let after = cam.ndc_to_world(ndc, aspect);
    assert_eq!(before, after);
}

#[test]
fn repeated_zoom_saturates_at_the_clamps() {
    let ndc = Vec2 { x: 100_000, y: 200_000 };
    let aspect: i64 = 1_000_000;
    let mut cam = Camera::new(Vec2 { x: 0, y: 0 }, 300_000);
    for _ in 0..200 {
        cam.zoom_at(ndc, 909_091, aspect);
    }
    assert_eq!(cam.zoom, ZOOM_MIN);
    // saturated: one more step stays put
    cam.zoom_at(ndc, 909_091, aspect);
    assert_eq!(cam.zoom, ZOOM_MIN);
    for _ in 0..300 {
        cam.zoom_at(ndc, 1_100_000, aspect);
    }
    assert_eq!(cam.zoom, ZOOM_MAX);
    cam.zoom_at(ndc, 1_100_000, aspect);
    assert_eq!(cam.zoom, ZOOM_MAX);
}

#[test]
fn world_round_trip_stays_within_tolerance() {
    let cam = Camera::new(Vec2 { x: 3_150_000, y: 2_250_000 }, 300_000);
    let aspect: i64 = 1_777_777;
    let p = Vec2 { x: 5_432_109, y: -987_654 };
    let n = cam.world_to_ndc(p, aspect);
    let q = cam.ndc_to_world(n, aspect);
    let tol_x = aspect / 300_000 + 1;
    let tol_y = SCALE / 300_000 + 1;
    assert!((q.x - p.x).abs() <= tol_x);
    assert!((q.y - p.y).abs() <= tol_y);
}

#[test]
fn world_round_trip_is_exact_at_unit_zoom() {
    let cam = Camera::new(Vec2 { x: 0, y: 0 }, 1_000_000);
    let aspect: i64 = 1_000_000;
    let p = Vec2 { x: 123_456, y: -654_321 };
    let n = cam.world_to_ndc(p, aspect);
    assert_eq!(n, p);
    let q = cam.ndc_to_world(n, aspect);
    assert_eq!(q, p);
}

#[test]
fn ndc_to_world_applies_aspect_and_zoom() {
    // world = ndc * aspect / zoom + position on x, ndc / zoom + position on y
    let cam = Camera::new(Vec2 { x: 1_000_000, y: -2_000_000 }, 500_000);
    let n = cam.ndc_to_world(Vec2 { x: 250_000, y: -125_000 }, 2_000_000);
    // x: 0.25 * 2.0 / 0.5 + 1.0 == 2.0; y: -0.125 / 0.5 - 2.0 == -2.25
    assert_eq!(n, Vec2 { x: 2_000_000, y: -2_250_000 });
}

#[test]
fn view_projection_matches_zoom_over_aspect() {
    let cam = Camera::new(Vec2 { x: 3_150_000, y: 2_250_000 }, 300_000);
    let u = cam.build_view_proj(2_000_000);
    // sx = 0.3 / 2.0, sy = 0.3, t = -position * scale
    assert_eq!(
        u,
        CameraUniform { sx: 150_000, sy: 300_000, tx: -472_500, ty: -675_000 }
    );
}
