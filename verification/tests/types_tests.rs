use card_canvas::types::{card_color, card_quad_vertices, create_default_grid, Rgb, Vec2};

#[test]
fn palette_cycles_every_six_cards() {
    assert_eq!(card_color(0), Rgb { r: 940_000, g: 330_000, b: 460_000 });
    assert_eq!(card_color(1), Rgb { r: 550_000, g: 480_000, b: 820_000 });
    assert_eq!(card_color(5), Rgb { r: 250_000, g: 250_000, b: 300_000 });
    assert_eq!(card_color(6), card_color(0));
    assert_eq!(card_color(100), card_color(4));
}

#[test]
fn default_grid_is_ten_columns() {
    let g = create_default_grid();
    assert_eq!(g.len(), 100);
    assert_eq!(g[0].position, Vec2 { x: 0, y: 0 });
    assert_eq!(g[9].position, Vec2 { x: 6_300_000, y: 0 });
    assert_eq!(g[10].position, Vec2 { x: 0, y: 500_000 });
    assert_eq!(g[99].position, Vec2 { x: 6_300_000, y: 4_500_000 });
    assert_eq!(g[7].color, card_color(7));
}

#[test]
fn card_quad_spans_the_shadowed_extent() {
    let q = card_quad_vertices();
    assert_eq!(q.len(), 4);
    assert_eq!(q[0].position, Vec2 { x: -280_000, y: 180_000 });
    assert_eq!(q[1].position, Vec2 { x: -280_000, y: -180_000 });
    assert_eq!(q[2].position, Vec2 { x: 280_000, y: 180_000 });
    assert_eq!(q[3].position, Vec2 { x: 280_000, y: -180_000 });
    assert_eq!(q[0].color, Rgb { r: 0, g: 0, b: 0 });
}
