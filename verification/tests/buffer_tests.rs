use card_canvas::buffer::BufferManager;
use card_canvas::types::{InstanceRaw, Rgb, Vec2};

fn card(x: i64, y: i64, shade: i64) -> InstanceRaw {
    InstanceRaw { position: Vec2 { x, y }, color: Rgb { r: shade, g: shade, b: shade } }
}

#[test]
fn line_cache_joins_consecutive_cards_with_first_color() {
    let mut m = BufferManager::new(3);
    let cards = vec![
        card(0, 0, 100_000),
        card(1_000_000, 500_000, 200_000),
        card(2_000_000, 0, 300_000),
    ];
    let out = m.flush(&cards);
    assert!(out.uploaded);
    assert!(!out.reallocated);
    assert!(!m.positions_dirty);
    assert_eq!(m.line_vertex_count, 4);
    assert_eq!(m.cached_line_verts.len(), 4);
    assert_eq!(m.cached_line_verts[0].position, Vec2 { x: 0, y: 0 });
    assert_eq!(m.cached_line_verts[1].position, Vec2 { x: 1_000_000, y: 500_000 });
    assert_eq!(m.cached_line_verts[2].position, Vec2 { x: 1_000_000, y: 500_000 });
    assert_eq!(m.cached_line_verts[3].position, Vec2 { x: 2_000_000, y: 0 });
    // each line is tinted by its first endpoint
    assert_eq!(m.cached_line_verts[0].color.r, 100_000);
    assert_eq!(m.cached_line_verts[1].color.r, 100_000);
    assert_eq!(m.cached_line_verts[2].color.r, 200_000);
    assert_eq!(m.cached_line_verts[3].color.r, 200_000);
}

#[test]
fn line_count_is_twice_the_pair_count() {
    let mut m = BufferManager::new(0);
    let mut cards: Vec<InstanceRaw> = Vec::new();
    let out = m.flush(&cards);
    assert!(out.uploaded);
    assert_eq!(m.line_vertex_count, 0);
    cards.push(card(0, 0, 0));
    m.mark_dirty();
    m.flush(&cards);
    assert_eq!(m.line_vertex_count, 0);
    for i in 1..10i64 {
        cards.push(card(i, i, 0));
        m.mark_dirty();
        m.flush(&cards);
        assert_eq!(m.line_vertex_count as i64, 2 * i);
    }
}

#[test]
fn growth_doubles_capacity_with_logarithmic_reallocations() {
    let mut m = BufferManager::new(100);
    assert_eq!(m.instance_capacity, 2048);
    assert_eq!(m.line_capacity, 4096);
    let mut cards: Vec<InstanceRaw> = Vec::new();
    let mut reallocs = 0usize;
    for i in 0..5000i64 {
        cards.push(card(i, 0, 0));
        m.mark_dirty();
        if m.flush(&cards).reallocated {
            reallocs += 1;
        }
    }
    // 2049 cards grew the buffer to 4098, 4099 cards grew it to 8198:
    // two reallocations for 5000 one-by-one insertions, never one per insert
    assert_eq!(reallocs, 2);
    assert_eq!(m.instance_capacity, 8198);
    assert_eq!(m.line_capacity, 16396);
}

#[test]
fn capacity_never_shrinks() {
    let mut m = BufferManager::new(3000);
    assert_eq!(m.instance_capacity, 6000);
    let cards = vec![card(0, 0, 0)];
    let out = m.flush(&cards);
    assert!(out.uploaded);
    assert!(!out.reallocated);
    assert_eq!(m.instance_capacity, 6000);
}

#[test]
fn flush_without_dirty_uploads_nothing() {
    let mut m = BufferManager::new(2);
    let cards = vec![card(0, 0, 0), card(1, 1, 0)];
    let first = m.flush(&cards);
    assert!(first.uploaded);
    let second = m.flush(&cards);
    assert!(!second.uploaded);
    assert!(!second.reallocated);
    assert_eq!(m.line_vertex_count, 2);
    m.mark_dirty();
    m.mark_dirty(); // idempotent
    let third = m.flush(&cards);
    assert!(third.uploaded);
}
