use card_canvas::engine::{Engine, InteractionMode};
use card_canvas::panels::{InspectorState, LeftTabState, ToolbarAction, TopBarState};
use card_canvas::types::{InstanceRaw, Rgb, Vec2};

fn card(x: i64, y: i64) -> InstanceRaw {
    InstanceRaw { position: Vec2 { x, y }, color: Rgb { r: 0, g: 0, b: 0 } }
}

/// An engine over a square window with a square, full-window canvas, so the
/// aspect ratio is exactly one.
fn square_engine() -> Engine {
    let mut e = Engine::new(1000, 1000);
    e.set_canvas_rect(0, 0, 1_000_000_000, 1_000_000_000);
    e
}

#[test]
fn new_engine_has_default_grid() {
    let e = Engine::new(800, 600);
    assert_eq!(e.block_positions.len(), 100);
    assert_eq!(e.block_positions[0].position, Vec2 { x: 0, y: 0 });
    assert_eq!(e.block_positions[11].position, Vec2 { x: 700_000, y: 500_000 });
    assert_eq!(e.block_positions[0].color, Rgb { r: 940_000, g: 330_000, b: 460_000 });
    assert_eq!(e.block_positions[6].color, Rgb { r: 940_000, g: 330_000, b: 460_000 });
    assert_eq!(e.camera.position, Vec2 { x: 3_150_000, y: 2_250_000 });
    assert_eq!(e.camera.zoom, 300_000);
    assert!(e.selected_indices.is_empty());
    assert!(matches!(e.interaction, InteractionMode::Idle));
    assert!(e.buffers.positions_dirty);
    assert_eq!(e.buffers.instance_capacity, 2048);
    assert_eq!(e.buffers.line_capacity, 4096);
}

#[test]
fn canvas_aspect_falls_back_to_window() {
    let mut e = Engine::new(1600, 900);
    assert_eq!(e.canvas_aspect(), 1_777_777);
    e.set_canvas_rect(0, 0, 800_000_000, 400_000_000);
    assert_eq!(e.canvas_aspect(), 2_000_000);
}

#[test]
fn drag_box_selects_enclosed_cards() {
    let mut e = square_engine();
    e.block_positions = vec![
        card(0, 0),
        card(1_000_000, 1_000_000),
        card(5_000_000, 5_000_000),
    ];
    e.selected_indices = Vec::new();
    e.interaction = InteractionMode::DragSelecting {
        start: Vec2 { x: -500_000, y: -500_000 },
        end: Vec2 { x: 2_000_000, y: 2_000_000 },
    };
    e.handle_mouse_button(false);
    assert_eq!(e.selected_indices, vec![0usize, 1usize]);
    assert!(matches!(e.interaction, InteractionMode::Idle));
}

#[test]
fn drag_box_bounds_are_inclusive() {
    let mut e = square_engine();
    e.block_positions = vec![card(2_000_000, 2_000_000), card(2_000_001, 2_000_000)];
    e.selected_indices = Vec::new();
    e.interaction = InteractionMode::DragSelecting {
        start: Vec2 { x: 2_000_000, y: 2_000_000 },
        end: Vec2 { x: 0, y: 0 },
    };
    e.handle_mouse_button(false);
    assert_eq!(e.selected_indices, vec![0usize]);
}

#[test]
fn group_move_shifts_selected_cards_only() {
    let mut e = square_engine();
    e.camera.position = Vec2 { x: 0, y: 0 };
    e.camera.zoom = 1_000_000;
    e.block_positions = vec![
        card(0, 0),
        card(1_000_000, 1_000_000),
        card(9_000_000, 9_000_000),
    ];
    e.selected_indices = vec![0usize, 1usize];
    e.interaction = InteractionMode::MovingSelection { last_world: Vec2 { x: 0, y: 0 } };
    // pixel (1500, 1000) maps to device (2, -1), so to world delta (2, -1)
    e.handle_cursor_moved(1_500_000_000, 1_000_000_000);
    assert_eq!(e.block_positions[0].position, Vec2 { x: 2_000_000, y: -1_000_000 });
    assert_eq!(e.block_positions[1].position, Vec2 { x: 3_000_000, y: 0 });
    assert_eq!(e.block_positions[2].position, Vec2 { x: 9_000_000, y: 9_000_000 });
    assert!(e.buffers.positions_dirty);
    match e.interaction {
        InteractionMode::MovingSelection { last_world } => {
            assert_eq!(last_world, Vec2 { x: 2_000_000, y: -1_000_000 });
        }
        _ => panic!("expected a group move in progress"),
    }
}

#[test]
fn pan_and_reverse_pan_restores_camera() {
    let mut e = square_engine();
    let original = e.camera.position;
    e.handle_cursor_moved(500_000_000, 500_000_000);
    e.handle_keyboard(true, true);
    e.handle_mouse_button(true);
    e.handle_cursor_moved(561_728_500, 450_000_000);
    e.handle_mouse_button(false);
    assert_ne!(e.camera.position, original);
    // a second gesture elsewhere, dragging by the opposite device delta
    e.handle_cursor_moved(700_000_000, 300_000_000);
    e.handle_mouse_button(true);
    e.handle_cursor_moved(638_271_500, 350_000_000);
    e.handle_mouse_button(false);
    e.handle_keyboard(true, false);
    assert_eq!(e.camera.position, original);
}

#[test]
fn space_release_cancels_pan() {
    let mut e = square_engine();
    e.handle_cursor_moved(500_000_000, 500_000_000);
    e.handle_keyboard(true, true);
    e.handle_mouse_button(true);
    assert!(matches!(e.interaction, InteractionMode::Panning { .. }));
    e.handle_keyboard(true, false);
    assert!(matches!(e.interaction, InteractionMode::Idle));
    assert!(!e.space_pressed);
    // a key other than the modifier changes nothing
    e.handle_keyboard(false, true);
    assert!(!e.space_pressed);
}

#[test]
fn press_on_overlapping_cards_picks_first_in_list() {
    let mut e = square_engine();
    e.camera.position = Vec2 { x: 0, y: 0 };
    e.camera.zoom = 1_000_000;
    e.block_positions = vec![card(0, 0), card(100_000, 0)];
    e.selected_indices = Vec::new();
    e.handle_cursor_moved(500_000_000, 500_000_000);
    e.handle_mouse_button(true);
    assert_eq!(e.selected_indices, vec![0usize]);
    assert!(matches!(e.interaction, InteractionMode::MovingSelection { .. }));
    e.handle_mouse_button(false);
    assert!(matches!(e.interaction, InteractionMode::Idle));
}

#[test]
fn press_on_selected_card_keeps_selection() {
    let mut e = square_engine();
    e.camera.position = Vec2 { x: 0, y: 0 };
    e.camera.zoom = 1_000_000;
    e.block_positions = vec![card(0, 0), card(3_000_000, 0)];
    e.selected_indices = vec![1usize, 0usize];
    e.handle_cursor_moved(500_000_000, 500_000_000);
    e.handle_mouse_button(true);
    assert_eq!(e.selected_indices, vec![1usize, 0usize]);
}

#[test]
fn press_on_empty_space_starts_drag_selection() {
    let mut e = square_engine();
    e.camera.position = Vec2 { x: 0, y: 0 };
    e.camera.zoom = 1_000_000;
    e.block_positions = vec![card(9_000_000, 9_000_000)];
    e.selected_indices = vec![0usize];
    e.handle_cursor_moved(500_000_000, 500_000_000);
    e.handle_mouse_button(true);
    assert!(e.selected_indices.is_empty());
    match e.interaction {
        InteractionMode::DragSelecting { start, end } => {
            assert_eq!(start, Vec2 { x: 0, y: 0 });
            assert_eq!(end, start);
        }
        _ => panic!("expected a drag selection"),
    }
}

#[test]
fn press_outside_canvas_is_ignored() {
    let mut e = square_engine();
    e.handle_cursor_moved(1_500_000_000, 500_000_000);
    e.handle_mouse_button(true);
    assert!(matches!(e.interaction, InteractionMode::Idle));
}

#[test]
fn scroll_outside_canvas_is_ignored() {
    let mut e = square_engine();
    e.handle_cursor_moved(1_500_000_000, 500_000_000);
    let z0 = e.camera.zoom;
    e.handle_scroll(1_000_000);
    assert_eq!(e.camera.zoom, z0);
}

#[test]
fn scroll_zooms_by_a_tenth_each_step() {
    let mut e = square_engine();
    e.handle_cursor_moved(750_000_000, 500_000_000);
    e.handle_scroll(1_000_000);
    assert_eq!(e.camera.zoom, 330_000);
    e.handle_scroll(-1_000_000);
    assert_eq!(e.camera.zoom, 300_000);
}

#[test]
fn scroll_keeps_world_under_pointer() {
    let mut e = square_engine();
    e.handle_cursor_moved(750_000_000, 250_000_000);
    let a = e.canvas_aspect();
    let before = e.camera.ndc_to_world(e.mouse_ndc, a);
    e.handle_scroll(1_000_000);
    let after = e.camera.ndc_to_world(e.mouse_ndc, a);
    assert_eq!(before, after);
}

#[test]
fn degenerate_canvas_ignores_pointer_moves() {
    let mut e = Engine::new(100, 100);
    let ndc0 = e.mouse_ndc;
    e.handle_cursor_moved(50_000_000, 50_000_000);
    assert_eq!(e.mouse_ndc, ndc0);
    assert_eq!(e.mouse_pixel, Vec2 { x: 50_000_000, y: 50_000_000 });
}

#[test]
fn pointer_outside_idle_canvas_keeps_device_position() {
    let mut e = square_engine();
    e.handle_cursor_moved(250_000_000, 750_000_000);
    let ndc0 = e.mouse_ndc;
    assert_eq!(ndc0, Vec2 { x: -500_000, y: -500_000 });
    e.handle_cursor_moved(1_500_000_000, 500_000_000);
    assert_eq!(e.mouse_ndc, ndc0);
}

#[test]
fn line_count_follows_card_count() {
    let mut e = square_engine();
    let mut a = ToolbarAction::default();
    a.add_node = true;
    e.apply_toolbar_action(&a);
    e.update_gpu_buffers();
    assert_eq!(e.buffers.line_vertex_count, 200);
    let mut b = ToolbarAction::default();
    b.add_batch = 10;
    e.apply_toolbar_action(&b);
    e.update_gpu_buffers();
    assert_eq!(e.buffers.line_vertex_count, 220);
    let mut c = ToolbarAction::default();
    c.reset = true;
    e.apply_toolbar_action(&c);
    e.update_gpu_buffers();
    assert_eq!(e.block_positions.len(), 100);
    assert_eq!(e.buffers.line_vertex_count, 198);
}

#[test]
fn flush_skips_upload_while_clean() {
    let mut e = square_engine();
    let first = e.update_gpu_buffers();
    assert!(first.uploaded);
    let second = e.update_gpu_buffers();
    assert!(!second.uploaded);
    assert!(!second.reallocated);
    e.mark_positions_dirty();
    let third = e.update_gpu_buffers();
    assert!(third.uploaded);
}

#[test]
fn added_card_lands_at_camera_focus_with_next_palette_color() {
    let mut e = square_engine();
    e.camera.position = Vec2 { x: 4_000_000, y: -1_000_000 };
    let mut a = ToolbarAction::default();
    a.add_node = true;
    e.apply_toolbar_action(&a);
    assert_eq!(e.block_positions.len(), 101);
    let added = e.block_positions[100];
    assert_eq!(added.position, Vec2 { x: 4_000_000, y: -1_000_000 });
    // palette entry 100 % 6 == 4
    assert_eq!(added.color, Rgb { r: 960_000, g: 580_000, b: 220_000 });
}

#[test]
fn batch_add_lays_out_square_grid() {
    let mut e = square_engine();
    e.camera.position = Vec2 { x: 1_000_000, y: 2_000_000 };
    let mut b = ToolbarAction::default();
    b.add_batch = 10;
    e.apply_toolbar_action(&b);
    assert_eq!(e.block_positions.len(), 110);
    // ten cards in a four-wide grid (the smallest square holding ten)
    assert_eq!(e.block_positions[100].position, Vec2 { x: 1_000_000, y: 2_000_000 });
    assert_eq!(e.block_positions[101].position, Vec2 { x: 1_700_000, y: 2_000_000 });
    assert_eq!(e.block_positions[105].position, Vec2 { x: 1_700_000, y: 2_500_000 });
    assert_eq!(e.block_positions[100].color, Rgb { r: 960_000, g: 580_000, b: 220_000 });
}

#[test]
fn reset_restores_default_grid_and_purges_stale_selection() {
    let mut e = square_engine();
    let mut b = ToolbarAction::default();
    b.add_batch = 150;
    e.apply_toolbar_action(&b);
    assert_eq!(e.block_positions.len(), 250);
    e.selected_indices = vec![5usize, 120, 240];
    let mut c = ToolbarAction::default();
    c.reset = true;
    e.apply_toolbar_action(&c);
    assert_eq!(e.block_positions.len(), 100);
    assert_eq!(e.block_positions[11].position, Vec2 { x: 700_000, y: 500_000 });
    assert_eq!(e.selected_indices, vec![5usize]);
    assert!(e.buffers.positions_dirty);
}

#[test]
fn selection_rect_reports_drag_box_in_device_space() {
    let mut e = square_engine();
    e.camera.position = Vec2 { x: 0, y: 0 };
    e.camera.zoom = 1_000_000;
    assert!(e.selection_rect_ndc().is_none());
    e.interaction = InteractionMode::DragSelecting {
        start: Vec2 { x: -500_000, y: -500_000 },
        end: Vec2 { x: 250_000, y: 125_000 },
    };
    let (p0, p1) = e.selection_rect_ndc().unwrap();
    assert_eq!(p0, Vec2 { x: -500_000, y: -500_000 });
    assert_eq!(p1, Vec2 { x: 250_000, y: 125_000 });
}

#[test]
fn ndc_maps_back_to_canvas_pixels() {
    let e = square_engine();
    let center = e.ndc_to_pixel(Vec2 { x: 0, y: 0 });
    assert_eq!(center, Vec2 { x: 500_000_000, y: 500_000_000 });
    let top_left = e.ndc_to_pixel(Vec2 { x: -1_000_000, y: 1_000_000 });
    assert_eq!(top_left, Vec2 { x: 0, y: 0 });
    let bottom_right = e.ndc_to_pixel(Vec2 { x: 1_000_000, y: -1_000_000 });
    assert_eq!(bottom_right, Vec2 { x: 1_000_000_000, y: 1_000_000_000 });
}

#[test]
fn resize_ignores_degenerate_sizes() {
    let mut e = Engine::new(800, 600);
    e.handle_resize(0, 500);
    assert_eq!(e.config_width, 800);
    assert_eq!(e.config_height, 600);
    e.handle_resize(1024, 768);
    assert_eq!(e.config_width, 1024);
    assert_eq!(e.config_height, 768);
}

#[test]
fn panel_states_start_as_drawn() {
    let t = ToolbarAction::default();
    assert!(!t.add_node);
    assert_eq!(t.add_batch, 0);
    assert!(!t.reset);
    let top = TopBarState::default();
    assert_eq!(top.active_tab, 0);
    assert_eq!(top.tabs.len(), 3);
    assert_eq!(top.tabs[0], "운동 습관 형성 앱 기획");
    let left = LeftTabState::default();
    assert_eq!(left.active_section, 0);
    let ins = InspectorState::default();
    assert!(ins.open);
    assert_eq!(ins.active_tab, 1);
}
