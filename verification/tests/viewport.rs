use image_viewer::image_handler::{Rejection, Transform, ViewportController};

fn loaded(natural: (u32, u32), viewport: (u32, u32)) -> ViewportController {
    let mut controller = ViewportController::new();
    controller.load_content(natural.0, natural.1);
    controller.on_resize(viewport.0, viewport.1).unwrap();
    controller
}

fn transform(
    scale_percent: u32,
    offset: (i64, i64),
    scaled_size: (u64, u64),
) -> Transform {
    Transform {
        scale_percent,
        offset_x: offset.0,
        offset_y: offset.1,
        scaled_width: scaled_size.0,
        scaled_height: scaled_size.1,
    }
}

#[test]
fn new_controller_has_no_content() {
    let controller = ViewportController::new();
    assert_eq!(controller.transform(), None);
}

#[test]
fn load_content_starts_at_full_scale_in_the_corner() {
    let mut controller = ViewportController::new();
    controller.load_content(1000, 800);
    assert_eq!(controller.transform(), Some(transform(100, (0, 0), (1000, 800))));
}

#[test]
fn content_is_centered_when_the_viewport_is_first_reported() {
    let mut controller = ViewportController::new();
    controller.load_content(1000, 800);
    assert_eq!(controller.on_resize(400, 400), Ok(transform(100, (-300, -200), (1000, 800))));
    assert_eq!(controller.transform(), Some(transform(100, (-300, -200), (1000, 800))));
}

#[test]
fn centering_rounds_the_halves_of_odd_lengths_up() {
    let mut controller = ViewportController::new();
    controller.load_content(2, 2);
    assert_eq!(controller.on_resize(5, 7), Ok(transform(100, (2, 3), (2, 2))));
    controller.load_content(1001, 333);
    assert_eq!(controller.on_resize(640, 481), Ok(transform(100, (-181, 74), (1001, 333))));
}

#[test]
fn load_then_resize_centers_for_many_sizes() {
    let lengths: [u32; 6] = [1, 2, 15, 300, 1001, 4096];
    for &width in &lengths {
        for &height in &lengths {
            for &viewport_width in &lengths {
                for &viewport_height in &lengths {
                    let mut controller = ViewportController::new();
                    controller.load_content(width, height);
                    let placed = controller.on_resize(viewport_width, viewport_height).unwrap();
                    let half = |v: u32| ((v + 1) / 2) as i64;
                    assert_eq!(placed.offset_x, half(viewport_width) - half(width));
                    assert_eq!(placed.offset_y, half(viewport_height) - half(height));
                }
            }
        }
    }
}

#[test]
fn resize_to_the_size_already_held_changes_nothing() {
    let mut controller = ViewportController::new();
    controller.load_content(1000, 800);
    assert_eq!(controller.on_resize(0, 0), Ok(transform(100, (0, 0), (1000, 800))));
    let mut controller = loaded((500, 200), (300, 300));
    controller.begin_drag(0, 0).unwrap();
    controller.drag_to(-30, 0).unwrap();
    assert_eq!(controller.on_resize(300, 300), Ok(transform(100, (-130, 50), (500, 200))));
}

#[test]
fn resize_to_another_size_centers_and_forgets_the_pan() {
    let mut controller = loaded((500, 200), (300, 300));
    controller.begin_drag(0, 0).unwrap();
    controller.drag_to(-30, 0).unwrap();
    assert_eq!(controller.on_resize(300, 301), Ok(transform(100, (-100, 51), (500, 200))));
}

#[test]
fn resize_without_content_is_refused_and_not_taken_note_of() {
    let mut controller = ViewportController::new();
    assert_eq!(controller.on_resize(400, 400), Err(Rejection::MissingNaturalSize));
    assert_eq!(controller.on_resize(0, 0), Err(Rejection::MissingNaturalSize));
    controller.load_content(1000, 800);
    assert_eq!(controller.zoom_in(), Ok(transform(110, (-550, -440), (1100, 880))));
}

#[test]
fn zoom_in_scales_by_a_tenth_and_centers() {
    let mut controller = loaded((1000, 800), (400, 400));
    assert_eq!(controller.zoom_in(), Ok(transform(110, (-350, -240), (1100, 880))));
    assert_eq!(controller.zoom_in(), Ok(transform(120, (-400, -280), (1200, 960))));
}

#[test]
fn zoom_in_forgets_the_pan() {
    let mut controller = loaded((500, 200), (300, 300));
    controller.begin_drag(0, 0).unwrap();
    controller.drag_to(-100, 0).unwrap();
    assert_eq!(controller.zoom_in(), Ok(transform(110, (-125, 40), (550, 220))));
}

#[test]
fn zoom_in_until_refused_stays_below_the_ceiling() {
    let mut controller = loaded((1000, 800), (400, 400));
    let mut accepted = 0;
    let mut last = controller.transform().unwrap();
    loop {
        match controller.zoom_in() {
            Ok(placed) => {
                accepted += 1;
                assert_eq!(placed.scale_percent, last.scale_percent + 10);
                assert!(placed.scale_percent < 400);
                last = placed;
            }
            Err(reason) => {
                assert_eq!(reason, Rejection::AtZoomCeiling);
                break;
            }
        }
    }
    assert_eq!(accepted, 29);
    assert_eq!(last, transform(390, (-1750, -1360), (3900, 3120)));
    assert_eq!(controller.transform(), Some(last));
    assert_eq!(controller.zoom_in(), Err(Rejection::AtZoomCeiling));
    assert_eq!(controller.transform(), Some(last));
}

#[test]
fn zoom_out_scales_by_a_tenth_and_centers() {
    let mut controller = loaded((1000, 800), (400, 400));
    assert_eq!(controller.zoom_out(), Ok(transform(90, (-250, -160), (900, 720))));
    assert_eq!(controller.zoom_out(), Ok(transform(80, (-200, -120), (800, 640))));
}

#[test]
fn zoom_out_rounds_the_scaled_size() {
    let mut controller = loaded((25, 45), (100, 100));
    assert_eq!(controller.zoom_out(), Ok(transform(90, (38, 29), (23, 41))));
}

#[test]
fn zoom_out_until_refused_keeps_both_sides_above_the_least_length() {
    let mut controller = loaded((1000, 800), (400, 400));
    let mut accepted = 0;
    let mut last = controller.transform().unwrap();
    loop {
        match controller.zoom_out() {
            Ok(placed) => {
                accepted += 1;
                assert_eq!(placed.scale_percent, last.scale_percent - 10);
                assert!(placed.scaled_width > 20 && placed.scaled_height > 20);
                last = placed;
            }
            Err(reason) => {
                assert_eq!(reason, Rejection::AtZoomFloor);
                break;
            }
        }
    }
    assert_eq!(accepted, 9);
    assert_eq!(last, transform(10, (150, 160), (100, 80)));
    assert_eq!(controller.zoom_out(), Err(Rejection::AtZoomFloor));
    assert_eq!(controller.transform(), Some(last));
}

#[test]
fn zoom_out_is_refused_when_one_side_would_reach_the_least_length() {
    let mut controller = loaded((100, 1000), (400, 400));
    let mut last = controller.transform().unwrap();
    while let Ok(placed) = controller.zoom_out() {
        last = placed;
    }
    assert_eq!(last, transform(30, (185, 50), (30, 300)));
    let mut controller = loaded((25, 25), (400, 400));
    assert_eq!(controller.zoom_out(), Ok(transform(90, (188, 188), (23, 23))));
    assert_eq!(controller.zoom_out(), Err(Rejection::AtZoomFloor));
}

#[test]
fn zoom_out_of_small_content_is_refused_at_once() {
    let mut controller = loaded((16, 16), (400, 400));
    assert_eq!(controller.zoom_out(), Err(Rejection::AtZoomFloor));
    assert_eq!(controller.transform(), Some(transform(100, (192, 192), (16, 16))));
    assert_eq!(controller.zoom_in(), Ok(transform(110, (191, 191), (18, 18))));
    assert_eq!(controller.zoom_out(), Err(Rejection::AtZoomFloor));
    assert_eq!(controller.transform(), Some(transform(110, (191, 191), (18, 18))));
}

#[test]
fn zoom_without_content_is_refused() {
    let mut controller = ViewportController::new();
    assert_eq!(controller.zoom_in(), Err(Rejection::MissingNaturalSize));
    assert_eq!(controller.zoom_out(), Err(Rejection::MissingNaturalSize));
    assert_eq!(controller.transform(), None);
    controller.load_content(100, 100);
    assert_eq!(controller.transform(), Some(transform(100, (0, 0), (100, 100))));
}

#[test]
fn load_content_resets_scale_offset_and_drag() {
    let mut controller = loaded((500, 500), (300, 300));
    controller.zoom_in().unwrap();
    controller.begin_drag(0, 0).unwrap();
    controller.drag_to(-20, -20).unwrap();
    controller.load_content(600, 400);
    assert_eq!(controller.transform(), Some(transform(100, (0, 0), (600, 400))));
    assert_eq!(controller.drag_to(-20, -20), Err(Rejection::DragDisabled));
    assert_eq!(controller.transform(), Some(transform(100, (0, 0), (600, 400))));
}

#[test]
fn drag_far_right_clamps_to_zero() {
    let mut controller = loaded((500, 200), (300, 300));
    assert_eq!(controller.begin_drag(10, 10), Ok(transform(100, (-100, 50), (500, 200))));
    assert_eq!(controller.drag_to(100_000, 10), Ok(transform(100, (0, 50), (500, 200))));
}

#[test]
fn drag_far_left_clamps_to_the_overflow() {
    let mut controller = loaded((500, 200), (300, 300));
    controller.begin_drag(10, 10).unwrap();
    assert_eq!(controller.drag_to(-100_000, 10), Ok(transform(100, (-200, 50), (500, 200))));
}

#[test]
fn drag_in_between_follows_the_pointer() {
    let mut controller = loaded((500, 200), (300, 300));
    controller.begin_drag(10, 10).unwrap();
    for delta in -100..=100 {
        let placed = controller.drag_to(10 + delta, 10).unwrap();
        assert_eq!(placed.offset_x, -100 + delta as i64);
        assert_eq!(placed.offset_y, 50);
    }
    assert_eq!(controller.drag_to(111, 10).unwrap().offset_x, 0);
    assert_eq!(controller.drag_to(-91, 10).unwrap().offset_x, -200);
}

#[test]
fn drag_is_measured_from_where_it_began() {
    let mut controller = loaded((500, 200), (300, 300));
    controller.begin_drag(0, 0).unwrap();
    assert_eq!(controller.drag_to(-50, 0).unwrap().offset_x, -150);
    assert_eq!(controller.drag_to(-50, 0).unwrap().offset_x, -150);
    assert_eq!(controller.drag_to(-10, 0).unwrap().offset_x, -110);
    controller.end_drag();
    controller.begin_drag(0, 0).unwrap();
    assert_eq!(controller.drag_to(-10, 0).unwrap().offset_x, -120);
}

#[test]
fn drag_moves_both_axes_when_both_overflow() {
    let mut controller = loaded((500, 700), (300, 300));
    assert_eq!(controller.begin_drag(5, 5), Ok(transform(100, (-100, -200), (500, 700))));
    assert_eq!(controller.drag_to(-15, 45), Ok(transform(100, (-120, -160), (500, 700))));
    assert_eq!(controller.drag_to(500, -500), Ok(transform(100, (0, -400), (500, 700))));
}

#[test]
fn drag_moves_only_the_vertical_axis_when_only_it_overflows() {
    let mut controller = loaded((200, 700), (300, 300));
    controller.begin_drag(0, 0).unwrap();
    assert_eq!(controller.drag_to(-30, -30), Ok(transform(100, (50, -230), (200, 700))));
}

#[test]
fn drag_does_nothing_while_the_content_fits() {
    let mut controller = loaded((200, 100), (300, 300));
    let before = controller.transform();
    assert_eq!(controller.begin_drag(10, 10), Err(Rejection::DragDisabled));
    assert_eq!(controller.drag_to(50, 50), Err(Rejection::DragDisabled));
    assert_eq!(controller.drag_to(-500, -500), Err(Rejection::DragDisabled));
    assert_eq!(controller.transform(), before);
    let mut controller = loaded((300, 300), (300, 300));
    assert_eq!(controller.begin_drag(10, 10), Err(Rejection::DragDisabled));
    assert_eq!(controller.drag_to(50, 50), Err(Rejection::DragDisabled));
    assert_eq!(controller.transform(), Some(transform(100, (0, 0), (300, 300))));
}

#[test]
fn drag_stops_when_the_content_comes_to_fit() {
    let mut controller = loaded((500, 200), (300, 300));
    controller.begin_drag(0, 0).unwrap();
    controller.on_resize(600, 600).unwrap();
    assert_eq!(controller.drag_to(-50, 0), Err(Rejection::DragDisabled));
    assert_eq!(controller.transform(), Some(transform(100, (50, 200), (500, 200))));
}

#[test]
fn drag_to_without_a_drag_under_way_is_refused() {
    let mut controller = loaded((500, 200), (300, 300));
    assert_eq!(controller.drag_to(-50, 0), Err(Rejection::DragDisabled));
    controller.begin_drag(0, 0).unwrap();
    controller.drag_to(-50, 0).unwrap();
    controller.end_drag();
    assert_eq!(controller.drag_to(-80, 0), Err(Rejection::DragDisabled));
    assert_eq!(controller.transform(), Some(transform(100, (-150, 50), (500, 200))));
}

#[test]
fn drag_without_content_is_refused() {
    let mut controller = ViewportController::new();
    assert_eq!(controller.begin_drag(0, 0), Err(Rejection::MissingNaturalSize));
    assert_eq!(controller.drag_to(5, 5), Err(Rejection::MissingNaturalSize));
    controller.end_drag();
    assert_eq!(controller.transform(), None);
}

#[test]
fn end_drag_leaves_the_content_where_it_is() {
    let mut controller = loaded((500, 200), (300, 300));
    controller.begin_drag(0, 0).unwrap();
    controller.drag_to(-60, 0).unwrap();
    controller.end_drag();
    assert_eq!(controller.transform(), Some(transform(100, (-160, 50), (500, 200))));
    controller.end_drag();
    assert_eq!(controller.transform(), Some(transform(100, (-160, 50), (500, 200))));
}

#[test]
fn largest_sizes_and_pointer_positions_are_in_range() {
    let mut controller = loaded((u32::MAX, u32::MAX), (u32::MAX, 0));
    while controller.zoom_in().is_ok() {}
    let placed = controller.transform().unwrap();
    assert_eq!(placed.scale_percent, 390);
    assert_eq!(placed.scaled_width, 16750372451);
    assert_eq!(placed.offset_x, 2147483648 - 8375186226);
    assert_eq!(placed.offset_y, -8375186226);
    controller.begin_drag(i32::MAX, i32::MIN).unwrap();
    let dragged = controller.drag_to(i32::MIN, i32::MAX).unwrap();
    assert_eq!(dragged.offset_x, placed.offset_x - 4294967295);
    assert_eq!(dragged.offset_y, placed.offset_y + 4294967295);
}
