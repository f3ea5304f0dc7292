use paintboard::Canvas;
use paintboard::Color;
use paintboard::CurrentMode;
use paintboard::DrawCmd;
use paintboard::Layer;

#[test]
fn new_canvas_starts_white_with_default_tool() {
    let c = Canvas::new_canvas(4, 6);
    assert_eq!(c.width, 6);
    assert_eq!(c.height, 4);
    assert!(matches!(c.mode, CurrentMode::Default));
    assert_eq!(c.current_color, Color::Black);
    assert!(!c.pressed);
    assert_eq!(c.underlying_layer.get_pixel(5, 3), Some((255, 255, 255, 255)));
    assert_eq!(c.top_layer.get_pixel(0, 0), Some((0, 0, 0, 0)));
}

#[test]
fn default_stroke_draws_segment_by_segment() {
    let mut c = Canvas::new_canvas(10, 10);
    let press = c.on_press(1, 2);
    assert_eq!(
        press,
        vec![
            DrawCmd::BeginPath(Layer::Base),
            DrawCmd::MoveTo(Layer::Base, 1, 2),
        ]
    );
    assert!(c.pressed);
    let moved = c.on_move(3, 4);
    assert_eq!(
        moved,
        vec![
            DrawCmd::LineTo(Layer::Base, 3, 4),
            DrawCmd::Stroke(Layer::Base),
            DrawCmd::BeginPath(Layer::Base),
            DrawCmd::MoveTo(Layer::Base, 3, 4),
        ]
    );
    let released = c.on_release(5, 6);
    assert_eq!(
        released,
        vec![
            DrawCmd::LineTo(Layer::Base, 5, 6),
            DrawCmd::Stroke(Layer::Base),
        ]
    );
    assert!(!c.pressed);
}

#[test]
fn move_without_press_does_nothing() {
    let mut c = Canvas::new_canvas(10, 10);
    assert!(c.on_move(3, 3).is_empty());
    let mut c2 = Canvas::new_canvas(10, 10);
    c2.set_straight_line();
    assert!(c2.on_move(3, 3).is_empty());
}

#[test]
fn straight_line_commits_from_anchor_on_release() {
    let mut c = Canvas::new_canvas(20, 20);
    c.set_straight_line();
    c.on_press(1, 2);
    let moved = c.on_move(5, 6);
    assert_eq!(
        moved,
        vec![
            DrawCmd::ClearAll(Layer::Top),
            DrawCmd::LineTo(Layer::Top, 5, 6),
            DrawCmd::Stroke(Layer::Top),
            DrawCmd::BeginPath(Layer::Top),
            DrawCmd::MoveTo(Layer::Top, 1, 2),
        ]
    );
    let released = c.on_release(7, 8);
    assert_eq!(
        released,
        vec![
            DrawCmd::BeginPath(Layer::Base),
            DrawCmd::MoveTo(Layer::Base, 1, 2),
            DrawCmd::LineTo(Layer::Base, 7, 8),
            DrawCmd::Stroke(Layer::Base),
            DrawCmd::ClearAll(Layer::Top),
        ]
    );
}

#[test]
fn circle_preview_tracks_the_pointer() {
    let mut c = Canvas::new_canvas(20, 20);
    c.set_circle();
    c.on_press(2, 2);
    let moved = c.on_move(5, 6);
    assert_eq!(
        moved,
        vec![
            DrawCmd::ClearAll(Layer::Top),
            DrawCmd::Arc(Layer::Top, 5, 6, 25),
            DrawCmd::Stroke(Layer::Top),
            DrawCmd::BeginPath(Layer::Top),
        ]
    );
}

#[test]
fn circle_release_centers_on_release_point() {
    // Dragging from (0, 0) to (3, 0) draws a circle of radius 3 centered
    // at (3, 0): only the radius is anchored to the press point.
    let mut c = Canvas::new_canvas(10, 10);
    c.set_circle();
    c.on_press(0, 0);
    let released = c.on_release(3, 0);
    assert_eq!(
        released,
        vec![
            DrawCmd::BeginPath(Layer::Base),
            DrawCmd::Arc(Layer::Base, 3, 0, 9),
            DrawCmd::Stroke(Layer::Base),
            DrawCmd::ClearAll(Layer::Top),
        ]
    );
}

#[test]
fn selecting_a_tool_resets_the_anchor() {
    let mut c = Canvas::new_canvas(20, 20);
    c.set_circle();
    c.on_press(7, 8);
    assert_eq!((c.line_start_x, c.line_start_y), (7, 8));
    assert!(c.pressed);
    c.set_straight_line();
    assert_eq!((c.line_start_x, c.line_start_y), (0, 0));
    assert!(!c.pressed);
    c.on_press(2, 3);
    assert_eq!((c.line_start_x, c.line_start_y), (2, 3));
    let released = c.on_release(9, 9);
    assert_eq!(released[1], DrawCmd::MoveTo(Layer::Base, 2, 3));
}

#[test]
fn fill_press_floods_the_artwork() {
    // A 10x10 all-white artwork: pressing the fill tool at (5, 5) with red
    // turns every pixel red; pressing again with red changes nothing.
    let mut c = Canvas::new_canvas(10, 10);
    c.set_fill();
    c.set_stroke_color("red".to_string());
    assert_eq!(c.current_color, Color::Red);
    let cmds = c.on_press(5, 5);
    assert_eq!(cmds.len(), 1);
    match &cmds[0] {
        DrawCmd::PutImage(layer, x, y, img) => {
            assert_eq!(*layer, Layer::Base);
            assert_eq!((*x, *y), (0, 0));
            assert_eq!((img.width, img.height), (10, 10));
        }
        other => panic!("unexpected command {other:?}"),
    }
    for y in 0..10 {
        for x in 0..10 {
            assert_eq!(c.underlying_layer.get_pixel(x, y), Some((255, 0, 0, 255)));
        }
    }
    let before = c.underlying_layer.clone();
    c.on_press(5, 5);
    assert_eq!(c.underlying_layer, before);
    assert!(!c.pressed);
}

#[test]
fn fill_press_outside_the_artwork_is_ignored() {
    let mut c = Canvas::new_canvas(10, 10);
    c.set_fill();
    let before = c.underlying_layer.clone();
    assert!(c.on_press(-1, 5).is_empty());
    assert!(c.on_press(5, 10).is_empty());
    assert_eq!(c.underlying_layer, before);
}

#[test]
fn crop_press_arms_the_dashed_rectangle() {
    let mut c = Canvas::new_canvas(20, 20);
    c.set_crop();
    let cmds = c.on_press(4, 5);
    assert_eq!(cmds.len(), 4);
    assert_eq!(cmds[0], DrawCmd::SetLineWidth(Layer::Top, 1));
    assert_eq!(
        cmds[1],
        DrawCmd::SetStrokeStyle(Layer::Top, "black".to_string())
    );
    assert_eq!(cmds[2], DrawCmd::SetLineDash(Layer::Top, vec![6]));
    assert_eq!(cmds[3], DrawCmd::BeginPath(Layer::Top));
    let moved = c.on_move(1, 9);
    assert_eq!(moved[1], DrawCmd::Rect(Layer::Top, 1, 5, 3, 4));
}

#[test]
fn crop_release_with_empty_rectangle_stays_in_crop() {
    let mut c = Canvas::new_canvas(20, 20);
    c.set_crop();
    c.on_press(4, 5);
    let released = c.on_release(4, 9);
    assert_eq!(released.len(), 2);
    assert_eq!(released[0], DrawCmd::SetLineDash(Layer::Top, vec![]));
    assert_eq!(released[1], DrawCmd::Stroke(Layer::Top));
    assert!(matches!(c.mode, CurrentMode::Crop));
}

#[test]
fn crop_capture_cuts_and_placing_restores() {
    // Capturing the 2x2 rectangle at (1, 1) and placing it at (5, 5)
    // reproduces the captured pixels there; the cut rectangle turns into
    // the fill color.
    let mut c = Canvas::new_canvas(8, 8);
    c.underlying_layer.fill_rect(1, 1, 2, 2, (10, 20, 30, 255));
    c.set_crop();
    c.on_press(1, 1);
    let released = c.on_release(3, 3);
    assert_eq!(released.len(), 4);
    match &c.mode {
        CurrentMode::CropPlace(snap) => {
            assert_eq!((snap.width, snap.height), (2, 2));
            assert_eq!(snap.get_pixel(0, 0), Some((10, 20, 30, 255)));
        }
        _ => panic!("capture did not arm placement"),
    }
    // The cut region now carries the fill color (white).
    assert_eq!(c.underlying_layer.get_pixel(1, 1), Some((255, 255, 255, 255)));
    assert_eq!(c.underlying_layer.get_pixel(2, 2), Some((255, 255, 255, 255)));
    // The overlay previews the capture at its origin.
    assert_eq!(c.top_layer.get_pixel(1, 1), Some((10, 20, 30, 255)));
    // Place it at (5, 5).
    c.on_press(5, 5);
    let placed = c.on_release(5, 5);
    assert_eq!(placed.len(), 4);
    assert_eq!(placed[2], DrawCmd::SyncTopStyle);
    assert!(matches!(c.mode, CurrentMode::Crop));
    for dy in 0..2 {
        for dx in 0..2 {
            assert_eq!(
                c.underlying_layer.get_pixel(5 + dx, 5 + dy),
                Some((10, 20, 30, 255)),
                "pixel ({dx}, {dy}) of the placed capture"
            );
        }
    }
    // The overlay was cleared after placing.
    assert!(c.top_layer.data.iter().all(|b| *b == 0));
}

#[test]
fn text_commit_draws_once_and_resets() {
    // Typing "Hi" and pressing Enter draws "Hi" once at the anchor and
    // empties the pending run; Backspace on the empty run is a no-op.
    let mut c = Canvas::new_canvas(20, 20);
    let font_cmds = c.set_text();
    assert_eq!(
        font_cmds,
        vec![
            DrawCmd::SetFont(Layer::Top, "48px serif".to_string()),
            DrawCmd::SetFont(Layer::Base, "48px serif".to_string()),
        ]
    );
    c.on_release(3, 4);
    c.on_key_down("H");
    let second = c.on_key_down("i");
    assert_eq!(second.len(), 3);
    assert_eq!(
        second[2],
        DrawCmd::FillText(Layer::Top, "Hi".to_string(), 3, 4)
    );
    let committed = c.on_key_down("Enter");
    assert_eq!(committed.len(), 5);
    assert_eq!(
        committed[3],
        DrawCmd::FillText(Layer::Base, "Hi".to_string(), 3, 4)
    );
    assert_eq!(committed[4], DrawCmd::SetFillColor(Layer::Base, Color::White));
    match &c.mode {
        CurrentMode::Text(t) => {
            assert!(t.content.is_empty());
            assert_eq!(t.position, (3, 4));
        }
        _ => panic!("text tool left its mode"),
    }
    let erased = c.on_key_down("Backspace");
    assert_eq!(erased.len(), 3);
    assert_eq!(
        erased[2],
        DrawCmd::FillText(Layer::Top, String::new(), 3, 4)
    );
    match &c.mode {
        CurrentMode::Text(t) => assert!(t.content.is_empty()),
        _ => panic!("text tool left its mode"),
    }
}

#[test]
fn text_ignores_disallowed_keys() {
    let mut c = Canvas::new_canvas(20, 20);
    c.set_text();
    c.on_key_down("a");
    let rejected = c.on_key_down("ArrowLeft");
    assert_eq!(rejected.len(), 1);
    match &c.mode {
        CurrentMode::Text(t) => assert_eq!(t.content, "a"),
        _ => panic!("text tool left its mode"),
    }
}

#[test]
fn keys_do_nothing_outside_text_mode() {
    let mut c = Canvas::new_canvas(20, 20);
    assert!(c.on_key_down("a").is_empty());
    c.set_crop();
    assert!(c.on_key_down("Enter").is_empty());
}

#[test]
fn set_stroke_color_updates_state_and_styles() {
    let mut c = Canvas::new_canvas(20, 20);
    let cmds = c.set_stroke_color("#e76b2c".to_string());
    assert_eq!(
        cmds,
        vec![
            DrawCmd::SetStrokeStyle(Layer::Base, "#e76b2c".to_string()),
            DrawCmd::SetStrokeStyle(Layer::Top, "#e76b2c".to_string()),
        ]
    );
    assert_eq!(c.current_color, Color::Custom(231, 107, 44, 255));
    let fallback = c.set_stroke_color("no-such-color".to_string());
    assert_eq!(fallback.len(), 2);
    assert_eq!(c.current_color, Color::Black);
}
