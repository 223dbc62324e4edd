use octopus::{
    change_color, change_stroke_width, Color, Key, KeyEvent, KeyOutcome, Keyboard, Octopus,
    Point, Stroke,
};

fn press(key: Key) -> KeyEvent {
    KeyEvent { key, pressed: true, ctrl: false }
}

fn pt(x: f32, y: f32) -> Point {
    Point { x: x.to_bits(), y: y.to_bits() }
}

#[test]
fn default_session_is_black_width_one_and_empty() {
    let o = Octopus::default();
    assert_eq!(o.color, Color::from_rgb(0, 0, 0));
    assert_eq!(o.stroke_width, 1);
    assert_eq!(o.stroke, Stroke::new(1, Color::from_rgb(0, 0, 0)));
    assert!(o.lines.is_empty());
}

#[test]
fn keyboard_bindings() {
    let kb = Keyboard::new();
    assert_eq!(
        kb.colors,
        vec![
            Key::Num1, Key::Num2, Key::Num3, Key::Num4, Key::Num5, Key::Num6, Key::Num7,
            Key::Num8, Key::Num9
        ]
    );
    assert_eq!(kb.stroke_width, vec![Key::Q, Key::W]);
}

#[test]
fn color_table() {
    let expected = [
        (Key::Num1, (136, 57, 239)),
        (Key::Num2, (210, 15, 57)),
        (Key::Num3, (254, 100, 11)),
        (Key::Num4, (64, 160, 43)),
        (Key::Num5, (32, 159, 181)),
        (Key::Num6, (30, 102, 245)),
        (Key::Num7, (114, 135, 253)),
        (Key::Num8, (76, 79, 105)),
        (Key::Num9, (239, 241, 245)),
    ];
    for (k, (r, g, b)) in expected {
        assert_eq!(change_color(&k), Some(Color::from_rgb(r, g, b)));
    }
    assert_eq!(change_color(&Key::Num0), None);
    assert_eq!(change_color(&Key::Q), None);
    assert_eq!(change_color(&Key::Other), None);
}

#[test]
fn width_table() {
    assert_eq!(change_stroke_width(&Key::Q, 1), 2);
    assert_eq!(change_stroke_width(&Key::W, 1), 0);
    assert_eq!(change_stroke_width(&Key::W, 0), -1);
    assert_eq!(change_stroke_width(&Key::Num1, 5), 5);
}

#[test]
fn color_key_sets_color_whatever_came_before() {
    let mut o = Octopus::default();
    assert_eq!(o.handle_key(press(Key::Num7)), KeyOutcome::ColorChanged);
    assert_eq!(o.handle_key(press(Key::Q)), KeyOutcome::WidthChanged);
    assert_eq!(o.handle_key(press(Key::Num2)), KeyOutcome::ColorChanged);
    assert_eq!(o.color, Color::from_rgb(210, 15, 57));
    assert_eq!(o.stroke, Stroke::new(2, Color::from_rgb(210, 15, 57)));
}

#[test]
fn released_keys_and_other_keys_are_ignored() {
    let mut o = Octopus::default();
    let up = KeyEvent { key: Key::Num3, pressed: false, ctrl: false };
    assert_eq!(o.handle_key(up), KeyOutcome::Ignored);
    assert_eq!(o.handle_key(press(Key::Num0)), KeyOutcome::Ignored);
    assert_eq!(o.handle_key(press(Key::Other)), KeyOutcome::Ignored);
    assert_eq!(o.color, Color::from_rgb(0, 0, 0));
    assert_eq!(o.stroke_width, 1);
}

#[test]
fn ctrl_q_release_reports_itself_only() {
    let mut o = Octopus::default();
    let ev = KeyEvent { key: Key::Q, pressed: false, ctrl: true };
    assert_eq!(o.handle_key(ev), KeyOutcome::CtrlQ);
    assert_eq!(o.stroke_width, 1);
    let down = KeyEvent { key: Key::Q, pressed: true, ctrl: true };
    assert_eq!(o.handle_key(down), KeyOutcome::WidthChanged);
    assert_eq!(o.stroke_width, 2);
}

#[test]
fn width_moves_by_presses_without_clamping() {
    let mut o = Octopus::default();
    let mut evs = Vec::new();
    for _ in 0..2 {
        evs.push(press(Key::Q));
    }
    for _ in 0..5 {
        evs.push(press(Key::W));
    }
    let out = o.handle_events(&evs);
    assert_eq!(out.len(), 7);
    assert_eq!(o.stroke_width, 1 + 2 - 5);
    assert_eq!(o.stroke.width, -2);
    assert_eq!(o.color, Color::from_rgb(0, 0, 0));
}

#[test]
fn pressed_pointer_drops_adjacent_repeats_only() {
    let mut o = Octopus::default();
    assert!(o.handle_pointer(Some(pt(0.1, 0.2))));
    assert!(!o.handle_pointer(Some(pt(0.1, 0.2))));
    assert!(o.handle_pointer(Some(pt(0.3, 0.2))));
    assert!(o.handle_pointer(Some(pt(0.1, 0.2))));
    assert_eq!(o.lines, vec![vec![pt(0.1, 0.2), pt(0.3, 0.2), pt(0.1, 0.2)]]);
}

#[test]
fn release_opens_one_empty_polyline() {
    let mut o = Octopus::default();
    assert!(!o.handle_pointer(None));
    assert_eq!(o.lines.len(), 1);
    assert!(o.handle_pointer(Some(pt(0.5, 0.5))));
    assert!(o.handle_pointer(None));
    assert_eq!(o.lines.len(), 2);
    assert!(!o.handle_pointer(None));
    assert!(!o.handle_pointer(None));
    assert_eq!(o.lines.len(), 2);
    assert!(o.lines[1].is_empty());
}

#[test]
fn only_polylines_with_a_segment_are_drawn() {
    let mut o = Octopus::default();
    o.handle_pointer(Some(pt(0.0, 0.0)));
    o.handle_pointer(None);
    o.handle_pointer(Some(pt(0.1, 0.1)));
    o.handle_pointer(Some(pt(0.2, 0.2)));
    o.handle_pointer(None);
    assert_eq!(o.lines.len(), 3);
    assert_eq!(o.drawable_lines(), vec![vec![pt(0.1, 0.1), pt(0.2, 0.2)]]);
}

#[test]
fn num3_then_q_twice_then_three_point_drag() {
    let mut o = Octopus::default();
    o.handle_key(press(Key::Num3));
    assert_eq!(o.color, Color::from_rgb(254, 100, 11));
    o.handle_key(press(Key::Q));
    o.handle_key(press(Key::Q));
    assert_eq!(o.stroke_width, 3);
    let ps = [pt(0.1, 0.1), pt(0.2, 0.3), pt(0.4, 0.2)];
    for p in ps {
        o.handle_pointer(Some(p));
    }
    assert_eq!(o.lines.last().unwrap(), &ps.to_vec());
    let shapes = o.drawable_lines();
    assert_eq!(shapes, vec![ps.to_vec()]);
    assert_eq!(o.stroke, Stroke::new(3, Color::from_rgb(254, 100, 11)));
}

#[test]
fn two_strokes_leave_three_polylines() {
    let mut o = Octopus::default();
    o.handle_pointer(Some(pt(0.1, 0.1)));
    o.handle_pointer(Some(pt(0.2, 0.2)));
    o.handle_pointer(None);
    o.handle_pointer(Some(pt(0.5, 0.1)));
    o.handle_pointer(Some(pt(0.6, 0.3)));
    o.handle_pointer(None);
    assert_eq!(o.lines.len(), 3);
    assert_eq!(o.lines[0], vec![pt(0.1, 0.1), pt(0.2, 0.2)]);
    assert_eq!(o.lines[1], vec![pt(0.5, 0.1), pt(0.6, 0.3)]);
    assert!(o.lines[2].is_empty());
    assert_eq!(o.drawable_lines().len(), 2);
}
