use objrs::camera::{
    admitted_zoom_factor, is_zoom, Camera, Motion, Pan, PanAxes, DEFAULT_ZOOM, LOOK_SENSITIVITY,
    NO_ZOOM, SPEED, TRACKPAD_ZOOM_SENSITIVITY, ZOOM_SENSITIVITY,
};
use objrs::event::{CursorPosition, ElementState, InputEvent, Key, MouseButton, Size};
use objrs::scalar::{Scalar, Scalar64};

fn key(key: Key, state: ElementState) -> InputEvent {
    InputEvent::Keyboard { key, state }
}

fn press(k: Key) -> InputEvent {
    key(k, ElementState::Pressed)
}

fn release(k: Key) -> InputEvent {
    key(k, ElementState::Released)
}

fn button(button: MouseButton, state: ElementState) -> InputEvent {
    InputEvent::MouseInput { button, state }
}

fn at(x: f64, y: f64) -> CursorPosition {
    CursorPosition { x: Scalar64::from_bits(x.to_bits()), y: Scalar64::from_bits(y.to_bits()) }
}

fn moved(x: f64, y: f64) -> InputEvent {
    InputEvent::CursorMoved { position: at(x, y) }
}

fn wheel(lines: f32) -> InputEvent {
    InputEvent::WheelLines { lines: Scalar::from_bits(lines.to_bits()) }
}

fn camera_after(events: &[InputEvent]) -> Camera {
    let mut camera = Camera::new();
    for e in events {
        camera.input(e);
    }
    camera
}

#[test]
fn constants_are_the_patterns_of_their_numbers() {
    assert_eq!(f32::from_bits(SPEED), 0.1);
    assert_eq!(f32::from_bits(ZOOM_SENSITIVITY), 0.9);
    assert_eq!(f32::from_bits(TRACKPAD_ZOOM_SENSITIVITY), 0.5);
    assert_eq!(f32::from_bits(LOOK_SENSITIVITY), 0.35);
    assert_eq!(f32::from_bits(NO_ZOOM), 1.0);
}

#[test]
fn zoom_sensitivities_lie_between_zero_and_one() {
    let zero = Scalar::from_bits(0);
    let one = Scalar::from_bits(NO_ZOOM);
    for bits in [ZOOM_SENSITIVITY, TRACKPAD_ZOOM_SENSITIVITY] {
        assert!(zero.lt(Scalar::from_bits(bits)));
        assert!(Scalar::from_bits(bits).lt(one));
    }
}

#[test]
fn a_new_camera_is_idle() {
    let camera = Camera::new();
    assert_eq!(camera.axes(), PanAxes::released());
    assert!(!camera.is_dragging());
    assert_eq!(camera.last_cursorpos(), at(0.0, 0.0));
    assert!(camera.pending().is_empty());
}

#[test]
fn each_pan_key_sets_its_axis() {
    let none = PanAxes::released();
    assert_eq!(camera_after(&[press(Key::W)]).axes(), PanAxes { forward: true, ..none });
    assert_eq!(camera_after(&[press(Key::S)]).axes(), PanAxes { backward: true, ..none });
    assert_eq!(camera_after(&[press(Key::A)]).axes(), PanAxes { left: true, ..none });
    assert_eq!(camera_after(&[press(Key::D)]).axes(), PanAxes { right: true, ..none });
    assert_eq!(camera_after(&[press(Key::E)]).axes(), PanAxes { up: true, ..none });
    assert_eq!(camera_after(&[press(Key::Q)]).axes(), PanAxes { down: true, ..none });
    assert_eq!(camera_after(&[press(Key::V)]).axes(), none);
    assert_eq!(camera_after(&[press(Key::Escape)]).axes(), none);
    assert_eq!(camera_after(&[press(Key::Other)]).axes(), none);
}

#[test]
fn releasing_a_pan_key_clears_its_axis_only() {
    let camera = camera_after(&[press(Key::W), press(Key::D), release(Key::W)]);
    assert_eq!(camera.axes(), PanAxes { right: true, ..PanAxes::released() });
    let camera = camera_after(&[press(Key::W), press(Key::W), release(Key::W)]);
    assert_eq!(camera.axes(), PanAxes::released());
}

#[test]
fn pan_directions() {
    let dir = |keys: &[Key]| {
        let events: Vec<InputEvent> = keys.iter().map(|k| press(*k)).collect();
        camera_after(&events).axes().direction()
    };
    assert_eq!(dir(&[]), Pan { x: 0, y: 0, z: 0 });
    assert_eq!(dir(&[Key::D]), Pan { x: 1, y: 0, z: 0 });
    assert_eq!(dir(&[Key::A]), Pan { x: -1, y: 0, z: 0 });
    assert_eq!(dir(&[Key::E]), Pan { x: 0, y: 1, z: 0 });
    assert_eq!(dir(&[Key::Q]), Pan { x: 0, y: -1, z: 0 });
    assert_eq!(dir(&[Key::S]), Pan { x: 0, y: 0, z: 1 });
    assert_eq!(dir(&[Key::W]), Pan { x: 0, y: 0, z: -1 });
    assert_eq!(dir(&[Key::A, Key::D]), Pan { x: 0, y: 0, z: 0 });
    assert_eq!(dir(&[Key::W, Key::D, Key::Q]), Pan { x: 1, y: -1, z: -1 });
    assert_eq!(
        dir(&[Key::W, Key::S, Key::A, Key::D, Key::E, Key::Q]),
        Pan { x: 0, y: 0, z: 0 }
    );
}

#[test]
fn with_key_is_the_step_of_input() {
    let axes = PanAxes::released().with_key(Key::E, true).with_key(Key::A, true);
    assert_eq!(axes, PanAxes { up: true, left: true, ..PanAxes::released() });
    assert_eq!(axes.with_key(Key::E, false), PanAxes { left: true, ..PanAxes::released() });
    assert_eq!(axes.with_key(Key::V, true), axes);
}

#[test]
fn only_the_left_button_drags() {
    assert!(camera_after(&[button(MouseButton::Left, ElementState::Pressed)]).is_dragging());
    assert!(!camera_after(&[button(MouseButton::Right, ElementState::Pressed)]).is_dragging());
    assert!(!camera_after(&[button(MouseButton::Middle, ElementState::Pressed)]).is_dragging());
    assert!(!camera_after(&[button(MouseButton::Other, ElementState::Pressed)]).is_dragging());
    let camera = camera_after(&[
        button(MouseButton::Left, ElementState::Pressed),
        button(MouseButton::Right, ElementState::Released),
    ]);
    assert!(camera.is_dragging());
    let camera = camera_after(&[
        button(MouseButton::Left, ElementState::Pressed),
        button(MouseButton::Left, ElementState::Released),
    ]);
    assert!(!camera.is_dragging());
}

#[test]
fn the_cursor_is_followed_without_a_drag_and_moves_nothing() {
    let camera = camera_after(&[moved(10.0, 20.0), moved(30.5, 40.25)]);
    assert_eq!(camera.last_cursorpos(), at(30.5, 40.25));
    assert!(camera.pending().is_empty());
}

#[test]
fn a_drag_starts_where_the_cursor_was_last_seen() {
    let camera = camera_after(&[
        moved(100.0, 100.0),
        button(MouseButton::Left, ElementState::Pressed),
        moved(103.0, 98.0),
        moved(110.0, 90.0),
        button(MouseButton::Left, ElementState::Released),
        moved(500.0, 500.0),
        button(MouseButton::Left, ElementState::Pressed),
        moved(501.0, 500.0),
    ]);
    assert_eq!(
        *camera.pending(),
        vec![
            Motion::Drag { from: at(100.0, 100.0), to: at(103.0, 98.0) },
            Motion::Drag { from: at(103.0, 98.0), to: at(110.0, 90.0) },
            Motion::Drag { from: at(500.0, 500.0), to: at(501.0, 500.0) },
        ]
    );
    assert_eq!(camera.last_cursorpos(), at(501.0, 500.0));
}

#[test]
fn wheel_and_pinch_are_kept_in_order() {
    let pinch = Scalar64::from_bits(0.25f64.to_bits());
    let camera = camera_after(&[
        wheel(1.0),
        InputEvent::Magnify { delta: pinch },
        wheel(-2.0),
        wheel(1.0),
    ]);
    assert_eq!(
        *camera.pending(),
        vec![
            Motion::Wheel { lines: Scalar::from_bits(1.0f32.to_bits()) },
            Motion::Magnify { delta: pinch },
            Motion::Wheel { lines: Scalar::from_bits((-2.0f32).to_bits()) },
            Motion::Wheel { lines: Scalar::from_bits(1.0f32.to_bits()) },
        ]
    );
}

#[test]
fn a_scroll_in_pixels_is_passed_over() {
    let dx = Scalar64::from_bits(3.0f64.to_bits());
    let dy = Scalar64::from_bits((-4.0f64).to_bits());
    let scroll = InputEvent::WheelPixels { x: dx, y: dy };
    let camera = camera_after(&[scroll]);
    assert!(camera.pending().is_empty());
    assert!(!camera.is_dragging());
    assert_eq!(camera.axes(), PanAxes::released());
    assert_eq!(camera.last_cursorpos(), at(0.0, 0.0));
}

#[test]
fn a_scroll_in_pixels_is_passed_over_during_a_drag() {
    let dx = Scalar64::from_bits(3.0f64.to_bits());
    let dy = Scalar64::from_bits((-4.0f64).to_bits());
    let scroll = InputEvent::WheelPixels { x: dx, y: dy };
    let mut camera = camera_after(&[
        press(Key::E),
        moved(10.0, 10.0),
        button(MouseButton::Left, ElementState::Pressed),
        scroll,
        moved(12.0, 9.0),
        scroll,
        wheel(1.0),
        scroll,
    ]);
    assert!(camera.is_dragging());
    assert_eq!(camera.last_cursorpos(), at(12.0, 9.0));
    assert_eq!(camera.axes(), PanAxes { up: true, ..PanAxes::released() });
    assert_eq!(
        camera.update().motions,
        vec![
            Motion::Drag { from: at(10.0, 10.0), to: at(12.0, 9.0) },
            Motion::Wheel { lines: Scalar::from_bits(1.0f32.to_bits()) },
        ]
    );
}

#[test]
fn a_zoom_is_a_number_above_zero() {
    let num = |v: f32| Scalar::from_bits(v.to_bits());
    for v in [1.0e-45f32, f32::MIN_POSITIVE, 0.01, 2.0, 5.0, 1.0e30, f32::MAX, f32::INFINITY] {
        assert!(is_zoom(num(v)), "{} can be a zoom", v);
    }
    for v in [0.0f32, -0.0, -1.0e-45, -2.0, f32::MIN, f32::NEG_INFINITY, f32::NAN, -f32::NAN] {
        assert!(!is_zoom(num(v)), "{} cannot be a zoom", v);
    }
    assert_eq!(f32::from_bits(DEFAULT_ZOOM), 2.0);
    assert!(is_zoom(Scalar::from_bits(DEFAULT_ZOOM)));
}

#[test]
fn a_zoom_factor_is_admitted_if_it_leads_to_a_zoom() {
    let num = |v: f32| Scalar::from_bits(v.to_bits());
    let one = Scalar::from_bits(NO_ZOOM);
    assert_eq!(admitted_zoom_factor(num(0.9), num(5.0 * 0.9)), num(0.9));
    assert_eq!(admitted_zoom_factor(num(1.5), num(7.5)), num(1.5));
    assert_eq!(admitted_zoom_factor(num(1.0), num(5.0)), num(1.0));
    assert_eq!(admitted_zoom_factor(num(0.0), num(0.0)), one);
    assert_eq!(admitted_zoom_factor(num(1.0e-30), num(1.0e-30f32 * 1.0e-30)), one);
    assert_eq!(admitted_zoom_factor(num(-1.0), num(-5.0)), one);
    assert_eq!(admitted_zoom_factor(num(f32::NAN), num(f32::NAN)), one);
    assert_eq!(admitted_zoom_factor(num(0.9), num(-0.0)), one);
}

#[test]
fn events_that_do_not_concern_the_camera_change_nothing() {
    let camera = camera_after(&[
        InputEvent::Other,
        InputEvent::CloseRequested,
        InputEvent::Resized { size: Size { width: 640, height: 480 } },
    ]);
    assert_eq!(camera.axes(), PanAxes::released());
    assert!(!camera.is_dragging());
    assert_eq!(camera.last_cursorpos(), at(0.0, 0.0));
    assert!(camera.pending().is_empty());
}

#[test]
fn update_hands_the_motion_out_once() {
    let mut camera = camera_after(&[
        press(Key::D),
        wheel(1.0),
        button(MouseButton::Left, ElementState::Pressed),
        moved(4.0, 5.0),
    ]);
    let frame = camera.update();
    assert_eq!(frame.pan, Pan { x: 1, y: 0, z: 0 });
    assert_eq!(
        frame.motions,
        vec![
            Motion::Wheel { lines: Scalar::from_bits(1.0f32.to_bits()) },
            Motion::Drag { from: at(0.0, 0.0), to: at(4.0, 5.0) },
        ]
    );
    assert!(camera.pending().is_empty());
    let next = camera.update();
    assert!(next.motions.is_empty());
}

#[test]
fn held_keys_pan_in_every_frame_until_released() {
    let mut camera = camera_after(&[press(Key::W), press(Key::E)]);
    assert_eq!(camera.update().pan, Pan { x: 0, y: 1, z: -1 });
    assert_eq!(camera.update().pan, Pan { x: 0, y: 1, z: -1 });
    camera.input(&release(Key::W));
    assert_eq!(camera.update().pan, Pan { x: 0, y: 1, z: 0 });
    assert!(camera_after(&[button(MouseButton::Left, ElementState::Pressed)]).is_dragging());
}

#[test]
fn update_keeps_the_drag_and_the_cursor() {
    let mut camera =
        camera_after(&[button(MouseButton::Left, ElementState::Pressed), moved(7.0, 8.0)]);
    camera.update();
    assert!(camera.is_dragging());
    assert_eq!(camera.last_cursorpos(), at(7.0, 8.0));
    camera.input(&moved(9.0, 8.0));
    assert_eq!(
        camera.update().motions,
        vec![Motion::Drag { from: at(7.0, 8.0), to: at(9.0, 8.0) }]
    );
}
