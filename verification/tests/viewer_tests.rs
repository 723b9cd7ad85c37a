use objrs::camera::{Motion, Pan};
use objrs::event::{CursorPosition, ElementState, InputEvent, Key, MouseButton, Size};
use objrs::scalar::{Scalar, Scalar64};
use objrs::{
    far_plane, Effect, Framing, LoopState, RenderMode, RenderState, State, SurfaceError, FOVY,
    MIN_ZFAR, NUMBER_OF_MODES, ZNEAR,
};

const PRESSED: ElementState = ElementState::Pressed;
const RELEASED: ElementState = ElementState::Released;

fn size(width: u32, height: u32) -> Size {
    Size { width, height }
}

fn key(key: Key, state: ElementState) -> InputEvent {
    InputEvent::Keyboard { key, state }
}

fn num(value: f32) -> Scalar {
    Scalar::from_bits(value.to_bits())
}

fn viewer() -> State {
    State::new(size(800, 600))
}

#[test]
fn projection_constants_are_the_patterns_of_their_numbers() {
    assert_eq!(f32::from_bits(FOVY), 70.0);
    assert_eq!(f32::from_bits(ZNEAR), 0.1);
    assert_eq!(f32::from_bits(MIN_ZFAR), 100.0);
    assert_eq!(NUMBER_OF_MODES, 2);
}

#[test]
fn framing_of_a_model_with_diagonal_five() {
    let framing = Framing::of(num(5.0));
    assert_eq!(framing.zoom, num(5.0));
    assert_eq!(framing.zfar, num(100.0));
    assert!(f32::from_bits(framing.zfar.to_bits()) >= 100.0);
}

#[test]
fn framing_of_a_model_with_diagonal_eighty() {
    let framing = Framing::of(num(80.0));
    assert_eq!(framing.zoom, num(80.0));
    assert_eq!(framing.zfar, num(160.0));
    assert!(f32::from_bits(framing.zfar.to_bits()) >= 160.0);
}

#[test]
fn framing_works_at_every_scale() {
    for diagonal in [0.01f32, 1.0, 1000.0] {
        let framing = Framing::of(num(diagonal));
        assert_eq!(framing.zoom, num(diagonal));
        assert_eq!(framing.zfar, num(100.0f32.max(diagonal * 2.0)));
    }
}

#[test]
fn far_plane_of_a_small_model_is_the_least_one() {
    assert_eq!(far_plane(num(5.0)), num(100.0));
    assert_eq!(far_plane(num(0.0)), num(100.0));
    assert_eq!(far_plane(num(0.01)), num(100.0));
    assert_eq!(far_plane(num(50.0)), num(100.0));
}

#[test]
fn far_plane_of_a_large_model_is_twice_its_diagonal() {
    assert_eq!(far_plane(num(80.0)), num(160.0));
    assert_eq!(far_plane(num(1000.0)), num(2000.0));
    assert_eq!(far_plane(num(f32::MAX)), num(f32::INFINITY));
    assert_eq!(far_plane(num(f32::INFINITY)), num(f32::INFINITY));
}

#[test]
fn far_plane_is_what_the_arithmetic_gives() {
    let diagonals = [
        0.0f32,
        1.0e-45,
        f32::MIN_POSITIVE,
        0.01,
        5.0,
        49.9,
        50.0,
        50.000004,
        50.1,
        80.0,
        1000.0,
        1.0e38,
        f32::MAX,
        f32::INFINITY,
        f32::NAN,
        -3.0,
        -80.0,
        f32::NEG_INFINITY,
    ];
    for d in diagonals {
        assert_eq!(far_plane(num(d)), num(100.0f32.max(d * 2.0)), "diagonal {}", d);
    }
}

#[test]
fn render_modes_have_the_numbers_the_shader_reads() {
    assert_eq!(RenderMode::Solid.index(), 0);
    assert_eq!(RenderMode::Wireframe.index(), 1);
    assert_eq!(RenderMode::from_index(0), RenderMode::Solid);
    assert_eq!(RenderMode::from_index(1), RenderMode::Wireframe);
    assert_eq!(RenderMode::from_index(2), RenderMode::Solid);
    assert_eq!(RenderMode::from_index(-1), RenderMode::Solid);
}

#[test]
fn next_cycles_through_the_modes() {
    assert_eq!(RenderMode::Solid.next(), RenderMode::Wireframe);
    assert_eq!(RenderMode::Wireframe.next(), RenderMode::Solid);
    assert_eq!(RenderMode::Solid.next().next(), RenderMode::Solid);
}

#[test]
fn render_state_starts_solid() {
    let state = RenderState::new();
    assert_eq!(state.mode(), RenderMode::Solid);
    assert_eq!(state.render_mode(), 0);
    assert!(!state.toggle_held());
}

#[test]
fn two_toggles_return_to_solid() {
    let mut state = RenderState::new();
    state.toggle();
    assert_eq!(state.mode(), RenderMode::Wireframe);
    assert_eq!(state.render_mode(), 1);
    state.toggle();
    assert_eq!(state.mode(), RenderMode::Solid);
    assert_eq!(state.render_mode(), 0);
}

#[test]
fn two_presses_of_the_toggle_key_return_to_solid() {
    let mut state = RenderState::new();
    assert!(state.key(PRESSED));
    assert_eq!(state.mode(), RenderMode::Wireframe);
    assert!(!state.key(RELEASED));
    assert_eq!(state.mode(), RenderMode::Wireframe);
    assert!(state.key(PRESSED));
    assert_eq!(state.mode(), RenderMode::Solid);
    assert!(!state.key(RELEASED));
    assert_eq!(state.mode(), RenderMode::Solid);
}

#[test]
fn a_held_toggle_key_toggles_once() {
    let mut state = RenderState::new();
    assert!(state.key(PRESSED));
    for _ in 0..5 {
        assert!(!state.key(PRESSED));
        assert!(state.toggle_held());
        assert_eq!(state.mode(), RenderMode::Wireframe);
    }
    assert!(!state.key(RELEASED));
    assert!(!state.toggle_held());
    assert_eq!(state.mode(), RenderMode::Wireframe);
}

#[test]
fn a_new_viewer_runs() {
    let state = viewer();
    assert!(state.is_running());
    assert_eq!(state.phase(), LoopState::Running);
    assert_eq!(state.size(), size(800, 600));
    assert_eq!(state.render_state().mode(), RenderMode::Solid);
    assert!(state.camera().pending().is_empty());
    assert!(!state.camera().is_dragging());
}

#[test]
fn the_toggle_key_asks_for_an_upload_once_per_press() {
    let mut state = viewer();
    assert_eq!(state.input(&key(Key::V, PRESSED)), Effect::UploadRenderState);
    assert_eq!(state.render_state().mode(), RenderMode::Wireframe);
    assert_eq!(state.input(&key(Key::V, PRESSED)), Effect::Nothing);
    assert_eq!(state.input(&key(Key::V, PRESSED)), Effect::Nothing);
    assert_eq!(state.render_state().mode(), RenderMode::Wireframe);
    assert_eq!(state.input(&key(Key::V, RELEASED)), Effect::Nothing);
    assert_eq!(state.render_state().mode(), RenderMode::Wireframe);
    assert_eq!(state.input(&key(Key::V, PRESSED)), Effect::UploadRenderState);
    assert_eq!(state.render_state().mode(), RenderMode::Solid);
    assert_eq!(state.render_state().render_mode(), 0);
}

#[test]
fn other_keys_do_not_toggle() {
    let mut state = viewer();
    for k in [Key::W, Key::S, Key::A, Key::D, Key::E, Key::Q, Key::Other] {
        assert_eq!(state.input(&key(k, PRESSED)), Effect::Nothing);
        assert_eq!(state.input(&key(k, RELEASED)), Effect::Nothing);
    }
    assert_eq!(state.render_state().mode(), RenderMode::Solid);
    assert!(state.is_running());
}

#[test]
fn the_exit_key_ends_the_loop_when_it_goes_down() {
    let mut state = viewer();
    assert_eq!(state.input(&key(Key::Escape, RELEASED)), Effect::Nothing);
    assert!(state.is_running());
    assert_eq!(state.input(&key(Key::Escape, PRESSED)), Effect::Exit);
    assert!(!state.is_running());
    assert_eq!(state.phase(), LoopState::Exiting);
}

#[test]
fn a_close_request_ends_the_loop() {
    let mut state = viewer();
    assert_eq!(state.input(&InputEvent::CloseRequested), Effect::Exit);
    assert!(!state.is_running());
}

#[test]
fn a_new_size_is_taken_and_configured() {
    let mut state = viewer();
    let event = InputEvent::Resized { size: size(1024, 768) };
    assert_eq!(state.input(&event), Effect::Configure { size: size(1024, 768) });
    assert_eq!(state.size(), size(1024, 768));
    assert!(state.resize(size(1, 1)));
    assert_eq!(state.size(), size(1, 1));
}

#[test]
fn a_size_without_a_pixel_is_passed_over() {
    let mut state = viewer();
    for empty in [size(0, 0), size(0, 600), size(800, 0)] {
        assert_eq!(state.input(&InputEvent::Resized { size: empty }), Effect::Nothing);
        assert!(!state.resize(empty));
        assert_eq!(state.size(), size(800, 600));
    }
    assert!(size(0, 5).is_empty());
    assert!(!size(5, 5).is_empty());
}

#[test]
fn the_camera_takes_in_the_events_of_the_viewer() {
    let mut state = viewer();
    let to = CursorPosition { x: Scalar64::from_bits(5), y: Scalar64::from_bits(9) };
    state.input(&key(Key::D, PRESSED));
    state.input(&InputEvent::MouseInput { button: MouseButton::Left, state: PRESSED });
    state.input(&InputEvent::CursorMoved { position: to });
    state.input(&InputEvent::WheelLines { lines: num(1.0) });
    assert!(state.camera().is_dragging());
    let frame = state.update().unwrap();
    assert_eq!(frame.pan, Pan { x: 1, y: 0, z: 0 });
    let from = CursorPosition { x: Scalar64::from_bits(0), y: Scalar64::from_bits(0) };
    assert_eq!(
        frame.motions,
        vec![Motion::Drag { from, to }, Motion::Wheel { lines: num(1.0) }]
    );
    let next = state.update().unwrap();
    assert_eq!(next.pan, Pan { x: 1, y: 0, z: 0 });
    assert!(next.motions.is_empty());
}

#[test]
fn a_drawn_frame_asks_for_nothing() {
    let mut state = viewer();
    assert_eq!(state.rendered(Ok(())), Effect::Nothing);
    assert!(state.is_running());
}

#[test]
fn a_lost_surface_is_configured_anew_and_the_next_frame_starts() {
    let mut state = viewer();
    state.input(&InputEvent::Resized { size: size(320, 200) });
    assert!(state.update().is_some());
    assert_eq!(
        state.rendered(Err(SurfaceError::Lost)),
        Effect::Configure { size: size(320, 200) }
    );
    assert!(state.is_running());
    assert_eq!(state.size(), size(320, 200));
    assert!(state.update().is_some());
    assert_eq!(state.rendered(Ok(())), Effect::Nothing);
}

#[test]
fn a_lost_surface_without_a_pixel_is_left_alone() {
    let mut state = State::new(size(0, 0));
    assert_eq!(state.rendered(Err(SurfaceError::Lost)), Effect::Nothing);
    assert!(state.is_running());
}

#[test]
fn running_out_of_memory_ends_the_loop_before_the_next_frame() {
    let mut state = viewer();
    assert!(state.update().is_some());
    assert_eq!(state.rendered(Err(SurfaceError::OutOfMemory)), Effect::Exit);
    assert!(!state.is_running());
    assert!(state.update().is_none());
}

#[test]
fn any_other_failure_skips_the_frame() {
    let mut state = viewer();
    assert_eq!(state.rendered(Err(SurfaceError::Other)), Effect::ReportSkippedFrame);
    assert!(state.is_running());
    assert!(state.update().is_some());
}

#[test]
fn nothing_happens_once_the_loop_is_ending() {
    let mut state = viewer();
    state.input(&InputEvent::CloseRequested);
    assert_eq!(state.input(&key(Key::V, PRESSED)), Effect::Nothing);
    assert_eq!(state.render_state().mode(), RenderMode::Solid);
    assert_eq!(state.input(&key(Key::W, PRESSED)), Effect::Nothing);
    assert!(!state.camera().axes().forward);
    assert_eq!(state.input(&InputEvent::Resized { size: size(10, 10) }), Effect::Nothing);
    assert!(!state.resize(size(10, 10)));
    assert_eq!(state.size(), size(800, 600));
    assert_eq!(state.input(&InputEvent::CloseRequested), Effect::Nothing);
    assert_eq!(state.rendered(Err(SurfaceError::Lost)), Effect::Nothing);
    assert_eq!(state.rendered(Err(SurfaceError::OutOfMemory)), Effect::Nothing);
    assert_eq!(state.rendered(Ok(())), Effect::Nothing);
    assert!(state.update().is_none());
    assert!(!state.is_running());
}

#[test]
fn uniform_bytes_are_the_number_of_the_mode() {
    let mut state = RenderState::new();
    assert_eq!(state.uniform_bytes(), 0i32.to_ne_bytes().to_vec());
    state.toggle();
    assert_eq!(state.uniform_bytes(), 1i32.to_ne_bytes().to_vec());
    state.toggle();
    assert_eq!(state.uniform_bytes(), 0i32.to_ne_bytes().to_vec());
}
