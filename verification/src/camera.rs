//! The camera's controls: which pan keys are held, whether the model is being
//! dragged, and the motion that has come in since the last frame.
//!
//! The camera's pose is a matrix of real numbers and is kept by whoever does
//! the arithmetic. What is decided here is which events move the camera, by
//! what, and when that motion is used up: every event that moves the camera
//! is recorded once, in order, and handed out once, with the frame that
//! follows it.
use vstd::prelude::*;
use crate::event::{CursorPosition, ElementState, InputEvent, Key, MouseButton};
use crate::scalar::{Scalar, Scalar64};

verus! {

/// The distance a held pan key moves the camera in one frame: 0.1, as a
/// single-precision pattern.
pub const SPEED: u32 = 0x3dcc_cccd;

/// The factor by which one line of the wheel changes the zoom: 0.9, as a
/// single-precision pattern.
pub const ZOOM_SENSITIVITY: u32 = 0x3f66_6666;

/// The factor by which one unit of a pinch changes the zoom: 0.5, as a
/// single-precision pattern.
pub const TRACKPAD_ZOOM_SENSITIVITY: u32 = 0x3f00_0000;

/// The degrees the camera turns for one pixel of dragging: 0.35, as a
/// single-precision pattern.
pub const LOOK_SENSITIVITY: u32 = 0x3eb3_3333;

/// The zoom factor of a frame without zooming: 1, as a single-precision
/// pattern.
pub const NO_ZOOM: u32 = 0x3f80_0000;

/// The zoom of a camera before a model has framed it: 2, as a
/// single-precision pattern.
pub const DEFAULT_ZOOM: u32 = 0x4000_0000;

/// Whether a value can be the zoom, the camera's distance from the point it
/// turns round: it has to be a number above zero, or the view collapses or
/// turns inside out.
pub open spec fn spec_is_zoom(zoom: Scalar) -> bool {
    (Scalar { bits: 0 }).lt(zoom)
}

/// The zoom factor that a frame may apply: `factor`, what the frame's events
/// come to, if the zoom that it leads to, `zoom`, can be a zoom; and else
/// [`NO_ZOOM`], so that the zoom stays what it is.
pub open spec fn spec_admitted_zoom_factor(factor: Scalar, zoom: Scalar) -> Scalar {
    if spec_is_zoom(zoom) {
        factor
    } else {
        Scalar { bits: NO_ZOOM }
    }
}

#[verifier::when_used_as_spec(spec_is_zoom)]
pub fn is_zoom(zoom: Scalar) -> (r: bool)
    ensures
        r == spec_is_zoom(zoom),
{
    Scalar { bits: 0 }.lt(zoom)
}

#[verifier::when_used_as_spec(spec_admitted_zoom_factor)]
pub fn admitted_zoom_factor(factor: Scalar, zoom: Scalar) -> (r: Scalar)
    ensures
        r == spec_admitted_zoom_factor(factor, zoom),
{
    if is_zoom(zoom) {
        factor
    } else {
        Scalar { bits: NO_ZOOM }
    }
}

/// The six pan keys, each held or not.
#[derive(Clone, Copy, Debug, PartialEq, Eq, Structural)]
pub struct PanAxes {
    pub forward: bool,
    pub backward: bool,
    pub left: bool,
    pub right: bool,
    pub up: bool,
    pub down: bool,
}

/// The direction of a frame's pan in the camera's own frame: -1, 0 or 1 on
/// each axis, x to the right, y up, z backward.
#[derive(Clone, Copy, Debug, PartialEq, Eq, Structural)]
pub struct Pan {
    pub x: i8,
    pub y: i8,
    pub z: i8,
}

/// 1 for a held key, 0 for one that is not.
pub open spec fn level(held: bool) -> int {
    if held {
        1
    } else {
        0
    }
}

impl PanAxes {
    /// No key held.
    pub open spec fn spec_released() -> PanAxes {
        PanAxes {
            forward: false,
            backward: false,
            left: false,
            right: false,
            up: false,
            down: false,
        }
    }

    /// The axes after `key` went down (`held`) or came up. A key that pans
    /// nothing changes nothing.
    pub open spec fn spec_with_key(self, key: Key, held: bool) -> PanAxes {
        match key {
            Key::W => PanAxes { forward: held, ..self },
            Key::S => PanAxes { backward: held, ..self },
            Key::A => PanAxes { left: held, ..self },
            Key::D => PanAxes { right: held, ..self },
            Key::E => PanAxes { up: held, ..self },
            Key::Q => PanAxes { down: held, ..self },
            _ => self,
        }
    }

    /// Right less left, up less down, backward less forward.
    pub open spec fn spec_direction(self) -> Pan {
        Pan {
            x: (level(self.right) - level(self.left)) as i8,
            y: (level(self.up) - level(self.down)) as i8,
            z: (level(self.backward) - level(self.forward)) as i8,
        }
    }

    #[verifier::when_used_as_spec(spec_released)]
    pub fn released() -> (r: PanAxes)
        ensures
            r == PanAxes::spec_released(),
    {
        PanAxes {
            forward: false,
            backward: false,
            left: false,
            right: false,
            up: false,
            down: false,
        }
    }

    #[verifier::when_used_as_spec(spec_with_key)]
    pub fn with_key(self, key: Key, held: bool) -> (r: PanAxes)
        ensures
            r == self.spec_with_key(key, held),
    {
        let mut r = self;
        match key {
            Key::W => {
                r.forward = held;
            },
            Key::S => {
                r.backward = held;
            },
            Key::A => {
                r.left = held;
            },
            Key::D => {
                r.right = held;
            },
            Key::E => {
                r.up = held;
            },
            Key::Q => {
                r.down = held;
            },
            _ => {},
        }
        r
    }

    #[verifier::when_used_as_spec(spec_direction)]
    pub fn direction(self) -> (r: Pan)
        ensures
            r == self.spec_direction(),
            -1 <= r.x <= 1,
            -1 <= r.y <= 1,
            -1 <= r.z <= 1,
    {
        Pan {
            x: difference(self.right, self.left),
            y: difference(self.up, self.down),
            z: difference(self.backward, self.forward),
        }
    }
}

fn difference(plus: bool, minus: bool) -> (r: i8)
    ensures
        r == level(plus) - level(minus),
{
    let p: i8 = if plus {
        1
    } else {
        0
    };
    let m: i8 = if minus {
        1
    } else {
        0
    };
    p - m
}

/// One thing that moves the camera, as it came in.
#[derive(Clone, Copy, Debug, PartialEq, Eq, Structural)]
pub enum Motion {
    /// The cursor went from `from` to `to` with the left button held: the
    /// look delta grows by the difference.
    Drag { from: CursorPosition, to: CursorPosition },
    /// The wheel turned: the zoom factor is multiplied by
    /// [`ZOOM_SENSITIVITY`] to the power of `lines`.
    Wheel { lines: Scalar },
    /// A pinch: the zoom factor is multiplied by
    /// [`TRACKPAD_ZOOM_SENSITIVITY`] to the power of `delta`.
    Magnify { delta: Scalar64 },
}

/// What one frame does to the camera: the pan of the keys that are held, and
/// the motion that came in since the frame before, in order.
#[derive(Debug, PartialEq, Eq)]
pub struct FrameMotion {
    pub pan: Pan,
    pub motions: Vec<Motion>,
}

/// The camera's controls.
#[derive(Debug)]
pub struct Camera {
    axes: PanAxes,
    dragging: bool,
    last_cursorpos: CursorPosition,
    pending: Vec<Motion>,
}

/// The controls as a value: the state of the keys and of the drag, the cursor
/// place last seen, and the motion not yet handed out.
pub struct CameraView {
    pub axes: PanAxes,
    pub dragging: bool,
    pub last_cursorpos: CursorPosition,
    pub pending: Seq<Motion>,
}

impl CameraView {
    /// Nothing held, nothing pending, the cursor at the window's corner.
    pub open spec fn idle() -> CameraView {
        CameraView {
            axes: PanAxes::released(),
            dragging: false,
            last_cursorpos: CursorPosition { x: Scalar64 { bits: 0 }, y: Scalar64 { bits: 0 } },
            pending: Seq::empty(),
        }
    }

    /// The motion that the event adds, if it moves the camera at all. A
    /// cursor movement does so only while dragging, and then from the place
    /// where the cursor was last seen. Of the wheel only the lines count: a
    /// scroll in pixels moves nothing.
    pub open spec fn motion_of(self, event: InputEvent) -> Option<Motion> {
        match event {
            InputEvent::WheelLines { lines } => Some(Motion::Wheel { lines }),
            InputEvent::WheelPixels { .. } => None,
            InputEvent::Magnify { delta } => Some(Motion::Magnify { delta }),
            InputEvent::CursorMoved { position } => if self.dragging {
                Some(Motion::Drag { from: self.last_cursorpos, to: position })
            } else {
                None
            },
            _ => None,
        }
    }

    /// The controls after one event.
    ///
    /// A pan key sets its axis for as long as it is held. The left button
    /// starts and ends a drag. The cursor's place is taken from every cursor
    /// movement, dragging or not. What moves the camera joins the pending
    /// motion. Every other event changes nothing.
    pub open spec fn input(self, event: InputEvent) -> CameraView {
        CameraView {
            axes: match event {
                InputEvent::Keyboard { key, state } => self.axes.with_key(key, state.is_pressed()),
                _ => self.axes,
            },
            dragging: match event {
                InputEvent::MouseInput { button: MouseButton::Left, state } => state.is_pressed(),
                _ => self.dragging,
            },
            last_cursorpos: match event {
                InputEvent::CursorMoved { position } => position,
                _ => self.last_cursorpos,
            },
            pending: match self.motion_of(event) {
                Some(motion) => self.pending.push(motion),
                None => self.pending,
            },
        }
    }

    /// The controls after a frame has taken the pending motion: nothing is
    /// pending, and the keys and the drag are as they were.
    pub open spec fn update(self) -> CameraView {
        CameraView { pending: Seq::empty(), ..self }
    }

    /// The controls after a run of events, in order.
    pub open spec fn inputs(self, events: Seq<InputEvent>) -> CameraView
        decreases events.len(),
    {
        if events.len() == 0 {
            self
        } else {
            self.inputs(events.drop_last()).input(events.last())
        }
    }

    /// The motion that a run of events adds, in order: that of each event in
    /// the state that the events before it have led to.
    pub open spec fn motions_of(self, events: Seq<InputEvent>) -> Seq<Motion>
        decreases events.len(),
    {
        if events.len() == 0 {
            Seq::empty()
        } else {
            let before = self.motions_of(events.drop_last());
            match self.inputs(events.drop_last()).motion_of(events.last()) {
                Some(motion) => before.push(motion),
                None => before,
            }
        }
    }
}

impl View for Camera {
    type V = CameraView;

    closed spec fn view(&self) -> CameraView {
        CameraView {
            axes: self.axes,
            dragging: self.dragging,
            last_cursorpos: self.last_cursorpos,
            pending: self.pending@,
        }
    }
}

impl Camera {
    /// Idle controls.
    pub fn new() -> (r: Camera)
        ensures
            r@ == CameraView::idle(),
    {
        Camera {
            axes: PanAxes::released(),
            dragging: false,
            last_cursorpos: CursorPosition { x: Scalar64 { bits: 0 }, y: Scalar64 { bits: 0 } },
            pending: Vec::new(),
        }
    }

    /// Takes one event in.
    pub fn input(&mut self, event: &InputEvent)
        ensures
            final(self)@ == old(self)@.input(*event),
    {
        match *event {
            InputEvent::Keyboard { key, state } => {
                self.axes = self.axes.with_key(key, state.is_pressed());
            },
            InputEvent::MouseInput { button, state } => {
                match button {
                    MouseButton::Left => {
                        self.dragging = state.is_pressed();
                    },
                    _ => {},
                }
            },
            InputEvent::WheelLines { lines } => {
                self.pending.push(Motion::Wheel { lines });
            },
            InputEvent::Magnify { delta } => {
                self.pending.push(Motion::Magnify { delta });
            },
            InputEvent::CursorMoved { position } => {
                if self.dragging {
                    self.pending.push(Motion::Drag { from: self.last_cursorpos, to: position });
                }
                self.last_cursorpos = position;
            },
            _ => {},
        }
    }

    /// Hands out what the coming frame does to the camera, and starts
    /// afresh: the motion that was pending is returned and is pending no
    /// more. The pan keys stay as they are until they are released.
    pub fn update(&mut self) -> (r: FrameMotion)
        ensures
            r.pan == old(self)@.axes.direction(),
            r.motions@ == old(self)@.pending,
            final(self)@ == old(self)@.update(),
    {
        let mut motions: Vec<Motion> = Vec::new();
        std::mem::swap(&mut self.pending, &mut motions);
        FrameMotion { pan: self.axes.direction(), motions }
    }

    pub fn axes(&self) -> (r: PanAxes)
        ensures
            r == self@.axes,
    {
        self.axes
    }

    pub fn is_dragging(&self) -> (r: bool)
        ensures
            r == self@.dragging,
    {
        self.dragging
    }

    pub fn last_cursorpos(&self) -> (r: CursorPosition)
        ensures
            r == self@.last_cursorpos,
    {
        self.last_cursorpos
    }

    /// The motion that has come in since the last frame.
    pub fn pending(&self) -> (r: &Vec<Motion>)
        ensures
            r@ == self@.pending,
    {
        &self.pending
    }
}

/// No event is lost and none counts twice: after a run of events the pending
/// motion is what was pending before, followed by the motion of each event,
/// in order.
pub proof fn lemma_no_event_lost(camera: CameraView, events: Seq<InputEvent>)
    ensures
        camera.inputs(events).pending == camera.pending + camera.motions_of(events),
    decreases events.len(),
{
    if events.len() > 0 {
        lemma_no_event_lost(camera, events.drop_last());
    }
}

/// Pending motion is used by exactly one frame: the frame after a frame finds
/// nothing pending, whatever was pending before the first.
pub proof fn lemma_consumed_once(camera: CameraView)
    ensures
        camera.update().pending.len() == 0,
        camera.update().update() == camera.update(),
{
}

/// A frame leaves the keys and the drag alone: a key that is held pans in
/// every frame until it is released.
pub proof fn lemma_keys_persist(camera: CameraView)
    ensures
        camera.update().axes == camera.axes,
        camera.update().dragging == camera.dragging,
        camera.update().last_cursorpos == camera.last_cursorpos,
{
}

/// The first movement of a drag starts where the cursor was last seen, not
/// where it was when the drag before ended: the cursor is followed whether
/// the button is held or not.
pub proof fn lemma_drag_starts_at_cursor(
    camera: CameraView,
    seen: CursorPosition,
    to: CursorPosition,
)
    ensures
        camera.input(InputEvent::CursorMoved { position: seen }).input(
            InputEvent::MouseInput { button: MouseButton::Left, state: ElementState::Pressed },
        ).motion_of(InputEvent::CursorMoved { position: to }) == Some(
            Motion::Drag { from: seen, to },
        ),
{
}

/// A scroll in pixels is passed over: it leaves the controls as they were,
/// whether a drag is on or not.
pub proof fn lemma_pixel_scroll_moves_nothing(camera: CameraView, x: Scalar64, y: Scalar64)
    ensures
        camera.motion_of(InputEvent::WheelPixels { x, y }) is None,
        camera.input(InputEvent::WheelPixels { x, y }) == camera,
{
}

/// The camera turns only by the cursor's movement while the left button is
/// held, and zooms only by the wheel's lines and by a pinch: no other event
/// adds to the pending motion.
pub proof fn lemma_what_moves_the_camera(camera: CameraView, event: InputEvent)
    ensures
        camera.motion_of(event) is Some <==> (event is WheelLines || event is Magnify || (
        event is CursorMoved && camera.dragging)),
        camera.motion_of(event) matches Some(Motion::Drag { from, to }) ==> camera.dragging
            && from == camera.last_cursorpos && event == (InputEvent::CursorMoved {
            position: to,
        }),
        camera.motion_of(event) is None ==> camera.input(event).pending == camera.pending,
{
}

/// Both zoom sensitivities are numbers strictly between 0 and 1, so that
/// scrolling in, and pinching in, makes the zoom factor smaller.
pub proof fn lemma_sensitivities_below_one()
    ensures
        (Scalar { bits: 0 }).lt(Scalar { bits: ZOOM_SENSITIVITY }),
        (Scalar { bits: ZOOM_SENSITIVITY }).lt(Scalar { bits: NO_ZOOM }),
        (Scalar { bits: 0 }).lt(Scalar { bits: TRACKPAD_ZOOM_SENSITIVITY }),
        (Scalar { bits: TRACKPAD_ZOOM_SENSITIVITY }).lt(Scalar { bits: NO_ZOOM }),
{
}

/// The zoom that a camera starts with can be a zoom, and no zero, negative
/// number or NaN can.
pub proof fn lemma_zoom_is_above_zero(zoom: Scalar)
    ensures
        is_zoom(Scalar { bits: DEFAULT_ZOOM }),
        is_zoom(zoom) <==> !zoom.is_nan() && zoom.spec_rank() > 0,
        is_zoom(zoom) ==> !zoom.is_negative() && zoom.bits != 0,
{
}

} // verus!
