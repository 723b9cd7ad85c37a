//! The core of a viewer for polygonal models: the state that input events
//! act on, and what the frame loop has to do in answer to each event and to
//! the outcome of each frame.
//!
//! The window, the rendering backend and the arithmetic on real numbers are
//! left to the caller. This crate decides: it merges the parsed model and
//! lays out its buffers ([`model`], [`bytes`]), keeps the camera's controls
//! ([`camera`]), the render mode and the state of the frame loop, and tells
//! the caller what to do next. Real numbers pass through it as bit patterns
//! ([`scalar`]), which it orders but does not compute with; [`exact`] says
//! what the patterns stand for.
use vstd::prelude::*;
use crate::bytes::{cast_words, is_memory_of};
use crate::camera::{Camera, CameraView, FrameMotion};
use crate::event::{ElementState, InputEvent, Key, Size};
use crate::scalar::Scalar;

pub mod bytes;
pub mod camera;
pub mod event;
pub mod exact;
pub mod model;
pub mod scalar;

verus! {

/// The number of render modes.
pub const NUMBER_OF_MODES: i32 = 2;

/// The vertical field of view, in degrees: 70, as a single-precision pattern.
pub const FOVY: u32 = 0x428c_0000;

/// The distance of the near plane: 0.1, as a single-precision pattern.
pub const ZNEAR: u32 = 0x3dcc_cccd;

/// The least distance of the far plane: 100, as a single-precision pattern.
pub const MIN_ZFAR: u32 = 0x42c8_0000;

/// The distance of the far plane for a model, given the diagonal of its
/// bounding box: twice the diagonal, but no less than [`MIN_ZFAR`]. A
/// diagonal that is no number gives [`MIN_ZFAR`].
pub fn far_plane(diagonal: Scalar) -> (r: Scalar)
    ensures
        r == (Scalar { bits: MIN_ZFAR }).max(diagonal.doubled()),
        !r.is_nan(),
        (Scalar { bits: MIN_ZFAR }).le(r),
        !diagonal.is_nan() ==> diagonal.doubled().le(r),
{
    Scalar { bits: MIN_ZFAR }.max(diagonal.doubled())
}

/// How the camera starts out for a model, so that the whole model is seen
/// whatever its size: at the distance `zoom` from the model's center, along
/// the camera's forward axis, and with the far plane at `zfar`.
#[derive(Clone, Copy, Debug, PartialEq, Eq, Structural)]
pub struct Framing {
    pub zoom: Scalar,
    pub zfar: Scalar,
}

impl Framing {
    /// The framing of a model whose bounding box has the given diagonal: the
    /// camera starts one diagonal away from the center, and the far plane is
    /// that of [`far_plane`].
    pub fn of(diagonal: Scalar) -> (r: Framing)
        ensures
            r.zoom == diagonal,
            r.zfar == (Scalar { bits: MIN_ZFAR }).max(diagonal.doubled()),
    {
        Framing { zoom: diagonal, zfar: far_plane(diagonal) }
    }
}

/// How the model is drawn.
#[derive(Clone, Copy, Debug, PartialEq, Eq, Structural)]
pub enum RenderMode {
    Solid,
    Wireframe,
}

impl RenderMode {
    /// The number of the mode, as the shader sees it.
    pub open spec fn spec_index(self) -> i32 {
        match self {
            RenderMode::Solid => 0,
            RenderMode::Wireframe => 1,
        }
    }

    /// The mode with the given number; a number of no mode stands for
    /// `Solid`.
    pub open spec fn spec_from_index(index: i32) -> RenderMode {
        if index == 1 {
            RenderMode::Wireframe
        } else {
            RenderMode::Solid
        }
    }

    /// The mode that a toggle leads to: the next number, and after the last
    /// the first again.
    pub open spec fn spec_next(self) -> RenderMode {
        RenderMode::spec_from_index(((self.spec_index() + 1) % (NUMBER_OF_MODES as int)) as i32)
    }

    #[verifier::when_used_as_spec(spec_index)]
    pub fn index(self) -> (r: i32)
        ensures
            r == self.spec_index(),
            0 <= r < NUMBER_OF_MODES,
    {
        match self {
            RenderMode::Solid => 0,
            RenderMode::Wireframe => 1,
        }
    }

    #[verifier::when_used_as_spec(spec_from_index)]
    pub fn from_index(index: i32) -> (r: RenderMode)
        ensures
            r == RenderMode::spec_from_index(index),
            0 <= index < NUMBER_OF_MODES ==> r.index() == index,
    {
        match index {
            1 => RenderMode::Wireframe,
            _ => RenderMode::Solid,
        }
    }

    #[verifier::when_used_as_spec(spec_next)]
    pub fn next(self) -> (r: RenderMode)
        ensures
            r == self.spec_next(),
    {
        RenderMode::from_index((self.index() + 1) % NUMBER_OF_MODES)
    }
}

/// The render mode, as the number that the shader reads, and whether the key
/// that toggles it is down.
#[derive(Clone, Copy, Debug, PartialEq, Eq)]
pub struct RenderState {
    render_mode: i32,
    toggle_held: bool,
}

/// The render state as a value.
pub struct RenderStateView {
    pub mode: RenderMode,
    pub toggle_held: bool,
}

impl RenderStateView {
    /// Solid, the toggle key up.
    pub open spec fn initial() -> RenderStateView {
        RenderStateView { mode: RenderMode::Solid, toggle_held: false }
    }

    /// The state after one toggle.
    pub open spec fn toggle(self) -> RenderStateView {
        RenderStateView { mode: self.mode.next(), ..self }
    }

    /// Whether the toggle key, going down or up, toggles the mode: it does
    /// when it goes down and was up before. While it stays down, further
    /// reports that it is down are repeats and toggle nothing.
    pub open spec fn toggles_on(self, state: ElementState) -> bool {
        state.is_pressed() && !self.toggle_held
    }

    /// The state after the toggle key went down or came up.
    pub open spec fn key(self, state: ElementState) -> RenderStateView {
        RenderStateView {
            mode: if self.toggles_on(state) {
                self.mode.next()
            } else {
                self.mode
            },
            toggle_held: state.is_pressed(),
        }
    }
}

impl View for RenderState {
    type V = RenderStateView;

    closed spec fn view(&self) -> RenderStateView {
        RenderStateView {
            mode: RenderMode::from_index(self.render_mode),
            toggle_held: self.toggle_held,
        }
    }
}

impl RenderState {
    #[verifier::type_invariant]
    spec fn is_a_mode(self) -> bool {
        0 <= self.render_mode < NUMBER_OF_MODES
    }

    pub fn new() -> (r: RenderState)
        ensures
            r@ == RenderStateView::initial(),
    {
        RenderState { render_mode: 0, toggle_held: false }
    }

    /// The mode to draw in.
    pub fn mode(&self) -> (r: RenderMode)
        ensures
            r == self@.mode,
    {
        RenderMode::from_index(self.render_mode)
    }

    /// The number of the mode, for the shader.
    pub fn render_mode(&self) -> (r: i32)
        ensures
            r == self@.mode.index(),
    {
        proof {
            use_type_invariant(self);
        }
        self.render_mode
    }

    /// The contents of the buffer from which the shader reads the mode: the
    /// number of the mode, as one word.
    pub fn uniform_bytes(&self) -> (bytes: Vec<u8>)
        ensures
            is_memory_of(bytes@, seq![self@.mode.index() as u32]),
    {
        let mut words: Vec<u32> = Vec::new();
        words.push(self.render_mode() as u32);
        proof {
            assert(words@ =~= seq![self@.mode.index() as u32]);
        }
        cast_words(&words)
    }

    /// Whether the toggle key is down.
    pub fn toggle_held(&self) -> (r: bool)
        ensures
            r == self@.toggle_held,
    {
        self.toggle_held
    }

    /// Goes on to the next mode.
    pub fn toggle(&mut self)
        ensures
            final(self)@ == old(self)@.toggle(),
    {
        proof {
            use_type_invariant(&*self);
        }
        self.render_mode = (self.render_mode + 1) % NUMBER_OF_MODES;
    }

    /// Takes in that the toggle key went down or came up, and says whether
    /// that changed the mode.
    pub fn key(&mut self, state: ElementState) -> (toggled: bool)
        ensures
            final(self)@ == old(self)@.key(state),
            toggled == old(self)@.toggles_on(state),
    {
        let pressed = state.is_pressed();
        let toggled = pressed && !self.toggle_held;
        if toggled {
            self.toggle();
        }
        proof {
            use_type_invariant(&*self);
        }
        self.toggle_held = pressed;
        toggled
    }
}

/// Whether the frame loop goes on.
#[derive(Clone, Copy, Debug, PartialEq, Eq, Structural)]
pub enum LoopState {
    Running,
    /// The loop is to end. Nothing leads back from here.
    Exiting,
}

/// Why no frame could be had from the rendering backend.
#[derive(Clone, Copy, Debug, PartialEq, Eq, Structural)]
pub enum SurfaceError {
    /// The surface was lost and has to be configured anew.
    Lost,
    /// The backend is out of memory.
    OutOfMemory,
    /// Any other failure; the next frame may succeed.
    Other,
}

/// What the caller has to do after the viewer has taken in an event or the
/// outcome of a frame.
#[derive(Clone, Copy, Debug, PartialEq, Eq, Structural)]
pub enum Effect {
    /// Nothing at all.
    Nothing,
    /// Write the render state to the buffer that the shader reads.
    UploadRenderState,
    /// Configure the surface, and all that depends on its size, for this
    /// size.
    Configure { size: Size },
    /// Report that the frame was skipped, and go on.
    ReportSkippedFrame,
    /// Leave the frame loop.
    Exit,
}

/// The viewer's state: the size of the surface, the camera's controls, the
/// render mode, and whether the frame loop goes on.
#[derive(Debug)]
pub struct State {
    size: Size,
    camera: Camera,
    render_state: RenderState,
    phase: LoopState,
}

/// The viewer's state as a value.
pub struct StateView {
    pub size: Size,
    pub camera: CameraView,
    pub render_state: RenderStateView,
    pub phase: LoopState,
}

impl StateView {
    /// The state at the start, for a surface of the given size.
    pub open spec fn initial(size: Size) -> StateView {
        StateView {
            size,
            camera: CameraView::idle(),
            render_state: RenderStateView::initial(),
            phase: LoopState::Running,
        }
    }

    pub open spec fn is_running(self) -> bool {
        self.phase == LoopState::Running
    }

    /// Whether a new size is taken: it is while the loop runs, unless the
    /// surface would have no pixel.
    pub open spec fn accepts(self, size: Size) -> bool {
        self.is_running() && !size.is_empty()
    }

    /// The state after the surface was given a new size.
    pub open spec fn resize(self, size: Size) -> StateView {
        if self.accepts(size) {
            StateView { size, ..self }
        } else {
            self
        }
    }

    /// Whether the event asks to leave: a request to close the window, or
    /// the exit key going down.
    pub open spec fn asks_to_exit(event: InputEvent) -> bool {
        match event {
            InputEvent::CloseRequested => true,
            InputEvent::Keyboard { key: Key::Escape, state: ElementState::Pressed } => true,
            _ => false,
        }
    }

    /// The state after one event of the window.
    ///
    /// While the loop runs, the camera's controls take every event in. The
    /// toggle key acts on the render state, a new size on the size, and a
    /// request to leave ends the loop. Once the loop is ending, events change
    /// nothing.
    pub open spec fn input(self, event: InputEvent) -> StateView {
        if !self.is_running() {
            self
        } else {
            StateView {
                size: match event {
                    InputEvent::Resized { size } => self.resize(size).size,
                    _ => self.size,
                },
                camera: self.camera.input(event),
                render_state: match event {
                    InputEvent::Keyboard { key: Key::V, state } => self.render_state.key(state),
                    _ => self.render_state,
                },
                phase: if StateView::asks_to_exit(event) {
                    LoopState::Exiting
                } else {
                    LoopState::Running
                },
            }
        }
    }

    /// What the caller has to do after the event.
    pub open spec fn effect_of(self, event: InputEvent) -> Effect {
        if !self.is_running() {
            Effect::Nothing
        } else {
            match event {
                InputEvent::Keyboard { key: Key::V, state } => if self.render_state.toggles_on(
                    state,
                ) {
                    Effect::UploadRenderState
                } else {
                    Effect::Nothing
                },
                InputEvent::Resized { size } => if self.accepts(size) {
                    Effect::Configure { size }
                } else {
                    Effect::Nothing
                },
                _ => if StateView::asks_to_exit(event) {
                    Effect::Exit
                } else {
                    Effect::Nothing
                },
            }
        }
    }

    /// The state after the frame's motion was handed out, if the loop runs.
    pub open spec fn update(self) -> StateView {
        if self.is_running() {
            StateView { camera: self.camera.update(), ..self }
        } else {
            self
        }
    }

    /// The state after a frame was drawn, or could not be: running out of
    /// memory ends the loop, and nothing else does.
    pub open spec fn rendered(self, outcome: Result<(), SurfaceError>) -> StateView {
        if self.is_running() && outcome == Err::<(), SurfaceError>(SurfaceError::OutOfMemory) {
            StateView { phase: LoopState::Exiting, ..self }
        } else {
            self
        }
    }

    /// What the caller has to do after a frame was drawn, or could not be.
    /// A lost surface is configured anew for the size it has, unless that
    /// size has no pixel.
    pub open spec fn effect_of_frame(self, outcome: Result<(), SurfaceError>) -> Effect {
        if !self.is_running() {
            Effect::Nothing
        } else {
            match outcome {
                Ok(_) => Effect::Nothing,
                Err(SurfaceError::Lost) => if self.size.is_empty() {
                    Effect::Nothing
                } else {
                    Effect::Configure { size: self.size }
                },
                Err(SurfaceError::OutOfMemory) => Effect::Exit,
                Err(SurfaceError::Other) => Effect::ReportSkippedFrame,
            }
        }
    }

    /// The state after a run of events, in order.
    pub open spec fn inputs(self, events: Seq<InputEvent>) -> StateView
        decreases events.len(),
    {
        if events.len() == 0 {
            self
        } else {
            self.inputs(events.drop_last()).input(events.last())
        }
    }
}

impl View for State {
    type V = StateView;

    closed spec fn view(&self) -> StateView {
        StateView {
            size: self.size,
            camera: self.camera@,
            render_state: self.render_state@,
            phase: self.phase,
        }
    }
}

impl State {
    /// The viewer's state at the start, for a surface of the given size.
    pub fn new(size: Size) -> (r: State)
        ensures
            r@ == StateView::initial(size),
    {
        State {
            size,
            camera: Camera::new(),
            render_state: RenderState::new(),
            phase: LoopState::Running,
        }
    }

    pub fn size(&self) -> (r: Size)
        ensures
            r == self@.size,
    {
        self.size
    }

    pub fn camera(&self) -> (r: &Camera)
        ensures
            r@ == self@.camera,
    {
        &self.camera
    }

    pub fn render_state(&self) -> (r: &RenderState)
        ensures
            r@ == self@.render_state,
    {
        &self.render_state
    }

    pub fn phase(&self) -> (r: LoopState)
        ensures
            r == self@.phase,
    {
        self.phase
    }

    pub fn is_running(&self) -> (r: bool)
        ensures
            r == self@.is_running(),
    {
        match self.phase {
            LoopState::Running => true,
            LoopState::Exiting => false,
        }
    }

    /// Takes a new size of the surface, and says whether the surface has to
    /// be configured for it. A size without a pixel is passed over.
    pub fn resize(&mut self, new_size: Size) -> (accepted: bool)
        ensures
            final(self)@ == old(self)@.resize(new_size),
            accepted == old(self)@.accepts(new_size),
    {
        if self.is_running() && new_size.width > 0 && new_size.height > 0 {
            self.size = new_size;
            true
        } else {
            false
        }
    }

    /// Takes one event of the window in, and says what the caller has to do
    /// about it.
    pub fn input(&mut self, event: &InputEvent) -> (effect: Effect)
        ensures
            final(self)@ == old(self)@.input(*event),
            effect == old(self)@.effect_of(*event),
    {
        if !self.is_running() {
            return Effect::Nothing;
        }
        self.camera.input(event);
        match *event {
            InputEvent::Keyboard { key: Key::V, state } => {
                if self.render_state.key(state) {
                    Effect::UploadRenderState
                } else {
                    Effect::Nothing
                }
            },
            InputEvent::Keyboard { key: Key::Escape, state: ElementState::Pressed } => {
                self.phase = LoopState::Exiting;
                Effect::Exit
            },
            InputEvent::CloseRequested => {
                self.phase = LoopState::Exiting;
                Effect::Exit
            },
            InputEvent::Resized { size } => {
                if self.resize(size) {
                    Effect::Configure { size }
                } else {
                    Effect::Nothing
                }
            },
            _ => Effect::Nothing,
        }
    }

    /// Starts a frame: hands out what the frame does to the camera. Once the
    /// loop is ending there is no frame, and nothing is handed out.
    pub fn update(&mut self) -> (r: Option<FrameMotion>)
        ensures
            final(self)@ == old(self)@.update(),
            r is Some == old(self)@.is_running(),
            r matches Some(frame) ==> frame.pan == old(self)@.camera.axes.direction()
                && frame.motions@ == old(self)@.camera.pending,
    {
        if self.is_running() {
            Some(self.camera.update())
        } else {
            None
        }
    }

    /// Takes the outcome of a frame in, and says what the caller has to do
    /// about it.
    pub fn rendered(&mut self, outcome: Result<(), SurfaceError>) -> (effect: Effect)
        ensures
            final(self)@ == old(self)@.rendered(outcome),
            effect == old(self)@.effect_of_frame(outcome),
    {
        if !self.is_running() {
            return Effect::Nothing;
        }
        match outcome {
            Ok(_) => Effect::Nothing,
            Err(SurfaceError::Lost) => {
                let size = self.size;
                if self.resize(size) {
                    Effect::Configure { size }
                } else {
                    Effect::Nothing
                }
            },
            Err(SurfaceError::OutOfMemory) => {
                self.phase = LoopState::Exiting;
                Effect::Exit
            },
            Err(SurfaceError::Other) => Effect::ReportSkippedFrame,
        }
    }
}

/// The modes form one cycle: a toggle leads from solid to wireframe and from
/// wireframe to solid, so that two toggles lead back to where they began.
pub proof fn lemma_toggle_cycles(mode: RenderMode)
    ensures
        RenderMode::Solid.next() == RenderMode::Wireframe,
        RenderMode::Wireframe.next() == RenderMode::Solid,
        mode.next() != mode,
        mode.next().next() == mode,
{
}

/// A key that is held down toggles once: however often it reports that it is
/// down, the mode is the one that the first report led to, until the key
/// comes up.
pub proof fn lemma_repeat_toggles_nothing(state: RenderStateView, repeats: nat)
    requires
        !state.toggle_held,
    ensures
        presses(state, repeats + 1).mode == state.mode.next(),
        presses(state, repeats + 1).toggle_held,
    decreases repeats,
{
    if repeats == 0 {
        assert(presses(state, 0) == state);
    } else {
        lemma_repeat_toggles_nothing(state, (repeats - 1) as nat);
    }
}

/// The render state after the toggle key has reported `n` times in a row that
/// it is down.
pub open spec fn presses(state: RenderStateView, n: nat) -> RenderStateView
    decreases n,
{
    if n == 0 {
        state
    } else {
        presses(state, (n - 1) as nat).key(ElementState::Pressed)
    }
}

/// Two presses of the toggle key, each followed by its release, lead back to
/// the mode before them.
pub proof fn lemma_two_presses_restore(state: RenderStateView)
    requires
        !state.toggle_held,
    ensures
        state.key(ElementState::Pressed).key(ElementState::Released).key(
            ElementState::Pressed,
        ).key(ElementState::Released) == state,
{
}

/// While the loop runs, a fresh press of the toggle key leads to the other
/// mode, the next in the cycle, and asks the caller once to write the render
/// state to its buffer. While the key stays down, its further reports change
/// nothing and ask for nothing.
pub proof fn lemma_fresh_press_toggles(state: StateView)
    requires
        state.is_running(),
        !state.render_state.toggle_held,
    ensures
        ({
            let press = InputEvent::Keyboard { key: Key::V, state: ElementState::Pressed };
            let before = state.render_state.mode;
            let after = state.input(press);
            &&& after.render_state.mode.index() == (before.index() + 1) % (NUMBER_OF_MODES as int)
            &&& after.render_state.mode != before
            &&& state.effect_of(press) == Effect::UploadRenderState
            &&& after.is_running()
            &&& after.input(press).render_state.mode == after.render_state.mode
            &&& after.effect_of(press) == Effect::Nothing
        }),
{
}

/// A lost surface does not end the loop: the viewer stays as it is, asks for
/// the surface to be configured for the size it has, and starts the next
/// frame as any other.
pub proof fn lemma_surface_lost_recovers(state: StateView)
    requires
        state.is_running(),
        !state.size.is_empty(),
    ensures
        state.rendered(Err(SurfaceError::Lost)) == state,
        state.effect_of_frame(Err(SurfaceError::Lost)) == (Effect::Configure { size: state.size }),
        state.rendered(Err(SurfaceError::Lost)).update().is_running(),
{
}

/// Running out of memory ends the loop, and the caller is told to leave.
pub proof fn lemma_out_of_memory_exits(state: StateView)
    requires
        state.is_running(),
    ensures
        !state.rendered(Err(SurfaceError::OutOfMemory)).is_running(),
        state.effect_of_frame(Err(SurfaceError::OutOfMemory)) == Effect::Exit,
{
}

/// Nothing leads back from the end of the loop: whatever events and frame
/// outcomes follow, the state stays what it was and the caller is given
/// nothing to do.
pub proof fn lemma_exiting_is_terminal(
    state: StateView,
    event: InputEvent,
    size: Size,
    outcome: Result<(), SurfaceError>,
)
    requires
        !state.is_running(),
    ensures
        state.input(event) == state,
        state.effect_of(event) == Effect::Nothing,
        state.resize(size) == state,
        state.update() == state,
        state.rendered(outcome) == state,
        state.effect_of_frame(outcome) == Effect::Nothing,
{
}

/// Once the loop is ending, no run of events, however long, changes the
/// state.
pub proof fn lemma_no_way_back(state: StateView, events: Seq<InputEvent>)
    requires
        !state.is_running(),
    ensures
        state.inputs(events) == state,
    decreases events.len(),
{
    if events.len() > 0 {
        lemma_no_way_back(state, events.drop_last());
    }
}

/// Only a request to close the window, the exit key, and running out of
/// memory end the loop.
pub proof fn lemma_what_ends_the_loop(
    state: StateView,
    event: InputEvent,
    outcome: Result<(), SurfaceError>,
)
    requires
        state.is_running(),
    ensures
        state.input(event).is_running() <==> !StateView::asks_to_exit(event),
        state.rendered(outcome).is_running() <==> outcome != Err::<(), SurfaceError>(
            SurfaceError::OutOfMemory,
        ),
        state.update().is_running(),
{
}

} // verus!
