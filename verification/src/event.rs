//! What the windowing system reports, in plain values.
use vstd::prelude::*;
use crate::scalar::{Scalar, Scalar64};

verus! {

/// Whether a key or a button went down or came up.
#[derive(Clone, Copy, Debug, PartialEq, Eq, Structural)]
pub enum ElementState {
    Pressed,
    Released,
}

impl ElementState {
    pub open spec fn spec_is_pressed(self) -> bool {
        self == ElementState::Pressed
    }

    #[verifier::when_used_as_spec(spec_is_pressed)]
    pub fn is_pressed(self) -> (r: bool)
        ensures
            r == self.spec_is_pressed(),
    {
        match self {
            ElementState::Pressed => true,
            ElementState::Released => false,
        }
    }
}

/// The keys the viewer knows; every other key is `Other`.
#[derive(Clone, Copy, Debug, PartialEq, Eq, Structural)]
pub enum Key {
    /// Pans forward.
    W,
    /// Pans backward.
    S,
    /// Pans left.
    A,
    /// Pans right.
    D,
    /// Pans up.
    E,
    /// Pans down.
    Q,
    /// Switches between solid and wireframe.
    V,
    /// Leaves the viewer.
    Escape,
    Other,
}

/// The mouse buttons; the left one drags the camera round the model.
#[derive(Clone, Copy, Debug, PartialEq, Eq, Structural)]
pub enum MouseButton {
    Left,
    Right,
    Middle,
    Other,
}

/// A place of the cursor in the window, in pixels.
#[derive(Clone, Copy, Debug, PartialEq, Eq, Structural)]
pub struct CursorPosition {
    pub x: Scalar64,
    pub y: Scalar64,
}

/// The size of the window's drawing surface, in pixels.
#[derive(Clone, Copy, Debug, PartialEq, Eq, Structural)]
pub struct Size {
    pub width: u32,
    pub height: u32,
}

impl Size {
    /// The surface has no pixel.
    pub open spec fn spec_is_empty(self) -> bool {
        self.width == 0 || self.height == 0
    }

    #[verifier::when_used_as_spec(spec_is_empty)]
    pub fn is_empty(self) -> (r: bool)
        ensures
            r == self.spec_is_empty(),
    {
        self.width == 0 || self.height == 0
    }
}

/// One event of the window.
#[derive(Clone, Copy, Debug, PartialEq, Eq, Structural)]
pub enum InputEvent {
    /// A key went down or came up. A key that is held down may report
    /// `Pressed` again and again.
    Keyboard { key: Key, state: ElementState },
    /// A mouse button went down or came up.
    MouseInput { button: MouseButton, state: ElementState },
    /// The wheel turned by so many lines.
    WheelLines { lines: Scalar },
    /// A touchpad scrolled by so many pixels. The viewer passes this over:
    /// of the wheel only the lines zoom.
    WheelPixels { x: Scalar64, y: Scalar64 },
    /// A pinch on the touchpad.
    Magnify { delta: Scalar64 },
    /// The cursor is now at `position`.
    CursorMoved { position: CursorPosition },
    /// The drawing surface has a new size.
    Resized { size: Size },
    /// The user asked to close the window.
    CloseRequested,
    /// Anything else.
    Other,
}

} // verus!
