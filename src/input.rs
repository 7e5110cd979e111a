//! Keyboard, mouse and window state, updated one event at a time.
use vstd::prelude::*;

verus! {

/// Mouse sensitivity: a motion of `xrel` pixels turns the view by
/// `xrel * MOUSE_SENSITIVITY` thousandths of a radian.
pub const MOUSE_SENSITIVITY: i64 = 10;

/// The keys the game reacts to.
#[derive(Clone, Copy, Debug, PartialEq, Eq, Structural)]
pub enum Key {
    W,
    A,
    S,
    D,
    E,
    Escape,
    Other,
}

/// An event from the window system.
#[derive(Clone, Copy, Debug, PartialEq, Eq, Structural)]
pub enum InputEvent {
    Quit,
    Resized { width: i32, height: i32 },
    MouseMotion { xrel: i32, yrel: i32 },
    KeyDown(Key),
    KeyUp(Key),
    Other,
}

/// What the window system must do after an event.
#[derive(Clone, Copy, Debug, PartialEq, Eq, Structural)]
pub enum InputAction {
    Nothing,
    /// Capture the mouse (hide the cursor, report relative motion) or release it.
    CaptureMouse(bool),
}

/// What the player holds down and what the window reported since the last poll.
#[derive(Clone, Copy, Debug, PartialEq, Eq, Structural)]
pub struct InputState {
    pub quit_received: bool,
    pub window_width: i32,
    pub window_height: i32,
    pub mouse_captured: bool,
    /// Mouse motion since the poll began, in thousandths of a radian.
    pub mouse_delta_x: i64,
    pub mouse_delta_y: i64,
    pub forward_down: bool,
    pub backward_down: bool,
    pub left_down: bool,
    pub right_down: bool,
}

/// The state after one event.
pub open spec fn after_event(s: InputState, ev: InputEvent) -> InputState {
    match ev {
        InputEvent::Quit => InputState { quit_received: true, ..s },
        InputEvent::Resized { width, height } => InputState {
            window_width: width,
            window_height: height,
            ..s
        },
        InputEvent::MouseMotion { xrel, yrel } => if s.mouse_captured {
            InputState {
                mouse_delta_x: (xrel * MOUSE_SENSITIVITY) as i64,
                mouse_delta_y: (yrel * MOUSE_SENSITIVITY) as i64,
                ..s
            }
        } else {
            s
        },
        InputEvent::KeyDown(k) => match k {
            Key::E => InputState { mouse_captured: !s.mouse_captured, ..s },
            Key::W => InputState { forward_down: true, ..s },
            Key::S => InputState { backward_down: true, ..s },
            Key::A => InputState { left_down: true, ..s },
            Key::D => InputState { right_down: true, ..s },
            Key::Escape => InputState { quit_received: true, ..s },
            Key::Other => s,
        },
        InputEvent::KeyUp(k) => match k {
            Key::W => InputState { forward_down: false, ..s },
            Key::S => InputState { backward_down: false, ..s },
            Key::A => InputState { left_down: false, ..s },
            Key::D => InputState { right_down: false, ..s },
            _ => s,
        },
        InputEvent::Other => s,
    }
}

/// The action that goes with one event.
pub open spec fn action_of(s: InputState, ev: InputEvent) -> InputAction {
    match ev {
        InputEvent::KeyDown(Key::E) => InputAction::CaptureMouse(!s.mouse_captured),
        _ => InputAction::Nothing,
    }
}

impl InputState {
    /// A 512 by 512 window, nothing held, the mouse free.
    pub fn new() -> (r: InputState)
        ensures
            r == (InputState {
                quit_received: false,
                window_width: 512,
                window_height: 512,
                mouse_captured: false,
                mouse_delta_x: 0,
                mouse_delta_y: 0,
                forward_down: false,
                backward_down: false,
                left_down: false,
                right_down: false,
            }),
    {
        InputState {
            quit_received: false,
            window_width: 512,
            window_height: 512,
            mouse_captured: false,
            mouse_delta_x: 0,
            mouse_delta_y: 0,
            forward_down: false,
            backward_down: false,
            left_down: false,
            right_down: false,
        }
    }

    /// Starts a poll: the mouse has not moved yet; held keys stay held.
    pub fn begin_poll(&mut self)
        ensures
            *final(self) == (InputState { mouse_delta_x: 0, mouse_delta_y: 0, ..*old(self) }),
    {
        self.mouse_delta_x = 0;
        self.mouse_delta_y = 0;
    }

    /// The angle the view turns by this tick, in thousandths of a radian:
    /// a motion toward positive x turns it the negative way.
    pub fn turn_millis(&self) -> (r: i64)
        requires
            self.mouse_delta_x > i64::MIN,
        ensures
            r == -self.mouse_delta_x,
    {
        -self.mouse_delta_x
    }

    /// Flips mouse capture and returns the new setting.
    pub fn toggle_mouse_capture(&mut self) -> (captured: bool)
        ensures
            captured == !old(self).mouse_captured,
            *final(self) == (InputState { mouse_captured: captured, ..*old(self) }),
    {
        self.mouse_captured = !self.mouse_captured;
        self.mouse_captured
    }

    /// Takes in one event and says what the window system must do about it.
    pub fn handle_event(&mut self, ev: InputEvent) -> (action: InputAction)
        ensures
            *final(self) == after_event(*old(self), ev),
            action == action_of(*old(self), ev),
    {
        match ev {
            InputEvent::Quit => {
                self.quit_received = true;
            },
            InputEvent::Resized { width, height } => {
                self.window_width = width;
                self.window_height = height;
            },
            InputEvent::MouseMotion { xrel, yrel } => {
                if self.mouse_captured {
                    self.mouse_delta_x = xrel as i64 * MOUSE_SENSITIVITY;
                    self.mouse_delta_y = yrel as i64 * MOUSE_SENSITIVITY;
                }
            },
            InputEvent::KeyDown(k) => match k {
                Key::E => {
                    let captured = self.toggle_mouse_capture();
                    return InputAction::CaptureMouse(captured);
                },
                Key::W => self.forward_down = true,
                Key::S => self.backward_down = true,
                Key::A => self.left_down = true,
                Key::D => self.right_down = true,
                Key::Escape => self.quit_received = true,
                Key::Other => {},
            },
            InputEvent::KeyUp(k) => match k {
                Key::W => self.forward_down = false,
                Key::S => self.backward_down = false,
                Key::A => self.left_down = false,
                Key::D => self.right_down = false,
                _ => {},
            },
            InputEvent::Other => {},
        }
        InputAction::Nothing
    }
}

} // verus!
