//! Routing of what the input queue delivers.

use crate::eventhandler::KeyEventInfo;
use vstd::prelude::*;

verus! {

/// Key code of the key that asks to quit: escape.
pub const QUIT_KEYCODE: i32 = 27;

/// An event from the input queue, as far as the application looks at it.
#[derive(Clone, Copy, Debug, PartialEq, Eq, Structural)]
pub enum InputEvent {
    /// The window system asks the application to quit.
    Quit { timestamp: u32 },
    KeyDown {
        timestamp: u32,
        window_id: u32,
        keycode: Option<i32>,
        scancode: Option<i32>,
        keymod: u16,
        repeat: bool,
    },
    KeyUp {
        timestamp: u32,
        window_id: u32,
        keycode: Option<i32>,
        scancode: Option<i32>,
        keymod: u16,
        repeat: bool,
    },
    /// Anything else.
    Other,
}

/// What the input loop does with an event.
#[derive(Clone, Copy, Debug, PartialEq, Eq, Structural)]
pub enum Action {
    /// Start the shutdown protocol; the event carried this timestamp.
    Shutdown { timestamp: u32 },
    /// Dispatch to the key-down callbacks.
    DispatchKeyDown(KeyEventInfo),
    /// Dispatch to the key-up callbacks.
    DispatchKeyUp(KeyEventInfo),
    /// Nothing.
    Ignore,
}

/// Whether `event` is an intent to quit: the quit signal, or a press of the
/// quit key, repeated or not.
pub open spec fn is_quit_intent(event: InputEvent) -> bool {
    match event {
        InputEvent::Quit { .. } => true,
        InputEvent::KeyDown { keycode, .. } => keycode == Some(QUIT_KEYCODE),
        _ => false,
    }
}

/// The action for `event`.
pub open spec fn routed(event: InputEvent) -> Action {
    match event {
        InputEvent::Quit { timestamp } => Action::Shutdown { timestamp },
        InputEvent::KeyDown { timestamp, window_id, keycode, scancode, keymod, repeat } => {
            if keycode == Some(QUIT_KEYCODE) {
                Action::Shutdown { timestamp }
            } else {
                Action::DispatchKeyDown(
                    KeyEventInfo { timestamp, window_id, keycode, scancode, keymod, repeat },
                )
            }
        },
        InputEvent::KeyUp { timestamp, window_id, keycode, scancode, keymod, repeat } => {
            Action::DispatchKeyUp(
                KeyEventInfo { timestamp, window_id, keycode, scancode, keymod, repeat },
            )
        },
        InputEvent::Other => Action::Ignore,
    }
}

/// Decides what to do with `event`: an intent to quit starts the shutdown, any
/// other key event goes to the callbacks of its kind with its fields
/// unchanged, and the rest is ignored.
pub fn route(event: InputEvent) -> (action: Action)
    ensures
        action == routed(event),
        action is Shutdown <==> is_quit_intent(event),
{
    match event {
        InputEvent::Quit { timestamp } => Action::Shutdown { timestamp },
        InputEvent::KeyDown { timestamp, window_id, keycode, scancode, keymod, repeat } => {
            let quit: bool = match keycode {
                Some(code) => code == QUIT_KEYCODE,
                None => false,
            };
            if quit {
                Action::Shutdown { timestamp }
            } else {
                Action::DispatchKeyDown(
                    KeyEventInfo { timestamp, window_id, keycode, scancode, keymod, repeat },
                )
            }
        },
        InputEvent::KeyUp { timestamp, window_id, keycode, scancode, keymod, repeat } => {
            Action::DispatchKeyUp(
                KeyEventInfo { timestamp, window_id, keycode, scancode, keymod, repeat },
            )
        },
        InputEvent::Other => Action::Ignore,
    }
}

} // verus!
