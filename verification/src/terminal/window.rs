use vstd::prelude::*;
use crate::terminal::frame::{mouse_button_index, MouseButtonKind};

verus! {

/// A window event, reduced to what the main loop decides on.
#[derive(Debug, PartialEq, Eq, Copy, Clone, Structural)]
pub enum WindowEventKind {
    RedrawRequested,
    Moved { x: i32, y: i32 },
    Resized { width: u32, height: u32 },
    CloseRequested,
    Focused(bool),
    CursorMoved,
    CursorEntered,
    CursorLeft,
    MouseInput { button: MouseButtonKind, pressed: bool },
    ScaleFactorChanged,
    KeyboardInput,
    ModifiersChanged,
    Other,
}

/// What the main loop does with a window event.
#[derive(Debug, PartialEq, Eq, Copy, Clone, Structural)]
pub enum WindowAction {
    /// Nothing: no window is open, the event is for another window, or the
    /// engine has no use for it.
    Ignore,
    /// Draw a frame.
    Redraw,
    /// Report the move to the game and queue a resize to the window's
    /// current size, which is reported when it is applied.
    MoveAndQueueCurrentResize { x: i32, y: i32 },
    /// Queue a resize to the new size, reported when it is applied.
    QueueResize { width: u32, height: u32 },
    /// Stop the event loop: the game does not take events, so a close
    /// request ends the program.
    Exit,
    /// Report the close request to the game, which takes events.
    ReportClose,
    /// Report a press or release of the mouse button with this index.
    MouseButton { index: usize, pressed: bool },
    /// Hand the event to the terminal's own handling (focus, cursor, keys,
    /// modifiers, scale factor).
    Deliver,
}

/// The action for `event`. `window_open` says whether a window exists,
/// `for_this_window` whether the event is addressed to it, and `use_events`
/// whether the game takes events itself.
pub fn window_action(window_open: bool, for_this_window: bool, use_events: bool, event: WindowEventKind) -> (a:
    WindowAction)
    ensures
        !window_open || !for_this_window ==> a == WindowAction::Ignore,
        window_open && for_this_window ==> a == match event {
            WindowEventKind::RedrawRequested => WindowAction::Redraw,
            WindowEventKind::Moved { x, y } => WindowAction::MoveAndQueueCurrentResize { x, y },
            WindowEventKind::Resized { width, height } => WindowAction::QueueResize { width, height },
            WindowEventKind::CloseRequested => if use_events {
                WindowAction::ReportClose
            } else {
                WindowAction::Exit
            },
            WindowEventKind::MouseInput { button, pressed } => WindowAction::MouseButton {
                index: match button {
                    MouseButtonKind::Left => 0,
                    MouseButtonKind::Right => 1,
                    MouseButtonKind::Middle => 2,
                    MouseButtonKind::Back => 3,
                    MouseButtonKind::Forward => 4,
                    MouseButtonKind::Other(n) => (5 + n) as usize,
                },
                pressed,
            },
            WindowEventKind::Other => WindowAction::Ignore,
            _ => WindowAction::Deliver,
        },
{
    if !window_open || !for_this_window {
        return WindowAction::Ignore;
    }
    match event {
        WindowEventKind::RedrawRequested => WindowAction::Redraw,
        WindowEventKind::Moved { x, y } => WindowAction::MoveAndQueueCurrentResize { x, y },
        WindowEventKind::Resized { width, height } => WindowAction::QueueResize { width, height },
        WindowEventKind::CloseRequested => {
            if use_events {
                WindowAction::ReportClose
            } else {
                WindowAction::Exit
            }
        },
        WindowEventKind::MouseInput { button, pressed } => WindowAction::MouseButton {
            index: mouse_button_index(button),
            pressed,
        },
        WindowEventKind::Focused(_) | WindowEventKind::CursorMoved | WindowEventKind::CursorEntered
        | WindowEventKind::CursorLeft | WindowEventKind::ScaleFactorChanged | WindowEventKind::KeyboardInput
        | WindowEventKind::ModifiersChanged => WindowAction::Deliver,
        WindowEventKind::Other => WindowAction::Ignore,
    }
}

} // verus!
