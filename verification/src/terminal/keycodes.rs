use vstd::prelude::*;

verus! {

/// The engine's key codes.
#[derive(Debug, PartialEq, Eq, Copy, Clone, Hash, Structural)]
pub enum VirtualKeyCode {
    Grave,
    Backslash,
    LBracket,
    RBracket,
    Comma,
    Key0,
    Key1,
    Key2,
    Key3,
    Key4,
    Key5,
    Key6,
    Key7,
    Key8,
    Key9,
    Equals,
    A,
    B,
    C,
    D,
    E,
    F,
    G,
    H,
    I,
    J,
    K,
    L,
    M,
    N,
    O,
    P,
    Q,
    R,
    S,
    T,
    U,
    V,
    W,
    X,
    Y,
    Z,
    Minus,
    Period,
    Apostrophe,
    Semicolon,
    Slash,
    LAlt,
    RAlt,
    Back,
    Capital,
    Apps,
    LControl,
    RControl,
    Return,
    LWin,
    RWin,
    LShift,
    RShift,
    Space,
    Tab,
    Down,
    Left,
    Right,
    Up,
    Escape,
    End,
    Home,
    Insert,
    Delete,
    PageDown,
    PageUp,
    Snapshot,
    Scroll,
    Pause,
    F1,
    F2,
    F3,
    F4,
    F5,
    F6,
    F7,
    F8,
    F9,
    F10,
    F11,
    F12,
    F13,
    F14,
    F15,
    F16,
    F17,
    F18,
    F19,
    F20,
    F21,
    F22,
    F23,
    F24,
    Numpad0,
    Numpad1,
    Numpad2,
    Numpad3,
    Numpad4,
    Numpad5,
    Numpad6,
    Numpad7,
    Numpad8,
    Numpad9,
    Numlock,
    Add,
    NumpadComma,
    Decimal,
    Divide,
    NumpadEnter,
    NumpadEquals,
    Multiply,
    Subtract,
}

/// Physical keys as the windowing layer reports them, by their position on a
/// US keyboard; every other key is `Unlisted`.
#[derive(Debug, PartialEq, Eq, Copy, Clone, Hash, Structural)]
pub enum PhysicalKeyCode {
    Backquote,
    Backslash,
    BracketLeft,
    BracketRight,
    Comma,
    Digit0,
    Digit1,
    Digit2,
    Digit3,
    Digit4,
    Digit5,
    Digit6,
    Digit7,
    Digit8,
    Digit9,
    Equal,
    IntlBackslash,
    IntlRo,
    IntlYen,
    KeyA,
    KeyB,
    KeyC,
    KeyD,
    KeyE,
    KeyF,
    KeyG,
    KeyH,
    KeyI,
    KeyJ,
    KeyK,
    KeyL,
    KeyM,
    KeyN,
    KeyO,
    KeyP,
    KeyQ,
    KeyR,
    KeyS,
    KeyT,
    KeyU,
    KeyV,
    KeyW,
    KeyX,
    KeyY,
    KeyZ,
    Minus,
    Period,
    Quote,
    Semicolon,
    Slash,
    AltLeft,
    AltRight,
    Backspace,
    CapsLock,
    ContextMenu,
    ControlLeft,
    ControlRight,
    Enter,
    SuperLeft,
    SuperRight,
    ShiftLeft,
    ShiftRight,
    Space,
    Tab,
    ArrowDown,
    ArrowLeft,
    ArrowRight,
    ArrowUp,
    Escape,
    End,
    Home,
    Insert,
    Delete,
    PageDown,
    PageUp,
    PrintScreen,
    ScrollLock,
    Pause,
    F1,
    F2,
    F3,
    F4,
    F5,
    F6,
    F7,
    F8,
    F9,
    F10,
    F11,
    F12,
    F13,
    F14,
    F15,
    F16,
    F17,
    F18,
    F19,
    F20,
    F21,
    F22,
    F23,
    F24,
    Numpad0,
    Numpad1,
    Numpad2,
    Numpad3,
    Numpad4,
    Numpad5,
    Numpad6,
    Numpad7,
    Numpad8,
    Numpad9,
    NumLock,
    NumpadAdd,
    NumpadBackspace,
    NumpadComma,
    NumpadDecimal,
    NumpadDivide,
    NumpadEnter,
    NumpadEqual,
    NumpadMultiply,
    NumpadSubtract,
    Unlisted,
}

/// The engine key for a physical key on the native back-end.
pub open spec fn native_key_spec(code: PhysicalKeyCode) -> Option<VirtualKeyCode> {
    match code {
        PhysicalKeyCode::Backquote => Some(VirtualKeyCode::Grave),
        PhysicalKeyCode::Backslash => Some(VirtualKeyCode::Backslash),
        PhysicalKeyCode::BracketLeft => Some(VirtualKeyCode::LBracket),
        PhysicalKeyCode::BracketRight => Some(VirtualKeyCode::RBracket),
        PhysicalKeyCode::Comma => Some(VirtualKeyCode::Comma),
        PhysicalKeyCode::Digit0 => Some(VirtualKeyCode::Key0),
        PhysicalKeyCode::Digit1 => Some(VirtualKeyCode::Key1),
        PhysicalKeyCode::Digit2 => Some(VirtualKeyCode::Key2),
        PhysicalKeyCode::Digit3 => Some(VirtualKeyCode::Key3),
        PhysicalKeyCode::Digit4 => Some(VirtualKeyCode::Key4),
        PhysicalKeyCode::Digit5 => Some(VirtualKeyCode::Key5),
        PhysicalKeyCode::Digit6 => Some(VirtualKeyCode::Key6),
        PhysicalKeyCode::Digit7 => Some(VirtualKeyCode::Key7),
        PhysicalKeyCode::Digit8 => Some(VirtualKeyCode::Key8),
        PhysicalKeyCode::Digit9 => Some(VirtualKeyCode::Key9),
        PhysicalKeyCode::Equal => Some(VirtualKeyCode::Equals),
        PhysicalKeyCode::IntlBackslash => Some(VirtualKeyCode::Backslash),
        PhysicalKeyCode::IntlRo => Some(VirtualKeyCode::Backslash),
        PhysicalKeyCode::IntlYen => Some(VirtualKeyCode::Backslash),
        PhysicalKeyCode::KeyA => Some(VirtualKeyCode::A),
        PhysicalKeyCode::KeyB => Some(VirtualKeyCode::B),
        PhysicalKeyCode::KeyC => Some(VirtualKeyCode::C),
        PhysicalKeyCode::KeyD => Some(VirtualKeyCode::D),
        PhysicalKeyCode::KeyE => Some(VirtualKeyCode::E),
        PhysicalKeyCode::KeyF => Some(VirtualKeyCode::F),
        PhysicalKeyCode::KeyG => Some(VirtualKeyCode::G),
        PhysicalKeyCode::KeyH => Some(VirtualKeyCode::H),
        PhysicalKeyCode::KeyI => Some(VirtualKeyCode::I),
        PhysicalKeyCode::KeyJ => Some(VirtualKeyCode::J),
        PhysicalKeyCode::KeyK => Some(VirtualKeyCode::K),
        PhysicalKeyCode::KeyL => Some(VirtualKeyCode::L),
        PhysicalKeyCode::KeyM => Some(VirtualKeyCode::M),
        PhysicalKeyCode::KeyN => Some(VirtualKeyCode::N),
        PhysicalKeyCode::KeyO => Some(VirtualKeyCode::O),
        PhysicalKeyCode::KeyP => Some(VirtualKeyCode::P),
        PhysicalKeyCode::KeyQ => Some(VirtualKeyCode::Q),
        PhysicalKeyCode::KeyR => Some(VirtualKeyCode::R),
        PhysicalKeyCode::KeyS => Some(VirtualKeyCode::S),
        PhysicalKeyCode::KeyT => Some(VirtualKeyCode::T),
        PhysicalKeyCode::KeyU => Some(VirtualKeyCode::U),
        PhysicalKeyCode::KeyV => Some(VirtualKeyCode::V),
        PhysicalKeyCode::KeyW => Some(VirtualKeyCode::W),
        PhysicalKeyCode::KeyX => Some(VirtualKeyCode::X),
        PhysicalKeyCode::KeyY => Some(VirtualKeyCode::Y),
        PhysicalKeyCode::KeyZ => Some(VirtualKeyCode::Z),
        PhysicalKeyCode::Minus => Some(VirtualKeyCode::Minus),
        PhysicalKeyCode::Period => Some(VirtualKeyCode::Period),
        PhysicalKeyCode::Quote => Some(VirtualKeyCode::Apostrophe),
        PhysicalKeyCode::Semicolon => Some(VirtualKeyCode::Semicolon),
        PhysicalKeyCode::Slash => Some(VirtualKeyCode::Slash),
        PhysicalKeyCode::AltLeft => Some(VirtualKeyCode::LAlt),
        PhysicalKeyCode::AltRight => Some(VirtualKeyCode::RAlt),
        PhysicalKeyCode::Backspace => Some(VirtualKeyCode::Back),
        PhysicalKeyCode::CapsLock => Some(VirtualKeyCode::Capital),
        PhysicalKeyCode::ContextMenu => Some(VirtualKeyCode::Apps),
        PhysicalKeyCode::ControlLeft => Some(VirtualKeyCode::LControl),
        PhysicalKeyCode::ControlRight => Some(VirtualKeyCode::RControl),
        PhysicalKeyCode::Enter => Some(VirtualKeyCode::Return),
        PhysicalKeyCode::SuperLeft => Some(VirtualKeyCode::LWin),
        PhysicalKeyCode::SuperRight => Some(VirtualKeyCode::RWin),
        PhysicalKeyCode::ShiftLeft => Some(VirtualKeyCode::LShift),
        PhysicalKeyCode::ShiftRight => Some(VirtualKeyCode::RShift),
        PhysicalKeyCode::Space => Some(VirtualKeyCode::Space),
        PhysicalKeyCode::Tab => Some(VirtualKeyCode::Tab),
        PhysicalKeyCode::ArrowDown => Some(VirtualKeyCode::Down),
        PhysicalKeyCode::ArrowLeft => Some(VirtualKeyCode::Left),
        PhysicalKeyCode::ArrowRight => Some(VirtualKeyCode::Right),
        PhysicalKeyCode::ArrowUp => Some(VirtualKeyCode::Up),
        PhysicalKeyCode::Escape => Some(VirtualKeyCode::Escape),
        PhysicalKeyCode::End => Some(VirtualKeyCode::End),
        PhysicalKeyCode::Home => Some(VirtualKeyCode::Home),
        PhysicalKeyCode::Insert => Some(VirtualKeyCode::Insert),
        PhysicalKeyCode::Delete => Some(VirtualKeyCode::Delete),
        PhysicalKeyCode::PageDown => Some(VirtualKeyCode::PageDown),
        PhysicalKeyCode::PageUp => Some(VirtualKeyCode::PageUp),
        PhysicalKeyCode::PrintScreen => Some(VirtualKeyCode::Snapshot),
        PhysicalKeyCode::ScrollLock => Some(VirtualKeyCode::Scroll),
        PhysicalKeyCode::Pause => Some(VirtualKeyCode::Pause),
        PhysicalKeyCode::F1 => Some(VirtualKeyCode::F1),
        PhysicalKeyCode::F2 => Some(VirtualKeyCode::F2),
        PhysicalKeyCode::F3 => Some(VirtualKeyCode::F3),
        PhysicalKeyCode::F4 => Some(VirtualKeyCode::F4),
        PhysicalKeyCode::F5 => Some(VirtualKeyCode::F5),
        PhysicalKeyCode::F6 => Some(VirtualKeyCode::F6),
        PhysicalKeyCode::F7 => Some(VirtualKeyCode::F7),
        PhysicalKeyCode::F8 => Some(VirtualKeyCode::F8),
        PhysicalKeyCode::F9 => Some(VirtualKeyCode::F9),
        PhysicalKeyCode::F10 => Some(VirtualKeyCode::F10),
        PhysicalKeyCode::F11 => Some(VirtualKeyCode::F11),
        PhysicalKeyCode::F12 => Some(VirtualKeyCode::F12),
        PhysicalKeyCode::F13 => Some(VirtualKeyCode::F13),
        PhysicalKeyCode::F14 => Some(VirtualKeyCode::F14),
        PhysicalKeyCode::F15 => Some(VirtualKeyCode::F15),
        PhysicalKeyCode::F16 => Some(VirtualKeyCode::F16),
        PhysicalKeyCode::F17 => Some(VirtualKeyCode::F17),
        PhysicalKeyCode::F18 => Some(VirtualKeyCode::F18),
        PhysicalKeyCode::F19 => Some(VirtualKeyCode::F19),
        PhysicalKeyCode::F20 => Some(VirtualKeyCode::F20),
        PhysicalKeyCode::F21 => Some(VirtualKeyCode::F21),
        PhysicalKeyCode::F22 => Some(VirtualKeyCode::F22),
        PhysicalKeyCode::F23 => Some(VirtualKeyCode::F23),
        PhysicalKeyCode::F24 => Some(VirtualKeyCode::F24),
        PhysicalKeyCode::Numpad0 => Some(VirtualKeyCode::Numpad0),
        PhysicalKeyCode::Numpad1 => Some(VirtualKeyCode::Numpad1),
        PhysicalKeyCode::Numpad2 => Some(VirtualKeyCode::Numpad2),
        PhysicalKeyCode::Numpad3 => Some(VirtualKeyCode::Numpad3),
        PhysicalKeyCode::Numpad4 => Some(VirtualKeyCode::Numpad4),
        PhysicalKeyCode::Numpad5 => Some(VirtualKeyCode::Numpad5),
        PhysicalKeyCode::Numpad6 => Some(VirtualKeyCode::Numpad6),
        PhysicalKeyCode::Numpad7 => Some(VirtualKeyCode::Numpad7),
        PhysicalKeyCode::Numpad8 => Some(VirtualKeyCode::Numpad8),
        PhysicalKeyCode::Numpad9 => Some(VirtualKeyCode::Numpad9),
        PhysicalKeyCode::NumLock => Some(VirtualKeyCode::Numlock),
        PhysicalKeyCode::NumpadAdd => Some(VirtualKeyCode::Add),
        PhysicalKeyCode::NumpadBackspace => Some(VirtualKeyCode::Back),
        PhysicalKeyCode::NumpadComma => Some(VirtualKeyCode::NumpadComma),
        PhysicalKeyCode::NumpadDecimal => Some(VirtualKeyCode::Decimal),
        PhysicalKeyCode::NumpadDivide => Some(VirtualKeyCode::Divide),
        PhysicalKeyCode::NumpadEnter => Some(VirtualKeyCode::NumpadEnter),
        PhysicalKeyCode::NumpadEqual => Some(VirtualKeyCode::NumpadEquals),
        PhysicalKeyCode::NumpadMultiply => Some(VirtualKeyCode::Multiply),
        PhysicalKeyCode::NumpadSubtract => Some(VirtualKeyCode::Subtract),
        _ => None,
    }
}

/// The engine key for a physical key on the WebGPU back-end.
pub open spec fn webgpu_key_spec(code: PhysicalKeyCode) -> Option<VirtualKeyCode> {
    match code {
        PhysicalKeyCode::Digit0 => Some(VirtualKeyCode::Key0),
        PhysicalKeyCode::Digit1 => Some(VirtualKeyCode::Key1),
        PhysicalKeyCode::Digit2 => Some(VirtualKeyCode::Key2),
        PhysicalKeyCode::Digit3 => Some(VirtualKeyCode::Key3),
        PhysicalKeyCode::Digit4 => Some(VirtualKeyCode::Key4),
        PhysicalKeyCode::Digit5 => Some(VirtualKeyCode::Key5),
        PhysicalKeyCode::Digit6 => Some(VirtualKeyCode::Key6),
        PhysicalKeyCode::Digit7 => Some(VirtualKeyCode::Key7),
        PhysicalKeyCode::Digit8 => Some(VirtualKeyCode::Key8),
        PhysicalKeyCode::Digit9 => Some(VirtualKeyCode::Key9),
        PhysicalKeyCode::KeyA => Some(VirtualKeyCode::A),
        PhysicalKeyCode::KeyB => Some(VirtualKeyCode::B),
        PhysicalKeyCode::KeyC => Some(VirtualKeyCode::C),
        PhysicalKeyCode::KeyD => Some(VirtualKeyCode::D),
        PhysicalKeyCode::KeyE => Some(VirtualKeyCode::E),
        PhysicalKeyCode::KeyF => Some(VirtualKeyCode::F),
        PhysicalKeyCode::KeyG => Some(VirtualKeyCode::G),
        PhysicalKeyCode::KeyH => Some(VirtualKeyCode::H),
        PhysicalKeyCode::KeyI => Some(VirtualKeyCode::I),
        PhysicalKeyCode::KeyJ => Some(VirtualKeyCode::J),
        PhysicalKeyCode::KeyK => Some(VirtualKeyCode::K),
        PhysicalKeyCode::KeyL => Some(VirtualKeyCode::L),
        PhysicalKeyCode::KeyM => Some(VirtualKeyCode::M),
        PhysicalKeyCode::KeyN => Some(VirtualKeyCode::N),
        PhysicalKeyCode::KeyO => Some(VirtualKeyCode::O),
        PhysicalKeyCode::KeyP => Some(VirtualKeyCode::P),
        PhysicalKeyCode::KeyQ => Some(VirtualKeyCode::Q),
        PhysicalKeyCode::KeyR => Some(VirtualKeyCode::R),
        PhysicalKeyCode::KeyS => Some(VirtualKeyCode::S),
        PhysicalKeyCode::KeyT => Some(VirtualKeyCode::T),
        PhysicalKeyCode::KeyU => Some(VirtualKeyCode::U),
        PhysicalKeyCode::KeyV => Some(VirtualKeyCode::V),
        PhysicalKeyCode::KeyW => Some(VirtualKeyCode::W),
        PhysicalKeyCode::KeyX => Some(VirtualKeyCode::X),
        PhysicalKeyCode::KeyY => Some(VirtualKeyCode::Y),
        PhysicalKeyCode::KeyZ => Some(VirtualKeyCode::Z),
        PhysicalKeyCode::Escape => Some(VirtualKeyCode::Escape),
        PhysicalKeyCode::F1 => Some(VirtualKeyCode::F1),
        PhysicalKeyCode::F2 => Some(VirtualKeyCode::F2),
        PhysicalKeyCode::F3 => Some(VirtualKeyCode::F3),
        PhysicalKeyCode::F4 => Some(VirtualKeyCode::F4),
        PhysicalKeyCode::F5 => Some(VirtualKeyCode::F5),
        PhysicalKeyCode::F6 => Some(VirtualKeyCode::F6),
        PhysicalKeyCode::F7 => Some(VirtualKeyCode::F7),
        PhysicalKeyCode::F8 => Some(VirtualKeyCode::F8),
        PhysicalKeyCode::F9 => Some(VirtualKeyCode::F9),
        PhysicalKeyCode::F10 => Some(VirtualKeyCode::F10),
        PhysicalKeyCode::F11 => Some(VirtualKeyCode::F11),
        PhysicalKeyCode::F12 => Some(VirtualKeyCode::F12),
        PhysicalKeyCode::PrintScreen => Some(VirtualKeyCode::Snapshot),
        PhysicalKeyCode::ScrollLock => Some(VirtualKeyCode::Scroll),
        PhysicalKeyCode::Pause => Some(VirtualKeyCode::Pause),
        PhysicalKeyCode::Insert => Some(VirtualKeyCode::Insert),
        PhysicalKeyCode::Home => Some(VirtualKeyCode::Home),
        PhysicalKeyCode::Delete => Some(VirtualKeyCode::Delete),
        PhysicalKeyCode::End => Some(VirtualKeyCode::End),
        PhysicalKeyCode::PageDown => Some(VirtualKeyCode::PageDown),
        PhysicalKeyCode::PageUp => Some(VirtualKeyCode::PageUp),
        PhysicalKeyCode::NumLock => Some(VirtualKeyCode::Numlock),
        PhysicalKeyCode::Numpad0 => Some(VirtualKeyCode::Numpad0),
        PhysicalKeyCode::Numpad1 => Some(VirtualKeyCode::Numpad1),
        PhysicalKeyCode::Numpad2 => Some(VirtualKeyCode::Numpad2),
        PhysicalKeyCode::Numpad3 => Some(VirtualKeyCode::Numpad3),
        PhysicalKeyCode::Numpad4 => Some(VirtualKeyCode::Numpad4),
        PhysicalKeyCode::Numpad5 => Some(VirtualKeyCode::Numpad5),
        PhysicalKeyCode::Numpad6 => Some(VirtualKeyCode::Numpad6),
        PhysicalKeyCode::Numpad7 => Some(VirtualKeyCode::Numpad7),
        PhysicalKeyCode::Numpad8 => Some(VirtualKeyCode::Numpad8),
        PhysicalKeyCode::Numpad9 => Some(VirtualKeyCode::Numpad9),
        PhysicalKeyCode::NumpadDecimal => Some(VirtualKeyCode::Decimal),
        PhysicalKeyCode::NumpadDivide => Some(VirtualKeyCode::Divide),
        PhysicalKeyCode::NumpadMultiply => Some(VirtualKeyCode::Multiply),
        PhysicalKeyCode::NumpadSubtract => Some(VirtualKeyCode::Subtract),
        PhysicalKeyCode::NumpadAdd => Some(VirtualKeyCode::Add),
        PhysicalKeyCode::NumpadEnter => Some(VirtualKeyCode::NumpadEnter),
        PhysicalKeyCode::NumpadEqual => Some(VirtualKeyCode::NumpadEquals),
        PhysicalKeyCode::NumpadComma => Some(VirtualKeyCode::NumpadComma),
        PhysicalKeyCode::ArrowLeft => Some(VirtualKeyCode::Left),
        PhysicalKeyCode::ArrowUp => Some(VirtualKeyCode::Up),
        PhysicalKeyCode::ArrowRight => Some(VirtualKeyCode::Right),
        PhysicalKeyCode::ArrowDown => Some(VirtualKeyCode::Down),
        PhysicalKeyCode::Backspace => Some(VirtualKeyCode::Back),
        PhysicalKeyCode::Enter => Some(VirtualKeyCode::Return),
        PhysicalKeyCode::Space => Some(VirtualKeyCode::Space),
        PhysicalKeyCode::Tab => Some(VirtualKeyCode::Tab),
        PhysicalKeyCode::ShiftLeft => Some(VirtualKeyCode::LShift),
        PhysicalKeyCode::ShiftRight => Some(VirtualKeyCode::RShift),
        PhysicalKeyCode::ControlLeft => Some(VirtualKeyCode::LControl),
        PhysicalKeyCode::ControlRight => Some(VirtualKeyCode::RControl),
        PhysicalKeyCode::AltLeft => Some(VirtualKeyCode::LAlt),
        PhysicalKeyCode::AltRight => Some(VirtualKeyCode::RAlt),
        PhysicalKeyCode::BracketLeft => Some(VirtualKeyCode::LBracket),
        PhysicalKeyCode::BracketRight => Some(VirtualKeyCode::RBracket),
        PhysicalKeyCode::Minus => Some(VirtualKeyCode::Minus),
        PhysicalKeyCode::Equal => Some(VirtualKeyCode::Equals),
        PhysicalKeyCode::Comma => Some(VirtualKeyCode::Comma),
        PhysicalKeyCode::Period => Some(VirtualKeyCode::Period),
        PhysicalKeyCode::Semicolon => Some(VirtualKeyCode::Semicolon),
        PhysicalKeyCode::Slash => Some(VirtualKeyCode::Slash),
        PhysicalKeyCode::Backslash => Some(VirtualKeyCode::Backslash),
        PhysicalKeyCode::Quote => Some(VirtualKeyCode::Apostrophe),
        PhysicalKeyCode::Backquote => Some(VirtualKeyCode::Grave),
        _ => None,
    }
}

/// Translates a physical key into the engine's key code (native back-end).
pub fn keycode_to_virtual_keycode(code: &PhysicalKeyCode) -> (r: Option<VirtualKeyCode>)
    ensures
        r == native_key_spec(*code),
{
    match code {
        PhysicalKeyCode::Backquote => Some(VirtualKeyCode::Grave),
        PhysicalKeyCode::Backslash => Some(VirtualKeyCode::Backslash),
        PhysicalKeyCode::BracketLeft => Some(VirtualKeyCode::LBracket),
        PhysicalKeyCode::BracketRight => Some(VirtualKeyCode::RBracket),
        PhysicalKeyCode::Comma => Some(VirtualKeyCode::Comma),
        PhysicalKeyCode::Digit0 => Some(VirtualKeyCode::Key0),
        PhysicalKeyCode::Digit1 => Some(VirtualKeyCode::Key1),
        PhysicalKeyCode::Digit2 => Some(VirtualKeyCode::Key2),
        PhysicalKeyCode::Digit3 => Some(VirtualKeyCode::Key3),
        PhysicalKeyCode::Digit4 => Some(VirtualKeyCode::Key4),
        PhysicalKeyCode::Digit5 => Some(VirtualKeyCode::Key5),
        PhysicalKeyCode::Digit6 => Some(VirtualKeyCode::Key6),
        PhysicalKeyCode::Digit7 => Some(VirtualKeyCode::Key7),
        PhysicalKeyCode::Digit8 => Some(VirtualKeyCode::Key8),
        PhysicalKeyCode::Digit9 => Some(VirtualKeyCode::Key9),
        PhysicalKeyCode::Equal => Some(VirtualKeyCode::Equals),
        PhysicalKeyCode::IntlBackslash => Some(VirtualKeyCode::Backslash),
        PhysicalKeyCode::IntlRo => Some(VirtualKeyCode::Backslash),
        PhysicalKeyCode::IntlYen => Some(VirtualKeyCode::Backslash),
        PhysicalKeyCode::KeyA => Some(VirtualKeyCode::A),
        PhysicalKeyCode::KeyB => Some(VirtualKeyCode::B),
        PhysicalKeyCode::KeyC => Some(VirtualKeyCode::C),
        PhysicalKeyCode::KeyD => Some(VirtualKeyCode::D),
        PhysicalKeyCode::KeyE => Some(VirtualKeyCode::E),
        PhysicalKeyCode::KeyF => Some(VirtualKeyCode::F),
        PhysicalKeyCode::KeyG => Some(VirtualKeyCode::G),
        PhysicalKeyCode::KeyH => Some(VirtualKeyCode::H),
        PhysicalKeyCode::KeyI => Some(VirtualKeyCode::I),
        PhysicalKeyCode::KeyJ => Some(VirtualKeyCode::J),
        PhysicalKeyCode::KeyK => Some(VirtualKeyCode::K),
        PhysicalKeyCode::KeyL => Some(VirtualKeyCode::L),
        PhysicalKeyCode::KeyM => Some(VirtualKeyCode::M),
        PhysicalKeyCode::KeyN => Some(VirtualKeyCode::N),
        PhysicalKeyCode::KeyO => Some(VirtualKeyCode::O),
        PhysicalKeyCode::KeyP => Some(VirtualKeyCode::P),
        PhysicalKeyCode::KeyQ => Some(VirtualKeyCode::Q),
        PhysicalKeyCode::KeyR => Some(VirtualKeyCode::R),
        PhysicalKeyCode::KeyS => Some(VirtualKeyCode::S),
        PhysicalKeyCode::KeyT => Some(VirtualKeyCode::T),
        PhysicalKeyCode::KeyU => Some(VirtualKeyCode::U),
        PhysicalKeyCode::KeyV => Some(VirtualKeyCode::V),
        PhysicalKeyCode::KeyW => Some(VirtualKeyCode::W),
        PhysicalKeyCode::KeyX => Some(VirtualKeyCode::X),
        PhysicalKeyCode::KeyY => Some(VirtualKeyCode::Y),
        PhysicalKeyCode::KeyZ => Some(VirtualKeyCode::Z),
        PhysicalKeyCode::Minus => Some(VirtualKeyCode::Minus),
        PhysicalKeyCode::Period => Some(VirtualKeyCode::Period),
        PhysicalKeyCode::Quote => Some(VirtualKeyCode::Apostrophe),
        PhysicalKeyCode::Semicolon => Some(VirtualKeyCode::Semicolon),
        PhysicalKeyCode::Slash => Some(VirtualKeyCode::Slash),
        PhysicalKeyCode::AltLeft => Some(VirtualKeyCode::LAlt),
        PhysicalKeyCode::AltRight => Some(VirtualKeyCode::RAlt),
        PhysicalKeyCode::Backspace => Some(VirtualKeyCode::Back),
        PhysicalKeyCode::CapsLock => Some(VirtualKeyCode::Capital),
        PhysicalKeyCode::ContextMenu => Some(VirtualKeyCode::Apps),
        PhysicalKeyCode::ControlLeft => Some(VirtualKeyCode::LControl),
        PhysicalKeyCode::ControlRight => Some(VirtualKeyCode::RControl),
        PhysicalKeyCode::Enter => Some(VirtualKeyCode::Return),
        PhysicalKeyCode::SuperLeft => Some(VirtualKeyCode::LWin),
        PhysicalKeyCode::SuperRight => Some(VirtualKeyCode::RWin),
        PhysicalKeyCode::ShiftLeft => Some(VirtualKeyCode::LShift),
        PhysicalKeyCode::ShiftRight => Some(VirtualKeyCode::RShift),
        PhysicalKeyCode::Space => Some(VirtualKeyCode::Space),
        PhysicalKeyCode::Tab => Some(VirtualKeyCode::Tab),
        PhysicalKeyCode::ArrowDown => Some(VirtualKeyCode::Down),
        PhysicalKeyCode::ArrowLeft => Some(VirtualKeyCode::Left),
        PhysicalKeyCode::ArrowRight => Some(VirtualKeyCode::Right),
        PhysicalKeyCode::ArrowUp => Some(VirtualKeyCode::Up),
        PhysicalKeyCode::Escape => Some(VirtualKeyCode::Escape),
        PhysicalKeyCode::End => Some(VirtualKeyCode::End),
        PhysicalKeyCode::Home => Some(VirtualKeyCode::Home),
        PhysicalKeyCode::Insert => Some(VirtualKeyCode::Insert),
        PhysicalKeyCode::Delete => Some(VirtualKeyCode::Delete),
        PhysicalKeyCode::PageDown => Some(VirtualKeyCode::PageDown),
        PhysicalKeyCode::PageUp => Some(VirtualKeyCode::PageUp),
        PhysicalKeyCode::PrintScreen => Some(VirtualKeyCode::Snapshot),
        PhysicalKeyCode::ScrollLock => Some(VirtualKeyCode::Scroll),
        PhysicalKeyCode::Pause => Some(VirtualKeyCode::Pause),
        PhysicalKeyCode::F1 => Some(VirtualKeyCode::F1),
        PhysicalKeyCode::F2 => Some(VirtualKeyCode::F2),
        PhysicalKeyCode::F3 => Some(VirtualKeyCode::F3),
        PhysicalKeyCode::F4 => Some(VirtualKeyCode::F4),
        PhysicalKeyCode::F5 => Some(VirtualKeyCode::F5),
        PhysicalKeyCode::F6 => Some(VirtualKeyCode::F6),
        PhysicalKeyCode::F7 => Some(VirtualKeyCode::F7),
        PhysicalKeyCode::F8 => Some(VirtualKeyCode::F8),
        PhysicalKeyCode::F9 => Some(VirtualKeyCode::F9),
        PhysicalKeyCode::F10 => Some(VirtualKeyCode::F10),
        PhysicalKeyCode::F11 => Some(VirtualKeyCode::F11),
        PhysicalKeyCode::F12 => Some(VirtualKeyCode::F12),
        PhysicalKeyCode::F13 => Some(VirtualKeyCode::F13),
        PhysicalKeyCode::F14 => Some(VirtualKeyCode::F14),
        PhysicalKeyCode::F15 => Some(VirtualKeyCode::F15),
        PhysicalKeyCode::F16 => Some(VirtualKeyCode::F16),
        PhysicalKeyCode::F17 => Some(VirtualKeyCode::F17),
        PhysicalKeyCode::F18 => Some(VirtualKeyCode::F18),
        PhysicalKeyCode::F19 => Some(VirtualKeyCode::F19),
        PhysicalKeyCode::F20 => Some(VirtualKeyCode::F20),
        PhysicalKeyCode::F21 => Some(VirtualKeyCode::F21),
        PhysicalKeyCode::F22 => Some(VirtualKeyCode::F22),
        PhysicalKeyCode::F23 => Some(VirtualKeyCode::F23),
        PhysicalKeyCode::F24 => Some(VirtualKeyCode::F24),
        PhysicalKeyCode::Numpad0 => Some(VirtualKeyCode::Numpad0),
        PhysicalKeyCode::Numpad1 => Some(VirtualKeyCode::Numpad1),
        PhysicalKeyCode::Numpad2 => Some(VirtualKeyCode::Numpad2),
        PhysicalKeyCode::Numpad3 => Some(VirtualKeyCode::Numpad3),
        PhysicalKeyCode::Numpad4 => Some(VirtualKeyCode::Numpad4),
        PhysicalKeyCode::Numpad5 => Some(VirtualKeyCode::Numpad5),
        PhysicalKeyCode::Numpad6 => Some(VirtualKeyCode::Numpad6),
        PhysicalKeyCode::Numpad7 => Some(VirtualKeyCode::Numpad7),
        PhysicalKeyCode::Numpad8 => Some(VirtualKeyCode::Numpad8),
        PhysicalKeyCode::Numpad9 => Some(VirtualKeyCode::Numpad9),
        PhysicalKeyCode::NumLock => Some(VirtualKeyCode::Numlock),
        PhysicalKeyCode::NumpadAdd => Some(VirtualKeyCode::Add),
        PhysicalKeyCode::NumpadBackspace => Some(VirtualKeyCode::Back),
        PhysicalKeyCode::NumpadComma => Some(VirtualKeyCode::NumpadComma),
        PhysicalKeyCode::NumpadDecimal => Some(VirtualKeyCode::Decimal),
        PhysicalKeyCode::NumpadDivide => Some(VirtualKeyCode::Divide),
        PhysicalKeyCode::NumpadEnter => Some(VirtualKeyCode::NumpadEnter),
        PhysicalKeyCode::NumpadEqual => Some(VirtualKeyCode::NumpadEquals),
        PhysicalKeyCode::NumpadMultiply => Some(VirtualKeyCode::Multiply),
        PhysicalKeyCode::NumpadSubtract => Some(VirtualKeyCode::Subtract),
        _ => None,
    }
}

/// Translates a physical key into the engine's key code (WebGPU back-end).
pub fn map_keycode(code: PhysicalKeyCode) -> (r: Option<VirtualKeyCode>)
    ensures
        r == webgpu_key_spec(code),
{
    match code {
        PhysicalKeyCode::Digit0 => Some(VirtualKeyCode::Key0),
        PhysicalKeyCode::Digit1 => Some(VirtualKeyCode::Key1),
        PhysicalKeyCode::Digit2 => Some(VirtualKeyCode::Key2),
        PhysicalKeyCode::Digit3 => Some(VirtualKeyCode::Key3),
        PhysicalKeyCode::Digit4 => Some(VirtualKeyCode::Key4),
        PhysicalKeyCode::Digit5 => Some(VirtualKeyCode::Key5),
        PhysicalKeyCode::Digit6 => Some(VirtualKeyCode::Key6),
        PhysicalKeyCode::Digit7 => Some(VirtualKeyCode::Key7),
        PhysicalKeyCode::Digit8 => Some(VirtualKeyCode::Key8),
        PhysicalKeyCode::Digit9 => Some(VirtualKeyCode::Key9),
        PhysicalKeyCode::KeyA => Some(VirtualKeyCode::A),
        PhysicalKeyCode::KeyB => Some(VirtualKeyCode::B),
        PhysicalKeyCode::KeyC => Some(VirtualKeyCode::C),
        PhysicalKeyCode::KeyD => Some(VirtualKeyCode::D),
        PhysicalKeyCode::KeyE => Some(VirtualKeyCode::E),
        PhysicalKeyCode::KeyF => Some(VirtualKeyCode::F),
        PhysicalKeyCode::KeyG => Some(VirtualKeyCode::G),
        PhysicalKeyCode::KeyH => Some(VirtualKeyCode::H),
        PhysicalKeyCode::KeyI => Some(VirtualKeyCode::I),
        PhysicalKeyCode::KeyJ => Some(VirtualKeyCode::J),
        PhysicalKeyCode::KeyK => Some(VirtualKeyCode::K),
        PhysicalKeyCode::KeyL => Some(VirtualKeyCode::L),
        PhysicalKeyCode::KeyM => Some(VirtualKeyCode::M),
        PhysicalKeyCode::KeyN => Some(VirtualKeyCode::N),
        PhysicalKeyCode::KeyO => Some(VirtualKeyCode::O),
        PhysicalKeyCode::KeyP => Some(VirtualKeyCode::P),
        PhysicalKeyCode::KeyQ => Some(VirtualKeyCode::Q),
        PhysicalKeyCode::KeyR => Some(VirtualKeyCode::R),
        PhysicalKeyCode::KeyS => Some(VirtualKeyCode::S),
        PhysicalKeyCode::KeyT => Some(VirtualKeyCode::T),
        PhysicalKeyCode::KeyU => Some(VirtualKeyCode::U),
        PhysicalKeyCode::KeyV => Some(VirtualKeyCode::V),
        PhysicalKeyCode::KeyW => Some(VirtualKeyCode::W),
        PhysicalKeyCode::KeyX => Some(VirtualKeyCode::X),
        PhysicalKeyCode::KeyY => Some(VirtualKeyCode::Y),
        PhysicalKeyCode::KeyZ => Some(VirtualKeyCode::Z),
        PhysicalKeyCode::Escape => Some(VirtualKeyCode::Escape),
        PhysicalKeyCode::F1 => Some(VirtualKeyCode::F1),
        PhysicalKeyCode::F2 => Some(VirtualKeyCode::F2),
        PhysicalKeyCode::F3 => Some(VirtualKeyCode::F3),
        PhysicalKeyCode::F4 => Some(VirtualKeyCode::F4),
        PhysicalKeyCode::F5 => Some(VirtualKeyCode::F5),
        PhysicalKeyCode::F6 => Some(VirtualKeyCode::F6),
        PhysicalKeyCode::F7 => Some(VirtualKeyCode::F7),
        PhysicalKeyCode::F8 => Some(VirtualKeyCode::F8),
        PhysicalKeyCode::F9 => Some(VirtualKeyCode::F9),
        PhysicalKeyCode::F10 => Some(VirtualKeyCode::F10),
        PhysicalKeyCode::F11 => Some(VirtualKeyCode::F11),
        PhysicalKeyCode::F12 => Some(VirtualKeyCode::F12),
        PhysicalKeyCode::PrintScreen => Some(VirtualKeyCode::Snapshot),
        PhysicalKeyCode::ScrollLock => Some(VirtualKeyCode::Scroll),
        PhysicalKeyCode::Pause => Some(VirtualKeyCode::Pause),
        PhysicalKeyCode::Insert => Some(VirtualKeyCode::Insert),
        PhysicalKeyCode::Home => Some(VirtualKeyCode::Home),
        PhysicalKeyCode::Delete => Some(VirtualKeyCode::Delete),
        PhysicalKeyCode::End => Some(VirtualKeyCode::End),
        PhysicalKeyCode::PageDown => Some(VirtualKeyCode::PageDown),
        PhysicalKeyCode::PageUp => Some(VirtualKeyCode::PageUp),
        PhysicalKeyCode::NumLock => Some(VirtualKeyCode::Numlock),
        PhysicalKeyCode::Numpad0 => Some(VirtualKeyCode::Numpad0),
        PhysicalKeyCode::Numpad1 => Some(VirtualKeyCode::Numpad1),
        PhysicalKeyCode::Numpad2 => Some(VirtualKeyCode::Numpad2),
        PhysicalKeyCode::Numpad3 => Some(VirtualKeyCode::Numpad3),
        PhysicalKeyCode::Numpad4 => Some(VirtualKeyCode::Numpad4),
        PhysicalKeyCode::Numpad5 => Some(VirtualKeyCode::Numpad5),
        PhysicalKeyCode::Numpad6 => Some(VirtualKeyCode::Numpad6),
        PhysicalKeyCode::Numpad7 => Some(VirtualKeyCode::Numpad7),
        PhysicalKeyCode::Numpad8 => Some(VirtualKeyCode::Numpad8),
        PhysicalKeyCode::Numpad9 => Some(VirtualKeyCode::Numpad9),
        PhysicalKeyCode::NumpadDecimal => Some(VirtualKeyCode::Decimal),
        PhysicalKeyCode::NumpadDivide => Some(VirtualKeyCode::Divide),
        PhysicalKeyCode::NumpadMultiply => Some(VirtualKeyCode::Multiply),
        PhysicalKeyCode::NumpadSubtract => Some(VirtualKeyCode::Subtract),
        PhysicalKeyCode::NumpadAdd => Some(VirtualKeyCode::Add),
        PhysicalKeyCode::NumpadEnter => Some(VirtualKeyCode::NumpadEnter),
        PhysicalKeyCode::NumpadEqual => Some(VirtualKeyCode::NumpadEquals),
        PhysicalKeyCode::NumpadComma => Some(VirtualKeyCode::NumpadComma),
        PhysicalKeyCode::ArrowLeft => Some(VirtualKeyCode::Left),
        PhysicalKeyCode::ArrowUp => Some(VirtualKeyCode::Up),
        PhysicalKeyCode::ArrowRight => Some(VirtualKeyCode::Right),
        PhysicalKeyCode::ArrowDown => Some(VirtualKeyCode::Down),
        PhysicalKeyCode::Backspace => Some(VirtualKeyCode::Back),
        PhysicalKeyCode::Enter => Some(VirtualKeyCode::Return),
        PhysicalKeyCode::Space => Some(VirtualKeyCode::Space),
        PhysicalKeyCode::Tab => Some(VirtualKeyCode::Tab),
        PhysicalKeyCode::ShiftLeft => Some(VirtualKeyCode::LShift),
        PhysicalKeyCode::ShiftRight => Some(VirtualKeyCode::RShift),
        PhysicalKeyCode::ControlLeft => Some(VirtualKeyCode::LControl),
        PhysicalKeyCode::ControlRight => Some(VirtualKeyCode::RControl),
        PhysicalKeyCode::AltLeft => Some(VirtualKeyCode::LAlt),
        PhysicalKeyCode::AltRight => Some(VirtualKeyCode::RAlt),
        PhysicalKeyCode::BracketLeft => Some(VirtualKeyCode::LBracket),
        PhysicalKeyCode::BracketRight => Some(VirtualKeyCode::RBracket),
        PhysicalKeyCode::Minus => Some(VirtualKeyCode::Minus),
        PhysicalKeyCode::Equal => Some(VirtualKeyCode::Equals),
        PhysicalKeyCode::Comma => Some(VirtualKeyCode::Comma),
        PhysicalKeyCode::Period => Some(VirtualKeyCode::Period),
        PhysicalKeyCode::Semicolon => Some(VirtualKeyCode::Semicolon),
        PhysicalKeyCode::Slash => Some(VirtualKeyCode::Slash),
        PhysicalKeyCode::Backslash => Some(VirtualKeyCode::Backslash),
        PhysicalKeyCode::Quote => Some(VirtualKeyCode::Apostrophe),
        PhysicalKeyCode::Backquote => Some(VirtualKeyCode::Grave),
        _ => None,
    }
}

/// The four directions of the arrow keys.
#[derive(Debug, PartialEq, Eq, Copy, Clone, Structural)]
pub enum Direction {
    Up,
    Down,
    Left,
    Right,
}

/// What a key is called, for the keys whose names follow a pattern: a
/// letter (0 for A to 25 for Z), a digit of the top row, a digit of the
/// numeric keypad, a function key by its number, or an arrow by its
/// direction.
#[derive(Debug, PartialEq, Eq, Copy, Clone, Structural)]
pub enum KeyName {
    Letter(u8),
    Digit(u8),
    NumpadDigit(u8),
    Function(u8),
    Arrow(Direction),
}

/// The name printed on a physical key, when it is a letter, a digit, a
/// function key or an arrow.
pub open spec fn physical_name(code: PhysicalKeyCode) -> Option<KeyName> {
    match code {
        PhysicalKeyCode::KeyA => Some(KeyName::Letter(0)),
        PhysicalKeyCode::KeyB => Some(KeyName::Letter(1)),
        PhysicalKeyCode::KeyC => Some(KeyName::Letter(2)),
        PhysicalKeyCode::KeyD => Some(KeyName::Letter(3)),
        PhysicalKeyCode::KeyE => Some(KeyName::Letter(4)),
        PhysicalKeyCode::KeyF => Some(KeyName::Letter(5)),
        PhysicalKeyCode::KeyG => Some(KeyName::Letter(6)),
        PhysicalKeyCode::KeyH => Some(KeyName::Letter(7)),
        PhysicalKeyCode::KeyI => Some(KeyName::Letter(8)),
        PhysicalKeyCode::KeyJ => Some(KeyName::Letter(9)),
        PhysicalKeyCode::KeyK => Some(KeyName::Letter(10)),
        PhysicalKeyCode::KeyL => Some(KeyName::Letter(11)),
        PhysicalKeyCode::KeyM => Some(KeyName::Letter(12)),
        PhysicalKeyCode::KeyN => Some(KeyName::Letter(13)),
        PhysicalKeyCode::KeyO => Some(KeyName::Letter(14)),
        PhysicalKeyCode::KeyP => Some(KeyName::Letter(15)),
        PhysicalKeyCode::KeyQ => Some(KeyName::Letter(16)),
        PhysicalKeyCode::KeyR => Some(KeyName::Letter(17)),
        PhysicalKeyCode::KeyS => Some(KeyName::Letter(18)),
        PhysicalKeyCode::KeyT => Some(KeyName::Letter(19)),
        PhysicalKeyCode::KeyU => Some(KeyName::Letter(20)),
        PhysicalKeyCode::KeyV => Some(KeyName::Letter(21)),
        PhysicalKeyCode::KeyW => Some(KeyName::Letter(22)),
        PhysicalKeyCode::KeyX => Some(KeyName::Letter(23)),
        PhysicalKeyCode::KeyY => Some(KeyName::Letter(24)),
        PhysicalKeyCode::KeyZ => Some(KeyName::Letter(25)),
        PhysicalKeyCode::Digit0 => Some(KeyName::Digit(0)),
        PhysicalKeyCode::Digit1 => Some(KeyName::Digit(1)),
        PhysicalKeyCode::Digit2 => Some(KeyName::Digit(2)),
        PhysicalKeyCode::Digit3 => Some(KeyName::Digit(3)),
        PhysicalKeyCode::Digit4 => Some(KeyName::Digit(4)),
        PhysicalKeyCode::Digit5 => Some(KeyName::Digit(5)),
        PhysicalKeyCode::Digit6 => Some(KeyName::Digit(6)),
        PhysicalKeyCode::Digit7 => Some(KeyName::Digit(7)),
        PhysicalKeyCode::Digit8 => Some(KeyName::Digit(8)),
        PhysicalKeyCode::Digit9 => Some(KeyName::Digit(9)),
        PhysicalKeyCode::Numpad0 => Some(KeyName::NumpadDigit(0)),
        PhysicalKeyCode::Numpad1 => Some(KeyName::NumpadDigit(1)),
        PhysicalKeyCode::Numpad2 => Some(KeyName::NumpadDigit(2)),
        PhysicalKeyCode::Numpad3 => Some(KeyName::NumpadDigit(3)),
        PhysicalKeyCode::Numpad4 => Some(KeyName::NumpadDigit(4)),
        PhysicalKeyCode::Numpad5 => Some(KeyName::NumpadDigit(5)),
        PhysicalKeyCode::Numpad6 => Some(KeyName::NumpadDigit(6)),
        PhysicalKeyCode::Numpad7 => Some(KeyName::NumpadDigit(7)),
        PhysicalKeyCode::Numpad8 => Some(KeyName::NumpadDigit(8)),
        PhysicalKeyCode::Numpad9 => Some(KeyName::NumpadDigit(9)),
        PhysicalKeyCode::F1 => Some(KeyName::Function(1)),
        PhysicalKeyCode::F2 => Some(KeyName::Function(2)),
        PhysicalKeyCode::F3 => Some(KeyName::Function(3)),
        PhysicalKeyCode::F4 => Some(KeyName::Function(4)),
        PhysicalKeyCode::F5 => Some(KeyName::Function(5)),
        PhysicalKeyCode::F6 => Some(KeyName::Function(6)),
        PhysicalKeyCode::F7 => Some(KeyName::Function(7)),
        PhysicalKeyCode::F8 => Some(KeyName::Function(8)),
        PhysicalKeyCode::F9 => Some(KeyName::Function(9)),
        PhysicalKeyCode::F10 => Some(KeyName::Function(10)),
        PhysicalKeyCode::F11 => Some(KeyName::Function(11)),
        PhysicalKeyCode::F12 => Some(KeyName::Function(12)),
        PhysicalKeyCode::F13 => Some(KeyName::Function(13)),
        PhysicalKeyCode::F14 => Some(KeyName::Function(14)),
        PhysicalKeyCode::F15 => Some(KeyName::Function(15)),
        PhysicalKeyCode::F16 => Some(KeyName::Function(16)),
        PhysicalKeyCode::F17 => Some(KeyName::Function(17)),
        PhysicalKeyCode::F18 => Some(KeyName::Function(18)),
        PhysicalKeyCode::F19 => Some(KeyName::Function(19)),
        PhysicalKeyCode::F20 => Some(KeyName::Function(20)),
        PhysicalKeyCode::F21 => Some(KeyName::Function(21)),
        PhysicalKeyCode::F22 => Some(KeyName::Function(22)),
        PhysicalKeyCode::F23 => Some(KeyName::Function(23)),
        PhysicalKeyCode::F24 => Some(KeyName::Function(24)),
        PhysicalKeyCode::ArrowUp => Some(KeyName::Arrow(Direction::Up)),
        PhysicalKeyCode::ArrowDown => Some(KeyName::Arrow(Direction::Down)),
        PhysicalKeyCode::ArrowLeft => Some(KeyName::Arrow(Direction::Left)),
        PhysicalKeyCode::ArrowRight => Some(KeyName::Arrow(Direction::Right)),
        _ => None,
    }
}

/// The name of an engine key, when it is a letter, a digit, a function key
/// or an arrow.
pub open spec fn engine_name(key: VirtualKeyCode) -> Option<KeyName> {
    match key {
        VirtualKeyCode::A => Some(KeyName::Letter(0)),
        VirtualKeyCode::B => Some(KeyName::Letter(1)),
        VirtualKeyCode::C => Some(KeyName::Letter(2)),
        VirtualKeyCode::D => Some(KeyName::Letter(3)),
        VirtualKeyCode::E => Some(KeyName::Letter(4)),
        VirtualKeyCode::F => Some(KeyName::Letter(5)),
        VirtualKeyCode::G => Some(KeyName::Letter(6)),
        VirtualKeyCode::H => Some(KeyName::Letter(7)),
        VirtualKeyCode::I => Some(KeyName::Letter(8)),
        VirtualKeyCode::J => Some(KeyName::Letter(9)),
        VirtualKeyCode::K => Some(KeyName::Letter(10)),
        VirtualKeyCode::L => Some(KeyName::Letter(11)),
        VirtualKeyCode::M => Some(KeyName::Letter(12)),
        VirtualKeyCode::N => Some(KeyName::Letter(13)),
        VirtualKeyCode::O => Some(KeyName::Letter(14)),
        VirtualKeyCode::P => Some(KeyName::Letter(15)),
        VirtualKeyCode::Q => Some(KeyName::Letter(16)),
        VirtualKeyCode::R => Some(KeyName::Letter(17)),
        VirtualKeyCode::S => Some(KeyName::Letter(18)),
        VirtualKeyCode::T => Some(KeyName::Letter(19)),
        VirtualKeyCode::U => Some(KeyName::Letter(20)),
        VirtualKeyCode::V => Some(KeyName::Letter(21)),
        VirtualKeyCode::W => Some(KeyName::Letter(22)),
        VirtualKeyCode::X => Some(KeyName::Letter(23)),
        VirtualKeyCode::Y => Some(KeyName::Letter(24)),
        VirtualKeyCode::Z => Some(KeyName::Letter(25)),
        VirtualKeyCode::Key0 => Some(KeyName::Digit(0)),
        VirtualKeyCode::Key1 => Some(KeyName::Digit(1)),
        VirtualKeyCode::Key2 => Some(KeyName::Digit(2)),
        VirtualKeyCode::Key3 => Some(KeyName::Digit(3)),
        VirtualKeyCode::Key4 => Some(KeyName::Digit(4)),
        VirtualKeyCode::Key5 => Some(KeyName::Digit(5)),
        VirtualKeyCode::Key6 => Some(KeyName::Digit(6)),
        VirtualKeyCode::Key7 => Some(KeyName::Digit(7)),
        VirtualKeyCode::Key8 => Some(KeyName::Digit(8)),
        VirtualKeyCode::Key9 => Some(KeyName::Digit(9)),
        VirtualKeyCode::Numpad0 => Some(KeyName::NumpadDigit(0)),
        VirtualKeyCode::Numpad1 => Some(KeyName::NumpadDigit(1)),
        VirtualKeyCode::Numpad2 => Some(KeyName::NumpadDigit(2)),
        VirtualKeyCode::Numpad3 => Some(KeyName::NumpadDigit(3)),
        VirtualKeyCode::Numpad4 => Some(KeyName::NumpadDigit(4)),
        VirtualKeyCode::Numpad5 => Some(KeyName::NumpadDigit(5)),
        VirtualKeyCode::Numpad6 => Some(KeyName::NumpadDigit(6)),
        VirtualKeyCode::Numpad7 => Some(KeyName::NumpadDigit(7)),
        VirtualKeyCode::Numpad8 => Some(KeyName::NumpadDigit(8)),
        VirtualKeyCode::Numpad9 => Some(KeyName::NumpadDigit(9)),
        VirtualKeyCode::F1 => Some(KeyName::Function(1)),
        VirtualKeyCode::F2 => Some(KeyName::Function(2)),
        VirtualKeyCode::F3 => Some(KeyName::Function(3)),
        VirtualKeyCode::F4 => Some(KeyName::Function(4)),
        VirtualKeyCode::F5 => Some(KeyName::Function(5)),
        VirtualKeyCode::F6 => Some(KeyName::Function(6)),
        VirtualKeyCode::F7 => Some(KeyName::Function(7)),
        VirtualKeyCode::F8 => Some(KeyName::Function(8)),
        VirtualKeyCode::F9 => Some(KeyName::Function(9)),
        VirtualKeyCode::F10 => Some(KeyName::Function(10)),
        VirtualKeyCode::F11 => Some(KeyName::Function(11)),
        VirtualKeyCode::F12 => Some(KeyName::Function(12)),
        VirtualKeyCode::F13 => Some(KeyName::Function(13)),
        VirtualKeyCode::F14 => Some(KeyName::Function(14)),
        VirtualKeyCode::F15 => Some(KeyName::Function(15)),
        VirtualKeyCode::F16 => Some(KeyName::Function(16)),
        VirtualKeyCode::F17 => Some(KeyName::Function(17)),
        VirtualKeyCode::F18 => Some(KeyName::Function(18)),
        VirtualKeyCode::F19 => Some(KeyName::Function(19)),
        VirtualKeyCode::F20 => Some(KeyName::Function(20)),
        VirtualKeyCode::F21 => Some(KeyName::Function(21)),
        VirtualKeyCode::F22 => Some(KeyName::Function(22)),
        VirtualKeyCode::F23 => Some(KeyName::Function(23)),
        VirtualKeyCode::F24 => Some(KeyName::Function(24)),
        VirtualKeyCode::Up => Some(KeyName::Arrow(Direction::Up)),
        VirtualKeyCode::Down => Some(KeyName::Arrow(Direction::Down)),
        VirtualKeyCode::Left => Some(KeyName::Arrow(Direction::Left)),
        VirtualKeyCode::Right => Some(KeyName::Arrow(Direction::Right)),
        _ => None,
    }
}

/// Both back-ends give a key the engine key of the same name: the native
/// back-end maps every lettered, numbered, function or arrow key to the
/// engine key with that name, the WebGPU back-end does so for all of them
/// but the function keys past F12, and neither maps any other key to an
/// engine key of one of those names.
pub proof fn lemma_keys_keep_their_names(code: PhysicalKeyCode)
    ensures
        physical_name(code) is Some ==> native_key_spec(code) is Some,
        physical_name(code) is Some && !(physical_name(code) matches Some(KeyName::Function(n)) && n > 12)
            ==> webgpu_key_spec(code) is Some,
        native_key_spec(code) matches Some(v) ==> engine_name(v) == physical_name(code),
        webgpu_key_spec(code) matches Some(v) ==> engine_name(v) == physical_name(code),
{
}

/// The WebGPU back-end maps a key only where the native back-end maps it,
/// and to the same engine key.
pub proof fn lemma_backends_agree(code: PhysicalKeyCode)
    ensures
        webgpu_key_spec(code) is Some ==> webgpu_key_spec(code) == native_key_spec(code),
{
}

/// No two physical keys that the WebGPU back-end maps give the same engine
/// key.
pub proof fn lemma_webgpu_injective(a: PhysicalKeyCode, b: PhysicalKeyCode)
    ensures
        webgpu_key_spec(a) is Some && webgpu_key_spec(a) == webgpu_key_spec(b) ==> a == b,
{
}

} // verus!
