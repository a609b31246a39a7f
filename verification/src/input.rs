use vstd::prelude::*;
use crate::io::{Mouse, State};

verus! {

/// The physical keys that the toolkit names; every other key is `Other`.
#[derive(Debug, Clone, Copy, PartialEq, Eq, Structural)]
pub enum KeyCode {
    KeyA,
    KeyB,
    KeyC,
    KeyD,
    KeyE,
    KeyF,
    KeyG,
    KeyH,
    KeyI,
    KeyJ,
    KeyK,
    KeyL,
    KeyM,
    KeyN,
    KeyO,
    KeyP,
    KeyQ,
    KeyR,
    KeyS,
    KeyT,
    KeyU,
    KeyV,
    KeyW,
    KeyX,
    KeyY,
    KeyZ,
    Digit0,
    Digit1,
    Digit2,
    Digit3,
    Digit4,
    Digit5,
    Digit6,
    Digit7,
    Digit8,
    Digit9,
    Backquote,
    Backslash,
    BracketLeft,
    BracketRight,
    Comma,
    Equal,
    Minus,
    Period,
    Quote,
    Semicolon,
    Slash,
    Space,
    AltLeft,
    AltRight,
    Backspace,
    CapsLock,
    Enter,
    Escape,
    Tab,
    ArrowUp,
    ArrowDown,
    ArrowLeft,
    ArrowRight,
    Other,
}

/// A key as the windowing system reports it: a known key code, or a key
/// that the system could not identify.
#[derive(Debug, Clone, Copy, PartialEq, Eq, Structural)]
pub enum PhysicalKey {
    Code(KeyCode),
    Unidentified,
}

/// Whether a key or button went down or up, as the windowing system says.
#[derive(Debug, Clone, Copy, PartialEq, Eq, Structural)]
pub enum ElementState {
    Pressed,
    Released,
}

/// A mouse button as the windowing system reports it.
#[derive(Debug, Clone, Copy, PartialEq, Eq, Structural)]
pub enum MouseButton {
    Left,
    Right,
    Middle,
    Back,
    Forward,
    Other(u16),
}

/// A key stroke delivered to an application's key handler: the key's name
/// and whether it went down or up.
#[derive(Debug, Clone, Copy, PartialEq, Eq)]
pub enum KeyEvent {
    Press(&'static str),
    Release(&'static str),
}

/// The name of a key: the character it types for letters, digits and
/// symbols, the variant name for the other named keys, "Unknown" otherwise.
pub open spec fn key_name(key: KeyCode) -> &'static str {
    match key {
        KeyCode::KeyA => "a",
        KeyCode::KeyB => "b",
        KeyCode::KeyC => "c",
        KeyCode::KeyD => "d",
        KeyCode::KeyE => "e",
        KeyCode::KeyF => "f",
        KeyCode::KeyG => "g",
        KeyCode::KeyH => "h",
        KeyCode::KeyI => "i",
        KeyCode::KeyJ => "j",
        KeyCode::KeyK => "k",
        KeyCode::KeyL => "l",
        KeyCode::KeyM => "m",
        KeyCode::KeyN => "n",
        KeyCode::KeyO => "o",
        KeyCode::KeyP => "p",
        KeyCode::KeyQ => "q",
        KeyCode::KeyR => "r",
        KeyCode::KeyS => "s",
        KeyCode::KeyT => "t",
        KeyCode::KeyU => "u",
        KeyCode::KeyV => "v",
        KeyCode::KeyW => "w",
        KeyCode::KeyX => "x",
        KeyCode::KeyY => "y",
        KeyCode::KeyZ => "z",
        KeyCode::Digit0 => "0",
        KeyCode::Digit1 => "1",
        KeyCode::Digit2 => "2",
        KeyCode::Digit3 => "3",
        KeyCode::Digit4 => "4",
        KeyCode::Digit5 => "5",
        KeyCode::Digit6 => "6",
        KeyCode::Digit7 => "7",
        KeyCode::Digit8 => "8",
        KeyCode::Digit9 => "9",
        KeyCode::Backquote => "`",
        KeyCode::Backslash => "\\",
        KeyCode::BracketLeft => "[",
        KeyCode::BracketRight => "]",
        KeyCode::Comma => ",",
        KeyCode::Equal => "=",
        KeyCode::Minus => "-",
        KeyCode::Period => ".",
        KeyCode::Quote => "'",
        KeyCode::Semicolon => ";",
        KeyCode::Slash => "/",
        KeyCode::Space => " ",
        KeyCode::AltLeft => "AltLeft",
        KeyCode::AltRight => "AltRight",
        KeyCode::Backspace => "Backspace",
        KeyCode::CapsLock => "CapsLock",
        KeyCode::Enter => "Enter",
        KeyCode::Escape => "Escape",
        KeyCode::Tab => "Tab",
        KeyCode::ArrowUp => "ArrowUp",
        KeyCode::ArrowDown => "ArrowDown",
        KeyCode::ArrowLeft => "ArrowLeft",
        KeyCode::ArrowRight => "ArrowRight",
        KeyCode::Other => "Unknown",
    }
}

/// The key stroke that a key event of the windowing system stands for.
pub open spec fn key_event_of(key: PhysicalKey, state: ElementState) -> KeyEvent {
    match key {
        PhysicalKey::Code(code) => match state {
            ElementState::Pressed => KeyEvent::Press(key_name(code)),
            ElementState::Released => KeyEvent::Release(key_name(code)),
        },
        PhysicalKey::Unidentified => KeyEvent::Press("Unknown"),
    }
}

/// The widget-side button of a windowing-system mouse button.
pub open spec fn mouse_of(button: MouseButton) -> Mouse {
    match button {
        MouseButton::Left => Mouse::Left,
        MouseButton::Right => Mouse::Right,
        MouseButton::Middle => Mouse::Middle,
        _ => Mouse::Unknown,
    }
}

/// The widget-side state of a windowing-system element state.
pub open spec fn state_of(state: ElementState) -> State {
    match state {
        ElementState::Pressed => State::Pressed,
        ElementState::Released => State::Released,
    }
}

/// Names a key (see `key_name`).
pub fn keycode_to_str(key: KeyCode) -> (name: &'static str)
    ensures
        name == key_name(key),
{
    match key {
        KeyCode::KeyA => "a",
        KeyCode::KeyB => "b",
        KeyCode::KeyC => "c",
        KeyCode::KeyD => "d",
        KeyCode::KeyE => "e",
        KeyCode::KeyF => "f",
        KeyCode::KeyG => "g",
        KeyCode::KeyH => "h",
        KeyCode::KeyI => "i",
        KeyCode::KeyJ => "j",
        KeyCode::KeyK => "k",
        KeyCode::KeyL => "l",
        KeyCode::KeyM => "m",
        KeyCode::KeyN => "n",
        KeyCode::KeyO => "o",
        KeyCode::KeyP => "p",
        KeyCode::KeyQ => "q",
        KeyCode::KeyR => "r",
        KeyCode::KeyS => "s",
        KeyCode::KeyT => "t",
        KeyCode::KeyU => "u",
        KeyCode::KeyV => "v",
        KeyCode::KeyW => "w",
        KeyCode::KeyX => "x",
        KeyCode::KeyY => "y",
        KeyCode::KeyZ => "z",
        KeyCode::Digit0 => "0",
        KeyCode::Digit1 => "1",
        KeyCode::Digit2 => "2",
        KeyCode::Digit3 => "3",
        KeyCode::Digit4 => "4",
        KeyCode::Digit5 => "5",
        KeyCode::Digit6 => "6",
        KeyCode::Digit7 => "7",
        KeyCode::Digit8 => "8",
        KeyCode::Digit9 => "9",
        KeyCode::Backquote => "`",
        KeyCode::Backslash => "\\",
        KeyCode::BracketLeft => "[",
        KeyCode::BracketRight => "]",
        KeyCode::Comma => ",",
        KeyCode::Equal => "=",
        KeyCode::Minus => "-",
        KeyCode::Period => ".",
        KeyCode::Quote => "'",
        KeyCode::Semicolon => ";",
        KeyCode::Slash => "/",
        KeyCode::Space => " ",
        KeyCode::AltLeft => "AltLeft",
        KeyCode::AltRight => "AltRight",
        KeyCode::Backspace => "Backspace",
        KeyCode::CapsLock => "CapsLock",
        KeyCode::Enter => "Enter",
        KeyCode::Escape => "Escape",
        KeyCode::Tab => "Tab",
        KeyCode::ArrowUp => "ArrowUp",
        KeyCode::ArrowDown => "ArrowDown",
        KeyCode::ArrowLeft => "ArrowLeft",
        KeyCode::ArrowRight => "ArrowRight",
        KeyCode::Other => "Unknown",
    }
}

/// Translates a keyboard event: a pressed or released known key is named by
/// `keycode_to_str`; an unidentified key is reported as a press of "Unknown",
/// whatever its state.
pub fn translate_key(key: PhysicalKey, state: ElementState) -> (event: KeyEvent)
    ensures
        event == key_event_of(key, state),
{
    match key {
        PhysicalKey::Code(code) => {
            let name = keycode_to_str(code);
            match state {
                ElementState::Pressed => KeyEvent::Press(name),
                ElementState::Released => KeyEvent::Release(name),
            }
        },
        PhysicalKey::Unidentified => KeyEvent::Press("Unknown"),
    }
}

/// Translates a mouse button: left, right and middle keep their names, every
/// other button becomes `Mouse::Unknown`.
pub fn translate_button(button: MouseButton) -> (mouse: Mouse)
    ensures
        mouse == mouse_of(button),
{
    match button {
        MouseButton::Left => Mouse::Left,
        MouseButton::Right => Mouse::Right,
        MouseButton::Middle => Mouse::Middle,
        _ => Mouse::Unknown,
    }
}

/// Translates a pressed/released state.
pub fn translate_state(state: ElementState) -> (res: State)
    ensures
        res == state_of(state),
{
    match state {
        ElementState::Pressed => State::Pressed,
        ElementState::Released => State::Released,
    }
}

/// Letters are named by the lower-case letter they type, digits by the
/// digit, symbol keys by their symbol, the other named keys by their own
/// names, and every other key "Unknown".
pub proof fn law_key_names()
    ensures
        key_name(KeyCode::KeyA) == "a",
        key_name(KeyCode::KeyB) == "b",
        key_name(KeyCode::KeyC) == "c",
        key_name(KeyCode::KeyD) == "d",
        key_name(KeyCode::KeyE) == "e",
        key_name(KeyCode::KeyF) == "f",
        key_name(KeyCode::KeyG) == "g",
        key_name(KeyCode::KeyH) == "h",
        key_name(KeyCode::KeyI) == "i",
        key_name(KeyCode::KeyJ) == "j",
        key_name(KeyCode::KeyK) == "k",
        key_name(KeyCode::KeyL) == "l",
        key_name(KeyCode::KeyM) == "m",
        key_name(KeyCode::KeyN) == "n",
        key_name(KeyCode::KeyO) == "o",
        key_name(KeyCode::KeyP) == "p",
        key_name(KeyCode::KeyQ) == "q",
        key_name(KeyCode::KeyR) == "r",
        key_name(KeyCode::KeyS) == "s",
        key_name(KeyCode::KeyT) == "t",
        key_name(KeyCode::KeyU) == "u",
        key_name(KeyCode::KeyV) == "v",
        key_name(KeyCode::KeyW) == "w",
        key_name(KeyCode::KeyX) == "x",
        key_name(KeyCode::KeyY) == "y",
        key_name(KeyCode::KeyZ) == "z",
        key_name(KeyCode::Digit0) == "0",
        key_name(KeyCode::Digit1) == "1",
        key_name(KeyCode::Digit2) == "2",
        key_name(KeyCode::Digit3) == "3",
        key_name(KeyCode::Digit4) == "4",
        key_name(KeyCode::Digit5) == "5",
        key_name(KeyCode::Digit6) == "6",
        key_name(KeyCode::Digit7) == "7",
        key_name(KeyCode::Digit8) == "8",
        key_name(KeyCode::Digit9) == "9",
        key_name(KeyCode::Backquote) == "`",
        key_name(KeyCode::Backslash) == "\\",
        key_name(KeyCode::BracketLeft) == "[",
        key_name(KeyCode::BracketRight) == "]",
        key_name(KeyCode::Comma) == ",",
        key_name(KeyCode::Equal) == "=",
        key_name(KeyCode::Minus) == "-",
        key_name(KeyCode::Period) == ".",
        key_name(KeyCode::Quote) == "'",
        key_name(KeyCode::Semicolon) == ";",
        key_name(KeyCode::Slash) == "/",
        key_name(KeyCode::Space) == " ",
        key_name(KeyCode::AltLeft) == "AltLeft",
        key_name(KeyCode::AltRight) == "AltRight",
        key_name(KeyCode::Backspace) == "Backspace",
        key_name(KeyCode::CapsLock) == "CapsLock",
        key_name(KeyCode::Enter) == "Enter",
        key_name(KeyCode::Escape) == "Escape",
        key_name(KeyCode::Tab) == "Tab",
        key_name(KeyCode::ArrowUp) == "ArrowUp",
        key_name(KeyCode::ArrowDown) == "ArrowDown",
        key_name(KeyCode::ArrowLeft) == "ArrowLeft",
        key_name(KeyCode::ArrowRight) == "ArrowRight",
        key_name(KeyCode::Other) == "Unknown",
{
}

/// A keyboard event keeps its state: a pressed known key is a press of its
/// name, a released one a release of its name; an unidentified key is a press
/// of "Unknown" whatever its state.
pub proof fn law_key_event_keeps_state(code: KeyCode)
    ensures
        key_event_of(PhysicalKey::Code(code), ElementState::Pressed) == KeyEvent::Press(key_name(code)),
        key_event_of(PhysicalKey::Code(code), ElementState::Released) == KeyEvent::Release(
            key_name(code),
        ),
        key_event_of(PhysicalKey::Unidentified, ElementState::Pressed) == KeyEvent::Press("Unknown"),
        key_event_of(PhysicalKey::Unidentified, ElementState::Released) == KeyEvent::Press(
            "Unknown",
        ),
{
}

} // verus!
