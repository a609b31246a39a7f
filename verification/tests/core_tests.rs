use skip::child::next_in_line;
use skip::cn::TextBox;
use skip::color::Color;
use skip::coption::{CNone, COption, CSome};
use skip::dispatch::{Action, Control, Dispatcher, WindowEvent, FRAME_NANOS};
use skip::input::{
    keycode_to_str, translate_button, translate_key, translate_state, ElementState, KeyCode,
    KeyEvent, MouseButton, PhysicalKey,
};
use skip::io::{Mouse, State};
use skip::resource::add_resource;
use skip::vec2::Vec2;

#[test]
fn color_from_tuple_and_unit() {
    let c: Color = (16u8, 20u8, 28u8, 255u8).into();
    assert_eq!(c, Color { r: 16, g: 20, b: 28, a: 255 });
    let z: Color = ().into();
    assert_eq!(z, Color { r: 0, g: 0, b: 0, a: 0 });
}

#[test]
fn color_from_references_copies() {
    let mut c = Color { r: 1, g: 2, b: 3, a: 4 };
    let d: Color = Color::from(&c);
    assert_eq!(d, c);
    let e: Color = Color::from(&mut c);
    assert_eq!(e, Color { r: 1, g: 2, b: 3, a: 4 });
}

#[test]
fn vec2_constructors() {
    let v = Vec2::new(3i32, -4i32);
    assert_eq!((v.x, v.y), (3, -4));
    let w: Vec2<u8> = (7u8, 9u8).into();
    assert_eq!((w.x, w.y), (7, 9));
    let u: Vec2<u8> = Vec2::from(&w);
    assert_eq!((u.x, u.y), (7, 9));
    let r: &Vec2<u8> = w.as_ref();
    assert_eq!((r.x, r.y), (7, 9));
}

#[test]
fn key_names() {
    assert_eq!(keycode_to_str(KeyCode::KeyA), "a");
    assert_eq!(keycode_to_str(KeyCode::KeyZ), "z");
    assert_eq!(keycode_to_str(KeyCode::Digit0), "0");
    assert_eq!(keycode_to_str(KeyCode::Digit9), "9");
    assert_eq!(keycode_to_str(KeyCode::Backslash), "\\");
    assert_eq!(keycode_to_str(KeyCode::Space), " ");
    assert_eq!(keycode_to_str(KeyCode::ArrowRight), "ArrowRight");
    assert_eq!(keycode_to_str(KeyCode::Enter), "Enter");
    assert_eq!(keycode_to_str(KeyCode::Other), "Unknown");
}

#[test]
fn key_events() {
    assert_eq!(
        translate_key(PhysicalKey::Code(KeyCode::KeyQ), ElementState::Pressed),
        KeyEvent::Press("q")
    );
    assert_eq!(
        translate_key(PhysicalKey::Code(KeyCode::Tab), ElementState::Released),
        KeyEvent::Release("Tab")
    );
    assert_eq!(
        translate_key(PhysicalKey::Unidentified, ElementState::Released),
        KeyEvent::Press("Unknown")
    );
}

#[test]
fn mouse_buttons_and_states() {
    assert_eq!(translate_button(MouseButton::Left), Mouse::Left);
    assert_eq!(translate_button(MouseButton::Right), Mouse::Right);
    assert_eq!(translate_button(MouseButton::Middle), Mouse::Middle);
    assert_eq!(translate_button(MouseButton::Back), Mouse::Unknown);
    assert_eq!(translate_button(MouseButton::Other(9)), Mouse::Unknown);
    assert_eq!(translate_state(ElementState::Pressed), State::Pressed);
    assert_eq!(translate_state(ElementState::Released), State::Released);
}

#[test]
fn redraw_needs_focus() {
    let mut d = Dispatcher::new(0);
    d.add_window(5);
    assert_eq!(d.handle_event(5, WindowEvent::RedrawRequested), Action::Nothing);
    assert_eq!(d.handle_event(5, WindowEvent::Focused), Action::Nothing);
    assert_eq!(d.handle_event(5, WindowEvent::RedrawRequested), Action::Draw);
}

#[test]
fn focus_moves_to_last_focused_window() {
    let mut d = Dispatcher::new(0);
    d.add_window(1);
    d.add_window(2);
    d.handle_event(1, WindowEvent::Focused);
    d.handle_event(2, WindowEvent::Focused);
    assert_eq!(d.handle_event(1, WindowEvent::RedrawRequested), Action::Nothing);
    assert_eq!(d.handle_event(2, WindowEvent::RedrawRequested), Action::Draw);
}

#[test]
fn unknown_window_is_ignored() {
    let mut d = Dispatcher::new(0);
    d.add_window(1);
    let ev = WindowEvent::MouseInput { button: MouseButton::Left, state: ElementState::Pressed };
    assert_eq!(d.handle_event(2, ev), Action::Nothing);
    assert!(d.pending_mouse().is_empty());
    assert_eq!(d.handle_event(2, WindowEvent::Resized), Action::Nothing);
    assert_eq!(d.handle_event(2, WindowEvent::CloseRequested), Action::Nothing);
    assert!(d.is_open(1));
}

#[test]
fn closed_window_stays_closed() {
    let mut d = Dispatcher::new(0);
    d.add_window(4);
    assert_eq!(d.handle_event(4, WindowEvent::CloseRequested), Action::Close);
    assert!(!d.is_open(4));
    assert_eq!(d.handle_event(4, WindowEvent::Focused), Action::Nothing);
    assert_eq!(d.handle_event(4, WindowEvent::RedrawRequested), Action::Nothing);
    assert_eq!(d.handle_event(4, WindowEvent::CursorMoved), Action::Nothing);
}

#[test]
fn event_actions() {
    let mut d = Dispatcher::new(0);
    d.add_window(3);
    assert_eq!(d.handle_event(3, WindowEvent::Resized), Action::Resize);
    assert_eq!(d.handle_event(3, WindowEvent::CursorMoved), Action::MoveCursor);
    assert_eq!(d.handle_event(3, WindowEvent::Other), Action::Nothing);
    assert_eq!(
        d.handle_event(
            3,
            WindowEvent::KeyboardInput {
                key: PhysicalKey::Code(KeyCode::Digit7),
                state: ElementState::Pressed
            }
        ),
        Action::Key(KeyEvent::Press("7"))
    );
}

#[test]
fn mouse_events_queue_until_frame() {
    let mut d = Dispatcher::new(0);
    d.add_window(3);
    d.handle_event(
        3,
        WindowEvent::MouseInput { button: MouseButton::Left, state: ElementState::Pressed },
    );
    d.handle_event(
        3,
        WindowEvent::MouseInput { button: MouseButton::Forward, state: ElementState::Released },
    );
    d.handle_event(3, WindowEvent::CursorMoved);
    assert_eq!(
        d.pending_mouse().clone(),
        vec![(Mouse::Left, State::Pressed), (Mouse::Unknown, State::Released)]
    );
    d.finish_frame(3, 10, None);
    assert!(d.pending_mouse().is_empty());
}

#[test]
fn requested_frame_is_scheduled() {
    let mut d = Dispatcher::new(0);
    d.add_window(3);
    d.add_window(8);
    let w = d.schedule(0);
    assert!(w.redraw.is_empty());
    assert_eq!(w.until, None);
    d.finish_frame(3, 100, Some(50));
    d.finish_frame(8, 100, Some(20));
    let w = d.schedule(119);
    assert!(w.redraw.is_empty());
    assert_eq!(w.until, Some(120));
    let w = d.schedule(120);
    assert_eq!(w.redraw, vec![8]);
    assert_eq!(w.until, Some(150));
    let w = d.schedule(150);
    assert_eq!(w.redraw, vec![3]);
    assert_eq!(w.until, Some(120 + FRAME_NANOS));
}

#[test]
fn overdue_frame_advances_one_frame() {
    let mut d = Dispatcher::new(0);
    d.add_window(1);
    d.finish_frame(1, 0, Some(5));
    let w = d.schedule(5 + 3 * FRAME_NANOS);
    assert_eq!(w.redraw, vec![1]);
    assert_eq!(w.until, Some(5 + FRAME_NANOS));
    let w = d.schedule(5 + 3 * FRAME_NANOS);
    assert_eq!(w.redraw, vec![1]);
    assert_eq!(w.until, Some(5 + 2 * FRAME_NANOS));
}

#[test]
fn reopening_resets_schedule() {
    let mut d = Dispatcher::new(0);
    d.add_window(1);
    d.finish_frame(1, 0, Some(5));
    d.add_window(1);
    assert_eq!(d.schedule(100).until, None);
    d.remove_window(1);
    assert!(!d.is_open(1));
    d.remove_window(1);
    assert!(!d.is_open(1));
}

#[test]
fn controls_after_frame() {
    let mut d = Dispatcher::new(0);
    d.add_window(2);
    assert_eq!(d.apply_control(2, Control::Redraw), Action::RequestRedraw);
    assert_eq!(d.apply_control(2, Control::Suspend), Action::Nothing);
    assert!(d.is_open(2));
    assert_eq!(d.apply_control(2, Control::Kill), Action::Close);
    assert!(!d.is_open(2));
    assert_eq!(d.apply_control(2, Control::Redraw), Action::Nothing);
}

#[test]
fn text_box_insert_keeps_cursor() {
    let mut tb = TextBox { text: String::from("hello"), insert_idx: 2 };
    tb.insert("XY");
    assert_eq!(tb.text, "heXYllo");
    assert_eq!(tb.insert_idx, 2);
    tb.insert("Z");
    assert_eq!(tb.text, "heZXYllo");
    assert_eq!(tb.split_at_cursor(), ("he", "ZXYllo"));
}

#[test]
fn text_box_insert_multibyte() {
    let mut tb = TextBox { text: String::from("aé"), insert_idx: 3 };
    tb.insert("ü");
    assert_eq!(tb.text, "aéü");
    assert_eq!(tb.split_at_cursor(), ("aé", "ü"));
    tb.insert_idx = 0;
    tb.insert("");
    assert_eq!(tb.text, "aéü");
}

#[test]
fn text_box_cursor_moves() {
    let mut tb = TextBox { text: String::from("ab"), insert_idx: 0 };
    tb.shift_left();
    assert_eq!(tb.insert_idx, 0);
    tb.shift_right();
    tb.shift_right();
    assert_eq!(tb.insert_idx, 2);
    tb.shift_left();
    assert_eq!(tb.insert_idx, 1);
    tb.shift_right();
    assert_eq!(tb.insert_idx, 2);
    assert_eq!(tb.text, "ab");
}

#[test]
fn csome_hands_over_value() {
    let s = CSome(41usize);
    let mut seen = 0;
    s.as_ref(|v| seen = *v + 1);
    assert_eq!(seen, 42);
    let mut m = CSome(1usize);
    m.as_mut(|v| *v = 5);
    assert_eq!(m.0, 5);
    let mut got = 0;
    m.take(|v| got = v);
    assert_eq!(got, 5);
    let mut calls = 0;
    CSome(3usize).take_back(|v| {
        calls += 1;
        v * 2
    });
    assert_eq!(calls, 1);
}

#[test]
fn cnone_never_calls() {
    let n: CNone<usize> = CNone::new();
    let mut calls = 0;
    n.as_ref(|_| calls += 1);
    let mut n2: CNone<usize> = CNone::default();
    n2.as_mut(|_| calls += 1);
    n.take(|_| calls += 1);
    n2.take_back(|v| {
        calls += 1;
        v
    });
    assert_eq!(calls, 0);
}

#[test]
fn resources_register() {
    let mut list: Vec<&str> = Vec::new();
    assert_eq!(add_resource(&mut list, None, None), Err(()));
    assert!(list.is_empty());
    assert_eq!(add_resource(&mut list, Some("a"), None), Ok(0));
    assert_eq!(add_resource(&mut list, Some("b"), None), Ok(1));
    assert_eq!(add_resource(&mut list, Some("c"), Some(1)), Ok(1));
    assert_eq!(list, vec!["a", "c", "b"]);
    assert_eq!(add_resource(&mut list, None, Some(0)), Err(()));
    assert_eq!(add_resource(&mut list, None, Some(10)), Err(()));
    assert_eq!(list, vec!["a", "c", "b"]);
    assert_eq!(add_resource(&mut list, Some("d"), Some(3)), Ok(3));
    assert_eq!(list[3], "d");
}

#[test]
fn lines_wrap_every_per_line() {
    let mut placed = 0;
    let mut wraps = Vec::new();
    for i in 1..=7usize {
        let (next, wrap) = next_in_line(placed, 3);
        placed = next;
        if wrap {
            wraps.push(i);
        }
    }
    assert_eq!(wraps, vec![3, 6]);
    assert_eq!(placed, 1);
    assert_eq!(next_in_line(5, 0), (6, false));
}

#[test]
fn schedule_fits_clock() {
    let mut d = Dispatcher::new(0);
    d.add_window(1);
    assert!(d.can_schedule(u64::MAX));
    d.finish_frame(1, u64::MAX - 10, Some(5));
    assert!(d.can_schedule(u64::MAX - 6));
    assert!(!d.can_schedule(u64::MAX - 5));
    d.finish_frame(1, 0, Some(0));
    assert!(d.can_schedule(u64::MAX));
    assert_eq!(d.schedule(u64::MAX).redraw, vec![1]);
}

#[test]
fn vec2_from_unit_is_default() {
    let v: Vec2<u64> = ().into();
    assert_eq!((v.x, v.y), (0, 0));
    let w: Vec2<i32> = Vec2::from(());
    assert_eq!((w.x, w.y), (0, 0));
}

#[test]
fn frame_sees_mouse_events_since_last_frame() {
    let mut d = Dispatcher::new(0);
    d.add_window(1);
    d.add_window(2);
    d.handle_event(
        1,
        WindowEvent::MouseInput { button: MouseButton::Right, state: ElementState::Pressed },
    );
    d.finish_frame(1, 0, None);
    d.handle_event(
        2,
        WindowEvent::MouseInput { button: MouseButton::Middle, state: ElementState::Pressed },
    );
    d.handle_event(2, WindowEvent::CloseRequested);
    d.handle_event(
        2,
        WindowEvent::MouseInput { button: MouseButton::Left, state: ElementState::Pressed },
    );
    d.handle_event(1, WindowEvent::Focused);
    d.handle_event(
        1,
        WindowEvent::MouseInput { button: MouseButton::Left, state: ElementState::Released },
    );
    assert_eq!(d.handle_event(1, WindowEvent::RedrawRequested), Action::Draw);
    assert_eq!(
        d.pending_mouse().clone(),
        vec![(Mouse::Middle, State::Pressed), (Mouse::Left, State::Released)]
    );
    d.finish_frame(1, 5, None);
    assert!(d.pending_mouse().is_empty());
}
