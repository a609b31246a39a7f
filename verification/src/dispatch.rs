use vstd::prelude::*;
use crate::input::{
    ElementState, KeyCode, KeyEvent, MouseButton, PhysicalKey, key_event_of, key_name, mouse_of, state_of,
    translate_button, translate_key, translate_state,
};
use crate::io::{Mouse, State};

verus! {

/// Marker for the type of the events that an application posts to its own
/// event loop.
pub trait UserEvent {}

/// When a window accepts a redraw request.
#[derive(Debug, Clone, Copy, PartialEq, Eq, Structural)]
pub enum Redraw {
    /// Only while the window holds the focus.
    FocusOnly,
    /// Always.
    Always,
}

/// What a draw callback asks of its window once the frame is done.
#[derive(Debug, Clone, Copy, PartialEq, Eq, Structural)]
pub enum Control {
    Redraw,
    Suspend,
    Kill,
}

/// The length of one animation frame, in nanoseconds (16 ms).
pub const FRAME_NANOS: u64 = 16_000_000;

/// The scheduling state of one open window. Times are nanoseconds on the
/// application's monotonic clock.
#[derive(Debug, Clone, Copy, PartialEq, Eq, Structural)]
pub struct WindowSlot {
    pub redraw_policy: Redraw,
    pub next_redraw: Option<u64>,
}

/// A window event, as far as the dispatcher looks into it.
#[derive(Debug, Clone, Copy, PartialEq, Eq, Structural)]
pub enum WindowEvent {
    KeyboardInput { key: PhysicalKey, state: ElementState },
    MouseInput { button: MouseButton, state: ElementState },
    RedrawRequested,
    Resized,
    CloseRequested,
    Focused,
    CursorMoved,
    Other,
}

/// What the event loop has to do after the dispatcher took an event.
#[derive(Debug, Clone, Copy, PartialEq, Eq)]
pub enum Action {
    /// Nothing more.
    Nothing,
    /// Hand the key stroke to the window's key handler, if it has one.
    Key(KeyEvent),
    /// Draw the window, then report the frame with `finish_frame`.
    Draw,
    /// Rebuild the window's drawing surface for its new size.
    Resize,
    /// Release the window's resources; the dispatcher has forgotten it.
    Close,
    /// Record the new cursor position.
    MoveCursor,
    /// Ask the windowing system for another redraw of the window.
    RequestRedraw,
}

/// The abstract state of the dispatcher: the open windows by id, the mouse
/// button events waiting for the next frame, and the focused window.
pub struct DispatchView {
    pub windows: Map<u64, WindowSlot>,
    pub pending: Seq<(Mouse, State)>,
    pub focus: u64,
}

/// A freshly opened window: redrawn only when focused, no frame scheduled.
pub open spec fn new_slot() -> WindowSlot {
    WindowSlot { redraw_policy: Redraw::FocusOnly, next_redraw: None }
}

/// Whether a redraw request for window `id` leads to a frame.
pub open spec fn redraw_allowed(v: DispatchView, id: u64) -> bool {
    match v.windows[id].redraw_policy {
        Redraw::FocusOnly => v.focus == id,
        Redraw::Always => true,
    }
}

/// The dispatcher's answer to `event` on window `id`: the next state and the
/// action. Events on windows that are not open change nothing.
pub open spec fn step(v: DispatchView, id: u64, event: WindowEvent) -> (DispatchView, Action) {
    if !v.windows.contains_key(id) {
        (v, Action::Nothing)
    } else {
        match event {
            WindowEvent::KeyboardInput { key, state } => (v, Action::Key(key_event_of(key, state))),
            WindowEvent::MouseInput { button, state } => (
                DispatchView { pending: v.pending.push((mouse_of(button), state_of(state))), ..v },
                Action::Nothing,
            ),
            WindowEvent::RedrawRequested => (
                v,
                if redraw_allowed(v, id) {
                    Action::Draw
                } else {
                    Action::Nothing
                },
            ),
            WindowEvent::Resized => (v, Action::Resize),
            WindowEvent::CloseRequested => (
                DispatchView { windows: v.windows.remove(id), ..v },
                Action::Close,
            ),
            WindowEvent::Focused => (DispatchView { focus: id, ..v }, Action::Nothing),
            WindowEvent::CursorMoved => (v, Action::MoveCursor),
            WindowEvent::Other => (v, Action::Nothing),
        }
    }
}

/// What the event loop does with the `Control` that a draw callback
/// returned for window `id`: `Kill` closes the window, `Redraw` asks for
/// another redraw, `Suspend` waits. Windows that are not open are left alone.
pub open spec fn control_step(v: DispatchView, id: u64, control: Control) -> (DispatchView, Action) {
    if !v.windows.contains_key(id) {
        (v, Action::Nothing)
    } else {
        match control {
            Control::Kill => (DispatchView { windows: v.windows.remove(id), ..v }, Action::Close),
            Control::Redraw => (v, Action::RequestRedraw),
            Control::Suspend => (v, Action::Nothing),
        }
    }
}

/// The state after window `id` finished a frame at time `now`: the pending
/// mouse events are consumed, and if the frame asked for a follow-up after
/// `delay`, the window's next frame is due at `now + delay`.
pub open spec fn after_frame(v: DispatchView, id: u64, now: u64, delay: Option<u64>) -> DispatchView {
    DispatchView {
        windows: match delay {
            Some(d) => if v.windows.contains_key(id) {
                v.windows.insert(
                    id,
                    WindowSlot { next_redraw: Some((now + d) as u64), ..v.windows[id] },
                )
            } else {
                v.windows
            },
            None => v.windows,
        },
        pending: Seq::empty(),
        focus: v.focus,
    }
}

/// Whether a window's scheduled frame is due at time `now`.
pub open spec fn is_due(slot: WindowSlot, now: u64) -> bool {
    match slot.next_redraw {
        Some(d) => d <= now,
        None => false,
    }
}

/// A window's slot after the scheduler ran at time `now`: a due frame is
/// pushed one frame length later; anything else is left alone.
pub open spec fn advance(slot: WindowSlot, now: u64) -> WindowSlot {
    match slot.next_redraw {
        Some(d) => if d <= now {
            WindowSlot { next_redraw: Some((d + FRAME_NANOS) as u64), ..slot }
        } else {
            slot
        },
        None => slot,
    }
}

/// The windows whose frame is due at time `now`.
pub open spec fn due_windows(windows: Map<u64, WindowSlot>, now: u64) -> Set<u64> {
    Set::new(|k: u64| windows.contains_key(k) && is_due(windows[k], now))
}

/// The windows after the scheduler ran at time `now`.
pub open spec fn advance_all(windows: Map<u64, WindowSlot>, now: u64) -> Map<u64, WindowSlot> {
    Map::new(|k: u64| windows.contains_key(k), |k: u64| advance(windows[k], now))
}

/// Advancing the due frames of `windows` at time `now` stays within the clock.
pub open spec fn advance_fits(windows: Map<u64, WindowSlot>, now: u64) -> bool {
    forall|k: u64|
        #![trigger windows[k]]
        windows.contains_key(k) && is_due(windows[k], now) ==> windows[k].next_redraw.unwrap()
            + FRAME_NANOS <= u64::MAX
}

/// `wake` is the earliest scheduled frame among `windows`, or `None` when no
/// window has a frame scheduled.
pub open spec fn is_earliest(windows: Map<u64, WindowSlot>, wake: Option<u64>) -> bool {
    match wake {
        None => forall|k: u64|
            #![trigger windows[k]]
            windows.contains_key(k) ==> windows[k].next_redraw is None,
        Some(t) => {
            &&& exists|k: u64|
                #![trigger windows[k]]
                windows.contains_key(k) && windows[k].next_redraw == Some(t)
            &&& forall|k: u64|
                #![trigger windows[k]]
                windows.contains_key(k) && windows[k].next_redraw is Some ==> t
                    <= windows[k].next_redraw.unwrap()
        },
    }
}

/// Once a window has received the focus, a redraw request for it draws a
/// frame, whatever its redraw policy.
pub proof fn law_focused_window_redraws(v: DispatchView, id: u64)
    requires
        v.windows.contains_key(id),
    ensures
        step(step(v, id, WindowEvent::Focused).0, id, WindowEvent::RedrawRequested).1
            == Action::Draw,
{
}

/// A redraw request draws a frame exactly when the window is open and either
/// redraws always or holds the focus.
pub proof fn law_redraw_needs_focus(v: DispatchView, id: u64)
    ensures
        step(v, id, WindowEvent::RedrawRequested).1 == Action::Draw <==> v.windows.contains_key(id)
            && (v.windows[id].redraw_policy == Redraw::Always || v.focus == id),
{
}

/// Events on a window that is not open change nothing and ask for nothing.
pub proof fn law_unknown_window_ignored(v: DispatchView, id: u64, event: WindowEvent)
    requires
        !v.windows.contains_key(id),
    ensures
        step(v, id, event) == (v, Action::Nothing),
{
}

/// After a window was closed, every later event on it is ignored.
pub proof fn law_closed_window_stays_closed(v: DispatchView, id: u64, event: WindowEvent)
    ensures
        ({
            let closed = step(v, id, WindowEvent::CloseRequested).0;
            &&& !closed.windows.contains_key(id)
            &&& step(closed, id, event) == (closed, Action::Nothing)
        }),
{
}

/// Between two frames the queue of mouse events only grows: no event takes
/// one away, and a mouse button event on an open window is appended last.
pub proof fn law_pending_only_grows(v: DispatchView, id: u64, event: WindowEvent)
    ensures
        v.pending.is_prefix_of(step(v, id, event).0.pending),
        v.windows.contains_key(id) ==> match event {
            WindowEvent::MouseInput { button, state } => step(v, id, event).0.pending
                == v.pending.push((mouse_of(button), state_of(state))),
            _ => step(v, id, event).0.pending == v.pending,
        },
{
    assert(v.pending.is_prefix_of(v.pending));
    if v.windows.contains_key(id) {
        if let WindowEvent::MouseInput { button, state } = event {
            assert(v.pending.is_prefix_of(v.pending.push((mouse_of(button), state_of(state)))));
        }
    }
}

/// Only a focus event moves the focus, and it moves it to its window.
pub proof fn law_focus_moves_only_on_focus(v: DispatchView, id: u64, event: WindowEvent)
    ensures
        event != WindowEvent::Focused ==> step(v, id, event).0.focus == v.focus,
        event == WindowEvent::Focused && v.windows.contains_key(id) ==> step(v, id, event).0.focus
            == id,
{
}

/// A frame that asks for a follow-up after `delay` at time `now` is due at
/// any time from `now + delay` on, so the scheduler requests it then.
pub proof fn law_requested_frame_becomes_due(
    v: DispatchView,
    id: u64,
    now: u64,
    delay: u64,
    later: u64,
)
    requires
        v.windows.contains_key(id),
        now + delay <= u64::MAX,
        now + delay <= later,
    ensures
        due_windows(after_frame(v, id, now, Some(delay)).windows, later).contains(id),
{
}

/// A finished frame consumes every pending mouse event.
pub proof fn law_frame_consumes_pending(v: DispatchView, id: u64, now: u64, delay: Option<u64>)
    ensures
        after_frame(v, id, now, delay).pending.len() == 0,
        after_frame(v, id, now, delay).windows.dom() == v.windows.dom(),
{
    match delay {
        Some(d) => {
            if v.windows.contains_key(id) {
                assert(after_frame(v, id, now, delay).windows.dom() =~= v.windows.dom());
            }
        },
        None => {},
    }
}

/// The scheduler keeps the set of open windows, and a window whose frame was
/// due is due again only if it had fallen more than one frame behind.
pub proof fn law_schedule_catches_up(windows: Map<u64, WindowSlot>, now: u64, id: u64)
    requires
        advance_fits(windows, now),
        due_windows(windows, now).contains(id),
    ensures
        advance_all(windows, now).dom() == windows.dom(),
        due_windows(advance_all(windows, now), now).contains(id) <==> windows[id].next_redraw.unwrap()
            + FRAME_NANOS <= now,
{
    assert(advance_all(windows, now).dom() =~= windows.dom());
    assert(windows.contains_key(id) && is_due(windows[id], now));
}

/// The state after the events `evs` (each with its window id), in order.
pub open spec fn run(v: DispatchView, evs: Seq<(u64, WindowEvent)>) -> DispatchView
    decreases evs.len(),
{
    if evs.len() == 0 {
        v
    } else {
        step(run(v, evs.drop_last()), evs.last().0, evs.last().1).0
    }
}

/// The mouse button events among `evs` that reach a window open at that
/// moment, in order, as widgets see them.
pub open spec fn delivered(v: DispatchView, evs: Seq<(u64, WindowEvent)>) -> Seq<(Mouse, State)>
    decreases evs.len(),
{
    if evs.len() == 0 {
        Seq::empty()
    } else {
        let rest = delivered(v, evs.drop_last());
        match evs.last().1 {
            WindowEvent::MouseInput { button, state } => if run(
                v,
                evs.drop_last(),
            ).windows.contains_key(evs.last().0) {
                rest.push((mouse_of(button), state_of(state)))
            } else {
                rest
            },
            _ => rest,
        }
    }
}

/// How widgets see a mouse button event (other events are not looked at).
pub open spec fn mouse_view(event: WindowEvent) -> (Mouse, State) {
    match event {
        WindowEvent::MouseInput { button, state } => (mouse_of(button), state_of(state)),
        _ => (Mouse::Unknown, State::Released),
    }
}

/// Over any run of events the queue of mouse events grows by exactly the
/// mouse button events that reach open windows, in the order they came.
pub proof fn law_run_queues_delivered(v: DispatchView, evs: Seq<(u64, WindowEvent)>)
    ensures
        run(v, evs).pending == v.pending + delivered(v, evs),
    decreases evs.len(),
{
    if evs.len() == 0 {
        assert(v.pending + Seq::<(Mouse, State)>::empty() =~= v.pending);
    } else {
        law_run_queues_delivered(v, evs.drop_last());
        let before = run(v, evs.drop_last());
        match evs.last().1 {
            WindowEvent::MouseInput { button, state } => {
                if before.windows.contains_key(evs.last().0) {
                    assert(v.pending + delivered(v, evs.drop_last()).push(
                        (mouse_of(button), state_of(state)),
                    ) =~= (v.pending + delivered(v, evs.drop_last())).push(
                        (mouse_of(button), state_of(state)),
                    ));
                }
            },
            _ => {
                law_pending_only_grows(before, evs.last().0, evs.last().1);
            },
        }
    }
}

/// A run of mouse button events on windows that are open keeps the windows
/// and delivers every event, in order.
pub proof fn law_mouse_run_delivered(v: DispatchView, evs: Seq<(u64, WindowEvent)>)
    requires
        forall|i: int|
            0 <= i < evs.len() ==> (#[trigger] evs[i]).1 is MouseInput && v.windows.contains_key(
                evs[i].0,
            ),
    ensures
        run(v, evs).windows == v.windows,
        delivered(v, evs) == evs.map_values(|e: (u64, WindowEvent)| mouse_view(e.1)),
    decreases evs.len(),
{
    if evs.len() > 0 {
        let init = evs.drop_last();
        assert forall|i: int| 0 <= i < init.len() implies (#[trigger] init[i]).1 is MouseInput
            && v.windows.contains_key(init[i].0) by {
            assert(init[i] == evs[i]);
        }
        law_mouse_run_delivered(v, init);
        assert(evs[evs.len() - 1] == evs.last());
        assert(evs.map_values(|e: (u64, WindowEvent)| mouse_view(e.1)) =~= init.map_values(
            |e: (u64, WindowEvent)| mouse_view(e.1),
        ).push(mouse_view(evs.last().1)));
    } else {
        assert(evs.map_values(|e: (u64, WindowEvent)| mouse_view(e.1)) =~= Seq::<
            (Mouse, State),
        >::empty());
    }
}

/// The mouse events a frame's draw callback sees are exactly the mouse
/// button events that reached open windows since the previous finished frame,
/// in order; and the frame consumes them.
pub proof fn law_frame_sees_events_since_last_frame(
    v: DispatchView,
    id: u64,
    now: u64,
    delay: Option<u64>,
    evs: Seq<(u64, WindowEvent)>,
    next_id: u64,
    next_now: u64,
    next_delay: Option<u64>,
)
    ensures
        ({
            let start = after_frame(v, id, now, delay);
            &&& run(start, evs).pending == delivered(start, evs)
            &&& after_frame(run(start, evs), next_id, next_now, next_delay).pending.len() == 0
        }),
{
    let start = after_frame(v, id, now, delay);
    law_run_queues_delivered(start, evs);
    assert(start.pending + delivered(start, evs) =~= delivered(start, evs));
}

/// The set of open windows is always finite.
pub proof fn law_windows_finite(d: &Dispatcher)
    ensures
        d@.windows.dom().finite(),
{
    lemma_dom_finite(d.windows@);
}

/// A keyboard event on an open window reaches the key handler with the
/// event's own state: a released key as a release of its name, a pressed key
/// as a press; the state of the dispatcher does not change.
pub proof fn law_key_stroke_keeps_state(v: DispatchView, id: u64, code: KeyCode)
    requires
        v.windows.contains_key(id),
    ensures
        step(
            v,
            id,
            (WindowEvent::KeyboardInput {
                key: PhysicalKey::Code(code),
                state: ElementState::Released,
            }),
        ) == (v, Action::Key(KeyEvent::Release(key_name(code)))),
        step(
            v,
            id,
            (WindowEvent::KeyboardInput {
                key: PhysicalKey::Code(code),
                state: ElementState::Pressed,
            }),
        ) == (v, Action::Key(KeyEvent::Press(key_name(code)))),
{
}

/// After an open window finished a frame at `now` asking for a follow-up
/// after `delay`, its next frame is at exactly `now + delay`, whatever was
/// scheduled before: it is not due at any time before, and due from then on.
/// Its redraw policy and every other window stay as they were.
pub proof fn law_follow_up_frame_at_delay(v: DispatchView, id: u64, now: u64, delay: u64, t: u64)
    requires
        v.windows.contains_key(id),
        now + delay <= u64::MAX,
    ensures
        ({
            let w = after_frame(v, id, now, Some(delay)).windows;
            &&& w.contains_key(id)
            &&& w[id].next_redraw == Some((now + delay) as u64)
            &&& w[id].redraw_policy == v.windows[id].redraw_policy
            &&& (is_due(w[id], t) <==> now + delay <= t)
            &&& forall|k: u64| k != id ==> (#[trigger] w.contains_key(k) <==> v.windows.contains_key(k))
            &&& forall|k: u64| k != id && v.windows.contains_key(k) ==> #[trigger] w[k] == v.windows[k]
        }),
{
}

/// The scheduler leaves a window whose frame is not due untouched, and moves
/// a due frame at `d` to exactly `d` plus one frame length.
pub proof fn law_schedule_moves_only_due_frames(windows: Map<u64, WindowSlot>, now: u64, k: u64)
    requires
        windows.contains_key(k),
        advance_fits(windows, now),
    ensures
        advance_all(windows, now).contains_key(k),
        !is_due(windows[k], now) ==> advance_all(windows, now)[k] == windows[k],
        is_due(windows[k], now) ==> advance_all(windows, now)[k].redraw_policy
            == windows[k].redraw_policy,
        is_due(windows[k], now) ==> windows[k].next_redraw.unwrap() + FRAME_NANOS
            == advance_all(windows, now)[k].next_redraw.unwrap(),
{
}

/// The scheduler's answer: the windows to redraw now, and when to wake up
/// next (`None`: wait for the next event).
pub struct Wakeup {
    pub redraw: Vec<u64>,
    pub until: Option<u64>,
}

/// The decision core of the event loop: which windows are open, how they are
/// redrawn and when, which window holds the focus, and the mouse events
/// waiting for the next frame.
pub struct Dispatcher {
    windows: Vec<(u64, WindowSlot)>,
    pending: Vec<(Mouse, State)>,
    focus: u64,
}

/// No two entries of `s` share an id.
pub open spec fn ids_distinct(s: Seq<(u64, WindowSlot)>) -> bool {
    forall|i: int, j: int|
        #![trigger s[i], s[j]]
        0 <= i < s.len() && 0 <= j < s.len() && i != j ==> s[i].0 != s[j].0
}

/// The map from ids to slots that the entries of `s` spell.
pub open spec fn slot_map(s: Seq<(u64, WindowSlot)>) -> Map<u64, WindowSlot> {
    Map::new(
        |k: u64| exists|i: int| 0 <= i < s.len() && s[i].0 == k,
        |k: u64| s[choose|i: int| 0 <= i < s.len() && s[i].0 == k].1,
    )
}

proof fn lemma_slot_at(s: Seq<(u64, WindowSlot)>, i: int)
    requires
        ids_distinct(s),
        0 <= i < s.len(),
    ensures
        slot_map(s).contains_key(s[i].0),
        slot_map(s)[s[i].0] == s[i].1,
{
    let k = s[i].0;
    assert(exists|j: int| 0 <= j < s.len() && s[j].0 == k);
    let j = choose|j: int| 0 <= j < s.len() && s[j].0 == k;
    assert(s[j].0 == s[i].0);
}

proof fn lemma_update(s: Seq<(u64, WindowSlot)>, i: int, e: (u64, WindowSlot))
    requires
        ids_distinct(s),
        0 <= i < s.len(),
        e.0 == s[i].0,
    ensures
        ids_distinct(s.update(i, e)),
        slot_map(s.update(i, e)) == slot_map(s).insert(e.0, e.1),
{
    let t = s.update(i, e);
    let m = slot_map(s).insert(e.0, e.1);
    assert(ids_distinct(t)) by {
        assert forall|a: int, b: int|
            0 <= a < t.len() && 0 <= b < t.len() && a != b implies #[trigger] t[a].0
            != #[trigger] t[b].0 by {
            assert(s[a].0 != s[b].0);
        }
    }
    assert forall|k: u64| #[trigger] slot_map(t).contains_key(k) implies m.contains_key(k) by {
        let j = choose|j: int| 0 <= j < t.len() && t[j].0 == k;
        if j != i {
            lemma_slot_at(s, j);
        }
    }
    assert forall|k: u64| #[trigger] m.contains_key(k) implies slot_map(t).contains_key(k)
        && slot_map(t)[k] == m[k] by {
        if k == e.0 {
            lemma_slot_at(t, i);
        } else {
            let j = choose|j: int| 0 <= j < s.len() && s[j].0 == k;
            assert(t[j] == s[j]);
            lemma_slot_at(t, j);
            lemma_slot_at(s, j);
        }
    }
    assert(slot_map(t) =~= m);
}

proof fn lemma_push(s: Seq<(u64, WindowSlot)>, e: (u64, WindowSlot))
    requires
        ids_distinct(s),
        !slot_map(s).contains_key(e.0),
    ensures
        ids_distinct(s.push(e)),
        slot_map(s.push(e)) == slot_map(s).insert(e.0, e.1),
{
    let t = s.push(e);
    let m = slot_map(s).insert(e.0, e.1);
    assert(ids_distinct(t)) by {
        assert forall|a: int, b: int|
            0 <= a < t.len() && 0 <= b < t.len() && a != b implies #[trigger] t[a].0
            != #[trigger] t[b].0 by {
            if a == s.len() {
                lemma_slot_at(s, b);
            } else if b == s.len() {
                lemma_slot_at(s, a);
            } else {
                assert(s[a].0 != s[b].0);
            }
        }
    }
    assert forall|k: u64| #[trigger] slot_map(t).contains_key(k) implies m.contains_key(k) by {
        let j = choose|j: int| 0 <= j < t.len() && t[j].0 == k;
        if j < s.len() {
            lemma_slot_at(s, j);
        }
    }
    assert forall|k: u64| #[trigger] m.contains_key(k) implies slot_map(t).contains_key(k)
        && slot_map(t)[k] == m[k] by {
        if k == e.0 {
            lemma_slot_at(t, s.len() as int);
        } else {
            let j = choose|j: int| 0 <= j < s.len() && s[j].0 == k;
            assert(t[j] == s[j]);
            lemma_slot_at(t, j);
            lemma_slot_at(s, j);
        }
    }
    assert(slot_map(t) =~= m);
}

proof fn lemma_remove(s: Seq<(u64, WindowSlot)>, i: int)
    requires
        ids_distinct(s),
        0 <= i < s.len(),
    ensures
        ids_distinct(s.remove(i)),
        slot_map(s.remove(i)) == slot_map(s).remove(s[i].0),
{
    let t = s.remove(i);
    let m = slot_map(s).remove(s[i].0);
    assert forall|j: int| 0 <= j < t.len() implies #[trigger] t[j] == s[if j < i {
        j
    } else {
        j + 1
    }] by {}
    assert(ids_distinct(t)) by {
        assert forall|a: int, b: int|
            0 <= a < t.len() && 0 <= b < t.len() && a != b implies #[trigger] t[a].0
            != #[trigger] t[b].0 by {
            let a2 = if a < i {
                a
            } else {
                a + 1
            };
            let b2 = if b < i {
                b
            } else {
                b + 1
            };
            assert(s[a2].0 != s[b2].0);
        }
    }
    assert forall|k: u64| #[trigger] slot_map(t).contains_key(k) implies m.contains_key(k) by {
        let j = choose|j: int| 0 <= j < t.len() && t[j].0 == k;
        let j2 = if j < i {
            j
        } else {
            j + 1
        };
        assert(s[j2].0 != s[i].0);
        lemma_slot_at(s, j2);
    }
    assert forall|k: u64| #[trigger] m.contains_key(k) implies slot_map(t).contains_key(k)
        && slot_map(t)[k] == m[k] by {
        let j2 = choose|j: int| 0 <= j < s.len() && s[j].0 == k;
        assert(j2 != i);
        let j = if j2 < i {
            j2
        } else {
            j2 - 1
        };
        assert(t[j] == s[j2]);
        lemma_slot_at(t, j);
        lemma_slot_at(s, j2);
    }
    assert(slot_map(t) =~= m);
}

proof fn lemma_dom_finite(s: Seq<(u64, WindowSlot)>)
    ensures
        slot_map(s).dom().finite(),
{
    let ids = s.map_values(|e: (u64, WindowSlot)| e.0);
    vstd::seq_lib::seq_to_set_is_finite(ids);
    assert forall|k: u64| #[trigger] slot_map(s).dom().contains(k) <==> ids.to_set().contains(k) by {
        if slot_map(s).dom().contains(k) {
            let j = choose|j: int| 0 <= j < s.len() && s[j].0 == k;
            assert(ids[j] == k);
        }
        if ids.to_set().contains(k) {
            let j = choose|j: int| 0 <= j < ids.len() && ids[j] == k;
            assert(s[j].0 == k);
        }
    }
    assert(slot_map(s).dom() =~= ids.to_set());
}

impl View for Dispatcher {
    type V = DispatchView;

    closed spec fn view(&self) -> DispatchView {
        DispatchView { windows: slot_map(self.windows@), pending: self.pending@, focus: self.focus }
    }
}

impl Dispatcher {
    #[verifier::type_invariant]
    spec fn inv(self) -> bool {
        ids_distinct(self.windows@)
    }

    /// A dispatcher with no window open and no mouse event pending; the
    /// focus starts on `initial_focus` (the windowing system's placeholder id).
    pub fn new(initial_focus: u64) -> (res: Self)
        ensures
            res@.windows == Map::<u64, WindowSlot>::empty(),
            res@.pending == Seq::<(Mouse, State)>::empty(),
            res@.focus == initial_focus,
    {
        let res = Dispatcher { windows: Vec::new(), pending: Vec::new(), focus: initial_focus };
        assert(res@.windows =~= Map::<u64, WindowSlot>::empty());
        res
    }
    /// The index of window `id` among the entries, if it is open.
    fn find(&self, id: u64) -> (r: Option<usize>)
        ensures
            match r {
                Some(i) => i < self.windows@.len() && self.windows@[i as int].0 == id,
                None => !self@.windows.contains_key(id),
            },
    {
        let mut i: usize = 0;
        while i < self.windows.len()
            invariant
                i <= self.windows@.len(),
                forall|j: int| 0 <= j < i ==> self.windows@[j].0 != id,
            decreases self.windows@.len() - i,
        {
            if self.windows[i].0 == id {
                return Some(i);
            }
            i = i + 1;
        }
        None
    }

    /// Opens window `id` with a fresh slot (redrawn only when focused, no
    /// frame scheduled), replacing the slot of a window with the same id.
    pub fn add_window(&mut self, id: u64)
        ensures
            final(self)@.windows == old(self)@.windows.insert(id, new_slot()),
            final(self)@.pending == old(self)@.pending,
            final(self)@.focus == old(self)@.focus,
    {
        proof {
            use_type_invariant(&*self);
        }
        let slot = WindowSlot { redraw_policy: Redraw::FocusOnly, next_redraw: None };
        match self.find(id) {
            Some(i) => {
                proof {
                    lemma_update(self.windows@, i as int, (id, slot));
                }
                let mut ws = Vec::new();
                std::mem::swap(&mut ws, &mut self.windows);
                ws.set(i, (id, slot));
                self.windows = ws;
            },
            None => {
                proof {
                    lemma_push(self.windows@, (id, slot));
                }
                let mut ws = Vec::new();
                std::mem::swap(&mut ws, &mut self.windows);
                ws.push((id, slot));
                self.windows = ws;
            },
        }
    }

    /// Forgets window `id`, if it is open.
    pub fn remove_window(&mut self, id: u64)
        ensures
            final(self)@.windows == old(self)@.windows.remove(id),
            final(self)@.pending == old(self)@.pending,
            final(self)@.focus == old(self)@.focus,
    {
        proof {
            use_type_invariant(&*self);
        }
        match self.find(id) {
            Some(i) => {
                proof {
                    lemma_remove(self.windows@, i as int);
                }
                let mut ws = Vec::new();
                std::mem::swap(&mut ws, &mut self.windows);
                ws.remove(i);
                self.windows = ws;
            },
            None => {
                assert(old(self)@.windows.remove(id) =~= old(self)@.windows);
            },
        }
    }

    /// Whether window `id` is open.
    pub fn is_open(&self, id: u64) -> (r: bool)
        ensures
            r == self@.windows.contains_key(id),
    {
        proof {
            use_type_invariant(self);
        }
        match self.find(id) {
            Some(i) => {
                proof {
                    lemma_slot_at(self.windows@, i as int);
                }
                true
            },
            None => false,
        }
    }

    /// The mouse button events received since the last frame, oldest first.
    pub fn pending_mouse(&self) -> (r: &Vec<(Mouse, State)>)
        ensures
            r@ == self@.pending,
    {
        &self.pending
    }

    /// Takes `event` on window `id` (see `step`).
    pub fn handle_event(&mut self, id: u64, event: WindowEvent) -> (action: Action)
        ensures
            (final(self)@, action) == step(old(self)@, id, event),
    {
        proof {
            use_type_invariant(&*self);
        }
        let i = match self.find(id) {
            Some(i) => i,
            None => {
                return Action::Nothing;
            },
        };
        proof {
            lemma_slot_at(self.windows@, i as int);
        }
        match event {
            WindowEvent::KeyboardInput { key, state } => Action::Key(translate_key(key, state)),
            WindowEvent::MouseInput { button, state } => {
                let b = translate_button(button);
                let st = translate_state(state);
                let mut p = Vec::new();
                std::mem::swap(&mut p, &mut self.pending);
                p.push((b, st));
                self.pending = p;
                Action::Nothing
            },
            WindowEvent::RedrawRequested => {
                let allowed = match self.windows[i].1.redraw_policy {
                    Redraw::FocusOnly => self.focus == id,
                    Redraw::Always => true,
                };
                if allowed {
                    Action::Draw
                } else {
                    Action::Nothing
                }
            },
            WindowEvent::Resized => Action::Resize,
            WindowEvent::CloseRequested => {
                proof {
                    lemma_remove(self.windows@, i as int);
                }
                let mut ws = Vec::new();
                std::mem::swap(&mut ws, &mut self.windows);
                ws.remove(i);
                self.windows = ws;
                Action::Close
            },
            WindowEvent::Focused => {
                self.focus = id;
                Action::Nothing
            },
            WindowEvent::CursorMoved => Action::MoveCursor,
            WindowEvent::Other => Action::Nothing,
        }
    }

    /// Reports that window `id` finished a frame at time `now`, asking for
    /// its next frame after `delay` (see `after_frame`).
    pub fn finish_frame(&mut self, id: u64, now: u64, delay: Option<u64>)
        requires
            match delay {
                Some(d) => now + d <= u64::MAX,
                None => true,
            },
        ensures
            final(self)@ == after_frame(old(self)@, id, now, delay),
    {
        proof {
            use_type_invariant(&*self);
        }
        self.pending = Vec::new();
        match delay {
            Some(d) => match self.find(id) {
                Some(i) => {
                    let slot = WindowSlot { next_redraw: Some(now + d), ..self.windows[i].1 };
                    proof {
                        lemma_slot_at(self.windows@, i as int);
                        lemma_update(self.windows@, i as int, (id, slot));
                    }
                    let mut ws = Vec::new();
                    std::mem::swap(&mut ws, &mut self.windows);
                    ws.set(i, (id, slot));
                    self.windows = ws;
                },
                None => {},
            },
            None => {},
        }
    }
    /// Whether the scheduler can run at time `now`: no due frame would be
    /// pushed past the end of the clock (see `advance_fits`).
    pub fn can_schedule(&self, now: u64) -> (r: bool)
        ensures
            r == advance_fits(self@.windows, now),
    {
        proof {
            use_type_invariant(self);
        }
        let ghost ws = self.windows@;
        let mut i: usize = 0;
        while i < self.windows.len()
            invariant
                ws == self.windows@,
                ids_distinct(ws),
                i <= ws.len(),
                forall|j: int|
                    0 <= j < i && #[trigger] is_due(ws[j].1, now) ==> ws[j].1.next_redraw.unwrap()
                        + FRAME_NANOS <= u64::MAX,
            decreases ws.len() - i,
        {
            let slot = self.windows[i].1;
            match slot.next_redraw {
                Some(d) => {
                    if d <= now && d > u64::MAX - FRAME_NANOS {
                        proof {
                            lemma_slot_at(ws, i as int);
                            assert(is_due(slot_map(ws)[ws[i as int].0], now));
                        }
                        return false;
                    }
                },
                None => {},
            }
            i = i + 1;
        }
        proof {
            assert forall|k: u64|
                #![trigger slot_map(ws)[k]]
                slot_map(ws).contains_key(k) && is_due(slot_map(ws)[k], now) implies slot_map(
                ws,
            )[k].next_redraw.unwrap() + FRAME_NANOS <= u64::MAX by {
                let j = choose|j: int| 0 <= j < ws.len() && ws[j].0 == k;
                lemma_slot_at(ws, j);
                assert(is_due(ws[j].1, now));
            }
        }
        true
    }

    /// Runs the frame scheduler at time `now`: every window whose frame is due
    /// gets its next frame one frame length (16 ms) after the due one and is
    /// named in `redraw`; `until` is the earliest scheduled frame afterwards,
    /// `None` when no window has one.
    pub fn schedule(&mut self, now: u64) -> (w: Wakeup)
        requires
            advance_fits(old(self)@.windows, now),
        ensures
            final(self)@.windows == advance_all(old(self)@.windows, now),
            final(self)@.pending == old(self)@.pending,
            final(self)@.focus == old(self)@.focus,
            w.redraw@.to_set() == due_windows(old(self)@.windows, now),
            w.redraw@.no_duplicates(),
            is_earliest(final(self)@.windows, w.until),
    {
        proof {
            use_type_invariant(&*self);
        }
        let mut ws = Vec::new();
        std::mem::swap(&mut ws, &mut self.windows);
        let ghost old_ws = ws@;
        proof {
            assert forall|j: int| 0 <= j < old_ws.len() && #[trigger] is_due(old_ws[j].1, now) implies old_ws[j].1.next_redraw.unwrap()
                + FRAME_NANOS <= u64::MAX by {
                lemma_slot_at(old_ws, j);
                assert(slot_map(old_ws)[old_ws[j].0] == old_ws[j].1);
            }
        }
        let mut redraw: Vec<u64> = Vec::new();
        let mut until: Option<u64> = None;
        let mut i: usize = 0;
        while i < ws.len()
            invariant
                ws@.len() == old_ws.len(),
                ids_distinct(old_ws),
                i <= ws@.len(),
                forall|j: int|
                    0 <= j < i ==> #[trigger] ws@[j] == (old_ws[j].0, advance(old_ws[j].1, now)),
                forall|j: int| i <= j < ws@.len() ==> #[trigger] ws@[j] == old_ws[j],
                forall|j: int|
                    0 <= j < old_ws.len() && #[trigger] is_due(old_ws[j].1, now)
                        ==> old_ws[j].1.next_redraw.unwrap() + FRAME_NANOS <= u64::MAX,
                redraw@.no_duplicates(),
                forall|x: u64|
                    #[trigger] redraw@.contains(x) <==> exists|j: int|
                        0 <= j < i && old_ws[j].0 == x && is_due(old_ws[j].1, now),
                match until {
                    None => forall|j: int| 0 <= j < i ==> (#[trigger] ws@[j]).1.next_redraw is None,
                    Some(t) => {
                        &&& exists|j: int| 0 <= j < i && (#[trigger] ws@[j]).1.next_redraw == Some(t)
                        &&& forall|j: int|
                            0 <= j < i && (#[trigger] ws@[j]).1.next_redraw is Some ==> t
                                <= ws@[j].1.next_redraw.unwrap()
                    },
                },
            decreases ws@.len() - i,
        {
            let ghost before_r = redraw@;
            let entry = ws[i];
            let id = entry.0;
            let slot = entry.1;
            let new_slot = match slot.next_redraw {
                Some(d) => if d <= now {
                    assert(is_due(old_ws[i as int].1, now));
                    assert(!redraw@.contains(id)) by {
                        if redraw@.contains(id) {
                            let j = choose|j: int|
                                0 <= j < i && old_ws[j].0 == id && is_due(old_ws[j].1, now);
                            assert(old_ws[j].0 != old_ws[i as int].0);
                        }
                    }
                    let ghost before = redraw@;
                    redraw.push(id);
                    assert(redraw@.no_duplicates()) by {
                        assert forall|a: int, b: int|
                            0 <= a < redraw@.len() && 0 <= b < redraw@.len() && a != b implies
                            redraw@[a] != redraw@[b] by {
                            if a == before.len() {
                                assert(before.contains(redraw@[b]));
                            } else if b == before.len() {
                                assert(before.contains(redraw@[a]));
                            }
                        }
                    }
                    WindowSlot { next_redraw: Some(d + FRAME_NANOS), ..slot }
                } else {
                    slot
                },
                None => slot,
            };
            assert(is_due(old_ws[i as int].1, now) ==> redraw@ == before_r.push(id));
            assert(!is_due(old_ws[i as int].1, now) ==> redraw@ == before_r);
            assert forall|x: u64|
                #[trigger] redraw@.contains(x) <==> exists|j: int|
                    0 <= j < i + 1 && old_ws[j].0 == x && is_due(old_ws[j].1, now) by {
                if redraw@.contains(x) {
                    if before_r.contains(x) {
                        let j = choose|j: int|
                            0 <= j < i && old_ws[j].0 == x && is_due(old_ws[j].1, now);
                        assert(0 <= j < i + 1 && old_ws[j].0 == x && is_due(old_ws[j].1, now));
                    } else {
                        let k = choose|k: int| 0 <= k < redraw@.len() && redraw@[k] == x;
                        assert(x == id);
                        assert(0 <= i < i + 1 && old_ws[i as int].0 == x && is_due(old_ws[i as int].1, now));
                    }
                }
                if exists|j: int| 0 <= j < i + 1 && old_ws[j].0 == x && is_due(old_ws[j].1, now) {
                    let j = choose|j: int|
                        0 <= j < i + 1 && old_ws[j].0 == x && is_due(old_ws[j].1, now);
                    if j < i {
                        assert(before_r.contains(x));
                        if is_due(old_ws[i as int].1, now) {
                            let k = choose|k: int| 0 <= k < before_r.len() && before_r[k] == x;
                            assert(redraw@[k] == x);
                        }
                    } else {
                        assert(redraw@[redraw@.len() - 1] == x);
                    }
                }
            }
            let ghost prev = ws@;
            ws.set(i, (id, new_slot));
            assert(forall|j: int| 0 <= j < i ==> ws@[j] == prev[j]);
            assert(ws@[i as int].1 == new_slot);
            match new_slot.next_redraw {
                Some(t) => {
                    until = match until {
                        Some(u) => if t < u {
                            Some(t)
                        } else {
                            Some(u)
                        },
                        None => Some(t),
                    };
                },
                None => {},
            }
            i = i + 1;
        }
        let ghost new_ws = ws@;
        proof {
            assert(ids_distinct(new_ws)) by {
                assert forall|a: int, b: int|
                    0 <= a < new_ws.len() && 0 <= b < new_ws.len() && a != b implies #[trigger] new_ws[a].0
                    != #[trigger] new_ws[b].0 by {
                    assert(old_ws[a].0 != old_ws[b].0);
                }
            }
        }
        self.windows = ws;
        proof {
            let m_old = slot_map(old_ws);
            let m_new = slot_map(new_ws);
            let target = advance_all(m_old, now);
            assert forall|k: u64| #[trigger] m_new.contains_key(k) implies target.contains_key(k)
                && m_new[k] == target[k] by {
                let j = choose|j: int| 0 <= j < new_ws.len() && new_ws[j].0 == k;
                lemma_slot_at(new_ws, j);
                lemma_slot_at(old_ws, j);
            }
            assert forall|k: u64| #[trigger] target.contains_key(k) implies m_new.contains_key(k) by {
                let j = choose|j: int| 0 <= j < old_ws.len() && old_ws[j].0 == k;
                lemma_slot_at(new_ws, j);
            }
            assert(m_new =~= target);
            assert forall|x: u64| #[trigger] redraw@.to_set().contains(x) == due_windows(m_old, now).contains(x) by {
                if redraw@.contains(x) {
                    let j = choose|j: int| 0 <= j < new_ws.len() && old_ws[j].0 == x && is_due(old_ws[j].1, now);
                    lemma_slot_at(old_ws, j);
                }
                if due_windows(m_old, now).contains(x) {
                    let j = choose|j: int| 0 <= j < old_ws.len() && old_ws[j].0 == x;
                    lemma_slot_at(old_ws, j);
                    assert(exists|j: int| 0 <= j < i && old_ws[j].0 == x && is_due(old_ws[j].1, now));
                }
            }
            assert(redraw@.to_set() =~= due_windows(m_old, now));
            match until {
                None => {
                    assert forall|k: u64| #[trigger] m_new.contains_key(k) implies m_new[k].next_redraw is None by {
                        let j = choose|j: int| 0 <= j < new_ws.len() && new_ws[j].0 == k;
                        lemma_slot_at(new_ws, j);
                    }
                },
                Some(t) => {
                    let j0 = choose|j: int| 0 <= j < i && (#[trigger] new_ws[j]).1.next_redraw == Some(t);
                    lemma_slot_at(new_ws, j0);
                    assert(m_new.contains_key(new_ws[j0].0) && m_new[new_ws[j0].0].next_redraw == Some(t));
                    assert forall|k: u64| #[trigger] m_new.contains_key(k) && m_new[k].next_redraw is Some implies t
                        <= m_new[k].next_redraw.unwrap() by {
                        let j = choose|j: int| 0 <= j < new_ws.len() && new_ws[j].0 == k;
                        lemma_slot_at(new_ws, j);
                    }
                },
            }
        }
        Wakeup { redraw, until }
    }
    /// Applies the `Control` that a draw callback returned for window `id`
    /// (see `control_step`).
    pub fn apply_control(&mut self, id: u64, control: Control) -> (action: Action)
        ensures
            (final(self)@, action) == control_step(old(self)@, id, control),
    {
        proof {
            use_type_invariant(&*self);
        }
        let i = match self.find(id) {
            Some(i) => i,
            None => {
                return Action::Nothing;
            },
        };
        proof {
            lemma_slot_at(self.windows@, i as int);
        }
        match control {
            Control::Kill => {
                proof {
                    lemma_remove(self.windows@, i as int);
                }
                let mut ws = Vec::new();
                std::mem::swap(&mut ws, &mut self.windows);
                ws.remove(i);
                self.windows = ws;
                Action::Close
            },
            Control::Redraw => Action::RequestRedraw,
            Control::Suspend => Action::Nothing,
        }
    }
}

} // verus!
