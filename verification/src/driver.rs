//! The decisions of the event loop: what each platform event does to the
//! input state and to the window's minimized flag, and what the loop has to
//! do next.
//!
//! The loop itself waits for events and talks to the window and the
//! renderer; it hands each event to `Driver::handle` and carries out the
//! action that comes back.

use vstd::prelude::*;
use crate::input::{Change, ElementState, Input, InputView, KeyCode, MouseButton};

verus! {

/// A platform event, reduced to what the loop decides on.
#[derive(Debug, Clone, Copy)]
pub enum Event {
    /// All pending events have been delivered: time for a frame.
    MainEventsCleared,
    /// The user asked to close the window.
    CloseRequested,
    /// The window has a new inner size, in pixels.
    Resized { width: u32, height: u32 },
    /// A key went down or up. `code` is `None` where the platform gave no
    /// virtual key code.
    KeyboardInput { code: Option<KeyCode>, state: ElementState },
    /// A mouse button went down or up.
    MouseInput { button: MouseButton, state: ElementState },
    /// The cursor moved to the given window position, each coordinate a
    /// single-precision bit pattern.
    CursorMoved { x_bits: u32, y_bits: u32 },
    /// The wheel was turned by the given number of lines, each a
    /// single-precision bit pattern.
    MouseWheel { x_bits: u32, y_bits: u32 },
    /// Anything else.
    Other,
}

/// What the loop has to do after an event.
#[derive(Debug, Clone, Copy, PartialEq, Eq, Structural)]
pub enum Action {
    /// Nothing.
    Idle,
    /// Update the camera from the input state and render a frame.
    Frame,
    /// Leave the loop and destroy the renderer.
    Exit,
    /// The window has no area: render nothing and sleep a little.
    Pause,
    /// Give the camera the new viewport size. Neither dimension is zero.
    Resize { width: u32, height: u32 },
    /// Hand the wheel movement to the camera's scroll callback.
    Scroll { x_bits: u32, y_bits: u32 },
}

/// Whether a resize to this size leaves the window without area.
pub open spec fn zero_area(width: u32, height: u32) -> bool {
    width == 0 || height == 0
}

/// The minimized flag after an event: only a resize changes it.
pub open spec fn minimized_after(minimized: bool, event: Event) -> bool {
    match event {
        Event::Resized { width, height } => zero_area(width, height),
        _ => minimized,
    }
}

/// What an event records in the input state, if anything. A key event
/// without a key code records nothing, and neither does the wheel.
pub open spec fn change_of(event: Event) -> Option<Change> {
    match event {
        Event::KeyboardInput { code: Some(code), state } => Some(Change::Key(code, state)),
        Event::MouseInput { button, state } => Some(Change::Button(button, state)),
        Event::CursorMoved { x_bits, y_bits } => Some(Change::Cursor(x_bits, y_bits)),
        _ => None,
    }
}

/// The input state after an event.
pub open spec fn input_after(input: InputView, event: Event) -> InputView {
    match change_of(event) {
        Some(change) => input.apply(change),
        None => input,
    }
}

/// The input state after a run of events, the first of them first.
pub open spec fn input_after_all(input: InputView, events: Seq<Event>) -> InputView
    decreases events.len(),
{
    if events.len() == 0 {
        input
    } else {
        input_after(input_after_all(input, events.drop_last()), events.last())
    }
}

/// The action that an event calls for, given the minimized flag before it.
pub open spec fn action_for(minimized: bool, event: Event) -> Action {
    match event {
        Event::MainEventsCleared => if minimized {
            Action::Idle
        } else {
            Action::Frame
        },
        Event::CloseRequested => Action::Exit,
        Event::Resized { width, height } => if zero_area(width, height) {
            Action::Pause
        } else {
            Action::Resize { width, height }
        },
        Event::MouseWheel { x_bits, y_bits } => Action::Scroll { x_bits, y_bits },
        _ => Action::Idle,
    }
}

/// The minimized flag after a run of events, the first of them first.
pub open spec fn minimized_after_all(minimized: bool, events: Seq<Event>) -> bool
    decreases events.len(),
{
    if events.len() == 0 {
        minimized
    } else {
        minimized_after(minimized_after_all(minimized, events.drop_last()), events.last())
    }
}

/// The action that the event at `index` calls for when the loop starts with
/// the given flag and has handled the events before it.
pub open spec fn action_at(minimized: bool, events: Seq<Event>, index: int) -> Action
    recommends
        0 <= index < events.len(),
{
    action_for(minimized_after_all(minimized, events.take(index)), events[index])
}

/// The state of the event loop.
#[derive(Debug, Clone, Copy, PartialEq, Eq, Structural)]
pub struct Driver {
    /// Whether the last resize left the window without area.
    pub minimized: bool,
}

impl Driver {
    /// A loop whose window is visible.
    pub fn new() -> (driver: Self)
        ensures
            !driver.minimized,
    {
        Self { minimized: false }
    }

    /// Handles one event: updates the input state and the minimized flag and
    /// says what the loop has to do.
    pub fn handle(&mut self, input: &mut Input, event: Event) -> (action: Action)
        ensures
            final(self).minimized == minimized_after(old(self).minimized, event),
            final(input)@ == input_after(old(input)@, event),
            action == action_for(old(self).minimized, event),
    {
        match event {
            Event::MainEventsCleared => {
                if self.minimized {
                    Action::Idle
                } else {
                    Action::Frame
                }
            },
            Event::CloseRequested => Action::Exit,
            Event::Resized { width, height } => {
                if width == 0 || height == 0 {
                    self.minimized = true;
                    Action::Pause
                } else {
                    self.minimized = false;
                    Action::Resize { width, height }
                }
            },
            Event::KeyboardInput { code, state } => {
                if let Some(code) = code {
                    input.set_key_state(code, state);
                }
                Action::Idle
            },
            Event::MouseInput { button, state } => {
                input.set_mouse_state(button, state);
                Action::Idle
            },
            Event::CursorMoved { x_bits, y_bits } => {
                input.set_mouse_position(x_bits, y_bits);
                Action::Idle
            },
            Event::MouseWheel { x_bits, y_bits } => Action::Scroll { x_bits, y_bits },
            Event::Other => Action::Idle,
        }
    }
}

/// The camera is never given a viewport without area, and no frame is
/// rendered while the window is minimized.
pub proof fn lemma_actions_respect_the_window(minimized: bool, event: Event)
    ensures
        action_for(minimized, event) matches Action::Resize { width, height } ==> width != 0
            && height != 0,
        minimized ==> action_for(minimized, event) != Action::Frame,
{
}

/// After a resize to zero area no frame is rendered until a resize to a
/// size with area arrives.
pub proof fn lemma_minimized_window_renders_nothing(
    minimized: bool,
    events: Seq<Event>,
    shrink: int,
    later: int,
)
    requires
        0 <= shrink < later < events.len(),
        events[shrink] matches Event::Resized { width, height } && zero_area(width, height),
        forall|k: int|
            shrink < k < later ==> !(#[trigger] events[k] matches Event::Resized { width, height }
                && !zero_area(width, height)),
    ensures
        action_at(minimized, events, later) != Action::Frame,
{
    lemma_stays_minimized(minimized, events, shrink, later);
}

/// Between a resize to zero area and the next resize to a size with area
/// the minimized flag is set.
proof fn lemma_stays_minimized(minimized: bool, events: Seq<Event>, shrink: int, later: int)
    requires
        0 <= shrink < later <= events.len(),
        events[shrink] matches Event::Resized { width, height } && zero_area(width, height),
        forall|k: int|
            shrink < k < later ==> !(#[trigger] events[k] matches Event::Resized { width, height }
                && !zero_area(width, height)),
    ensures
        minimized_after_all(minimized, events.take(later)),
    decreases later - shrink,
{
    let handled = events.take(later);
    assert(handled.last() == events[later - 1]);
    assert(handled.drop_last() =~= events.take(later - 1));
    if later - 1 > shrink {
        lemma_stays_minimized(minimized, events, shrink, later - 1);
    }
}

/// A key that no event of a run names is as it was before the run; in a run
/// that starts from the empty input state it is released.
pub proof fn lemma_key_without_event_is_released(
    input: InputView,
    events: Seq<Event>,
    code: KeyCode,
)
    requires
        forall|k: int|
            0 <= k < events.len() ==> !(#[trigger] events[k] matches Event::KeyboardInput {
                code: Some(c),
                ..
            }
                && c == code),
    ensures
        input_after_all(input, events).key_pressed(code) == input.key_pressed(code),
        !input_after_all(InputView::empty(), events).key_pressed(code),
    decreases events.len(),
{
    if events.len() > 0 {
        let earlier = events.drop_last();
        assert forall|k: int| 0 <= k < earlier.len() implies
            !(#[trigger] earlier[k] matches Event::KeyboardInput { code: Some(c), .. }
                && c == code)
        by {
            assert(earlier[k] == events[k]);
        }
        lemma_key_without_event_is_released(input, earlier, code);
        lemma_key_without_event_is_released(InputView::empty(), earlier, code);
        assert(!(events[events.len() - 1] matches Event::KeyboardInput { code: Some(c), .. }
            && c == code));
    }
}

/// A button that no event of a run names is as it was before the run; in a
/// run that starts from the empty input state it is released.
pub proof fn lemma_button_without_event_is_released(
    input: InputView,
    events: Seq<Event>,
    button: MouseButton,
)
    requires
        forall|k: int|
            0 <= k < events.len() ==> !(#[trigger] events[k] matches Event::MouseInput {
                button: b,
                ..
            }
                && b == button),
    ensures
        input_after_all(input, events).button_pressed(button) == input.button_pressed(button),
        !input_after_all(InputView::empty(), events).button_pressed(button),
    decreases events.len(),
{
    if events.len() > 0 {
        let earlier = events.drop_last();
        assert forall|k: int| 0 <= k < earlier.len() implies
            !(#[trigger] earlier[k] matches Event::MouseInput { button: b, .. } && b == button)
        by {
            assert(earlier[k] == events[k]);
        }
        lemma_button_without_event_is_released(input, earlier, button);
        lemma_button_without_event_is_released(InputView::empty(), earlier, button);
        assert(!(events[events.len() - 1] matches Event::MouseInput { button: b, .. }
            && b == button));
    }
}

} // verus!
