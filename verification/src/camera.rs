//! The decisions of the orbit camera.
//!
//! From a frame's input the camera decides whether the cursor is tracked at
//! all and which movement the held mouse button asks for; from the distance
//! that a zoom asks for, whether the least distance cuts it short; from its
//! up direction, which way a sideways drag turns it.
//!
//! The camera's arithmetic is done on floating-point numbers by the caller.
//! Numbers come in and go out as single-precision bit patterns, and this
//! module only moves and compares them.

use vstd::prelude::*;
use crate::input::{CursorPosition, Input, InputView, KeyCode, MouseButton};
use crate::scalar::{is_nan, less, less_than, rank, ONE, ZERO};

verus! {

/// The key and the buttons that drive the camera.
#[derive(Debug, Clone, Copy, PartialEq, Eq, Structural)]
pub struct Bindings {
    /// While this key is held, cursor movement is read as a gesture.
    pub modifier: KeyCode,
    /// Held together with the modifier, this button pans.
    pub pan: MouseButton,
    /// Held together with the modifier, this button rotates, unless the pan
    /// button is held too.
    pub rotate: MouseButton,
}

/// The number of the left Alt key among the virtual key codes of `winit`.
pub const LEFT_ALT: u32 = 115;

impl Default for Bindings {
    /// The usual bindings: left Alt enables the camera, the right button
    /// pans and the left button rotates.
    fn default() -> (bindings: Self)
        ensures
            bindings == (Bindings {
                modifier: KeyCode(LEFT_ALT),
                pan: MouseButton::Right,
                rotate: MouseButton::Left,
            }),
    {
        Bindings { modifier: KeyCode(LEFT_ALT), pan: MouseButton::Right, rotate: MouseButton::Left }
    }
}

/// What a frame's cursor movement does to the camera.
#[derive(Debug, Clone, Copy, PartialEq, Eq, Structural)]
pub enum Motion {
    /// Move the focal point in the camera's plane.
    Pan,
    /// Turn the camera around the focal point.
    Rotate,
    /// Neither button is held: the camera stays where it is.
    Hold,
}

/// One frame's cursor movement under the modifier key.
///
/// The camera scales `to - from` by its sensitivity, applies `motion`, and
/// then recomputes its view matrix, whichever motion it was.
#[derive(Debug, Clone, Copy, PartialEq, Eq, Structural)]
pub struct Gesture {
    /// Where the cursor was when the previous gesture was read.
    pub from: CursorPosition,
    /// Where the cursor is now.
    pub to: CursorPosition,
    pub motion: Motion,
}

/// The motion that the held buttons ask for. Panning wins over rotating.
pub open spec fn motion_for(bindings: Bindings, input: InputView) -> Motion {
    if input.button_pressed(bindings.pan) {
        Motion::Pan
    } else if input.button_pressed(bindings.rotate) {
        Motion::Rotate
    } else {
        Motion::Hold
    }
}

/// The gesture that a frame yields: none unless the modifier key is held.
pub open spec fn gesture_for(
    bindings: Bindings,
    last_position: CursorPosition,
    input: InputView,
) -> Option<Gesture> {
    if input.key_pressed(bindings.modifier) {
        Some(Gesture { from: last_position, to: input.cursor, motion: motion_for(bindings, input) })
    } else {
        None
    }
}

/// The cursor position that the next gesture starts from.
pub open spec fn position_after(
    bindings: Bindings,
    last_position: CursorPosition,
    input: InputView,
) -> CursorPosition {
    if input.key_pressed(bindings.modifier) {
        input.cursor
    } else {
        last_position
    }
}

/// The interaction state of the orbit camera: its bindings and the cursor
/// position at which the last gesture ended.
#[derive(Debug, Clone, Copy, PartialEq, Eq, Structural)]
pub struct OrbitControls {
    pub bindings: Bindings,
    pub last_position: CursorPosition,
}

impl OrbitControls {
    /// Controls that have seen no gesture yet: the first one starts at the
    /// origin.
    pub fn new(bindings: Bindings) -> (controls: Self)
        ensures
            controls.bindings == bindings,
            controls.last_position == (CursorPosition { x_bits: 0, y_bits: 0 }),
    {
        Self { bindings, last_position: CursorPosition { x_bits: 0, y_bits: 0 } }
    }

    /// Reads one frame's input.
    ///
    /// Without the modifier key nothing changes and there is no gesture.
    /// With it, the gesture runs from the remembered position to the
    /// cursor, which is remembered in turn, whether or not a button is held.
    pub fn on_update(&mut self, input: &Input) -> (gesture: Option<Gesture>)
        ensures
            gesture == gesture_for(old(self).bindings, old(self).last_position, input@),
            final(self).bindings == old(self).bindings,
            final(self).last_position == position_after(
                old(self).bindings,
                old(self).last_position,
                input@,
            ),
    {
        if !input.in_key_pressed(self.bindings.modifier) {
            return None;
        }
        let from = self.last_position;
        let to = *input.get_mouse_position();
        self.last_position = to;
        let motion = if input.is_mouse_button_pressed(self.bindings.pan) {
            Motion::Pan
        } else if input.is_mouse_button_pressed(self.bindings.rotate) {
            Motion::Rotate
        } else {
            Motion::Hold
        };
        Some(Gesture { from, to, motion })
    }
}

/// The least distance between the camera and its focal point: `1.0`.
pub const MIN_DISTANCE: u32 = ONE;

/// What a zoom comes to once the least distance is enforced.
#[derive(Debug, Clone, Copy, PartialEq, Eq, Structural)]
pub struct Zoom {
    /// The new distance, as a bit pattern.
    pub distance_bits: u32,
    /// Whether the focal point moves one unit forward: it does where the
    /// zoom would have brought the camera closer than the least distance.
    pub advance_focal_point: bool,
}

/// The zoom for a distance that the wheel asked for.
pub open spec fn zoom_for(wanted_bits: u32) -> Zoom {
    if less(wanted_bits, MIN_DISTANCE) {
        Zoom { distance_bits: MIN_DISTANCE, advance_focal_point: true }
    } else {
        Zoom { distance_bits: wanted_bits, advance_focal_point: false }
    }
}

/// Enforces the least distance on the distance that a zoom asked for.
///
/// A distance below the least one is replaced by it, and the focal point is
/// pushed forward instead; any other distance stands.
pub fn limit_zoom(wanted_bits: u32) -> (zoom: Zoom)
    ensures
        zoom == zoom_for(wanted_bits),
{
    if less_than(wanted_bits, MIN_DISTANCE) {
        Zoom { distance_bits: MIN_DISTANCE, advance_focal_point: true }
    } else {
        Zoom { distance_bits: wanted_bits, advance_focal_point: false }
    }
}

/// Whether dragging sideways turns the camera the other way round: it does
/// once the camera's up direction points downwards, that is, once the
/// vertical component of it is less than zero.
pub open spec fn yaw_reversed_for(up_y_bits: u32) -> bool {
    less(up_y_bits, ZERO)
}

/// Decides the sign of a yaw from the vertical component of the camera's up
/// direction.
pub fn yaw_reversed(up_y_bits: u32) -> (reversed: bool)
    ensures
        reversed == yaw_reversed_for(up_y_bits),
{
    less_than(up_y_bits, ZERO)
}

/// Whatever distance a zoom asks for, the distance it comes to is not below
/// the least distance; where the wanted distance is a number, the result is
/// a number at or above it.
pub proof fn lemma_distance_stays_at_or_above_the_least(wanted_bits: u32)
    ensures
        !less(zoom_for(wanted_bits).distance_bits, MIN_DISTANCE),
        !is_nan(wanted_bits) ==> !is_nan(zoom_for(wanted_bits).distance_bits) && rank(
            zoom_for(wanted_bits).distance_bits,
        ) >= rank(MIN_DISTANCE),
{
}

/// The distance after a run of zooms, the first of them first. Each zoom
/// turns the distance before it and the wheel's movement into a wanted
/// distance by `arithmetic`, which is the caller's, and then enforces the
/// least distance.
pub open spec fn distance_after_zooms(
    start_bits: u32,
    wheel: Seq<u32>,
    arithmetic: spec_fn(u32, u32) -> u32,
) -> u32
    decreases wheel.len(),
{
    if wheel.len() == 0 {
        start_bits
    } else {
        let before = distance_after_zooms(start_bits, wheel.drop_last(), arithmetic);
        zoom_for(arithmetic(before, wheel.last())).distance_bits
    }
}

/// After a run of zooms the distance is not below the least distance,
/// whatever the wheel did and whatever the arithmetic made of it; after no
/// zoom at all it is where it started.
pub proof fn lemma_no_run_of_zooms_goes_below_the_least(
    start_bits: u32,
    wheel: Seq<u32>,
    arithmetic: spec_fn(u32, u32) -> u32,
)
    ensures
        wheel.len() > 0 ==> !less(
            distance_after_zooms(start_bits, wheel, arithmetic),
            MIN_DISTANCE,
        ),
        wheel.len() == 0 ==> distance_after_zooms(start_bits, wheel, arithmetic) == start_bits,
{
    if wheel.len() > 0 {
        let before = distance_after_zooms(start_bits, wheel.drop_last(), arithmetic);
        lemma_distance_stays_at_or_above_the_least(arithmetic(before, wheel.last()));
    }
}

} // verus!
