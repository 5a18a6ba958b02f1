//! The decisions of the colour wheel on a drag: which part of the wheel a
//! drag works on, and what each move of the pointer changes.
use vstd::prelude::*;
use crate::actions::WindowAction;

verus! {

/// The part of the wheel that a drag works on.
#[derive(Clone, Copy, Debug, PartialEq, Eq, Structural)]
pub enum ColorWheelDragState {
    /// The ring: the drag sets the hue.
    H,
    /// The triangle: the drag sets saturation and value.
    SV,
}

/// What a move of the pointer changes during a drag.
#[derive(Clone, Copy, Debug, PartialEq, Eq, Structural)]
pub enum WheelEdit {
    Nothing,
    Hue,
    SaturationValue,
}

/// The part that a drag works on once it has begun at a point: the triangle
/// where the point is in it, else the ring where the point is on it, else
/// the part that was kept from before.
pub fn drag_begin_state(
    previous: Option<ColorWheelDragState>,
    in_wheel: bool,
    in_triangle: bool,
) -> (s: Option<ColorWheelDragState>)
    ensures
        s == (if in_triangle {
            Some(ColorWheelDragState::SV)
        } else if in_wheel {
            Some(ColorWheelDragState::H)
        } else {
            previous
        }),
{
    let mut state = previous;
    if in_wheel {
        state = Some(ColorWheelDragState::H);
    }
    if in_triangle {
        state = Some(ColorWheelDragState::SV);
    }
    state
}

/// What the end of a drag leaves: the drag state, and the action to run.
#[derive(Clone, Copy, Debug, PartialEq, Eq, Structural)]
pub struct DragEnd {
    pub state: Option<ColorWheelDragState>,
    pub action: WindowAction,
}

/// The end of a drag, in whatever state: no part is dragged any more, and the
/// colour reached is saved to the history.
pub fn drag_end(previous: Option<ColorWheelDragState>) -> (e: DragEnd)
    ensures
        e == (DragEnd { state: None, action: WindowAction::ColorSave }),
{
    DragEnd { state: None, action: WindowAction::ColorSave }
}

/// What a move of the pointer changes in the given drag state.
pub fn drag_update_edit(state: Option<ColorWheelDragState>) -> (e: WheelEdit)
    ensures
        e == (match state {
            None => WheelEdit::Nothing,
            Some(ColorWheelDragState::H) => WheelEdit::Hue,
            Some(ColorWheelDragState::SV) => WheelEdit::SaturationValue,
        }),
{
    match state {
        None => WheelEdit::Nothing,
        Some(ColorWheelDragState::H) => WheelEdit::Hue,
        Some(ColorWheelDragState::SV) => WheelEdit::SaturationValue,
    }
}

} // verus!
