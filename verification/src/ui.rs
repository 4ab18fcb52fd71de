//! Which predefined configuration is selected.

use crate::params::{BoidProperty, PRESET_COUNT};
use vstd::prelude::*;

verus! {

/// The name of the predefined configuration of the given index.
pub open spec fn property_name(idx: int) -> Seq<char> {
    if idx == 0 {
        "Git"@
    } else if idx == 1 {
        "Book 1"@
    } else if idx == 2 {
        "Book 2"@
    } else if idx == 3 {
        "Book 3"@
    } else if idx == 4 {
        "Book 4"@
    } else {
        "Book 5"@
    }
}

/// The selection of a predefined configuration.
#[derive(Clone, Copy, Debug, PartialEq, Eq, Structural)]
pub struct UIState {
    pub selected_property_idx: i32,
}

impl UIState {
    /// The index that is selected at first.
    pub const DEFAULT_PROPERTY_IDX: usize = 0;

    /// The index names a predefined configuration.
    pub open spec fn wf(self) -> bool {
        0 <= self.selected_property_idx < PRESET_COUNT
    }

    /// The name of the selected configuration.
    pub fn label(&self) -> (name: &'static str)
        requires
            self.wf(),
        ensures
            name@ == property_name(self.selected_property_idx as int),
    {
        if self.selected_property_idx == 0 {
            "Git"
        } else if self.selected_property_idx == 1 {
            "Book 1"
        } else if self.selected_property_idx == 2 {
            "Book 2"
        } else if self.selected_property_idx == 3 {
            "Book 3"
        } else if self.selected_property_idx == 4 {
            "Book 4"
        } else {
            "Book 5"
        }
    }

    /// The parameters of the selected configuration.
    pub fn selected_property(&self) -> (p: BoidProperty)
        requires
            self.wf(),
        ensures
            p == BoidProperty::preset(self.selected_property_idx as int),
            p.wf(),
    {
        BoidProperty::predefined(self.selected_property_idx as usize)
    }
}

impl Default for UIState {
    /// The first configuration is selected.
    fn default() -> (s: UIState)
        ensures
            s.selected_property_idx == 0,
            s.wf(),
    {
        UIState { selected_property_idx: 0 }
    }
}

/// Whether a panel is drawn at its own scale after a frame, given whether
/// it was before (`None`: no frame has been drawn yet). The first frame
/// and every press of the key switch over; the first frame is drawn at the
/// inverse of the window's scale.
pub open spec fn scale_toggled(pressed: bool, own_scale: Option<bool>) -> bool {
    match own_scale {
        None => false,
        Some(b) => if pressed {
            !b
        } else {
            b
        },
    }
}

/// Switches between the panel's own scale and the inverse of the window's
/// scale.
pub fn toggle_scale(pressed: bool, own_scale: Option<bool>) -> (next: bool)
    ensures
        next == scale_toggled(pressed, own_scale),
{
    match own_scale {
        None => false,
        Some(b) => if pressed {
            !b
        } else {
            b
        },
    }
}

} // verus!
