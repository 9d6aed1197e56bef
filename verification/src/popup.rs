//! Popups: where they may go, and when they may grab the seat.

use std::time::Instant;
use vstd::prelude::*;

use crate::space::Space;
use crate::state::AnvilState;
use crate::utils::{difference, Point, Rectangle};

verus! {

use crate::space::Layout;
use crate::utils::sat32;

impl Layout {
    /// The bounding box of `base` and the geometries of `outputs`, from `i` on.
    /// None if one of them is not mapped.
    pub open spec fn union(self, base: Rectangle, outputs: Seq<u64>, i: int) -> Option<Rectangle>
        decreases outputs.len() - i,
    {
        if i < 0 || i >= outputs.len() {
            Some(base)
        } else {
            match self.output_geometry(outputs[i]) {
                Some(geo) => self.union(base.merged(geo), outputs, i + 1),
                None => None,
            }
        }
    }

    /// The bounding box of the outputs that the window `id` reaches onto.
    pub open spec fn reach(self, id: u64) -> Option<Rectangle> {
        let outputs = self.outputs_for(id);
        if outputs.len() == 0 {
            None
        } else {
            match self.output_geometry(outputs.last()) {
                Some(geo) => self.union(geo, outputs.drop_last(), 0),
                None => None,
            }
        }
    }

    /// The room that a popup of the window `id` has, relative to its parent,
    /// which is at `parent` within the window.
    pub open spec fn popup_room(self, id: u64, parent: Point, now: Instant) -> Option<Rectangle> {
        match (self.reach(id), self.element_geometry(id, now)) {
            (Some(reach), Some(geo)) => Some(
                Rectangle {
                    loc: Point {
                        x: sat32(sat32(reach.loc.x - parent.x) - geo.loc.x) as i32,
                        y: sat32(sat32(reach.loc.y - parent.y) - geo.loc.y) as i32,
                    },
                    size: reach.size,
                },
            ),
            _ => None,
        }
    }
}

/// The bounding box of the outputs that a window reaches onto.
fn outputs_reached(space: &Space, window: u64) -> (r: Option<Rectangle>)
    ensures
        r == space@.reach(window),
{
    let outputs = space.outputs_for_element(window);
    if outputs.len() == 0 {
        return None;
    }
    let last = outputs.len() - 1;
    let base = match space.output_geometry(outputs[last]) {
        Some(geo) => geo,
        None => return None,
    };
    let ghost others = outputs@.drop_last();
    let mut reach = base;
    let mut i: usize = 0;
    while i < last
        invariant
            i <= last,
            last == outputs.len() - 1,
            others == outputs@.drop_last(),
            outputs@ == space@.outputs_for(window),
            space@.output_geometry(outputs@.last()) == Some(base),
            space@.union(reach, others, i as int) == space@.union(base, others, 0),
        decreases last - i,
    {
        assert(others[i as int] == outputs@[i as int]);
        match space.output_geometry(outputs[i]) {
            Some(geo) => {
                reach = reach.merge(geo);
            },
            None => return None,
        }
        i += 1;
    }
    Some(reach)
}

/// Whether a device is held, and by whom.
#[derive(Debug, Clone, Copy, PartialEq, Eq, Structural)]
pub struct DeviceGrab {
    pub is_grabbed: bool,
    /// Whether the serial of the popup's request holds it.
    pub by_request: bool,
    /// Whether the serial of the popup before it holds it.
    pub by_previous: bool,
}

/// What becomes of a popup's request for a grab.
#[derive(Debug, Clone, Copy, PartialEq, Eq, Structural)]
pub struct PopupGrab {
    /// Whether the popup gets the keyboard.
    pub keyboard: bool,
    /// Whether the popup gets the pointer.
    pub pointer: bool,
    /// Whether the whole chain of popups is dismissed.
    pub dismissed: bool,
}

impl DeviceGrab {
    /// Whether somebody else holds the device.
    pub open spec fn taken(self) -> bool {
        self.is_grabbed && !self.by_request && !self.by_previous
    }

    fn is_taken(&self) -> (r: bool)
        ensures
            r == self.taken(),
    {
        self.is_grabbed && !(self.by_request || self.by_previous)
    }
}

/// Decide on a popup's request for a grab. A device that somebody else holds
/// dismisses the popup; the keyboard is asked first.
pub fn grab(keyboard: Option<DeviceGrab>, pointer: Option<DeviceGrab>) -> (r: PopupGrab)
    ensures
        ({
            let no_keyboard = keyboard is Some && keyboard->0.taken();
            let no_pointer = pointer is Some && pointer->0.taken();
            &&& r.dismissed == (no_keyboard || no_pointer)
            &&& r.keyboard == (keyboard is Some && !no_keyboard)
            &&& r.pointer == (pointer is Some && !no_pointer && !no_keyboard)
        }),
{
    let mut granted = PopupGrab { keyboard: false, pointer: false, dismissed: false };
    if let Some(keyboard) = keyboard {
        if keyboard.is_taken() {
            granted.dismissed = true;
            return granted;
        }
        granted.keyboard = true;
    }
    if let Some(pointer) = pointer {
        if pointer.is_taken() {
            granted.dismissed = true;
            return granted;
        }
        granted.pointer = true;
    }
    granted
}

impl AnvilState {
    /// The room that a popup of `window` has, for its positioner to fit it into:
    /// the outputs the window is on, relative to the popup's parent, which is at
    /// `parent` within the window.
    pub fn unconstrain_popup(&self, window: u64, parent: Point, now: Instant) -> (r: Option<Rectangle>)
        requires
            self@.wf(),
        ensures
            r == self@.layout.popup_room(window, parent, now),
    {
        match (outputs_reached(&self.space, window), self.space.element_geometry(window, now)) {
            (Some(reach), Some(geo)) => Some(
                Rectangle {
                    loc: Point {
                        x: difference(difference(reach.loc.x, parent.x), geo.loc.x),
                        y: difference(difference(reach.loc.y, parent.y), geo.loc.y),
                    },
                    size: reach.size,
                },
            ),
            _ => None,
        }
    }
}

} // verus!
