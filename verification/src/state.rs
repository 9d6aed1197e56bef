//! The state of the compositor's window management.

use std::time::Instant;
use vstd::prelude::*;

use crate::snap::SnapTarget;
use crate::space::{Action, Placed, Space};
use crate::ssd::{CursorIcon, SSDDrag};
use crate::utils::{FixedPoint, Point};

verus! {

use crate::space::Layout;

/// What the cursor looks like.
#[derive(Debug, Clone, Copy, PartialEq, Eq, Structural)]
pub enum CursorStatus {
    /// A shape of the cursor theme.
    Named(CursorIcon),
    /// The surface that a client drew.
    Surface(u64),
}

/// The surface that is shown at the cursor during a drag and drop.
#[derive(Debug, Clone, Copy, PartialEq, Eq, Structural)]
pub struct DndIcon {
    pub surface: u64,
    pub offset: Point,
}

/// The state of the compositor's window management.
pub struct AnvilState {
    pub space: Space,
    /// The minimized windows and where they were, in the order in which they
    /// were minimized.
    pub minimized: Vec<Placed>,
    /// Whether the seat has a keyboard.
    pub has_keyboard: bool,
    /// The window that holds the keyboard focus, if a window does.
    pub focus: Option<u64>,
    /// A freshly mapped window waiting for keyboard focus.
    pub pending_focus: Option<u64>,
    /// Where the pointer is.
    pub pointer: FixedPoint,
    pub cursor_status: CursorStatus,
    /// Where the pointer is within the cursor surface.
    pub cursor_hotspot: Point,
    pub dnd_icon: Option<DndIcon>,
    /// The window whose position an interactive move drives.
    pub dragging_window: Option<u64>,
    pub ssd_drag: Option<SSDDrag>,
    /// The snap target the pointer is over.
    pub snap_candidate: Option<SnapTarget>,
    /// Since when it is.
    pub snap_candidate_since: Instant,
    /// The next window identifier to give out to the panel.
    pub next_panel_id: u64,
}

/// The state as plain values.
#[verifier::ext_equal]
pub struct Desk {
    pub layout: Layout,
    pub minimized: Seq<Placed>,
    pub has_keyboard: bool,
    pub focus: Option<u64>,
    pub pending_focus: Option<u64>,
    pub pointer: FixedPoint,
    pub cursor_status: CursorStatus,
    pub cursor_hotspot: Point,
    pub dnd_icon: Option<DndIcon>,
    pub dragging_window: Option<u64>,
    pub ssd_drag: Option<SSDDrag>,
    pub snap_candidate: Option<SnapTarget>,
    pub snap_candidate_since: Instant,
    pub next_panel_id: u64,
}

impl View for AnvilState {
    type V = Desk;

    open spec fn view(&self) -> Desk {
        Desk {
            layout: self.space@,
            minimized: self.minimized@,
            has_keyboard: self.has_keyboard,
            focus: self.focus,
            pending_focus: self.pending_focus,
            pointer: self.pointer,
            cursor_status: self.cursor_status,
            cursor_hotspot: self.cursor_hotspot,
            dnd_icon: self.dnd_icon,
            dragging_window: self.dragging_window,
            ssd_drag: self.ssd_drag,
            snap_candidate: self.snap_candidate,
            snap_candidate_since: self.snap_candidate_since,
            next_panel_id: self.next_panel_id,
        }
    }
}

impl Desk {
    /// Whether every window is well-formed and none is mapped twice.
    pub open spec fn wf(self) -> bool {
        self.layout.wf()
    }

    /// This state with another layout.
    pub open spec fn over(self, layout: Layout) -> Desk {
        Desk { layout, ..self }
    }
}

impl AnvilState {
    /// The state of a compositor that has no window and no output yet.
    pub fn new(has_keyboard: bool, now: Instant) -> (r: Self)
        ensures
            r@ == (Desk {
                layout: Layout {
                    windows: Seq::empty(),
                    elements: Seq::empty(),
                    outputs: Seq::empty(),
                    overlaps: Seq::empty(),
                    actions: Seq::empty(),
                },
                minimized: Seq::empty(),
                has_keyboard,
                focus: None,
                pending_focus: None,
                pointer: FixedPoint { x: 0, y: 0 },
                cursor_status: CursorStatus::Named(CursorIcon::Default),
                cursor_hotspot: Point { x: 0, y: 0 },
                dnd_icon: None,
                dragging_window: None,
                ssd_drag: None,
                snap_candidate: None,
                snap_candidate_since: now,
                next_panel_id: 1,
            }),
            r@.wf(),
    {
        reveal(Layout::wf);
        let state = AnvilState {
            space: Space {
                windows: Vec::new(),
                elements: Vec::new(),
                outputs: Vec::new(),
                overlaps: Vec::new(),
                actions: Vec::new(),
            },
            minimized: Vec::new(),
            has_keyboard,
            focus: None,
            pending_focus: None,
            pointer: FixedPoint { x: 0, y: 0 },
            cursor_status: CursorStatus::Named(CursorIcon::Default),
            cursor_hotspot: Point { x: 0, y: 0 },
            dnd_icon: None,
            dragging_window: None,
            ssd_drag: None,
            snap_candidate: None,
            snap_candidate_since: now,
            next_panel_id: 1,
        };
        assert(state@.layout =~= Layout {
            windows: Seq::empty(),
            elements: Seq::empty(),
            outputs: Seq::empty(),
            overlaps: Seq::empty(),
            actions: Seq::empty(),
        });
        assert(state@.minimized =~= Seq::empty());
        state
    }

    /// Hand out what there is to do, in order.
    pub fn take_actions(&mut self) -> (r: Vec<Action>)
        ensures
            r@ == old(self)@.layout.actions,
            final(self)@ == old(self)@.over(
                Layout { actions: Seq::empty(), ..old(self)@.layout },
            ),
            old(self)@.wf() ==> final(self)@.wf(),
    {
        reveal(Layout::wf);
        let mut taken: Vec<Action> = Vec::new();
        taken.append(&mut self.space.actions);
        assert(taken@ =~= old(self)@.layout.actions);
        assert(self@.layout.windows == old(self)@.layout.windows);
        assert(self@ =~= old(self)@.over(Layout { actions: Seq::empty(), ..old(self)@.layout }));
        taken
    }
}

} // verus!
