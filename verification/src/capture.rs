//! Window pixel capture.
//!
//! Two things need a window's pixels off the GPU:
//!
//! * an app-triggered close, which keeps drawing the window from the last
//!   committed buffers after the client is gone (see [`capture_surface_tree`]);
//! * a maximize/unmaximize crossfade, which freezes the pre-transition frame so
//!   it can fade into the live content (see
//!   [`AnvilState::capture_window_snapshots`]).

use vstd::prelude::*;

use crate::animation::{SnapshotState, WindowAnimation};
use crate::element::WindowElement;
use crate::state::AnvilState;
use crate::utils::{Point, Rectangle, Size};

verus! {

use crate::space::Layout;

/// What is shown of a mapped surface: where it is in its parent, and how large.
#[derive(Debug, Clone, Copy, PartialEq, Eq, Structural)]
pub struct SurfaceView {
    pub offset: Point,
    /// Logical destination size.
    pub dst: Size,
}

/// One mapped surface of a window, at its position relative to the window's
/// top-left. The key names the buffer that the program holds.
#[derive(Debug, Clone, Copy, PartialEq, Eq, Structural)]
pub struct SurfaceFrame {
    pub buffer: u64,
    pub location: Point,
    /// Logical destination size.
    pub size: Size,
}

/// A surface of a window's tree.
#[derive(Debug, Clone, Copy, PartialEq, Eq, Structural)]
pub struct SurfaceNode {
    /// The index of the surface it is a child of, unless it is the root.
    pub parent: Option<usize>,
    /// What is shown of it, if anything is.
    pub view: Option<SurfaceView>,
    /// Its buffer, if it has one.
    pub buffer: Option<u64>,
}

/// Whether every surface comes after the one it is a child of.
pub open spec fn is_tree(nodes: Seq<SurfaceNode>) -> bool {
    forall|i: int|
        0 <= i < nodes.len() ==> match (#[trigger] nodes[i]).parent {
            Some(parent) => parent < i,
            None => true,
        }
}

/// Where the surface at `i` counts from: where the one it is a child of is. The
/// children of a surface that shows nothing are not shown.
pub open spec fn origin_of(nodes: Seq<SurfaceNode>, i: int) -> Option<Point>
    decreases i,
    when 0 <= i < nodes.len() && is_tree(nodes)
{
    match nodes[i].parent {
        None => Some(Point { x: 0, y: 0 }),
        Some(parent) => match (origin_of(nodes, parent as int), nodes[parent as int].view) {
            (Some(origin), Some(view)) => Some(origin.moved(view.offset)),
            _ => None,
        },
    }
}

/// What is kept of the surface at `i`: its buffer, if it has one and shows it.
pub open spec fn frame_of(nodes: Seq<SurfaceNode>, i: int) -> Option<SurfaceFrame> {
    match (origin_of(nodes, i), nodes[i].view, nodes[i].buffer) {
        (Some(origin), Some(view), Some(buffer)) => Some(
            SurfaceFrame { buffer, location: origin.moved(view.offset), size: view.dst },
        ),
        _ => None,
    }
}

/// What is kept of the surfaces in `order`, from the `k`th on.
pub open spec fn frames_in(nodes: Seq<SurfaceNode>, order: Seq<usize>, k: int) -> Seq<SurfaceFrame>
    decreases order.len() - k,
{
    if k < 0 || k >= order.len() {
        Seq::empty()
    } else {
        match frame_of(nodes, order[k] as int) {
            Some(frame) => seq![frame] + frames_in(nodes, order, k + 1),
            None => frames_in(nodes, order, k + 1),
        }
    }
}

/// Where each surface counts from.
fn origins(nodes: &Vec<SurfaceNode>) -> (r: Vec<Option<Point>>)
    requires
        is_tree(nodes@),
    ensures
        r@.len() == nodes@.len(),
        forall|i: int| 0 <= i < nodes@.len() ==> #[trigger] r@[i] == origin_of(nodes@, i),
{
    let mut origins: Vec<Option<Point>> = Vec::new();
    let mut i: usize = 0;
    while i < nodes.len()
        invariant
            i <= nodes.len(),
            is_tree(nodes@),
            origins.len() == i,
            forall|k: int| 0 <= k < i ==> #[trigger] origins@[k] == origin_of(nodes@, k),
        decreases nodes.len() - i,
    {
        assert(match nodes@[i as int].parent {
            Some(parent) => parent < i,
            None => true,
        });
        let origin = match nodes[i].parent {
            None => Some(Point { x: 0, y: 0 }),
            Some(parent) => match (origins[parent], nodes[parent].view) {
                (Some(origin), Some(view)) => Some(origin.plus(view.offset)),
                _ => None,
            },
        };
        origins.push(origin);
        i += 1;
    }
    origins
}

/// Keep every mapped surface's buffer of a window's surface tree, with its
/// position relative to the window's top-left, in the drawing `order`. Holding
/// the buffers keeps the pixels alive after the client is gone, so an
/// app-triggered close can render the whole window (content and subsurfaces).
pub fn capture_surface_tree(nodes: &Vec<SurfaceNode>, order: &Vec<usize>) -> (r: Vec<SurfaceFrame>)
    requires
        is_tree(nodes@),
        forall|k: int| 0 <= k < order@.len() ==> (#[trigger] order@[k]) < nodes@.len(),
    ensures
        r@ == frames_in(nodes@, order@, 0),
{
    let origins = origins(nodes);
    let mut frames: Vec<SurfaceFrame> = Vec::new();
    let mut k: usize = 0;
    assert(frames@ + frames_in(nodes@, order@, 0) =~= frames_in(nodes@, order@, 0));
    while k < order.len()
        invariant
            k <= order.len(),
            is_tree(nodes@),
            origins@.len() == nodes@.len(),
            forall|k: int| 0 <= k < order@.len() ==> (#[trigger] order@[k]) < nodes@.len(),
            forall|i: int| 0 <= i < nodes@.len() ==> #[trigger] origins@[i] == origin_of(nodes@, i),
            frames@ + frames_in(nodes@, order@, k as int) == frames_in(nodes@, order@, 0),
        decreases order.len() - k,
    {
        let i = order[k];
        let ghost rest = frames_in(nodes@, order@, k + 1);
        match (origins[i], nodes[i].view, nodes[i].buffer) {
            (Some(origin), Some(view), Some(buffer)) => {
                let frame = SurfaceFrame {
                    buffer,
                    location: origin.plus(view.offset),
                    size: view.dst,
                };
                assert(frames@ + (seq![frame] + rest) =~= frames@.push(frame) + rest);
                frames.push(frame);
            },
            _ => {},
        }
        k += 1;
    }
    assert(frames@ + Seq::<SurfaceFrame>::empty() =~= frames@);
    frames
}

/// The geometry of a frame that consists of `surfaces`: the one the client
/// declares, or the size of the first surface. A window without any surface has
/// no frame to keep.
pub fn frame_geometry(declared: Option<Rectangle>, surfaces: &Vec<SurfaceFrame>) -> (r: Option<
    Rectangle,
>)
    ensures
        r == (if surfaces@.len() == 0 {
            None
        } else {
            match declared {
                Some(geometry) => Some(geometry),
                None => Some(
                    Rectangle { loc: Point { x: 0, y: 0 }, size: surfaces@[0].size },
                ),
            }
        }),
{
    if surfaces.len() == 0 {
        return None;
    }
    match declared {
        Some(geometry) => Some(geometry),
        None => Some(Rectangle::from_size(surfaces[0].size)),
    }
}

impl WindowElement {
    /// Whether the window waits for its pre-transition pixels to be captured.
    pub open spec fn wants_snapshot(self) -> bool {
        !self.ghosting() && match self.state.animation {
            Some(animation) => animation.snapshot is Pending,
            None => false,
        }
    }

    /// The window with `snapshot` as its captured pixels, if it is in transition.
    pub open spec fn frozen(self, snapshot: SnapshotState) -> WindowElement {
        match self.state.animation {
            Some(animation) => self.animated(WindowAnimation { snapshot, ..animation }),
            None => self,
        }
    }

    /// The window with its captured pixels, `content` large, if there are any.
    fn with_snapshot(self, buffer: Option<u64>, content: Size) -> (r: WindowElement)
        requires
            self.wf(),
        ensures
            r == self.frozen(snapshot_state(buffer, content)),
            r.wf(),
    {
        match self.state.animation {
            Some(animation) => {
                let mut animation = animation;
                match buffer {
                    Some(buffer) => animation.set_snapshot(buffer, content),
                    None => animation.set_snapshot_unavailable(),
                }
                self.with_animation(animation)
            },
            None => self,
        }
    }
}

/// What is known of captured pixels.
pub open spec fn snapshot_state(buffer: Option<u64>, content: Size) -> SnapshotState {
    match buffer {
        Some(buffer) => SnapshotState::Captured { buffer, size: content },
        None => SnapshotState::Unavailable,
    }
}

impl Layout {
    /// Whether the pixels of the window `id` are to be captured now.
    pub open spec fn is_captured_now(self, id: u64) -> bool {
        match self.window(id) {
            Some(window) => window.wants_snapshot() && window.content_size().w > 0
                && window.content_size().h > 0,
            None => false,
        }
    }

    /// The layout after the window `id` was asked for. One without any content
    /// has no pixels to capture.
    pub open spec fn capture_asked(self, id: u64) -> Layout {
        match self.window(id) {
            Some(window) if window.wants_snapshot() && !self.is_captured_now(id) =>
                self.with_window(window.frozen(SnapshotState::Unavailable)),
            _ => self,
        }
    }

    /// The layout after `windows`, from `i` on, were asked for, and those whose
    /// pixels are to be captured, after those in `list`.
    pub open spec fn captures(self, windows: Seq<u64>, i: int, list: Seq<(u64, Size)>) -> (
        Layout,
        Seq<(u64, Size)>,
    )
        decreases windows.len() - i,
    {
        if i < 0 || i >= windows.len() {
            (self, list)
        } else {
            let longer = if self.is_captured_now(windows[i]) {
                list.push((windows[i], self.window(windows[i])->0.content_size()))
            } else {
                list
            };
            self.capture_asked(windows[i]).captures(windows, i + 1, longer)
        }
    }

    /// The layout with the captured pixels of the window `id`, if there are any.
    pub open spec fn captured_as(self, id: u64, buffer: Option<u64>, content: Size) -> Layout {
        match self.window(id) {
            Some(window) => self.with_window(window.frozen(snapshot_state(buffer, content))),
            None => self,
        }
    }
}

impl AnvilState {
    /// Find the windows whose pre-transition pixels are to be captured, with the
    /// sizes to capture, so that their animations can crossfade from them. The
    /// outcome of each goes to [`Self::snapshot_captured`].
    pub fn capture_window_snapshots(&mut self) -> (r: Vec<(u64, Size)>)
        requires
            old(self)@.wf(),
        ensures
            final(self)@.wf(),
            ({
                let (layout, list) = old(self)@.layout.captures(
                    old(self)@.layout.mapped_ids(),
                    0,
                    Seq::empty(),
                );
                &&& final(self)@ == old(self)@.over(layout)
                &&& r@ == list
            }),
    {
        let windows = self.mapped_windows();
        let mut list: Vec<(u64, Size)> = Vec::new();
        let mut i: usize = 0;
        while i < windows.len()
            invariant
                i <= windows.len(),
                self@.wf(),
                self@ == old(self)@.over(self@.layout),
                self@.layout.captures(windows@, i as int, list@) == old(self)@.layout.captures(
                    windows@,
                    0,
                    Seq::empty(),
                ),
            decreases windows.len() - i,
        {
            let id = windows[i];
            if let Some(window) = self.space.window(id) {
                let pending = !window.is_ghosting() && match window.state.animation {
                    Some(animation) => animation.needs_snapshot(),
                    None => false,
                };
                if pending {
                    let content = window.resize_content_size();
                    if content.w > 0 && content.h > 0 {
                        list.push((id, content));
                    } else {
                        self.space.put(window.with_snapshot(None, content));
                    }
                }
            }
            i += 1;
        }
        list
    }

    /// The pixels of `window` were captured at the size `content`, if that was
    /// possible.
    pub fn snapshot_captured(&mut self, window: u64, buffer: Option<u64>, content: Size)
        requires
            old(self)@.wf(),
        ensures
            final(self)@ == old(self)@.over(
                old(self)@.layout.captured_as(window, buffer, content),
            ),
            final(self)@.wf(),
    {
        if let Some(found) = self.space.window(window) {
            self.space.put(found.with_snapshot(buffer, content));
        }
    }
}

/// A transition is captured once: after the outcome is in, nothing more is asked
/// for.
pub proof fn transitions_are_captured_once(window: WindowElement, buffer: Option<u64>, content: Size)
    ensures
        !window.frozen(snapshot_state(buffer, content)).wants_snapshot(),
{
}

} // verus!
