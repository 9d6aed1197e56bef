//! Interactive moves and resizes.

use vstd::prelude::*;

use crate::snap::Edges;
use crate::utils::{difference, sum, Point, Serial, Size};

verus! {

use crate::utils::{fits, sat32};

/// The edges of a window that a resize moves.
#[derive(Debug, Clone, Copy, PartialEq, Eq, Structural)]
pub struct ResizeEdge {
    pub top: bool,
    pub bottom: bool,
    pub left: bool,
    pub right: bool,
}

/// The edge or corner an X11 client asks to be resized at.
#[derive(Debug, Clone, Copy, PartialEq, Eq, Structural)]
pub enum X11ResizeEdge {
    Top,
    Bottom,
    Left,
    Right,
    TopLeft,
    TopRight,
    BottomLeft,
    BottomRight,
}

impl ResizeEdge {
    /// No edge at all.
    pub fn none() -> (r: Self)
        ensures
            r == (ResizeEdge { top: false, bottom: false, left: false, right: false }),
    {
        ResizeEdge { top: false, bottom: false, left: false, right: false }
    }

    /// Whether no edge is set.
    pub open spec fn empty(self) -> bool {
        !self.top && !self.bottom && !self.left && !self.right
    }

    /// Whether no edge is set.
    pub fn is_empty(&self) -> (r: bool)
        ensures
            r == self.empty(),
    {
        !self.top && !self.bottom && !self.left && !self.right
    }

    /// The number that the protocol writes these edges as.
    pub open spec fn number(self) -> int {
        (if self.top { 1int } else { 0 }) + (if self.bottom { 2int } else { 0 })
            + (if self.left { 4int } else { 0 }) + (if self.right { 8int } else { 0 })
    }

    /// The edges that the protocol writes as `bits`, unless it has no such edges.
    pub fn from_bits(bits: u32) -> (r: Option<Self>)
        ensures
            bits > 15 ==> r is None,
            bits <= 15 ==> r is Some && r->0.number() == bits,
    {
        if bits > 15 {
            return None;
        }
        Some(
            ResizeEdge {
                top: bits % 2 == 1,
                bottom: bits / 2 % 2 == 1,
                left: bits / 4 % 2 == 1,
                right: bits / 8 == 1,
            },
        )
    }

    /// The edges of an X11 resize request.
    pub fn from_x11(edge: X11ResizeEdge) -> (r: Self)
        ensures
            r.top == (edge is Top || edge is TopLeft || edge is TopRight),
            r.bottom == (edge is Bottom || edge is BottomLeft || edge is BottomRight),
            r.left == (edge is Left || edge is TopLeft || edge is BottomLeft),
            r.right == (edge is Right || edge is TopRight || edge is BottomRight),
    {
        let (top, bottom, left, right) = match edge {
            X11ResizeEdge::Bottom => (false, true, false, false),
            X11ResizeEdge::BottomLeft => (false, true, true, false),
            X11ResizeEdge::BottomRight => (false, true, false, true),
            X11ResizeEdge::Left => (false, false, true, false),
            X11ResizeEdge::Right => (false, false, false, true),
            X11ResizeEdge::Top => (true, false, false, false),
            X11ResizeEdge::TopLeft => (true, false, true, false),
            X11ResizeEdge::TopRight => (true, false, false, true),
        };
        ResizeEdge { top, bottom, left, right }
    }

    /// These edges as the edges of a snapped cell.
    pub open spec fn dragged(self) -> Edges {
        Edges { left: self.left, right: self.right, top: self.top, bottom: self.bottom }
    }

    /// These edges as the edges of a snapped cell.
    pub fn edges(&self) -> (r: Edges)
        ensures
            r == self.dragged(),
    {
        Edges { left: self.left, right: self.right, top: self.top, bottom: self.bottom }
    }
}

/// The protocol's number of a set of edges determines the set.
pub proof fn edge_numbers_are_distinct(a: ResizeEdge, b: ResizeEdge)
    requires
        a.number() == b.number(),
    ensures
        a == b,
{
}

/// Information about the resize operation.
#[derive(Debug, Clone, Copy, PartialEq, Eq, Structural)]
pub struct ResizeData {
    /// The edges the surface is being resized with.
    pub edges: ResizeEdge,
    /// The initial window location.
    pub initial_window_location: Point,
    /// The initial window size (geometry width and height).
    pub initial_window_size: Size,
    /// Latest intended content size. Requested-only state: it drives configure
    /// requests and anchor math, never the rendered geometry.
    pub last_window_size: Size,
    /// Committed content size captured on the last client commit. This is the
    /// only size the display/decoration is allowed to use while resizing.
    pub committed_size: Size,
    /// Size carried by the most recently sent configure.
    pub last_sent_size: Size,
    /// Serial of the most recently sent configure that the client has not yet
    /// committed. While `Some`, no further size request may be sent.
    pub outstanding: Option<Serial>,
}

impl ResizeData {
    /// The state of a resize that starts at `location` and `size`.
    pub open spec fn fresh(edges: ResizeEdge, location: Point, size: Size) -> ResizeData {
        ResizeData {
            edges,
            initial_window_location: location,
            initial_window_size: size,
            last_window_size: size,
            committed_size: size,
            last_sent_size: size,
            outstanding: None,
        }
    }

    /// State for a freshly started resize. The intended, sent and committed
    /// sizes all begin at the window's current size.
    pub fn new(
        edges: ResizeEdge,
        initial_window_location: Point,
        initial_window_size: Size,
    ) -> (r: Self)
        ensures
            r == Self::fresh(edges, initial_window_location, initial_window_size),
    {
        ResizeData {
            edges,
            initial_window_location,
            initial_window_size,
            last_window_size: initial_window_size,
            committed_size: initial_window_size,
            last_sent_size: initial_window_size,
            outstanding: None,
        }
    }

    /// Whether a configure that the client has not answered is in the way of
    /// the next one, when the client last acknowledged `acked`.
    pub open spec fn waiting(self, acked: Option<Serial>) -> bool {
        match self.outstanding {
            Some(sent) => !(acked is Some && acked->0.no_older_than(sent)),
            None => false,
        }
    }

    /// The next size to ask the client for, if it is time to.
    pub open spec fn next_size(self, acked: Option<Serial>) -> Option<Size> {
        if self.waiting(acked) || self.last_window_size == self.last_sent_size {
            None
        } else {
            Some(self.last_window_size)
        }
    }

    /// This resize once an answered configure is forgotten.
    pub open spec fn settled(self, acked: Option<Serial>) -> ResizeData {
        ResizeData {
            outstanding: if self.waiting(acked) {
                self.outstanding
            } else {
                None
            },
            ..self
        }
    }

    /// Forget an outstanding configure that the client has answered, and decide
    /// on the next size to ask for. At most one request is in flight.
    pub fn advance(&mut self, acked: Option<Serial>) -> (r: Option<Size>)
        ensures
            *final(self) == old(self).settled(acked),
            r == old(self).next_size(acked),
    {
        if let Some(serial) = self.outstanding {
            let committed = match acked {
                Some(last) => last.is_no_older_than(serial),
                None => false,
            };
            if !committed {
                return None;
            }
            self.outstanding = None;
        }
        if self.last_window_size == self.last_sent_size {
            return None;
        }
        Some(self.last_window_size)
    }

    /// This resize after a configure of `size` went out.
    pub open spec fn requested(self, serial: Option<Serial>, size: Size) -> ResizeData {
        ResizeData { outstanding: serial, last_sent_size: size, ..self }
    }
}

/// State of the resize operation.
#[derive(Debug, Clone, Copy, PartialEq, Eq, Structural)]
pub enum ResizeState {
    /// The surface is not being resized.
    NotResizing,
    /// The surface is currently being resized.
    Resizing(ResizeData),
    /// The resize has finished, and the surface needs to ack the final configure.
    WaitingForFinalAck(ResizeData, Serial),
    /// The resize has finished, and the surface needs to commit its final state.
    WaitingForCommit(ResizeData),
}

impl Default for ResizeState {
    fn default() -> (r: Self)
        ensures
            r == ResizeState::NotResizing,
    {
        ResizeState::NotResizing
    }
}

impl ResizeState {
    /// The resize in progress or on its way to its end.
    pub open spec fn active(self) -> Option<ResizeData> {
        match self {
            ResizeState::NotResizing => None,
            ResizeState::Resizing(resize) => Some(resize),
            ResizeState::WaitingForFinalAck(resize, _) => Some(resize),
            ResizeState::WaitingForCommit(resize) => Some(resize),
        }
    }

    /// The resize in progress or on its way to its end.
    pub fn data(&self) -> (r: Option<ResizeData>)
        ensures
            r == self.active(),
    {
        match *self {
            ResizeState::NotResizing => None,
            ResizeState::Resizing(resize) => Some(resize),
            ResizeState::WaitingForFinalAck(resize, _) => Some(resize),
            ResizeState::WaitingForCommit(resize) => Some(resize),
        }
    }

    /// The state with `size` as the intended size of a resize in progress.
    pub open spec fn intending(self, size: Size) -> ResizeState {
        match self {
            ResizeState::Resizing(resize) => ResizeState::Resizing(
                ResizeData { last_window_size: size, ..resize },
            ),
            _ => self,
        }
    }

    /// Record the latest intended resize size. This drives configures and the
    /// anchor math; the committed geometry is what gets rendered.
    pub fn publish_resize_size(&mut self, size: Size)
        ensures
            *final(self) == old(self).intending(size),
    {
        if let ResizeState::Resizing(resize) = *self {
            *self = ResizeState::Resizing(ResizeData { last_window_size: size, ..resize });
        }
    }

    /// The intended size of a resize in progress.
    pub open spec fn intended(self) -> Option<Size> {
        match self {
            ResizeState::Resizing(resize) => Some(resize.last_window_size),
            _ => None,
        }
    }

    /// The intended size of a resize in progress.
    pub fn resize_intended_size(&self) -> (r: Option<Size>)
        ensures
            r == self.intended(),
    {
        match *self {
            ResizeState::Resizing(resize) => Some(resize.last_window_size),
            _ => None,
        }
    }

    /// The state once the answered configure of a resize in progress is
    /// forgotten.
    pub open spec fn settled(self, acked: Option<Serial>) -> ResizeState {
        match self {
            ResizeState::Resizing(resize) => ResizeState::Resizing(resize.settled(acked)),
            _ => self,
        }
    }

    /// The next size to ask the client for.
    pub open spec fn next_size(self, acked: Option<Serial>) -> Option<Size> {
        match self {
            ResizeState::Resizing(resize) => resize.next_size(acked),
            _ => None,
        }
    }

    /// Decide on the next size to ask the client for, when it last
    /// acknowledged `acked`.
    pub fn advance(&mut self, acked: Option<Serial>) -> (r: Option<Size>)
        ensures
            *final(self) == old(self).settled(acked),
            r == old(self).next_size(acked),
    {
        if let ResizeState::Resizing(resize) = *self {
            let mut resize = resize;
            let next = resize.advance(acked);
            *self = ResizeState::Resizing(resize);
            next
        } else {
            None
        }
    }

    /// The state after a configure of `size` went out.
    pub open spec fn requested(self, serial: Option<Serial>, size: Size) -> ResizeState {
        match self {
            ResizeState::Resizing(resize) => ResizeState::Resizing(resize.requested(serial, size)),
            _ => self,
        }
    }

    /// Record that a configure of `size` went out, so that the next one waits
    /// for its commit. X11 requests carry no serial to wait for.
    pub fn configure_sent(&mut self, serial: Option<Serial>, size: Size)
        ensures
            *final(self) == old(self).requested(serial, size),
    {
        if let ResizeState::Resizing(resize) = *self {
            *self = ResizeState::Resizing(
                ResizeData { outstanding: serial, last_sent_size: size, ..resize },
            );
        }
    }

    /// The state of a window driven to `content` by a neighbour's resize.
    pub open spec fn driven(
        self,
        edges: ResizeEdge,
        location: Point,
        size: Size,
        content: Size,
    ) -> ResizeState {
        match self {
            ResizeState::Resizing(resize) => ResizeState::Resizing(
                ResizeData { last_window_size: content, edges, ..resize },
            ),
            _ => ResizeState::Resizing(
                ResizeData { last_window_size: content, ..ResizeData::fresh(edges, location, size) },
            ),
        }
    }

    /// Drive the window to `content`, starting a resize from `location` and
    /// `size` unless one is in progress.
    pub fn drive(&mut self, edges: ResizeEdge, location: Point, size: Size, content: Size)
        ensures
            *final(self) == old(self).driven(edges, location, size, content),
    {
        let resize = match *self {
            ResizeState::Resizing(resize) => ResizeData {
                last_window_size: content,
                edges,
                ..resize
            },
            _ => ResizeData {
                last_window_size: content,
                ..ResizeData::new(edges, location, size)
            },
        };
        *self = ResizeState::Resizing(resize);
    }

    /// The state after the final configure, with `serial`, went out.
    pub open spec fn finishing(self, serial: Serial) -> ResizeState {
        match self {
            ResizeState::Resizing(resize) => ResizeState::WaitingForFinalAck(resize, serial),
            _ => self,
        }
    }

    /// Wait for the client to acknowledge the final configure.
    pub fn wait_for_ack(&mut self, serial: Serial)
        ensures
            *final(self) == old(self).finishing(serial),
    {
        if let ResizeState::Resizing(resize) = *self {
            *self = ResizeState::WaitingForFinalAck(resize, serial);
        }
    }

    /// The state once only the final commit is missing.
    pub open spec fn committing(self) -> ResizeState {
        match self {
            ResizeState::Resizing(resize) => ResizeState::WaitingForCommit(resize),
            _ => self,
        }
    }

    /// Wait for the final commit; there is nothing to acknowledge.
    pub fn wait_for_commit(&mut self)
        ensures
            *final(self) == old(self).committing(),
    {
        if let ResizeState::Resizing(resize) = *self {
            *self = ResizeState::WaitingForCommit(resize);
        }
    }

    /// Whether acknowledging `serial` ends the wait for the final ack.
    pub open spec fn ends_wait(self, serial: Serial, was_resizing: bool) -> bool {
        match self {
            ResizeState::WaitingForFinalAck(_, last) => serial.no_older_than(last) && was_resizing,
            _ => false,
        }
    }

    /// The state after the client acknowledged `serial`.
    pub open spec fn acked(self, serial: Serial, was_resizing: bool) -> ResizeState {
        match self {
            ResizeState::WaitingForFinalAck(resize, _) if self.ends_wait(serial, was_resizing) =>
                ResizeState::WaitingForCommit(resize),
            _ => self,
        }
    }

    /// Take note of an acknowledged configure. Only the acknowledgement of the
    /// final configure, by a client that was told it is resizing, moves a
    /// finished resize on to its last commit.
    pub fn ack(&mut self, serial: Serial, was_resizing: bool)
        ensures
            *final(self) == old(self).acked(serial, was_resizing),
    {
        if let ResizeState::WaitingForFinalAck(resize, last) = *self {
            if serial.is_no_older_than(last) && was_resizing {
                *self = ResizeState::WaitingForCommit(resize);
            }
        }
    }

    /// The state with `size` as the size of the buffer that is displayed.
    pub open spec fn showing(self, size: Size) -> ResizeState {
        match self {
            ResizeState::NotResizing => self,
            ResizeState::Resizing(resize) => ResizeState::Resizing(
                ResizeData { committed_size: size, ..resize },
            ),
            ResizeState::WaitingForFinalAck(resize, serial) => ResizeState::WaitingForFinalAck(
                ResizeData { committed_size: size, ..resize },
                serial,
            ),
            ResizeState::WaitingForCommit(resize) => ResizeState::WaitingForCommit(
                ResizeData { committed_size: size, ..resize },
            ),
        }
    }

    /// Take the committed size together with the buffer it came with.
    pub fn committed(&mut self, size: Size)
        ensures
            *final(self) == old(self).showing(size),
    {
        match *self {
            ResizeState::NotResizing => {},
            ResizeState::Resizing(resize) => {
                *self = ResizeState::Resizing(ResizeData { committed_size: size, ..resize });
            },
            ResizeState::WaitingForFinalAck(resize, serial) => {
                *self = ResizeState::WaitingForFinalAck(
                    ResizeData { committed_size: size, ..resize },
                    serial,
                );
            },
            ResizeState::WaitingForCommit(resize) => {
                *self = ResizeState::WaitingForCommit(ResizeData { committed_size: size, ..resize });
            },
        }
    }

    /// The state once the final commit has landed.
    pub open spec fn landed(self) -> ResizeState {
        match self {
            ResizeState::WaitingForCommit(_) => ResizeState::NotResizing,
            _ => self,
        }
    }

    /// Leave the resize once its final commit has landed.
    pub fn land(&mut self)
        ensures
            *final(self) == old(self).landed(),
    {
        if let ResizeState::WaitingForCommit(_) = *self {
            *self = ResizeState::NotResizing;
        }
    }
}

/// Where a window goes while its top or left edge is dragged: the opposite edge
/// stays where it was at the start.
pub open spec fn anchored(
    edges: ResizeEdge,
    initial_location: Point,
    initial_size: Size,
    size: Size,
    current: Point,
) -> Point {
    Point {
        x: if edges.left {
            sat32(initial_location.x + sat32(initial_size.w - size.w)) as i32
        } else {
            current.x
        },
        y: if edges.top {
            sat32(initial_location.y + sat32(initial_size.h - size.h)) as i32
        } else {
            current.y
        },
    }
}

/// Intended element location for TOP/LEFT edges: the edge opposite the one
/// being dragged stays fixed relative to the original geometry.
pub fn resize_target_location(
    edges: ResizeEdge,
    initial_location: Point,
    initial_size: Size,
    size: Size,
    current: Point,
) -> (r: Point)
    ensures
        r == anchored(edges, initial_location, initial_size, size, current),
{
    let mut location = current;
    if edges.left {
        location.x = sum(initial_location.x, difference(initial_size.w, size.w));
    }
    if edges.top {
        location.y = sum(initial_location.y, difference(initial_size.h, size.h));
    }
    location
}

/// A dragged left or top edge leaves the opposite edge of the window where it
/// was when the resize started.
pub proof fn resizing_keeps_the_opposite_edge(
    edges: ResizeEdge,
    initial_location: Point,
    initial_size: Size,
    size: Size,
    current: Point,
)
    requires
        fits(initial_size.w - size.w),
        fits(initial_size.h - size.h),
        fits(initial_location.x + (initial_size.w - size.w)),
        fits(initial_location.y + (initial_size.h - size.h)),
    ensures
        ({
            let moved = anchored(edges, initial_location, initial_size, size, current);
            &&& edges.left ==> moved.x + size.w == initial_location.x + initial_size.w
            &&& edges.top ==> moved.y + size.h == initial_location.y + initial_size.h
            &&& !edges.left ==> moved.x == current.x
            &&& !edges.top ==> moved.y == current.y
        }),
{
}

/// While a configure is unanswered the resize asks for nothing, and what it
/// asks for next is always the latest intended size.
pub proof fn one_resize_request_in_flight(resize: ResizeData, acked: Option<Serial>)
    ensures
        resize.waiting(acked) ==> resize.next_size(acked) is None && resize.settled(acked) == resize,
        resize.next_size(acked) is Some ==> {
            &&& resize.settled(acked).outstanding is None
            &&& resize.next_size(acked)->0 == resize.last_window_size
            &&& resize.last_window_size != resize.last_sent_size
        },
        // Once the request is out, the same intent asks for nothing more.
        forall|serial: Option<Serial>, later: Option<Serial>|
            resize.next_size(acked) is Some ==> (#[trigger] resize.settled(acked).requested(
                serial,
                resize.last_window_size,
            ).next_size(later)) is None,
{
}

/// Requests and intentions never touch the size that is displayed: only a
/// commit does.
pub proof fn only_commits_change_the_displayed_size(
    state: ResizeState,
    intent: Size,
    acked: Option<Serial>,
    sent: Option<Serial>,
    serial: Serial,
    was_resizing: bool,
    committed: Size,
)
    requires
        state.active() is Some,
    ensures
        ({
            let shown = state.active()->0.committed_size;
            &&& state.intending(intent).active()->0.committed_size == shown
            &&& state.settled(acked).active()->0.committed_size == shown
            &&& state.requested(sent, intent).active()->0.committed_size == shown
            &&& state.finishing(serial).active()->0.committed_size == shown
            &&& state.acked(serial, was_resizing).active()->0.committed_size == shown
            &&& state.showing(committed).active()->0.committed_size == committed
        }),
{
}

/// A resize that was let go goes through exactly three steps: the client
/// acknowledges the final configure, commits it, and the resize is over. The
/// intended size survives until then.
pub proof fn finished_resize_lands(resize: ResizeData, last: Serial, acked: Serial, committed: Size)
    requires
        acked.no_older_than(last),
    ensures
        ({
            let waiting = ResizeState::Resizing(resize).finishing(last);
            let ready = waiting.acked(acked, true);
            &&& waiting == ResizeState::WaitingForFinalAck(resize, last)
            &&& waiting.acked(acked, false) == waiting
            &&& waiting.showing(committed).landed().active() is Some
            &&& ready.active()->0.last_window_size == resize.last_window_size
            &&& ready.showing(committed).landed() == ResizeState::NotResizing
        }),
{
}

} // verus!
