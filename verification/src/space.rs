//! The space: which windows there are, where they are mapped, and what is known
//! of the outputs they are shown on.

use std::time::Instant;
use vstd::prelude::*;

use crate::element::{ClientState, WindowElement};
use crate::snap::{SnapPreviewState, SnapTarget};
use crate::utils::{difference, FixedPoint, Point, Rectangle, Serial, Size, FIXED_ONE};

verus! {

use crate::utils::sat32;

/// A window mapped at a location.
#[derive(Debug, Clone, Copy, PartialEq, Eq, Structural)]
pub struct Placed {
    pub window: u64,
    pub loc: Point,
}

/// A window that reaches onto an output.
#[derive(Debug, Clone, Copy, PartialEq, Eq, Structural)]
pub struct Overlap {
    pub window: u64,
    pub output: u64,
}

/// The window that covers an output.
#[derive(Debug, Clone, Copy, PartialEq, Eq, Structural)]
pub struct FullscreenSurface {
    pub window: Option<u64>,
}

impl Default for FullscreenSurface {
    fn default() -> (r: Self)
        ensures
            r == (FullscreenSurface { window: None }),
    {
        FullscreenSurface { window: None }
    }
}

impl FullscreenSurface {
    pub fn set(&mut self, window: u64)
        ensures
            *final(self) == (FullscreenSurface { window: Some(window) }),
    {
        self.window = Some(window);
    }

    /// The covering window. One that is no longer alive is forgotten.
    pub fn get(&mut self, alive: bool) -> (r: Option<u64>)
        ensures
            r == (if alive { old(self).window } else { None::<u64> }),
            *final(self) == (FullscreenSurface { window: r }),
    {
        if !alive {
            self.window = None;
        }
        self.window
    }

    pub fn clear(&mut self) -> (r: Option<u64>)
        ensures
            r == old(self).window,
            *final(self) == (FullscreenSurface { window: None }),
    {
        let window = self.window;
        self.window = None;
        window
    }
}

/// What is known of an output.
#[derive(Debug, Clone, Copy)]
pub struct Output {
    pub id: u64,
    /// Where the output lies in the space, while it is mapped.
    pub geometry: Option<Rectangle>,
    /// The part of the output, in its own coordinates, that no layer surface
    /// reserves for itself.
    pub zone: Rectangle,
    /// The preview of the snap target, once there was one on this output.
    pub preview: Option<SnapPreviewState>,
    /// The window that covers the output, once there was one.
    pub fullscreen: Option<FullscreenSurface>,
}

/// Something for the program to do, in order.
#[derive(Debug, Clone, Copy, PartialEq, Eq, Structural)]
pub enum Action {
    /// Map the window at `loc`, on top of the others.
    MapElement { window: u64, loc: Point, activate: bool },
    /// Move the window to `loc`, without a change of order.
    RelocateElement { window: u64, loc: Point },
    UnmapElement { window: u64 },
    MapOutput { output: u64, loc: Point },
    /// Make `client` the pending state of a Wayland window, and send it if
    /// `send`.
    Configure { window: u64, client: ClientState, send: bool },
    /// Make `client` the pending state of a Wayland window, send it if it
    /// changed, and report the serial of what was sent.
    ResizeConfigure { window: u64, client: ClientState, size: Size },
    /// Make `client` the pending state of a Wayland window at the end of a
    /// resize, send it if it changed, and report the serial of what was sent,
    /// or `serial` if nothing was.
    FinalConfigure { window: u64, client: ClientState, serial: Serial },
    /// Configure an X11 window to `rect`.
    ConfigureX11 { window: u64, rect: Rectangle },
    /// Configure an X11 window to `rect` in step with its redraws, and report
    /// whether that went out.
    ResizeX11 { window: u64, rect: Rectangle },
    /// Configure an X11 window to `rect` in step with its redraws.
    SyncX11 { window: u64, rect: Rectangle },
    SetMaximizedX11 { window: u64, maximized: bool },
    SetFullscreenX11 { window: u64, fullscreen: bool },
    SetMappedX11 { window: u64, mapped: bool },
    /// Raise the window above the others of the X server.
    RaiseX11 { window: u64 },
    /// Move the keyboard focus.
    SetFocus { focus: Option<u64> },
    SendClose { window: u64 },
    /// Forget what the output's buffers hold.
    ResetBuffers { output: u64 },
    /// Arrange the layer surfaces of the output.
    ArrangeLayers { output: u64 },
    /// Send the first configure of a layer surface.
    ConfigureLayer { output: u64 },
    /// Send the first configure of a popup.
    ConfigurePopup,
    /// Once the event at hand is handled: close the window.
    CloseLater { window: u64 },
    /// Once the event at hand is handled: toggle the maximized state.
    ToggleMaximizeLater { window: u64 },
    /// Once the event at hand is handled: minimize the window.
    MinimizeLater { window: u64 },
    /// Once the event at hand is handled: move the window with the pointer.
    MoveLater { window: u64, serial: Serial },
    /// Once the event at hand is handled: tile the window.
    SnapLater { window: u64, target: SnapTarget },
}

/// The windows, where they are mapped, and the outputs.
pub struct Space {
    /// Every window there is, mapped or not.
    pub windows: Vec<WindowElement>,
    /// The mapped windows, back to front.
    pub elements: Vec<Placed>,
    /// The outputs, in the order they were added.
    pub outputs: Vec<Output>,
    /// Which mapped windows reach onto which outputs.
    pub overlaps: Vec<Overlap>,
    /// What the program has yet to do.
    pub actions: Vec<Action>,
}

/// The space as sequences.
#[verifier::ext_equal]
pub struct Layout {
    pub windows: Seq<WindowElement>,
    pub elements: Seq<Placed>,
    pub outputs: Seq<Output>,
    pub overlaps: Seq<Overlap>,
    pub actions: Seq<Action>,
}

/// The index of the first window `id`, from `i` on.
pub open spec fn window_index(windows: Seq<WindowElement>, id: u64, i: int) -> Option<int>
    decreases windows.len() - i,
{
    if i < 0 || i >= windows.len() {
        None
    } else if windows[i].id == id {
        Some(i)
    } else {
        window_index(windows, id, i + 1)
    }
}

/// The index of the first entry of the window `id`, from `i` on.
pub open spec fn placed_index(elements: Seq<Placed>, id: u64, i: int) -> Option<int>
    decreases elements.len() - i,
{
    if i < 0 || i >= elements.len() {
        None
    } else if elements[i].window == id {
        Some(i)
    } else {
        placed_index(elements, id, i + 1)
    }
}

/// The index of the first output `id`, from `i` on.
pub open spec fn output_index(outputs: Seq<Output>, id: u64, i: int) -> Option<int>
    decreases outputs.len() - i,
{
    if i < 0 || i >= outputs.len() {
        None
    } else if outputs[i].id == id {
        Some(i)
    } else {
        output_index(outputs, id, i + 1)
    }
}

/// The outputs that the window `id` reaches onto, from `i` on.
pub open spec fn outputs_of(overlaps: Seq<Overlap>, id: u64, i: int) -> Seq<u64>
    decreases overlaps.len() - i,
{
    if i < 0 || i >= overlaps.len() {
        Seq::empty()
    } else if overlaps[i].window == id {
        seq![overlaps[i].output] + outputs_of(overlaps, id, i + 1)
    } else {
        outputs_of(overlaps, id, i + 1)
    }
}

/// The last output before `i` that holds the point `p`.
pub open spec fn output_holding(outputs: Seq<Output>, p: FixedPoint, i: int) -> Option<u64>
    decreases i,
{
    if i <= 0 || i > outputs.len() {
        None
    } else if outputs[i - 1].holds(p) {
        Some(outputs[i - 1].id)
    } else {
        output_holding(outputs, p, i - 1)
    }
}

/// The windows that are mapped on `output`, back to front, from `i` on.
pub open spec fn shown_on(
    elements: Seq<Placed>,
    overlaps: Seq<Overlap>,
    output: u64,
    i: int,
) -> Seq<u64>
    decreases elements.len() - i,
{
    if i < 0 || i >= elements.len() {
        Seq::empty()
    } else if overlaps.contains(Overlap { window: elements[i].window, output }) {
        seq![elements[i].window] + shown_on(elements, overlaps, output, i + 1)
    } else {
        shown_on(elements, overlaps, output, i + 1)
    }
}

impl Output {
    /// Whether the point `p` lies on the output.
    pub open spec fn holds(self, p: FixedPoint) -> bool {
        match self.geometry {
            Some(geo) => {
                &&& geo.loc.x * FIXED_ONE <= p.x < geo.right() * FIXED_ONE
                &&& geo.loc.y * FIXED_ONE <= p.y < geo.bottom() * FIXED_ONE
            },
            None => false,
        }
    }

    /// Whether the point `p` lies on the output.
    pub fn contains(&self, p: FixedPoint) -> (r: bool)
        ensures
            r == self.holds(p),
    {
        match self.geometry {
            Some(geo) => {
                let x = geo.loc.x as i64;
                let y = geo.loc.y as i64;
                x * FIXED_ONE <= p.x && p.x < (x + geo.size.w as i64) * FIXED_ONE && y * FIXED_ONE
                    <= p.y && p.y < (y + geo.size.h as i64) * FIXED_ONE
            },
            None => false,
        }
    }
}

/// A window as it is after `mapped` was mapped and activated: the one that was
/// mapped is active, and every other mapped window is not. Ghosts stay as they
/// are.
pub open spec fn activated(window: WindowElement, mapped: u64, others: bool) -> WindowElement {
    if window.ghosting() {
        window
    } else if window.id == mapped {
        WindowElement { client: ClientState { activated: true, ..window.client }, ..window }
    } else if others {
        WindowElement { client: ClientState { activated: false, ..window.client }, ..window }
    } else {
        window
    }
}

impl WindowElement {
    /// The window as it is after `mapped` was mapped and activated.
    fn on_activation(self, mapped: u64, others: bool) -> (r: WindowElement)
        ensures
            r == activated(self, mapped, others),
            self.wf() ==> r.wf(),
    {
        if self.is_ghosting() {
            self
        } else if self.id == mapped {
            self.with_client(ClientState { activated: true, ..self.client })
        } else if others {
            self.with_client(ClientState { activated: false, ..self.client })
        } else {
            self
        }
    }
}

/// Whether no window is mapped twice.
pub open spec fn mapped_once(elements: Seq<Placed>) -> bool {
    forall|i: int, j: int|
        0 <= i < j < elements.len() ==> (#[trigger] elements[i]).window != (
        #[trigger] elements[j]).window
}

impl Layout {
    /// Whether every window is well-formed and none is mapped twice.
    #[verifier::opaque]
    pub open spec fn wf(self) -> bool {
        &&& forall|i: int| 0 <= i < self.windows.len() ==> (#[trigger] self.windows[i]).wf()
        &&& mapped_once(self.elements)
    }

    /// The window `id`.
    #[verifier::opaque]
    pub open spec fn window(self, id: u64) -> Option<WindowElement> {
        match window_index(self.windows, id, 0) {
            Some(i) => Some(self.windows[i]),
            None => None,
        }
    }

    /// Where the window `id` is mapped.
    #[verifier::opaque]
    pub open spec fn location(self, id: u64) -> Option<Point> {
        match placed_index(self.elements, id, 0) {
            Some(i) => Some(self.elements[i].loc),
            None => None,
        }
    }

    /// The output `id`.
    #[verifier::opaque]
    pub open spec fn output(self, id: u64) -> Option<Output> {
        match output_index(self.outputs, id, 0) {
            Some(i) => Some(self.outputs[i]),
            None => None,
        }
    }

    /// Where the output `id` lies, while it is mapped.
    pub open spec fn output_geometry(self, id: u64) -> Option<Rectangle> {
        match self.output(id) {
            Some(output) => output.geometry,
            None => None,
        }
    }

    /// The first output.
    pub open spec fn primary(self) -> Option<u64> {
        if self.outputs.len() > 0 {
            Some(self.outputs[0].id)
        } else {
            None
        }
    }

    /// The topmost output under the point `p`.
    pub open spec fn output_under(self, p: FixedPoint) -> Option<u64> {
        output_holding(self.outputs, p, self.outputs.len() as int)
    }

    /// The outputs that the window `id` reaches onto, while it is mapped.
    pub open spec fn outputs_for(self, id: u64) -> Seq<u64> {
        if self.location(id) is Some {
            outputs_of(self.overlaps, id, 0)
        } else {
            Seq::empty()
        }
    }

    /// The windows on `output`, back to front.
    pub open spec fn elements_for(self, output: u64) -> Seq<u64> {
        shown_on(self.elements, self.overlaps, output, 0)
    }

    /// The window `id` with its size, where it is mapped.
    #[verifier::opaque]
    pub open spec fn element_geometry(self, id: u64, now: Instant) -> Option<Rectangle> {
        match (self.location(id), self.window(id)) {
            (Some(loc), Some(window)) => Some(
                Rectangle { loc, size: window.geometry_at(now).size },
            ),
            _ => None,
        }
    }

    /// The bounding box of the window `id`, where it is mapped.
    #[verifier::opaque]
    pub open spec fn element_bbox(self, id: u64, now: Instant) -> Option<Rectangle> {
        match (self.location(id), self.window(id)) {
            (Some(loc), Some(window)) => {
                let geo = window.geometry_at(now).loc;
                let origin = Point {
                    x: sat32(loc.x - geo.x) as i32,
                    y: sat32(loc.y - geo.y) as i32,
                };
                let bbox = window.bbox_at(now);
                Some(Rectangle { loc: bbox.loc.moved(origin), size: bbox.size })
            },
            _ => None,
        }
    }

    /// The layout with `window` in place of the window of its id.
    #[verifier::opaque]
    pub open spec fn with_window(self, window: WindowElement) -> Layout {
        match window_index(self.windows, window.id, 0) {
            Some(i) => Layout { windows: self.windows.update(i, window), ..self },
            None => self,
        }
    }

    /// The layout with `output` in place of the output of its id.
    #[verifier::opaque]
    pub open spec fn with_output(self, output: Output) -> Layout {
        match output_index(self.outputs, output.id, 0) {
            Some(i) => Layout { outputs: self.outputs.update(i, output), ..self },
            None => self,
        }
    }

    /// The layout with `window` added.
    pub open spec fn with_new_window(self, window: WindowElement) -> Layout {
        Layout { windows: self.windows.push(window), ..self }
    }

    /// The layout once `action` is to be done.
    #[verifier::opaque]
    pub open spec fn acting(self, action: Action) -> Layout {
        Layout { actions: self.actions.push(action), ..self }
    }

    /// The layout once the client of the Wayland window `window` is told its
    /// state, or has it waiting for its first configure.
    #[verifier::opaque]
    pub open spec fn configuring(self, window: WindowElement, send: bool) -> Layout {
        self.with_window(
            WindowElement { configured: window.configured || send, ..window },
        ).acting(Action::Configure { window: window.id, client: window.client, send })
    }

    /// The elements without the first entry of the window `id`.
    pub open spec fn elements_without(self, id: u64) -> Seq<Placed> {
        match placed_index(self.elements, id, 0) {
            Some(i) => self.elements.remove(i),
            None => self.elements,
        }
    }

    /// The layout with the window `id` mapped at `loc`, on top of the others.
    /// Activating it deactivates the others.
    #[verifier::opaque]
    pub open spec fn mapped(self, id: u64, loc: Point, activate: bool) -> Layout {
        let below = self.elements_without(id);
        Layout {
            windows: if activate {
                Seq::new(
                    self.windows.len(),
                    |i: int|
                        activated(
                            self.windows[i],
                            id,
                            placed_index(below, self.windows[i].id, 0) is Some,
                        ),
                )
            } else {
                self.windows
            },
            elements: below.push(Placed { window: id, loc }),
            actions: self.actions.push(Action::MapElement { window: id, loc, activate }),
            ..self
        }
    }

    /// The layout with the mapped window `id` moved to `loc` without a change
    /// of order.
    #[verifier::opaque]
    pub open spec fn relocated(self, id: u64, loc: Point) -> Layout {
        match placed_index(self.elements, id, 0) {
            Some(i) => Layout {
                elements: self.elements.update(i, Placed { window: id, loc }),
                actions: self.actions.push(Action::RelocateElement { window: id, loc }),
                ..self
            },
            None => self,
        }
    }

    /// The layout without the window `id` mapped: it is on no output any more.
    #[verifier::opaque]
    pub open spec fn unmapped(self, id: u64) -> Layout {
        if self.location(id) is Some {
            Layout {
                elements: self.elements_without(id),
                overlaps: self.overlaps.filter(|o: Overlap| o.window != id),
                actions: self.actions.push(Action::UnmapElement { window: id }),
                ..self
            }
        } else {
            self
        }
    }
}

impl View for Space {
    type V = Layout;

    open spec fn view(&self) -> Layout {
        Layout {
            windows: self.windows@,
            elements: self.elements@,
            outputs: self.outputs@,
            overlaps: self.overlaps@,
            actions: self.actions@,
        }
    }
}

pub proof fn lemma_window_index_bounds(windows: Seq<WindowElement>, id: u64, i: int)
    ensures
        window_index(windows, id, i) is Some ==> {
            let k = window_index(windows, id, i)->0;
            i <= k < windows.len() && windows[k].id == id
        },
    decreases windows.len() - i,
{
    if 0 <= i < windows.len() && windows[i].id != id {
        lemma_window_index_bounds(windows, id, i + 1);
    }
}

pub proof fn lemma_placed_index_bounds(elements: Seq<Placed>, id: u64, i: int)
    ensures
        placed_index(elements, id, i) is Some ==> {
            let k = placed_index(elements, id, i)->0;
            i <= k < elements.len() && elements[k].window == id
        },
    decreases elements.len() - i,
{
    if 0 <= i < elements.len() && elements[i].window != id {
        lemma_placed_index_bounds(elements, id, i + 1);
    }
}

pub proof fn lemma_output_index_bounds(outputs: Seq<Output>, id: u64, i: int)
    ensures
        output_index(outputs, id, i) is Some ==> {
            let k = output_index(outputs, id, i)->0;
            i <= k < outputs.len() && outputs[k].id == id
        },
    decreases outputs.len() - i,
{
    if 0 <= i < outputs.len() && outputs[i].id != id {
        lemma_output_index_bounds(outputs, id, i + 1);
    }
}

/// The index of the first entry of the window `id`.
fn find_placed(elements: &Vec<Placed>, id: u64) -> (r: Option<usize>)
    ensures
        match (r, placed_index(elements@, id, 0)) {
            (Some(i), Some(k)) => i == k && i < elements.len() && elements@[k].window == id,
            (None, None) => true,
            _ => false,
        },
{
    let mut i: usize = 0;
    while i < elements.len()
        invariant
            i <= elements.len(),
            placed_index(elements@, id, 0) == placed_index(elements@, id, i as int),
        decreases elements.len() - i,
    {
        if elements[i].window == id {
            return Some(i);
        }
        i += 1;
    }
    None
}

impl Space {
    /// The index of the window `id`.
    fn find_window(&self, id: u64) -> (r: Option<usize>)
        ensures
            match (r, window_index(self@.windows, id, 0)) {
                (Some(i), Some(k)) => i == k && i < self.windows.len() && self@.windows[k].id == id,
                (None, None) => true,
                _ => false,
            },
    {
        let mut i: usize = 0;
        while i < self.windows.len()
            invariant
                i <= self.windows.len(),
                window_index(self@.windows, id, 0) == window_index(self@.windows, id, i as int),
            decreases self.windows.len() - i,
        {
            if self.windows[i].id == id {
                return Some(i);
            }
            i += 1;
        }
        None
    }

    /// The index of the output `id`.
    fn find_output(&self, id: u64) -> (r: Option<usize>)
        ensures
            match (r, output_index(self@.outputs, id, 0)) {
                (Some(i), Some(k)) => i == k && i < self.outputs.len() && self@.outputs[k].id == id,
                (None, None) => true,
                _ => false,
            },
    {
        let mut i: usize = 0;
        while i < self.outputs.len()
            invariant
                i <= self.outputs.len(),
                output_index(self@.outputs, id, 0) == output_index(self@.outputs, id, i as int),
            decreases self.outputs.len() - i,
        {
            if self.outputs[i].id == id {
                return Some(i);
            }
            i += 1;
        }
        None
    }

    /// The window `id`.
    pub fn window(&self, id: u64) -> (r: Option<WindowElement>)
        ensures
            r == self@.window(id),
            self@.wf() && r is Some ==> r->0.wf(),
            r is Some ==> r->0.id == id,
    {
        reveal(Layout::window);
        reveal(Layout::wf);
        match self.find_window(id) {
            Some(i) => Some(self.windows[i]),
            None => None,
        }
    }

    /// Replace the window of `window`'s id, if there is one.
    pub fn put(&mut self, window: WindowElement)
        ensures
            final(self)@ == old(self)@.with_window(window),
            old(self)@.wf() && window.wf() ==> final(self)@.wf(),
    {
        reveal(Layout::with_window);
        reveal(Layout::wf);
        if let Some(i) = self.find_window(window.id) {
            self.windows.set(i, window);
        }
    }

    /// Leave `action` for the program to do.
    pub fn act(&mut self, action: Action)
        ensures
            final(self)@ == old(self)@.acting(action),
            old(self)@.wf() ==> final(self)@.wf(),
    {
        reveal(Layout::acting);
        reveal(Layout::wf);
        self.actions.push(action);
        assert(self@.windows == old(self)@.windows);
    }

    /// Replace the Wayland window of `window`'s id and tell its client the state
    /// it is in. Without `send` the state waits for the first configure.
    pub fn configure(&mut self, window: WindowElement, send: bool)
        ensures
            final(self)@ == old(self)@.configuring(window, send),
            old(self)@.wf() && window.wf() ==> final(self)@.wf(),
    {
        reveal(Layout::configuring);
        let action = Action::Configure { window: window.id, client: window.client, send };
        self.put(WindowElement { configured: window.configured || send, ..window });
        self.act(action);
    }

    /// Add a window.
    pub fn add_window(&mut self, window: WindowElement)
        ensures
            final(self)@ == old(self)@.with_new_window(window),
            old(self)@.wf() && window.wf() ==> final(self)@.wf(),
    {
        reveal(Layout::wf);
        self.windows.push(window);
        assert forall|i: int| old(self)@.wf() && window.wf() && 0 <= i < self@.windows.len() implies (
        #[trigger] self@.windows[i]).wf() by {
            if i < old(self)@.windows.len() {
                assert(self@.windows[i] == old(self)@.windows[i]);
            }
        }
    }

    /// Where the window `id` is mapped.
    pub fn element_location(&self, id: u64) -> (r: Option<Point>)
        ensures
            r == self@.location(id),
    {
        reveal(Layout::location);
        match find_placed(&self.elements, id) {
            Some(i) => Some(self.elements[i].loc),
            None => None,
        }
    }

    /// The window `id` with its size, where it is mapped.
    pub fn element_geometry(&self, id: u64, now: Instant) -> (r: Option<Rectangle>)
        requires
            self@.wf(),
        ensures
            r == self@.element_geometry(id, now),
    {
        reveal(Layout::element_geometry);
        match (self.element_location(id), self.window(id)) {
            (Some(loc), Some(window)) => Some(Rectangle { loc, size: window.geometry(now).size }),
            _ => None,
        }
    }

    /// The bounding box of the window `id`, where it is mapped.
    pub fn element_bbox(&self, id: u64, now: Instant) -> (r: Option<Rectangle>)
        requires
            self@.wf(),
        ensures
            r == self@.element_bbox(id, now),
    {
        reveal(Layout::element_bbox);
        match (self.element_location(id), self.window(id)) {
            (Some(loc), Some(window)) => {
                let geo = window.geometry(now).loc;
                let origin = Point {
                    x: difference(loc.x, geo.x),
                    y: difference(loc.y, geo.y),
                };
                let bbox = window.bbox(now);
                Some(Rectangle { loc: bbox.loc.plus(origin), size: bbox.size })
            },
            _ => None,
        }
    }

    /// The output `id`.
    pub fn output(&self, id: u64) -> (r: Option<Output>)
        ensures
            r == self@.output(id),
            r is Some ==> r->0.id == id,
    {
        reveal(Layout::output);
        match self.find_output(id) {
            Some(i) => Some(self.outputs[i]),
            None => None,
        }
    }

    /// Add an output, after the others.
    pub fn add_output(&mut self, output: Output)
        ensures
            final(self)@ == (Layout { outputs: old(self)@.outputs.push(output), ..old(self)@ }),
            old(self)@.wf() ==> final(self)@.wf(),
    {
        reveal(Layout::wf);
        self.outputs.push(output);
        assert(self@ =~= Layout { outputs: old(self)@.outputs.push(output), ..old(self)@ });
    }

    /// Replace the output of `output`'s id, if there is one.
    pub fn put_output(&mut self, output: Output)
        ensures
            final(self)@ == old(self)@.with_output(output),
            old(self)@.wf() ==> final(self)@.wf(),
    {
        reveal(Layout::with_output);
        reveal(Layout::wf);
        if let Some(i) = self.find_output(output.id) {
            self.outputs.set(i, output);
        }
        assert(self@.windows == old(self)@.windows);
    }

    /// Where the output `id` lies, while it is mapped.
    pub fn output_geometry(&self, id: u64) -> (r: Option<Rectangle>)
        ensures
            r == self@.output_geometry(id),
    {
        match self.output(id) {
            Some(output) => output.geometry,
            None => None,
        }
    }

    /// The first output.
    pub fn primary_output(&self) -> (r: Option<u64>)
        ensures
            r == self@.primary(),
    {
        if self.outputs.len() > 0 {
            Some(self.outputs[0].id)
        } else {
            None
        }
    }

    /// The topmost output under the point `p`.
    pub fn output_under(&self, p: FixedPoint) -> (r: Option<u64>)
        ensures
            r == self@.output_under(p),
    {
        let mut i: usize = self.outputs.len();
        while i > 0
            invariant
                i <= self.outputs.len(),
                self@.output_under(p) == output_holding(self@.outputs, p, i as int),
            decreases i,
        {
            i -= 1;
            if self.outputs[i].contains(p) {
                return Some(self.outputs[i].id);
            }
        }
        None
    }

    /// The outputs that the window `id` reaches onto, while it is mapped.
    pub fn outputs_for_element(&self, id: u64) -> (r: Vec<u64>)
        ensures
            r@ == self@.outputs_for(id),
    {
        let mut outputs: Vec<u64> = Vec::new();
        if self.element_location(id).is_none() {
            assert(outputs@ =~= self@.outputs_for(id));
            return outputs;
        }
        let mut i: usize = 0;
        while i < self.overlaps.len()
            invariant
                i <= self.overlaps.len(),
                outputs@ + outputs_of(self@.overlaps, id, i as int) =~= outputs_of(
                    self@.overlaps,
                    id,
                    0,
                ),
            decreases self.overlaps.len() - i,
        {
            if self.overlaps[i].window == id {
                outputs.push(self.overlaps[i].output);
            }
            i += 1;
        }
        outputs
    }

    /// Whether the window reaches onto the output.
    fn reaches(&self, window: u64, output: u64) -> (r: bool)
        ensures
            r == self@.overlaps.contains(Overlap { window, output }),
    {
        let mut i: usize = 0;
        while i < self.overlaps.len()
            invariant
                i <= self.overlaps.len(),
                forall|k: int|
                    0 <= k < i ==> self.overlaps@[k] != (Overlap { window, output }),
            decreases self.overlaps.len() - i,
        {
            if self.overlaps[i] == (Overlap { window, output }) {
                assert(self.overlaps@[i as int] == (Overlap { window, output }));
                return true;
            }
            i += 1;
        }
        false
    }

    /// The windows on `output`, back to front.
    pub fn elements_for_output(&self, output: u64) -> (r: Vec<u64>)
        ensures
            r@ == self@.elements_for(output),
    {
        let mut windows: Vec<u64> = Vec::new();
        let mut i: usize = 0;
        while i < self.elements.len()
            invariant
                i <= self.elements.len(),
                windows@ + shown_on(self@.elements, self@.overlaps, output, i as int) =~= shown_on(
                    self@.elements,
                    self@.overlaps,
                    output,
                    0,
                ),
            decreases self.elements.len() - i,
        {
            let window = self.elements[i].window;
            if self.reaches(window, output) {
                windows.push(window);
            }
            i += 1;
        }
        windows
    }

    /// Take the first entry of the window `id` out of the elements.
    fn take_element(&mut self, id: u64)
        ensures
            final(self)@ == (Layout {
                elements: old(self)@.elements_without(id),
                ..old(self)@
            }),
            final(self).windows == old(self).windows,
    {
        if let Some(i) = find_placed(&self.elements, id) {
            self.elements.remove(i);
        }
    }

    /// The windows after `id` was activated, when the elements hold the others.
    fn activate(&self, id: u64) -> (r: Vec<WindowElement>)
        ensures
            r@ == Seq::new(
                self@.windows.len(),
                |i: int|
                    activated(
                        self@.windows[i],
                        id,
                        placed_index(self@.elements, self@.windows[i].id, 0) is Some,
                    ),
            ),
            (forall|i: int| 0 <= i < self@.windows.len() ==> (#[trigger] self@.windows[i]).wf()) ==> (
            forall|i: int| 0 <= i < r.len() ==> (#[trigger] r@[i]).wf()),
    {
        let mut windows: Vec<WindowElement> = Vec::new();
        let mut i: usize = 0;
        while i < self.windows.len()
            invariant
                i <= self.windows.len(),
                windows.len() == i,
                forall|k: int|
                    0 <= k < i ==> #[trigger] windows@[k] == activated(
                        self@.windows[k],
                        id,
                        placed_index(self@.elements, self@.windows[k].id, 0) is Some,
                    ),
                forall|k: int|
                    0 <= k < i && self@.windows[k].wf() ==> (#[trigger] windows@[k]).wf(),
            decreases self.windows.len() - i,
        {
            let window = self.windows[i];
            let others = find_placed(&self.elements, window.id).is_some();
            windows.push(window.on_activation(id, others));
            i += 1;
        }
        assert(windows@ =~= Seq::new(
            self@.windows.len(),
            |i: int|
                activated(
                    self@.windows[i],
                    id,
                    placed_index(self@.elements, self@.windows[i].id, 0) is Some,
                ),
        ));
        windows
    }

    /// Map the window `id` at `loc`, on top of the others. Activating it
    /// deactivates the others.
    pub fn map_element(&mut self, id: u64, loc: Point, activate: bool)
        ensures
            final(self)@ == old(self)@.mapped(id, loc, activate),
            old(self)@.wf() ==> final(self)@.wf(),
    {
        self.take_element(id);
        if activate {
            self.windows = self.activate(id);
        }
        self.elements.push(Placed { window: id, loc });
        self.actions.push(Action::MapElement { window: id, loc, activate });
        proof {
            reveal(Layout::wf);
            reveal(Layout::mapped);
            if old(self)@.wf() {
                lemma_without(old(self)@, id);
                lemma_pushed_once(old(self)@.elements_without(id), Placed { window: id, loc });
            }
        }
        assert(self@ =~= old(self)@.mapped(id, loc, activate));
    }

    /// Move the mapped window `id` to `loc` without a change of order.
    pub fn relocate_element(&mut self, id: u64, loc: Point)
        ensures
            final(self)@ == old(self)@.relocated(id, loc),
            old(self)@.wf() ==> final(self)@.wf(),
    {
        reveal(Layout::relocated);
        let ghost before = self@.elements;
        if let Some(i) = find_placed(&self.elements, id) {
            self.elements.set(i, Placed { window: id, loc });
            self.actions.push(Action::RelocateElement { window: id, loc });
        }
        reveal(Layout::wf);
        assert(self@.windows == old(self)@.windows);
        assert forall|i: int, j: int|
            mapped_once(before) && 0 <= i < j < self@.elements.len() implies (
        #[trigger] self@.elements[i]).window != (#[trigger] self@.elements[j]).window by {
            assert(self@.elements[i].window == before[i].window);
            assert(self@.elements[j].window == before[j].window);
        }
    }

    /// Unmap the window `id`.
    pub fn unmap_elem(&mut self, id: u64)
        ensures
            final(self)@ == old(self)@.unmapped(id),
            old(self)@.wf() ==> final(self)@.wf(),
    {
        reveal(Layout::wf);
        reveal(Layout::unmapped);
        if self.element_location(id).is_none() {
            return;
        }
        self.take_element(id);
        let mut kept: Vec<Overlap> = Vec::new();
        let ghost keep = |o: Overlap| o.window != id;
        let mut i: usize = 0;
        while i < self.overlaps.len()
            invariant
                i <= self.overlaps.len(),
                keep == (|o: Overlap| o.window != id),
                kept@ == self.overlaps@.take(i as int).filter(keep),
            decreases self.overlaps.len() - i,
        {
            let overlap = self.overlaps[i];
            proof {
                let taken = self.overlaps@.take(i + 1);
                assert(taken.drop_last() =~= self.overlaps@.take(i as int));
                reveal(Seq::filter);
            }
            if overlap.window != id {
                kept.push(overlap);
            }
            i += 1;
        }
        assert(self.overlaps@.take(i as int) =~= self.overlaps@);
        self.overlaps = kept;
        self.actions.push(Action::UnmapElement { window: id });
        assert(self@.windows == old(self)@.windows);
        proof {
            if old(self)@.wf() {
                lemma_without(old(self)@, id);
            }
        }
    }
}

/// Without the entry of a window that is mapped once, there is none of it.
pub proof fn lemma_without(layout: Layout, id: u64)
    requires
        mapped_once(layout.elements),
    ensures
        mapped_once(layout.elements_without(id)),
        placed_index(layout.elements_without(id), id, 0) is None,
{
    let after = layout.elements_without(id);
    lemma_placed_index_bounds(layout.elements, id, 0);
    lemma_placed_index_bounds(after, id, 0);
    match placed_index(layout.elements, id, 0) {
        Some(p) => {
            assert forall|k: int| 0 <= k < after.len() implies (#[trigger] after[k]).window != id by {
                let back = if k < p { k } else { k + 1 };
                assert(after[k] == layout.elements[back]);
                assert(layout.elements[p].window == id);
            }
            assert forall|i: int, j: int| 0 <= i < j < after.len() implies (
            #[trigger] after[i]).window != (#[trigger] after[j]).window by {
                let bi = if i < p { i } else { i + 1 };
                let bj = if j < p { j } else { j + 1 };
                assert(after[i] == layout.elements[bi]);
                assert(after[j] == layout.elements[bj]);
            }
        },
        None => {},
    }
}

pub proof fn lemma_pushed_once(elements: Seq<Placed>, placed: Placed)
    requires
        mapped_once(elements),
        placed_index(elements, placed.window, 0) is None,
    ensures
        mapped_once(elements.push(placed)),
{
    let after = elements.push(placed);
    assert forall|i: int, j: int| 0 <= i < j < after.len() implies (#[trigger] after[i]).window != (
    #[trigger] after[j]).window by {
        assert(after[i] == elements[i]);
        if j < elements.len() {
            assert(after[j] == elements[j]);
        } else if elements[i].window == placed.window {
            lemma_placed_exists(elements, placed.window, i, 0);
        }
    }
}

/// Mapping a window puts it where it was told to, on top, and moves no other.
pub proof fn mapping_moves_one_window(layout: Layout, id: u64, loc: Point, activate: bool, other: u64)
    requires
        other != id,
        mapped_once(layout.elements),
    ensures
        layout.mapped(id, loc, activate).location(id) == Some(loc),
        layout.mapped(id, loc, activate).location(other) == layout.location(other),
        layout.mapped(id, loc, activate).elements.last() == (Placed { window: id, loc }),
{
    reveal(Layout::location);
    reveal(Layout::mapped);
    let below = layout.elements_without(id);
    let after = layout.mapped(id, loc, activate).elements;
    lemma_without(layout, id);
    lemma_placed_index_bounds(layout.elements, id, 0);
    lemma_placed_index_bounds(layout.elements, other, 0);
    lemma_placed_index_bounds(after, other, 0);
    lemma_placed_index_bounds(after, id, 0);
    assert(after.last().window == id);
    lemma_placed_exists(after, id, after.len() - 1, 0);
    let k = placed_index(after, id, 0)->0;
    assert(k == after.len() - 1) by {
        if k < after.len() - 1 {
            assert(below[k] == after[k]);
            lemma_placed_exists(below, id, k, 0);
        }
    }
    match placed_index(layout.elements, other, 0) {
        Some(q) => {
            let moved = match placed_index(layout.elements, id, 0) {
                Some(p) => if q < p { q } else { q - 1 },
                None => q,
            };
            assert(after[moved] == layout.elements[q]);
            lemma_placed_exists(after, other, moved, 0);
            let m = placed_index(after, other, 0)->0;
            assert(after[m].loc == layout.elements[q].loc) by {
                let back = match placed_index(layout.elements, id, 0) {
                    Some(p) => if m < p { m } else { m + 1 },
                    None => m,
                };
                assert(after[m] == layout.elements[back]);
                assert(layout.elements[back].window == layout.elements[q].window);
                assert(back == q);
            }
        },
        None => {
            if placed_index(after, other, 0) is Some {
                let m = placed_index(after, other, 0)->0;
                let back = match placed_index(layout.elements, id, 0) {
                    Some(p) => if m < p { m } else { m + 1 },
                    None => m,
                };
                assert(after[m] == layout.elements[back]);
                lemma_placed_exists(layout.elements, other, back, 0);
            }
        },
    }
}

/// A window with an entry is found.
pub proof fn lemma_placed_exists(elements: Seq<Placed>, id: u64, k: int, i: int)
    requires
        0 <= i <= k < elements.len(),
        elements[k].window == id,
    ensures
        placed_index(elements, id, i) is Some,
    decreases elements.len() - i,
{
    if elements[i].window != id {
        lemma_placed_exists(elements, id, k, i + 1);
    }
}

} // verus!
