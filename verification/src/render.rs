//! What is drawn for a window, as a list of things to draw at offsets from the
//! window's top-left corner.
//!
//! The list is in logical pixels. A renderer scales each offset to its own
//! pixels, fades everything by the plan's opacity, and scales the finished list
//! about the center of the decorated window.

use std::time::Instant;
use vstd::prelude::*;

use crate::animation::{Ratio, Visibility};
use crate::element::WindowElement;
use crate::ssd::{
    icon_offset, Borders, Fill, HeaderBar, BORDER_WIDTH, BUTTON_WIDTH, HEADER_BAR_HEIGHT,
    TITLE_PADDING,
};
use crate::utils::{difference, larger, saturate, sum, Point, Size};
use crate::xdg::decorated_content_size;

verus! {

use crate::animation::ratio_of;
use crate::ssd::WindowState;
use crate::utils::{max, sat32};
use crate::xdg::decorated;

/// The icon on a titlebar button.
#[derive(Debug, Clone, Copy, PartialEq, Eq, Structural)]
pub enum Icon {
    Close,
    Maximize,
    Minimize,
    Restore,
}

/// One thing to draw.
#[derive(Debug, Clone, Copy, PartialEq, Eq, Structural)]
pub enum Draw {
    /// A button's icon.
    Icon { icon: Icon, at: Point },
    /// The rasterized title.
    Title { at: Point },
    /// A rectangle of one color.
    Fill { fill: Fill, at: Point },
    /// The frozen pre-transition frame `buffer`, stretched from its `native`
    /// size to `size`. Its opacity is what is left of `progress`.
    Snapshot { buffer: u64, native: Size, at: Point, size: Size, progress: Ratio },
    /// The client's surfaces, stretched from the `committed` to the `display`
    /// size if `stretched`.
    Content { at: Point, committed: Size, display: Size, stretched: bool },
    /// The surfaces of the kept frame of a window whose client is gone, each at
    /// its own location from `at`.
    Frame { at: Point },
}

/// What is drawn for a window, front to back.
#[derive(Debug)]
pub struct RenderPlan {
    pub elements: Vec<Draw>,
    /// The opacity and the scale of the whole, while it fades in or out.
    pub visibility: Option<Visibility>,
    /// The decorated size, whose center the scale is about.
    pub frame: Size,
}

/// A point on a titlebar.
pub open spec fn at(x: int, y: int) -> Point {
    Point { x: sat32(x) as i32, y: sat32(y) as i32 }
}

/// One thing to draw if `wanted`, else nothing.
pub open spec fn only_if(wanted: bool, draw: Draw) -> Seq<Draw> {
    if wanted {
        seq![draw]
    } else {
        Seq::empty()
    }
}

impl HeaderBar {
    /// The x coordinate of the `n`th button from the right.
    pub open spec fn button_x(self, n: int) -> int {
        self.width - n * BUTTON_WIDTH
    }

    /// The titlebar: the hovered button's highlight in front of the background.
    pub open spec fn bar_draws(self) -> Seq<Draw> {
        only_if(
            self.close_button_hover,
            Draw::Fill { fill: self.close_button, at: at(self.button_x(1), 0) },
        ) + only_if(
            self.maximize_button_hover,
            Draw::Fill { fill: self.maximize_button, at: at(self.button_x(2), 0) },
        ) + only_if(
            self.minimize_button_hover,
            Draw::Fill { fill: self.minimize_button, at: at(self.button_x(3), 0) },
        ) + seq![Draw::Fill { fill: self.background, at: at(0, 0) }]
    }

    /// What the titlebar consists of.
    ///
    /// Only draws a button's background while it is hovered: otherwise it is
    /// the same color as the bar and drawing it as a separate opaque rect
    /// makes it show through as a rectangle whenever the whole frame is faded
    /// out (each element is alpha-composited independently).
    pub fn render_elements(&self) -> (r: Vec<Draw>)
        requires
            self.width <= i32::MAX,
        ensures
            r@ == self.bar_draws(),
    {
        let width = self.width as i32;
        let button = BUTTON_WIDTH as i32;
        let mut elements: Vec<Draw> = Vec::new();
        if self.close_button_hover {
            elements.push(Draw::Fill { fill: self.close_button, at: Point { x: width - button, y: 0 } });
        }
        if self.maximize_button_hover {
            elements.push(
                Draw::Fill { fill: self.maximize_button, at: Point { x: width - 2 * button, y: 0 } },
            );
        }
        if self.minimize_button_hover {
            elements.push(
                Draw::Fill { fill: self.minimize_button, at: Point { x: width - 3 * button, y: 0 } },
            );
        }
        elements.push(Draw::Fill { fill: self.background, at: Point { x: 0, y: 0 } });
        assert(elements@ =~= self.bar_draws());
        elements
    }

    /// The three icons, from the right, each in the middle of its button.
    pub open spec fn icon_draws(self, maximize: Icon) -> Seq<Draw> {
        seq![
            Draw::Icon { icon: Icon::Close, at: at(self.button_x(1) + 10, 10) },
            Draw::Icon { icon: maximize, at: at(self.button_x(2) + 10, 10) },
            Draw::Icon { icon: Icon::Minimize, at: at(self.button_x(3) + 10, 10) },
        ]
    }

    /// The whole decoration, front to back: icons, title, titlebar, borders.
    pub open spec fn frame_draws(self, maximize: Icon, title_width: int) -> Seq<Draw> {
        self.icon_draws(maximize) + only_if(
            title_width > 0,
            Draw::Title { at: at(TITLE_PADDING as int, 0) },
        ) + self.bar_draws() + (if self.fullscreen {
            Seq::empty()
        } else {
            self.borders.border_draws()
        })
    }

    /// The whole decoration, front to back.
    fn decoration(&self, maximize: Icon, title_width: i32) -> (r: Vec<Draw>)
        requires
            self.width <= i32::MAX,
        ensures
            r@ == self.frame_draws(maximize, title_width as int),
    {
        let icon_off = icon_offset();
        let base = self.width as i32;
        let button = BUTTON_WIDTH as i32;
        let mut elements: Vec<Draw> = Vec::new();
        elements.push(
            Draw::Icon {
                icon: Icon::Close,
                at: Point { x: base - button + icon_off.x, y: icon_off.y },
            },
        );
        elements.push(
            Draw::Icon {
                icon: maximize,
                at: Point { x: base - button * 2 + icon_off.x, y: icon_off.y },
            },
        );
        elements.push(
            Draw::Icon {
                icon: Icon::Minimize,
                at: Point { x: base - button * 3 + icon_off.x, y: icon_off.y },
            },
        );
        assert(elements@ =~= self.icon_draws(maximize));
        // The title sits behind the icons but in front of the bar's background.
        if title_width > 0 {
            elements.push(Draw::Title { at: Point { x: TITLE_PADDING, y: 0 } });
        }
        assert(elements@ =~= self.icon_draws(maximize) + only_if(
            title_width > 0,
            Draw::Title { at: at(TITLE_PADDING as int, 0) },
        ));
        let mut bar = self.render_elements();
        elements.append(&mut bar);
        if !self.fullscreen {
            let mut borders = self.borders.render_elements();
            elements.append(&mut borders);
        }
        assert(elements@ =~= self.frame_draws(maximize, title_width as int));
        elements
    }
}

impl Borders {
    /// The three borders, below the titlebar.
    pub open spec fn border_draws(self) -> Seq<Draw> {
        seq![
            Draw::Fill { fill: self.left, at: at(0, HEADER_BAR_HEIGHT as int) },
            Draw::Fill {
                fill: self.right,
                at: at(self.width + BORDER_WIDTH, HEADER_BAR_HEIGHT as int),
            },
            Draw::Fill { fill: self.bottom, at: at(0, HEADER_BAR_HEIGHT + self.height) },
        ]
    }

    /// What the borders consist of.
    pub fn render_elements(&self) -> (r: Vec<Draw>)
        ensures
            r@ == self.border_draws(),
    {
        let cw = saturate(self.width as i128 + BORDER_WIDTH as i128);
        let ch = saturate(HEADER_BAR_HEIGHT as i128 + self.height as i128);
        let mut elements: Vec<Draw> = Vec::new();
        elements.push(Draw::Fill { fill: self.left, at: Point { x: 0, y: HEADER_BAR_HEIGHT } });
        elements.push(Draw::Fill { fill: self.right, at: Point { x: cw, y: HEADER_BAR_HEIGHT } });
        elements.push(Draw::Fill { fill: self.bottom, at: Point { x: 0, y: ch } });
        assert(elements@ =~= self.border_draws());
        elements
    }
}

/// The size of a server-decorated window's frame around `content`. A fullscreen
/// window has a titlebar but no borders.
pub open spec fn frame_around(content: Size, fullscreen: bool) -> Size {
    if fullscreen {
        Size { w: content.w, h: sat32(HEADER_BAR_HEIGHT + content.h) as i32 }
    } else {
        decorated(content, true)
    }
}

/// The size of a server-decorated window's frame around `content`.
pub fn frame_size(content: Size, fullscreen: bool) -> (r: Size)
    ensures
        r == frame_around(content, fullscreen),
{
    if fullscreen {
        Size { w: content.w, h: sum(HEADER_BAR_HEIGHT, content.h) }
    } else {
        decorated_content_size(content, true)
    }
}

/// The width of the titlebar over content of `width`.
pub open spec fn bar_width(width: int, fullscreen: bool) -> int {
    max(
        if fullscreen {
            width
        } else {
            sat32(width + 2 * BORDER_WIDTH)
        },
        0,
    )
}

/// The width of the titlebar over content of `width`.
pub fn titlebar_width(width: i32, fullscreen: bool) -> (r: u32)
    ensures
        r == bar_width(width as int, fullscreen),
        r <= i32::MAX,
{
    let width = if fullscreen { width } else { sum(width, 2 * BORDER_WIDTH) };
    larger(width, 0) as u32
}

impl WindowElement {
    /// The content size that the window is drawn at: the animated one while a
    /// transition plays.
    pub open spec fn display_size(self, now: Instant) -> Size {
        match self.state.animation {
            Some(animation) => animation.rect_at(now).content,
            None => self.content_size(),
        }
    }

    /// The content size that the window is drawn at.
    pub fn displayed_size(&self, now: Instant) -> (r: Size)
        requires
            self.wf(),
        ensures
            r == self.display_size(now),
    {
        match self.state.animation {
            Some(animation) => animation.sample(now).0.content,
            None => self.resize_content_size(),
        }
    }

    /// Whether the window is drawn with a frame: it is server-decorated and has
    /// something to put the frame around.
    pub open spec fn framed(self) -> bool {
        self.state.is_ssd && self.client_bbox.size.w != 0 && self.client_bbox.size.h != 0
    }

    /// The crossfade: the frozen pre-transition frame in front of the live
    /// content, both stretched to the displayed size.
    pub open spec fn content_draws(self, origin: Point, now: Instant) -> Seq<Draw> {
        let committed = self.content_size();
        let display = self.display_size(now);
        (match self.state.animation {
            Some(animation) => match animation.captured() {
                Some((buffer, native)) => seq![
                    Draw::Snapshot {
                        buffer,
                        native,
                        at: origin,
                        size: display,
                        progress: ratio_of(animation.eased_at(now)),
                    },
                ],
                None => Seq::empty(),
            },
            None => Seq::empty(),
        }) + seq![
            Draw::Content {
                at: origin,
                committed,
                display,
                stretched: display != committed && committed.w > 0 && committed.h > 0,
            },
        ]
    }

    /// The crossfade at `origin`.
    fn content(&self, origin: Point, now: Instant) -> (r: Vec<Draw>)
        requires
            self.wf(),
        ensures
            r@ == self.content_draws(origin, now),
    {
        let committed = self.resize_content_size();
        let display = self.displayed_size(now);
        let mut elements: Vec<Draw> = Vec::new();
        // Elements are ordered front-to-back, so the snapshot comes before the
        // live content to land on top of it.
        if let Some(animation) = self.state.animation {
            if let Some((buffer, native)) = animation.snapshot() {
                let progress = animation.sample(now).1;
                elements.push(Draw::Snapshot { buffer, native, at: origin, size: display, progress });
            }
        }
        elements.push(
            Draw::Content {
                at: origin,
                committed,
                display,
                stretched: display != committed && committed.w > 0 && committed.h > 0,
            },
        );
        assert(elements@ =~= self.content_draws(origin, now));
        elements
    }

    /// The icon of the middle button: "restore" while there is something to
    /// restore.
    pub open spec fn maximize_icon(self) -> Icon {
        if self.state.header_bar.fullscreen || self.maximized() || self.state.snap is Some {
            Icon::Restore
        } else {
            Icon::Maximize
        }
    }

    /// Whether the window is drawn with a decoration.
    pub open spec fn has_bar(self) -> bool {
        if self.ghosting() {
            self.state.is_ssd && self.state.last_frame is Some
        } else {
            self.framed()
        }
    }

    /// The decoration to draw at `now`, if the window has one. A closing window
    /// has no hover state.
    pub open spec fn bar_at(self, now: Instant) -> Option<HeaderBar> {
        let bar = self.state.header_bar;
        if self.ghosting() {
            match self.state.last_frame {
                Some(frame) if self.state.is_ssd => Some(
                    (HeaderBar { pointer_loc: None, ..bar }).redrawn(
                        bar_width(frame.size.w as int, bar.fullscreen) as u32,
                        frame.size,
                        false,
                    ),
                ),
                _ => None,
            }
        } else if self.framed() {
            let display = self.display_size(now);
            Some(
                bar.redrawn(
                    bar_width(display.w as int, bar.fullscreen) as u32,
                    display,
                    self.active(),
                ),
            )
        } else {
            None
        }
    }

    /// The window after its decoration was laid out for drawing at `now`.
    pub open spec fn laid_out(self, now: Instant) -> WindowElement {
        match self.bar_at(now) {
            Some(bar) => self.with_bar(bar),
            None => self,
        }
    }

    /// The window with `bar` as its decoration.
    pub open spec fn with_bar(self, bar: HeaderBar) -> WindowElement {
        WindowElement { state: WindowState { header_bar: bar, ..self.state }, ..self }
    }

    /// What is drawn for the window at `now`, once it is laid out.
    pub open spec fn draws(self, title_width: int, now: Instant) -> Seq<Draw> {
        if self.ghosting() {
            match self.state.last_frame {
                Some(frame) => if self.state.is_ssd {
                    self.state.header_bar.frame_draws(Icon::Maximize, title_width).push(
                        Draw::Frame { at: self.content_origin() },
                    )
                } else {
                    seq![Draw::Frame { at: at(-frame.loc.x, -frame.loc.y) }]
                },
                None => Seq::empty(),
            }
        } else if self.framed() {
            self.state.header_bar.frame_draws(self.maximize_icon(), title_width)
                + self.content_draws(self.content_origin(), now)
        } else {
            self.content_draws(Point { x: 0, y: 0 }, now)
        }
    }

    /// The size of what is drawn for the window at `now`.
    pub open spec fn drawn_size(self, now: Instant) -> Size {
        let content = if self.ghosting() {
            match self.state.last_frame {
                Some(frame) => frame.size,
                None => Size { w: 0, h: 0 },
            }
        } else {
            self.display_size(now)
        };
        if self.has_bar() {
            frame_around(content, self.state.header_bar.fullscreen)
        } else {
            content
        }
    }

    /// The opacity and scale of the plan at `now`. Nothing is drawn of a ghost
    /// without a frame.
    pub open spec fn plan_visibility(self, now: Instant) -> Option<Visibility> {
        if self.ghosting() && self.state.last_frame is None {
            None
        } else {
            self.visibility_at(now)
        }
    }

    /// Lay the decoration out for drawing at `now`. A closing window has no
    /// hover state.
    fn next_bar(&self, now: Instant) -> (r: Option<HeaderBar>)
        requires
            self.wf(),
        ensures
            r == self.bar_at(now),
            r is Some <==> self.has_bar(),
            r is Some ==> r->0.width <= i32::MAX,
    {
        let mut bar = self.state.header_bar;
        if self.is_ghosting() {
            match self.state.last_frame {
                Some(frame) => {
                    if !self.state.is_ssd {
                        return None;
                    }
                    bar.pointer_leave();
                    bar.redraw(titlebar_width(frame.size.w, bar.fullscreen), frame.size, false);
                    Some(bar)
                },
                None => None,
            }
        } else {
            let bbox = self.client_bbox.size;
            if !(self.state.is_ssd && bbox.w != 0 && bbox.h != 0) {
                return None;
            }
            let display = self.displayed_size(now);
            bar.redraw(titlebar_width(display.w, bar.fullscreen), display, self.is_activated());
            Some(bar)
        }
    }

    /// The window laid out for drawing at `now`.
    fn lay_out(&self, now: Instant) -> (r: WindowElement)
        requires
            self.wf(),
        ensures
            r == self.laid_out(now),
            r.wf(),
            r.has_bar() ==> r.state.header_bar.width <= i32::MAX,
    {
        let mut window = *self;
        if let Some(bar) = self.next_bar(now) {
            window.state.header_bar = bar;
        }
        window
    }

    /// Plan what is drawn of the live window at `now`.
    fn live_elements(&self, title_width: i32, now: Instant) -> (r: Vec<Draw>)
        requires
            self.wf(),
            !self.ghosting(),
            self.framed() ==> self.state.header_bar.width <= i32::MAX,
        ensures
            r@ == self.draws(title_width as int, now),
    {
        let bbox = self.client_bbox.size;
        if self.state.is_ssd && bbox.w != 0 && bbox.h != 0 {
            // A snapped (tiled) window is "restorable" too, so it shows the
            // restore icon and un-snaps when the button is pressed.
            let restorable = self.state.header_bar.fullscreen || self.is_maximized()
                || self.state.is_snapped();
            let icon = if restorable { Icon::Restore } else { Icon::Maximize };
            let mut elements = self.state.header_bar.decoration(icon, title_width);
            let mut content = self.content(self.surface_offset(), now);
            elements.append(&mut content);
            elements
        } else {
            self.content(Point { x: 0, y: 0 }, now)
        }
    }

    /// Plan the frozen frame of a window whose client is gone.
    fn ghost_render_elements(&self, title_width: i32, now: Instant) -> (r: Vec<Draw>)
        requires
            self.ghosting(),
            self.state.is_ssd && self.state.last_frame is Some ==> self.state.header_bar.width
                <= i32::MAX,
        ensures
            r@ == self.draws(title_width as int, now),
    {
        let mut elements: Vec<Draw> = Vec::new();
        if let Some(frame) = self.state.last_frame {
            if self.state.is_ssd {
                elements = self.state.header_bar.decoration(Icon::Maximize, title_width);
                elements.push(Draw::Frame { at: self.surface_offset() });
            } else {
                // The buffer of a client-decorated window has a shadow margin,
                // so shift it up by the window geometry offset to line the
                // content up with the window.
                elements.push(
                    Draw::Frame {
                        at: Point {
                            x: difference(0, frame.loc.x),
                            y: difference(0, frame.loc.y),
                        },
                    },
                );
                assert(elements@ =~= self.draws(title_width as int, now));
            }
        } else {
            assert(elements@ =~= self.draws(title_width as int, now));
        }
        elements
    }

    /// Plan what is drawn at `now` of a window that is laid out.
    fn planned(&self, title_width: i32, now: Instant) -> (r: Vec<Draw>)
        requires
            self.wf(),
            self.has_bar() ==> self.state.header_bar.width <= i32::MAX,
        ensures
            r@ == self.draws(title_width as int, now),
    {
        if self.is_ghosting() {
            self.ghost_render_elements(title_width, now)
        } else {
            self.live_elements(title_width, now)
        }
    }

    /// The size of what is drawn for the window at `now`.
    fn size_drawn(&self, now: Instant) -> (r: Size)
        requires
            self.wf(),
        ensures
            r == self.drawn_size(now),
    {
        let fullscreen = self.state.header_bar.fullscreen;
        if self.is_ghosting() {
            match self.state.last_frame {
                Some(frame) => if self.state.is_ssd {
                    frame_size(frame.size, fullscreen)
                } else {
                    frame.size
                },
                None => Size { w: 0, h: 0 },
            }
        } else {
            let content = self.displayed_size(now);
            let bbox = self.client_bbox.size;
            if self.state.is_ssd && bbox.w != 0 && bbox.h != 0 {
                frame_size(content, fullscreen)
            } else {
                content
            }
        }
    }

    /// Lay the window out and plan what is drawn for it at `now`.
    ///
    /// A window opening or closing fades and scales as one piece. While a
    /// maximize/unmaximize transition is running the window is drawn at the
    /// interpolated (animated) size: the client's content is crossfaded from a
    /// frozen snapshot of its pre-transition pixels to the live content, while
    /// the SSD frame is re-laid out at the new size. A ghost's client is gone;
    /// its frozen frame is drawn instead of a surface that no longer exists.
    /// `title_width` is the width of the rasterized title, zero if there is
    /// none.
    pub fn render_elements(&mut self, title_width: i32, now: Instant) -> (r: RenderPlan)
        requires
            old(self).wf(),
        ensures
            *final(self) == old(self).laid_out(now),
            final(self).wf(),
            r.elements@ == final(self).draws(title_width as int, now),
            r.visibility == old(self).plan_visibility(now),
            r.frame == old(self).drawn_size(now),
    {
        let frame = self.size_drawn(now);
        let visibility = if self.is_ghosting() && self.state.last_frame.is_none() {
            None
        } else {
            self.visibility(now)
        };
        let laid_out = self.lay_out(now);
        let elements = laid_out.planned(title_width, now);
        *self = laid_out;
        RenderPlan { elements, visibility, frame }
    }
}

/// What is drawn ends with the client's content, or its frozen frame: the
/// decoration is always in front of it, and nothing is drawn twice.
pub proof fn content_is_drawn_last(window: WindowElement, title_width: int, now: Instant)
    requires
        !(window.ghosting() && window.state.last_frame is None),
    ensures
        ({
            let draws = window.draws(title_width, now);
            &&& draws.len() > 0
            &&& window.ghosting() ==> draws.last() is Frame
            &&& !window.ghosting() ==> draws.last() is Content
        }),
{
}

} // verus!
