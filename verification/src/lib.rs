//! The window-management core of the Oxide desktop.
//!
//! Everything here is a function of plain values: what the compositor knows
//! about its outputs, windows and clients goes in, and the next state together
//! with the actions to perform comes out. The program around this library talks
//! to clients, renderers and the file system.

pub mod animation;
pub mod apps;
pub mod backend;
pub mod capture;
pub mod clock;
pub mod cursor;
pub mod drag;
pub mod effects;
pub mod element;
pub mod events;
pub mod frames;
pub mod geometry;
pub mod grabbing;
pub mod grabs;
pub mod group;
pub mod hits;
pub mod input;
pub mod laws;
pub mod panel;
pub mod panel_ipc;
pub mod popup;
pub mod reflow;
pub mod relayout;
pub mod render;
pub mod replies;
pub mod requests;
pub mod resize;
pub mod shell;
pub mod snap;
pub mod space;
pub mod ssd;
pub mod state;
pub mod strings;
pub mod text;
pub mod tick;
pub mod utils;
pub mod x11;
pub mod xdg;
pub mod zones;
