//! A retained-mode terminal widget engine: a tree of drawable nodes, a clipped
//! paint pass that yields terminal drawing commands, single-focus keyboard
//! routing, and the decisions of the interactive event loop.
//!
//! - `widget`: the node data and the arena tree with its attach rules.
//! - `paint`: the model of a paint pass (frames, commands) and its laws.
//! - `context`: the terminal context that paints, moves the focus and decides
//!   what a key press does.
//! - `draw`, `text`: draw commands, the corner glyph table, and grapheme
//!   truncation.

pub mod context;
pub mod draw;
pub mod geometry;
pub mod paint;
pub mod style;
pub mod text;
pub mod ui;
pub mod widget;

pub use context::{clip_bounds, KeyCode, KeyInput, KeyOutcome, TermContext, CONTROL};
pub use draw::{border_corner, corner_glyph, Corner, DrawOp};
pub use geometry::{Border, BorderStyle, Point, Size, TextWrap};
pub use paint::Frame;
pub use style::{Color, TextStyle, FOCUS_COLOR};
pub use text::{take_clusters, truncate_graphemes};
pub use ui::{sample_widget_1, sample_widget_2, TreeState, TreeWidget};
pub use widget::{TreeView, Widget, WidgetError, WidgetId, WidgetTree};
