//! A canvas of draggable widgets that combine when one is released on top of
//! another: a spatial index over the widgets' rectangles, a drag state
//! machine, a table of combination rules and a deferred queue of mutations.
pub mod kind;
pub mod index;
pub mod canvas;

pub use kind::{Kind, Effect, rule_for, combination_for};
pub use index::{Rect, SpatialIndex, CORNER_LIMIT};
pub use canvas::{Position, Widget, Interaction, MutationQueue, Canvas, random_position, widget_rect, COORD_LIMIT};
