//! Terminal-themed web applications: the cell-grid logic behind the DOM,
//! canvas and WebGL2 renderers, the event model and the style helpers.

pub mod backend;
pub mod canvas_utils;
pub mod event;
pub mod style;
pub mod text;
pub mod utils;
pub mod wasm_backend;
pub mod widgets;

pub use style::{Cell, Color, Modifier, Position, Rect, Size, Style};
