//! The renderers' cell-grid logic: what each backend draws, where, and in
//! which order; the browser calls themselves are made by the caller.

pub mod canvas;
pub mod color;
pub mod cursor;
pub mod diff;
pub mod dom;
pub mod utils;
pub mod webgl2;
