//! What the engine offers to a display.

pub mod ui;

pub use ui::UiRenderer;
