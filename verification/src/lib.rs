//! Text layout state for widgets: style attributes, the rebuild protocol of the
//! underlying layout, accessibility runs, and the decisions behind text views.

pub mod access;
pub mod brush;
pub mod layout;
pub mod runs;
pub mod style;
pub mod text_view;

pub use access::InlineTextBox;
pub use brush::{Hinting, TextBrush};
pub use layout::{RebuildSteps, TextLayout};
