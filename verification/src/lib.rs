//! Playing-field data for a tile-based board game: panels with directional
//! exits, a rectangular field of panels, the backtrack-exit reconstruction
//! pass, and two binary codecs for field files.

pub mod field;
pub mod format;
pub mod panel;

pub use field::Field;
pub use panel::Exits;
pub use panel::Panel;
pub use panel::PanelKind;
