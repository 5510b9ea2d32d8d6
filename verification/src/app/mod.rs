//! Application state and what each key press does to it.

pub mod auth;
pub mod editing;
pub mod effects;
pub mod kinds;
pub mod laws;
pub mod line_edit;
pub mod sidebar;
pub mod state;
pub mod tables;
pub mod text_box;

pub use kinds::{
    AuthField, CellCol, EditTarget, EditorTab, ExternalEdit, Focus, Mode, Popup, SidebarRow, TableId,
};
pub use line_edit::LineEdit;
pub use state::{App, Effect, SendJob};
pub use text_box::TextBox;
