//! Document model, HTML export and editing state of a drag-and-drop site builder.

pub mod ids;
pub mod style;
pub mod document;
pub mod text;
pub mod export;
pub mod history;
pub mod store;
pub mod palette;
pub mod layers;
pub mod status;
pub mod editor_state;
pub mod shared;
pub mod css;
pub mod catalogue;
pub mod autosave;
pub mod project_editor;
pub mod canvas_view;
pub mod decimal;
pub mod walk;
