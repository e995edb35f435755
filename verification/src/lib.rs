//! Verified core of a native emoji / kaomoji / ASCII-art / snippet picker:
//! the data model, search and grid navigation, the custom-item store, the
//! settings file, window placement and the decisions that drive the UI.
pub mod text;
pub mod model;
pub mod custom;
pub mod settings;
pub mod theme;
pub mod geometry;
pub mod native_window;
pub mod picker;
pub mod manager;
pub mod preview;
pub mod update;
pub mod about;
