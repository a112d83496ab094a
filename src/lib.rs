//! Tracking of watched directories, their files and their backup state.
//!
//! The library holds the model of tracked directories and files, the rules
//! that derive each file's backup name and sync state, the plan of copies a
//! sync performs, and the flat form in which the model is saved and restored.

pub mod path_text;
pub mod probe;
pub mod text_order;
pub mod timestamp;
pub mod file_info;
pub mod directory;
pub mod user_data;
pub mod app;
pub mod save_data;
