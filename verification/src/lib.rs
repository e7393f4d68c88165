//! Navigation, listing and tab-management logic of a small file explorer.
pub mod app;
pub mod fs_entry;
pub mod icon;
pub mod number;
pub mod path;
pub mod settings;
pub mod sidebar;
pub mod tab;
pub mod text;
pub mod theme;
