//! The decisions behind a cross-backend file browser's windows.

pub mod actions;
pub mod browser;
pub mod config_text;
pub mod connection_form;
pub mod delegate;
pub mod dialog;
pub mod dir_tree;
pub mod entry;
pub mod name_dialog;
pub mod paths;
pub mod placeholders;
pub mod preview;
pub mod shortcut_settings;
pub mod startup;
pub mod text;
pub mod text_map;
pub mod transfer_panel;
pub mod workspace;
