pub mod text;
pub mod terminal_input;
pub mod file_explorer;
pub mod toast;
pub mod remote_sync;
pub mod sidebar_cursor;
pub mod sidebar_items;
pub mod rename_directory;
pub mod request_broker;
pub mod remote_action;
pub mod remote_id;
pub mod state;
pub mod visibility;
pub mod lifecycle;
pub mod command_tracking;
pub mod scrollback;
pub mod color;
pub mod color_map;
pub mod vscode;
pub mod jsonc;
pub mod url_detector;
pub mod shell;
pub mod diff;
pub mod settings;
pub mod ui_helpers;
pub mod sidebar;
pub mod markdown;
pub mod workspace;
pub mod visibility_laws;
pub mod updater;
