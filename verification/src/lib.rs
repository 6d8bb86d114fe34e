//! Verified core of a mod manager for a game's `ModsDB.ini` database.
pub mod about;
pub mod cheats;
pub mod cpkredir;
pub mod ids;
pub mod ini;
pub mod keys;
pub mod laws;
pub mod load;
pub mod manager;
pub mod picker;
pub mod render;
pub mod text;
pub mod unicode;

pub use about::{about_lines, has_zip_extension, renderer_label, zip_stem};
pub use cheats::{cheat_names, is_cheat};
pub use cpkredir::{cpkredir_action, cpkredir_default, cpkredir_folder_error, cpkredir_report, CpkAction};
pub use keys::{format_code_key, format_main_key};
pub use manager::{ModEntry, ModManager};
pub use picker::{receive_file, PickedFile};
pub use text::trim_quotes_str;
