//! Verified core of the Dasktop desktop organiser: UTF-16 and path buffers for
//! the Windows shell, Store-shortcut AppUserModelID extraction, icon pixel
//! processing, shell virtual items and native drag-and-drop decisions.

pub mod text;
pub mod app_user_model_id;
pub mod bitmap;
pub mod background;
pub mod crop;
pub mod icon_png;
pub mod wide;
pub mod hdrop;
pub mod shell_identity;
pub mod shell_virtual_item;
pub mod shell_file;
pub mod std_path;
pub mod native_drop;
pub mod clipboard;
pub mod desktop_icon;
pub mod box_window;
pub mod desktop_path;
pub mod single_instance;
pub mod shell_context;
pub mod shell_image;
pub mod shortcut_icon;
