pub mod annotations;
pub mod app;
pub mod bootstrap;
pub mod clipboard;
pub mod evidence;
pub mod footer;
pub mod frame;
pub mod guide;
pub mod header;
pub mod inbox;
pub mod inbox_pane;
pub mod json;
pub mod keys;
pub mod log_search;
pub mod loop_list;
pub mod markdown;
pub mod modes;
pub mod mouse;
pub mod notifications;
pub mod quick_peek;
pub mod session;
pub mod snapshot;
pub mod status_strip;
pub mod strip_laws;
pub mod text;
pub mod view_state;
pub mod wizard;
