//! The Connected desktop companion's logic: the application state and
//! settings, what each event and user action does to them, what the window
//! shows, the media relay and poller, phone data, transfers and previews,
//! the served filesystem, autostart entries, wake-up markers, proximity
//! payloads, remote-command checks and the records exchanged with the core.

pub mod xdo;
pub mod text;
pub mod strmap;
pub mod ffi;
pub mod settings;
pub mod state;
pub mod callbacks;
pub mod wakeup;
pub mod format;
pub mod autostart;
pub mod device_type;
pub mod proximity;
pub mod remote;
pub mod bridge;
pub mod filesystem;
pub mod fs_provider;
pub mod mpris;
pub mod events;
pub mod mms;
pub mod host;
pub mod firewall;
pub mod telephony;
pub mod actions;
pub mod view;
pub mod media_poll;
pub mod preview;
pub mod thumbs;
pub mod transfers;
pub mod controls;
