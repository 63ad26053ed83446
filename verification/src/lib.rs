//! Keeps a TRYX Panorama SE display alive: the wire format, the session, and
//! the policies around them.

pub mod backend;
pub mod cli;
pub mod devnotify;
pub mod frame;
pub mod hold;
pub mod icon;
pub mod install;
pub mod launcher;
pub mod log;
pub mod overlapped;
pub mod pb;
pub mod registry;
pub mod session;
pub mod shortcut;
pub mod supervisor;
pub mod text;
pub mod time;
pub mod transport;
pub mod tray;
pub mod usbprint;
pub mod utf16;
pub mod watch;
pub mod win;
pub mod wire;
