//! NULLXES desktop: the decision logic of the FRAME compositor, its control
//! IPC protocol, the launcher, the notification daemon, the lock screen and
//! the greeter, stated and proved with Verus.

pub mod workspace;
pub mod text;
pub mod keymap;
pub mod paths;
pub mod config;
pub mod ipc;
pub mod pixels;
pub mod order;
pub mod launcher;
pub mod notif;
pub mod idle;
pub mod keybind;
pub mod frame;
pub mod panel;
pub mod lock;
pub mod greet;
