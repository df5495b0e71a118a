//! The local mpv: the commands it gets, the events it reports, how it is
//! started.

pub mod command;
pub mod event;
pub mod ipc;
pub mod process;
