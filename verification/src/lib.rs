//! AyuxOS core library: the verified logic of the AyuxOS services,
//! libraries and system applications.
pub mod color;
pub mod rect;
pub mod strs;
pub mod ipc;
pub mod crypto;
pub mod paths;
pub mod auth;
pub mod security;
pub mod session;
pub mod text;
pub mod shell;
pub mod window_server;
pub mod canvas;
pub mod image;
pub mod widgets;
pub mod num;
pub mod hal;
pub mod network;
pub mod logging;
pub mod login;
pub mod init;
pub mod apps;
pub mod shell_ops;
pub mod system;
pub mod font;
