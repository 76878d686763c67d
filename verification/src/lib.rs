//! The decisions behind a small WireGuard front end: which configuration
//! directories are looked at, which tunnels they hold, when and how the
//! privileged helper is asked, and what the user is told.
//!
//! Nothing here touches a file, a process or the screen. Each operation that
//! has to wait for the outside world is a state machine: it names the next
//! action, and is handed what came of it.

pub mod commands;
pub mod discovery;
pub mod environment;
pub mod exchange;
pub mod farewell;
pub mod front_end;
pub mod handler;
pub mod helper;
pub mod listing;
pub mod logo;
pub mod paths;
pub mod protocol;
pub mod refresh;
pub mod screen;
pub mod server;
pub mod text;
pub mod toggle;
pub mod tunnels;
