//! Session management and message handling for a line-oriented TCP chat.
//!
//! The server side is the registry of sessions, the rules for usernames and
//! the handler of one connection; the client side is the chat session with
//! its line editor and the events that feed it. Nothing here touches a socket
//! or a terminal: callers read and write, and hand over what they got.

pub mod app;
pub mod cli_args;
pub mod clock;
pub mod connection;
pub mod events;
pub mod input_widget;
pub mod protocol;
pub mod registry;
pub mod text;
