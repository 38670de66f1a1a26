//! A command-line front-end for a running media player: argument model,
//! catalog loader, selector decisions, session state and command dispatch,
//! each with a verified contract. The process, socket and terminal work is
//! done by the program around this library.

pub mod text;
pub mod error;
pub mod args;
pub mod catalog;
pub mod env;
pub mod api;
pub mod dispatch;
pub mod tui;
