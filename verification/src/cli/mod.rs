//! The decisions of the `phs` command-line front end: argument handling, command
//! parsing, and the text it renders. The program around it does the I/O.

pub mod debug;
pub mod encode;
pub mod latex;
pub mod html;
pub mod server;
pub mod commands;
pub mod upgrade;
pub mod config;
pub mod scaffold;
pub mod tui;
pub mod export;
pub mod docs;
pub mod rich;
pub mod page;
pub mod layout;
