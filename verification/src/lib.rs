//! Decisions behind a managed automation browser.

pub mod cdp;
pub mod command_line;
pub mod environment;
pub mod error;
pub mod launch;
pub mod managed;
pub mod paths;
pub mod ports;
pub mod queries;
pub mod session;
pub mod start;
pub mod tabs;
pub mod text;
