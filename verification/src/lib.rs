//! TinyView's verified core: template resolution and rendering, CSP
//! injection, the menu layout and the decisions of the command-line runtime.

mod text;
pub mod config;
pub mod detach;
pub mod menu;
pub mod runtime;
pub mod reading;
pub mod script;
pub mod selftest;
pub mod shortcuts;
pub mod strmap;
pub mod template;
pub mod watch;
pub mod webview;
