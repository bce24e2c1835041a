//! NovaShell core: configuration model, template engine, IPC protocol and
//! widget data logic of the NovaShell desktop engine.

pub mod cli;
pub mod config;
pub mod css;
pub mod daemon;
pub mod error;
pub mod factory;
pub mod ipc;
pub mod ordered;
pub mod paths;
pub mod plugin;
pub mod renderer;
pub mod strmap;
pub mod state;
pub mod template;
pub mod text;
pub mod widgets;
pub mod xml;
