//! A command dispatch and argument validation engine: command lines are split
//! into words, matched against a tree of registered commands, checked against
//! per-position validators, and handed to handlers through a typed cursor.

pub mod bindings;
pub mod chat;
pub mod command;
pub mod dialog;
pub mod encode;
pub mod manager;
pub mod message;
pub mod text;
pub mod validate;
