//! Verified core of a terminal runbook and API-collection runner: key
//! bindings, collection import, variable substitution, themes, text layout
//! helpers and the application state machine driven by key events.

pub mod text;
pub mod num;
pub mod keybinding;
pub mod api;
pub mod config;
pub mod theme;
pub mod app;
pub mod keys;
pub mod ordered;
pub mod collection;
pub mod openapi;
pub mod layout;
pub mod highlight;
pub mod setup;
pub mod env;
pub mod browse;
pub mod properties;
pub mod cwl;
pub mod export;
