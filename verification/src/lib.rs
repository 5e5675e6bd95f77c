//! Top tracks as a line for a profile text.
//!
//! The library reads request descriptions (a method, a URL, headers and a
//! body, with `{{NAME}}` placeholders), fills the placeholders from
//! variables, says what to log when a request is sent and what the answer
//! amounts to, and replaces the section of a profile text that a regular
//! expression finds. It also holds the rules around these: settings,
//! rendering of tracks, and the state of the pickers.
//!
//! Every function is verified against its contract. The contracts of
//! `pattern`, `method` and `json` are taken on trust from the crates they
//! call, as is the one of `String::push` in `chars`.

pub mod chars;
pub mod cli;
pub mod config;
pub mod description;
pub mod diagnostics;
pub mod discord;
pub mod http_template;
pub mod json;
pub mod lastfm;
pub mod lines;
pub mod method;
pub mod net;
pub mod pattern;
pub mod placeholder;
pub mod render;
pub mod scan;
pub mod settings;
pub mod templates;
pub mod text;
pub mod ui;
pub mod vars;
