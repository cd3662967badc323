//! A shared shopping list kept behind a single serialized store, with a
//! chat-command front-end and a bearer-token HTTP front-end.
//!
//! The store assigns strictly increasing identifiers, validates names before
//! persisting them, and returns the list ordered by id. The two front-ends
//! adapt commands and HTTP requests to store calls and render the replies;
//! the HTTP path additionally checks a bearer credential and fans a summary
//! of each successful mutation out to a configured set of chat destinations.

pub mod api;
pub mod command;
pub mod config;
pub mod render;
pub mod store;
