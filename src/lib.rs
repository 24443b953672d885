//! A small HTTP client library: reading `key=value` request fields and URLs,
//! building GET and POST requests, and laying out responses for a terminal.

pub mod kv;
pub mod target;
pub mod command;
pub mod body;
pub mod request;
pub mod render;
