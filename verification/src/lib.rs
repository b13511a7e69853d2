//! Turn any MCP server into a command line tool.
//!
//! The library holds what the program decides and computes. It takes in what files,
//! the network and the command line gave, and says what is to be sent, written and
//! printed.

pub mod text;
pub mod numeral;
pub mod table;
pub mod error;
pub mod json;

pub mod flags;
pub mod output;
pub mod tools;
pub mod commands;

pub mod http;
pub mod rpc;
pub mod sse;
pub mod client;
pub mod session;

pub mod config;
pub mod cache;

pub mod address;
pub mod discovery;
pub mod oauth;
pub mod callback;
pub mod login;
