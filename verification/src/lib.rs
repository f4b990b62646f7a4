//! Static file serving over HTTP: from a request and what the file system
//! answers to a response with cache validators and an optionally
//! compressed body.

pub mod cache;
pub mod cli;
pub mod decimal;
pub mod encoding;
pub mod http;
pub mod mime;
pub mod model;
pub mod path;
pub mod service;
