//! A personal package registry: a versioned artifact store keyed by package
//! name, target triple and version, the request/response protocol around it,
//! and the client-side decoding of replies.
use vstd::prelude::*;

pub mod text;
pub mod model;
pub mod digest;
pub mod store;
pub mod encoding;
pub mod service;
pub mod client;
pub mod cli;
