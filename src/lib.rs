//! A small TCP request/response service: framing of JSON requests on a byte
//! stream, dispatch of commands, and conversion of results into wire responses.
pub mod json;
pub mod prelude;
pub mod entities;
pub mod dao;
pub mod server;
