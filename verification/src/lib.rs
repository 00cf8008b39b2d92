//! A typed client binding for the Steam Web API.
//!
//! A call is made in three steps, each with its own kind of failure:
//!
//! * [`query`] encodes the arguments into a query string, and [`request`]
//!   composes the URL;
//! * the transport, a function that the caller hands in, performs the GET;
//! * [`envelope`] takes the payload out of the response, and the endpoint
//!   reads its fields.
//!
//! Whatever fails, the caller gets the error of the endpoint with the
//! failure as its cause ([`error`]). [`laws`] and [`player_service::laws`]
//! state what holds of every call; [`parse`] reads a query string back.
//!
//! JSON text is written and read by `serde_json` ([`json`]).

pub mod client;
pub mod envelope;
pub mod error;
pub mod json;
pub mod laws;
pub mod parse;
pub mod percent;
pub mod player_service;
pub mod query;
pub mod request;
pub mod steam_id;
pub mod text;

pub use client::Steam;
