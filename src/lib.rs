//! Client-side building blocks for an object-storage service: validated
//! request construction, request signing, multipart-upload coordination,
//! completion callbacks and response decoding.
//!
//! Every operation is split in two verified halves: a planner that turns the
//! caller's arguments into an [`OssRequest`] (or a local validation error), and
//! a decoder that turns what the service answered into a typed result. Sending
//! the request is left to the caller's transport.

pub mod callback;
pub mod client;
pub mod codec;
pub mod error;
pub mod keys;
pub mod multipart;
pub mod object;
pub mod request;
pub mod response;
pub mod session;
pub mod sign;
pub mod tagging;
pub mod text;
pub mod time;
pub mod validate;
pub mod xml;

pub use client::Client;
pub use request::OssRequest;
pub use error::Error;
