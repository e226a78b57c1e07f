//! A verified codec for a two-variant "success or failure" value.
//!
//! The library encodes a [`result_value::ResultValue`] as a JSON object with
//! exactly one of the keys `ok` and `err`, decodes such an object back while
//! enforcing the one-of-two-keys invariant, and describes the wire shape as a
//! structural schema for documentation consumers.

pub mod error;
pub mod json;
pub mod laws;
pub mod primitives;
pub mod registry;
pub mod result_value;
pub mod schema;
pub mod types;
