//! The HTTP API's request and response bodies, and how the model list and
//! the health report are answered.
pub mod models;
