//! Authentication: login and registration payloads, the user shown to
//! clients, and the session cookie.
pub mod models;
pub mod session;
