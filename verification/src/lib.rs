//! Orchid: the domain and application logic of a personal AI chat service,
//! with its event-sourced conversation aggregate, its projections and its
//! in-memory application state, each stated and proved with Verus.
pub mod ai;
pub mod api;
pub mod auth;
pub mod config;
pub mod domain;
pub mod services;
pub mod state;
pub mod table;
pub mod text;
pub mod ws;

use vstd::prelude::*;

verus! {

} // verus!
