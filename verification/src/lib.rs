//! Core of a minimal stateful counter service: a shared integer register with
//! an explicit initialized/uninitialized lifecycle and bounds-checked
//! arithmetic, plus the thin service layer that turns register operations
//! into wire responses (a status classification and a JSON body).
//!
//! The HTTP transport, asset lookup and user interface are external
//! collaborators; they live outside this library and only hand plain values
//! in and out.

pub mod api;
pub mod data;
pub mod json;
pub mod shared;
