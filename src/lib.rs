//! A packet-capture registry for simulated radio chips: it mirrors a device
//! topology, keeps one capture record per chip, and serves list and patch
//! requests over it.

pub mod model;
pub mod text;
pub mod json;
pub mod registry;
pub mod controller;
pub mod handlers;
pub mod laws;
