//! Verified core of an API reverse proxy that swaps client keys for an
//! upstream bearer token and keeps that token fresh.

pub mod cache;
pub mod cli;
pub mod headers;
pub mod keygen;
pub mod proxy;
pub mod startup;
pub mod state;
pub mod text;
