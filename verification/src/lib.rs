//! Verified core of the RAGECOOP master server: the list of announced game
//! servers, the rules that decide what an announcement may contain, and the
//! small text helpers those rules need.

pub mod ipv4;
pub mod text;
pub mod servers;
mod clock;
pub mod stats;
pub mod listing;
pub mod routes;
pub mod logger;
