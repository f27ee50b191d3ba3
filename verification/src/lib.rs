//! A BGP-4 network daemon's library: autonomous system numbers, IP and socket address
//! specifications, peer and router configuration, and the decisions of the router
//! engine.
pub mod shared;
pub mod config_file;
pub mod args;
pub mod router_engine;
pub mod web;
