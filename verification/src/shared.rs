//! Types and rules shared by the configuration, the router engine and the servers.
pub mod as_number;
pub mod error;
pub mod ip_address;
pub mod ip_round_trip;
pub mod network;
pub mod router_configuration;
pub mod socket_addr_spec;
pub mod text;
