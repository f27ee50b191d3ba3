//! Socket address specifications and the matching of addresses against the host's
//! network interfaces.
pub mod local_address_matcher;
pub mod socket_addr_spec;
