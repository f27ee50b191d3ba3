//! The matcher of host interface addresses, as the router engine names it.
pub use crate::shared::network::local_address_matcher::HostInterfacesLocalAddressMatcher;
