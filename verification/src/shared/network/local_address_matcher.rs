//! Matching addresses against the addresses of the host's network interfaces, so that
//! nothing tries to bind to an address the host does not have.
use crate::shared::ip_address::{IpAddress, SocketAddress};
use vstd::prelude::*;

verus! {

/// The addresses of the host's network interfaces.
pub struct HostInterfacesLocalAddressMatcher {
    local_intf_addresses: Vec<IpAddress>,
}

impl HostInterfacesLocalAddressMatcher {
    /// The addresses of the host's network interfaces, in the order they were found.
    pub closed spec fn spec_addresses(&self) -> Seq<IpAddress> {
        self.local_intf_addresses@
    }

    /// A matcher for the given interface addresses.
    pub fn new(local_intf_addresses: Vec<IpAddress>) -> (r: Self)
        ensures
            r.spec_addresses() == local_intf_addresses@,
    {
        HostInterfacesLocalAddressMatcher { local_intf_addresses }
    }

    /// Whether `ip_address` is the address of one of the host's interfaces.
    pub fn is_local_address(&self, ip_address: &IpAddress) -> (r: bool)
        ensures
            r == self.spec_addresses().contains(*ip_address),
    {
        let n = self.local_intf_addresses.len();
        let mut i: usize = 0;
        while i < n
            invariant
                n == self.local_intf_addresses@.len(),
                i <= n,
                forall|j: int| 0 <= j < i ==> self.local_intf_addresses@[j] != *ip_address,
            decreases n - i,
        {
            if self.local_intf_addresses[i].same_as(ip_address) {
                assert(self.local_intf_addresses@[i as int] == *ip_address);
                return true;
            }
            i = i + 1;
        }
        false
    }

    /// Whether the IP address of `socket_address` is the address of one of the host's
    /// interfaces.
    pub fn is_local_socket_address(&self, socket_address: &SocketAddress) -> (r: bool)
        ensures
            r == self.spec_addresses().contains(socket_address.ip),
    {
        self.is_local_address(&socket_address.ip)
    }
}

} // verus!
