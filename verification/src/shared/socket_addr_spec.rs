//! A socket address as configured, by the text of its IP address and an optional port
//! number; loopback addresses are never acceptable here.
use crate::shared::error::Error;
use crate::shared::ip_address::{parse_ip_address, SocketAddress};
use crate::shared::network::socket_addr_spec::{
    refusal, spec_socket_address, SocketAddressSpec as NetworkSocketAddressSpec,
};
use crate::shared::text::{append_decimal, append_str, dec_text};
use vstd::prelude::*;

verus! {

/// A socket address as configured, refusing loopback addresses.
#[derive(Default)]
pub struct SocketAddressSpec {
    pub ip_address: String,
    pub port_number: Option<u16>,
}

impl SocketAddressSpec {
    /// The socket address this specification denotes, if it denotes one.
    pub open spec fn spec_address(&self) -> Option<SocketAddress> {
        spec_socket_address(self.ip_address@, self.port_number, false)
    }

    /// The text describing this specification.
    pub open spec fn spec_text(&self) -> Seq<char> {
        "IP Address "@ + self.ip_address@ + ", port number"@ + dec_text(
            self.port_number.unwrap_or(0) as nat,
        )
    }

    /// This specification converts exactly as a socket address specification that
    /// refuses loopback addresses with the same text and port number does.
    pub proof fn lemma_agrees_with_network_spec(self, other: NetworkSocketAddressSpec)
        requires
            other.spec_ip_address() == self.ip_address@,
            other.spec_port_number() == self.port_number,
            !other.spec_localhost_allowed(),
        ensures
            self.spec_address() == other.spec_address(),
    {
    }

    /// This specification with `def_port_number` as its port number where it has none;
    /// a given port number is kept.
    pub fn with_default_port(self, def_port_number: u16) -> (r: Self)
        ensures
            r.ip_address@ == self.ip_address@,
            r.port_number == Some(self.port_number.unwrap_or(def_port_number)),
    {
        match self.port_number {
            Some(_port_number) => self,
            None => SocketAddressSpec { ip_address: self.ip_address, port_number: Some(def_port_number) },
        }
    }

    /// Converts this specification into a socket address. The text must not be empty
    /// and must denote an IP address that is neither a loopback nor a multicast address;
    /// a missing port number becomes zero.
    pub fn try_into(self) -> (r: Result<SocketAddress, Error>)
        ensures
            r is Ok <==> self.spec_address() is Some,
            r matches Ok(sa) ==> self.spec_address() == Some(sa),
            r matches Ok(sa) ==> !sa.ip.spec_is_multicast() && !sa.ip.spec_is_loopback(),
            r matches Err(e) ==> refusal(e, self.ip_address@),
    {
        if self.ip_address.as_str().is_empty() {
            return Err(Error::InvalidIpAddressError { ip_address: self.ip_address });
        }
        match parse_ip_address(self.ip_address.as_str()) {
            Some(addr) => {
                if addr.is_loopback() || addr.is_multicast() {
                    return Err(Error::InvalidIpAddressError { ip_address: self.ip_address });
                }
                let port = match self.port_number {
                    Some(p) => p,
                    None => 0,
                };
                Ok(SocketAddress { ip: addr, port })
            },
            None => Err(Error::ParseIpAddressError),
        }
    }

    /// The text describing this specification: its address text and its port number
    /// (zero where none is given).
    pub fn to_text(&self) -> (s: String)
        ensures
            s@ == self.spec_text(),
    {
        let mut s = String::new();
        append_str(&mut s, "IP Address ");
        append_str(&mut s, self.ip_address.as_str());
        append_str(&mut s, ", port number");
        let port = match self.port_number {
            Some(p) => p,
            None => 0,
        };
        append_decimal(&mut s, port as u64);
        assert(s@ =~= self.spec_text());
        s
    }
}

} // verus!
