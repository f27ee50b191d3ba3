//! A socket address as configured: the text of an IP address, an optional port number,
//! and whether a loopback address is acceptable.
use crate::shared::error::Error;
use crate::shared::ip_address::{parse_ip_address, spec_parse_ip, IpAddress, SocketAddress};
use crate::shared::text::{append_decimal, append_str, dec_text};
use vstd::prelude::*;

verus! {

/// Whether the address `a` is acceptable: never a multicast address, and a loopback
/// address only where `localhost_allowed` holds.
pub open spec fn acceptable(a: IpAddress, localhost_allowed: bool) -> bool {
    !((!localhost_allowed && a.spec_is_loopback()) || a.spec_is_multicast())
}

/// The socket address that an IP address text, an optional port number and the
/// loopback allowance make up, if they make one up: the text must denote an
/// acceptable address; a missing port number is zero.
pub open spec fn spec_socket_address(
    ip_text: Seq<char>,
    port_number: Option<u16>,
    localhost_allowed: bool,
) -> Option<SocketAddress> {
    if ip_text.len() == 0 {
        None
    } else {
        match spec_parse_ip(ip_text) {
            Some(a) => if acceptable(a, localhost_allowed) {
                Some(SocketAddress { ip: a, port: port_number.unwrap_or(0) })
            } else {
                None
            },
            None => None,
        }
    }
}

/// The error with which the IP address text `ip_text` is refused: an empty text and a
/// well-formed but unacceptable address are invalid, naming the text; any other text
/// does not parse.
pub open spec fn refusal(e: Error, ip_text: Seq<char>) -> bool {
    if ip_text.len() != 0 && spec_parse_ip(ip_text) is None {
        e is ParseIpAddressError
    } else {
        e matches Error::InvalidIpAddressError { ip_address } && ip_address@ == ip_text
    }
}

/// Allowing loopback addresses only widens what converts: whatever converts without the
/// allowance converts to the same address with it, and the allowance changes the outcome
/// only for loopback addresses.
pub proof fn lemma_localhost_allowance_widens(ip_text: Seq<char>, port_number: Option<u16>)
    ensures
        spec_socket_address(ip_text, port_number, false) is Some ==> spec_socket_address(
            ip_text,
            port_number,
            true,
        ) == spec_socket_address(ip_text, port_number, false),
        spec_socket_address(ip_text, port_number, true) matches Some(sa) ==> (!sa.ip.spec_is_loopback()
            <==> spec_socket_address(ip_text, port_number, false) == Some(sa)),
{
}

/// Every nonempty text that reads as an address converts to that address, with the given
/// port or zero, unless the address is a multicast address or a loopback address
/// without the allowance; nothing else is refused.
pub proof fn lemma_readable_address_converts(
    ip_text: Seq<char>,
    port_number: Option<u16>,
    localhost_allowed: bool,
    a: IpAddress,
)
    requires
        ip_text.len() > 0,
        spec_parse_ip(ip_text) == Some(a),
        !a.spec_is_multicast(),
        a.spec_is_loopback() ==> localhost_allowed,
    ensures
        spec_socket_address(ip_text, port_number, localhost_allowed) == Some(
            SocketAddress { ip: a, port: port_number.unwrap_or(0) },
        ),
{
}

/// A converted socket address is never a multicast address, and is a loopback address
/// only where that is allowed.
pub proof fn lemma_converted_address_acceptable(
    ip_text: Seq<char>,
    port_number: Option<u16>,
    localhost_allowed: bool,
)
    ensures
        spec_socket_address(ip_text, port_number, localhost_allowed) matches Some(sa) ==> (
        !sa.ip.spec_is_multicast() && (sa.ip.spec_is_loopback() ==> localhost_allowed)),
{
}

/// The errors of refusal by kind: an empty text is an invalid address naming it; a
/// nonempty text that reads as no address does not parse; a text that reads as an
/// address is an invalid address naming it.
pub proof fn lemma_refusal_kinds(e: Error, ip_text: Seq<char>)
    ensures
        ip_text.len() == 0 ==> (refusal(e, ip_text) <==> (e matches Error::InvalidIpAddressError {
            ip_address,
        } && ip_address@ == ip_text)),
        (ip_text.len() > 0 && spec_parse_ip(ip_text) is None) ==> (refusal(e, ip_text) <==> e is ParseIpAddressError),
        spec_parse_ip(ip_text) is Some ==> (refusal(e, ip_text) <==> (e matches Error::InvalidIpAddressError {
            ip_address,
        } && ip_address@ == ip_text)),
{
}

/// The text used for a boolean.
pub open spec fn bool_text(b: bool) -> Seq<char> {
    if b {
        "true"@
    } else {
        "false"@
    }
}

/// A socket address as configured.
#[derive(Default)]
pub struct SocketAddressSpec {
    ip_address: String,
    port_number: Option<u16>,
    localhost_allowed: bool,
}

impl SocketAddressSpec {
    /// The text of the IP address.
    pub closed spec fn spec_ip_address(&self) -> Seq<char> {
        self.ip_address@
    }

    /// The port number, if one is given.
    pub closed spec fn spec_port_number(&self) -> Option<u16> {
        self.port_number
    }

    /// Whether a loopback address is acceptable.
    pub closed spec fn spec_localhost_allowed(&self) -> bool {
        self.localhost_allowed
    }

    /// The specification with `def_port_number` as its port number where it has none.
    pub closed spec fn spec_with_default_port(self, def_port_number: u16) -> SocketAddressSpec {
        match self.port_number {
            Some(_) => self,
            None => SocketAddressSpec {
                ip_address: self.ip_address,
                port_number: Some(def_port_number),
                localhost_allowed: self.localhost_allowed,
            },
        }
    }

    /// The socket address this specification denotes, if it denotes one.
    pub open spec fn spec_address(&self) -> Option<SocketAddress> {
        spec_socket_address(
            self.spec_ip_address(),
            self.spec_port_number(),
            self.spec_localhost_allowed(),
        )
    }

    /// The text describing this specification.
    pub open spec fn spec_text(&self) -> Seq<char> {
        "IP Address "@ + self.spec_ip_address() + ", port number"@ + dec_text(
            self.spec_port_number().unwrap_or(0) as nat,
        ) + ", localhost allowed "@ + bool_text(self.spec_localhost_allowed())
    }

    /// What `spec_with_default_port` gives: the same text and allowance, and the port
    /// number given, else the default one.
    pub proof fn lemma_with_default_port(self, def_port_number: u16)
        ensures
            self.spec_with_default_port(def_port_number).spec_ip_address()
                == self.spec_ip_address(),
            self.spec_with_default_port(def_port_number).spec_localhost_allowed()
                == self.spec_localhost_allowed(),
            self.spec_with_default_port(def_port_number).spec_port_number() == Some(
                self.spec_port_number().unwrap_or(def_port_number),
            ),
    {
    }

    /// Setting a default port twice keeps the first: a given port number is never
    /// replaced.
    pub proof fn lemma_with_default_port_idempotent(self, p: u16, q: u16)
        ensures
            self.spec_with_default_port(p).spec_with_default_port(q) == self.spec_with_default_port(p),
            self.spec_port_number() is Some ==> self.spec_with_default_port(p) == self,
    {
    }

    /// Once a default port is set, the socket address gets the given port number, or the
    /// default one where none is given; the address itself does not depend on the port.
    pub proof fn lemma_default_port_in_address(self, p: u16)
        ensures
            self.spec_with_default_port(p).spec_address() is Some <==> self.spec_address() is Some,
            self.spec_with_default_port(p).spec_address() matches Some(sa) ==> sa.port
                == self.spec_port_number().unwrap_or(p) && sa.ip == self.spec_address()->0.ip,
    {
    }

    /// A specification that refuses loopback addresses.
    pub fn new(ip_address: &str, port_number: &Option<u16>) -> (r: Self)
        ensures
            r.spec_ip_address() == ip_address@,
            r.spec_port_number() == *port_number,
            !r.spec_localhost_allowed(),
    {
        SocketAddressSpec {
            ip_address: ip_address.to_owned(),
            port_number: *port_number,
            localhost_allowed: false,
        }
    }

    /// A specification that accepts loopback addresses.
    pub fn new_allowing_localhost(ip_address: &str, port_number: &Option<u16>) -> (r: Self)
        ensures
            r.spec_ip_address() == ip_address@,
            r.spec_port_number() == *port_number,
            r.spec_localhost_allowed(),
    {
        SocketAddressSpec {
            ip_address: ip_address.to_owned(),
            port_number: *port_number,
            localhost_allowed: true,
        }
    }

    /// This specification with `def_port_number` as its port number where it has none;
    /// a given port number is kept.
    pub fn with_default_port(self, def_port_number: u16) -> (r: Self)
        ensures
            r == self.spec_with_default_port(def_port_number),
            r.spec_ip_address() == self.spec_ip_address(),
            r.spec_localhost_allowed() == self.spec_localhost_allowed(),
            r.spec_port_number() == Some(self.spec_port_number().unwrap_or(def_port_number)),
    {
        match self.port_number {
            Some(_port_number) => self,
            None => SocketAddressSpec {
                ip_address: self.ip_address,
                port_number: Some(def_port_number),
                localhost_allowed: self.localhost_allowed,
            },
        }
    }

    /// The text of the IP address.
    pub fn ip_address(&self) -> (r: &str)
        ensures
            r@ == self.spec_ip_address(),
    {
        self.ip_address.as_str()
    }

    /// The port number, if one is given.
    pub fn port_number(&self) -> (r: Option<u16>)
        ensures
            r == self.spec_port_number(),
    {
        self.port_number
    }

    /// Whether a loopback address is acceptable.
    pub fn localhost_allowed(&self) -> (r: bool)
        ensures
            r == self.spec_localhost_allowed(),
    {
        self.localhost_allowed
    }

    /// Whether `self` and `other` hold the same text, port number and allowance.
    pub fn same_as(&self, other: &SocketAddressSpec) -> (r: bool)
        ensures
            r == (self.spec_ip_address() == other.spec_ip_address() && self.spec_port_number()
                == other.spec_port_number() && self.spec_localhost_allowed()
                == other.spec_localhost_allowed()),
    {
        self.ip_address == other.ip_address && self.port_number == other.port_number
            && self.localhost_allowed == other.localhost_allowed
    }

    /// The socket address this specification denotes, read from a reference.
    pub(crate) fn to_socket_address(&self) -> (r: Result<SocketAddress, Error>)
        ensures
            r is Ok <==> self.spec_address() is Some,
            r matches Ok(sa) ==> self.spec_address() == Some(sa),
            r matches Err(e) ==> refusal(e, self.spec_ip_address()),
    {
        if self.ip_address.as_str().is_empty() {
            return Err(Error::InvalidIpAddressError { ip_address: self.ip_address.clone() });
        }
        match parse_ip_address(self.ip_address.as_str()) {
            Some(addr) => {
                if (!self.localhost_allowed && addr.is_loopback()) || addr.is_multicast() {
                    return Err(Error::InvalidIpAddressError { ip_address: self.ip_address.clone() });
                }
                let port = match self.port_number {
                    Some(p) => p,
                    None => 0,
                };
                Ok(SocketAddress { ip: addr, port })
            },
            None => Err(Error::ParseIpAddressError),
        }
    }

    /// The socket address this specification denotes, once `def_port_number` stands in
    /// for a missing port number; read from a reference.
    pub(crate) fn to_socket_address_with_default_port(&self, def_port_number: u16) -> (r: Result<
        SocketAddress,
        Error,
    >)
        ensures
            r is Ok <==> self.spec_with_default_port(def_port_number).spec_address() is Some,
            r matches Ok(sa) ==> self.spec_with_default_port(def_port_number).spec_address()
                == Some(sa),
            r matches Err(e) ==> refusal(e, self.spec_ip_address()),
    {
        let spec = SocketAddressSpec {
            ip_address: self.ip_address.clone(),
            port_number: match self.port_number {
                Some(p) => Some(p),
                None => Some(def_port_number),
            },
            localhost_allowed: self.localhost_allowed,
        };
        assert(spec == self.spec_with_default_port(def_port_number));
        spec.to_socket_address()
    }

    /// Converts this specification into a socket address. The text must not be empty
    /// and must denote an IP address, which must not be a multicast address and may be a
    /// loopback address only where that is allowed; a missing port number becomes zero.
    pub fn try_into(self) -> (r: Result<SocketAddress, Error>)
        ensures
            r is Ok <==> self.spec_address() is Some,
            r matches Ok(sa) ==> self.spec_address() == Some(sa),
            r matches Ok(sa) ==> !sa.ip.spec_is_multicast(),
            r matches Ok(sa) ==> sa.ip.spec_is_loopback() ==> self.spec_localhost_allowed(),
            r matches Err(e) ==> refusal(e, self.spec_ip_address()),
    {
        self.to_socket_address()
    }

    /// The text describing this specification: its address text, its port number (zero
    /// where none is given) and its loopback allowance.
    pub fn to_text(&self) -> (s: String)
        ensures
            s@ == self.spec_text(),
    {
        let mut s = String::new();
        append_str(&mut s, "IP Address ");
        append_str(&mut s, self.ip_address.as_str());
        append_str(&mut s, ", port number");
        let port = match self.port_number {
            Some(p) => p,
            None => 0,
        };
        append_decimal(&mut s, port as u64);
        append_str(&mut s, ", localhost allowed ");
        if self.localhost_allowed {
            append_str(&mut s, "true");
        } else {
            append_str(&mut s, "false");
        }
        assert(s@ =~= self.spec_text());
        s
    }
}

} // verus!
