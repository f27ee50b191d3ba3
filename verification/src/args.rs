//! The command-line arguments and the checks made on them.
use crate::shared::error::Error;
use crate::shared::network::socket_addr_spec::SocketAddressSpec;
use vstd::prelude::*;

verus! {

/// The kinds of source of the peer configuration.
#[derive(Clone, Copy, Debug, PartialEq, Eq, Structural)]
pub enum ConfigType {
    /// The peer configuration is read from a file.
    File,
}

/// The command-line options.
#[derive(Debug)]
pub struct Args {
    /// Path of the configuration file, used where the configuration is file based.
    pub router_config_path: String,
    /// Path of the logging configuration file.
    pub log_config_path: Option<String>,
    /// The source of the peer configuration.
    pub config_type: ConfigType,
    /// Bind address of the management web server.
    pub management_server_bind_addr: Option<String>,
    /// Port number of the management web server.
    pub management_server_port: Option<u16>,
    /// Bind address of the public API web server.
    pub api_server_bind_addr: Option<String>,
    /// Port number of the public API web server.
    pub api_server_port: Option<u16>,
}

/// `r` is the binding that a bind address and a port number make up: present exactly
/// where both are, then with that address text and port, loopback allowed.
pub open spec fn binding_of(r: Option<SocketAddressSpec>, addr: Option<String>, port: Option<u16>) -> bool {
    match (addr, port) {
        (Some(a), Some(p)) => r matches Some(s) && s.spec_ip_address() == a@
            && s.spec_port_number() == Some(p) && s.spec_localhost_allowed(),
        _ => r is None,
    }
}

/// A binding exists exactly where both a bind address and a port number are given; it then
/// holds that address text and port number and allows loopback addresses.
pub proof fn lemma_binding_of(r: Option<SocketAddressSpec>, addr: Option<String>, port: Option<u16>)
    requires
        binding_of(r, addr, port),
    ensures
        r is Some <==> (addr is Some && port is Some),
        r matches Some(s) ==> s.spec_ip_address() == addr->0@ && s.spec_port_number() == port
            && s.spec_localhost_allowed(),
{
}

/// Checks the parsed command line against the selected configuration source: a
/// file-based configuration needs the configuration file to exist, and
/// `config_file_exists` tells whether the file at `router_config_path` does.
pub fn parse(args: Args, config_file_exists: bool) -> (r: Result<Args, Error>)
    ensures
        config_file_exists ==> r == Ok::<Args, Error>(args),
        !config_file_exists ==> (r matches Err(
            Error::ArgumentError { parameter, offending_value, message },
        ) && parameter@ == "-f"@ && offending_value@ == args.router_config_path@ && message@
            == "Config file does not exist."@),
{
    match args.config_type {
        ConfigType::File => {
            if !config_file_exists {
                Err(
                    Error::ArgumentError {
                        parameter: String::from_str("-f"),
                        offending_value: args.router_config_path.clone(),
                        message: String::from_str("Config file does not exist."),
                    },
                )
            } else {
                Ok(args)
            }
        },
    }
}

/// The binding made up of an optional bind address and an optional port number.
fn binding(addr: &Option<String>, port: Option<u16>) -> (r: Option<SocketAddressSpec>)
    ensures
        binding_of(r, *addr, port),
{
    match (addr, port) {
        (Some(ip_addr_spec), Some(port_number)) => Some(
            SocketAddressSpec::new_allowing_localhost(ip_addr_spec.as_str(), &Some(port_number)),
        ),
        _ => None,
    }
}

impl Args {
    /// The binding of the management API server: its bind address and port number
    /// where both are given, loopback allowed.
    pub fn management_api_server_binding(&self) -> (r: Option<SocketAddressSpec>)
        ensures
            binding_of(r, self.management_server_bind_addr, self.management_server_port),
    {
        binding(&self.management_server_bind_addr, self.management_server_port)
    }

    /// The binding of the public API server: its bind address and port number where
    /// both are given, loopback allowed.
    pub fn public_api_server_binding(&self) -> (r: Option<SocketAddressSpec>)
        ensures
            binding_of(r, self.api_server_bind_addr, self.api_server_port),
    {
        binding(&self.api_server_bind_addr, self.api_server_port)
    }
}

/// Whether the two server bindings are the same: both absent, or both present with the
/// same address text, port number and loopback allowance. The daemon refuses to start
/// on identical bindings.
pub fn identical_bindings(a: &Option<SocketAddressSpec>, b: &Option<SocketAddressSpec>) -> (r: bool)
    ensures
        r == match (*a, *b) {
            (None, None) => true,
            (Some(x), Some(y)) => x.spec_ip_address() == y.spec_ip_address()
                && x.spec_port_number() == y.spec_port_number() && x.spec_localhost_allowed()
                == y.spec_localhost_allowed(),
            _ => false,
        },
{
    match (a, b) {
        (None, None) => true,
        (Some(x), Some(y)) => x.same_as(y),
        _ => false,
    }
}

} // verus!
