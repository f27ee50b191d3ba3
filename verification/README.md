# bgp4rs

The verified library of a BGP-4 daemon, written in Verus, with the daemon itself around it.

- `src/` is the library; Verus checks every function in it against its contract.
  - `shared/as_number.rs`: AS numbers in their two- and four-octet forms, and how they are
    read from signed and unsigned integers.
  - `shared/ip_address.rs`: IP and socket addresses, the strict textual forms they are read
    from, and the canonical texts written for them; `shared/ip_round_trip.rs` proves that a
    written text reads back as the same address.
  - `shared/network/socket_addr_spec.rs` and `shared/socket_addr_spec.rs`: configured
    socket addresses and when they convert into socket addresses.
  - `shared/network/local_address_matcher.rs`: the addresses of the host's interfaces.
  - `config_file/`: the configuration file's contents and their conversion into the router
    configuration.
  - `router_engine/`: which peers the router engine takes on, and when its event loop ends.
  - `args.rs`: the checks on the command line and the server bindings it makes up.
- `app/` is the program: command line, logging, reading the configuration file, the host's
  interfaces, the router engine's channels and event loop, and the web servers.
- `tests/` runs the library on concrete values.
