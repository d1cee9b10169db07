# landscape

The address services of a small router, with their decisions proved in Verus.

* `src/dhcp_server` is a DHCPv4 server: the pool of host ids, the lease table, the answers to client
  messages, the loop that serves them, and the upkeep of the interface address. `laws.rs` states what
  the server promises over several messages, such as that no address ever passes from one client to
  another, provided that the host range is no larger than the network.
* `src/pppd_client` supervises a PPPoE connection: its course from start to stop, the watch over the
  `pppd` process, and what follows from a change of the negotiated address.
* `src/net.rs` and `src/clock.rs` hold addresses and time. They are the only files with trusted
  items: calls into the `cidr` crate and into the clock of the standard library.
* `app` is the input and output around the library: sockets, netlink, timers, threads and processes.
