# mydht_basetest

Test support for a DHT's transport layers, verified with Verus.

- `src/shadow.rs`: the test shadower. Content bytes are shifted by a one-byte
  key; a header carries the mode (and, in one mode, a transaction key). The
  round-trip laws (shift, header, whole message, shared key) are proof
  functions there.
- `src/peer.rs`: a test peer with a numeric address.
- `src/tunnel.rs`: window parameters, test cache ids and tunnel test
  configurations.
- `src/tunnel_new.rs`: a cache of reply writers keyed by cache id, symmetric
  shadowers built on the test shadower, route providers, the two test routes
  and the configuration of the second tunnel test set.
- `app/`: the same shadower driven over `std::io` streams, a node addressed by
  a socket address, the shadower round-trip harness, and `rustc_serialize`
  encodings.
- `tests/`: tests of the library on concrete values.

Driving messages over multi-hop tunnels (proxying, error reports, replies)
needs the tunnel readers and writers of the `mydht_base` crate; those drivers
are not part of this crate, which holds the parts that stand without them.
