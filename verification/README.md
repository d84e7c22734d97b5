# authenticator

A verified IEEE 802.1X-2020 authenticator: the network access server of a switch,
which carries EAP between supplicants and a RADIUS server and opens or closes ports
by the server's decision. The library is written in Verus; every function in it is
proved against its contract.

## Layout

- `src/kat.rs`: hexadecimal text.
- `src/pacp`: Ethernet, EAPOL and EAP framing.
- `src/pae`: the session state machine and the host-mode logic of a port. `laws.rs`
  states what holds of every history of events: the dataplane is open for a session
  exactly while the server's grant stands, and no wait is without a timer that ends
  it; accounting Starts and Stops alternate, as long as a session is put into service
  only while it is out of it.
- `src/radius`: the RADIUS wire format.
- `src/radius_client`: EAP-over-RADIUS requests, replies and accounting.
- `src/radsec`: the locked TLS policy, the client configuration under it, and the
  framing of packets on a stream.
- `src/enforce`, `src/enforce_sonic`: enforcement targets, and the SONiC backend as
  plans whose postures count only once they are confirmed. `laws.rs` states what the
  planned operations do to a configuration database.
- `src/eapol_io`: the checks in front of an EAPOL socket.
- `src/authd`: configuration, RADIUS correlation, timers and the effect orchestrator.
- `tests`: tests of the library from outside.
- `app`: the daemon around the library: sockets, TLS, Redis, timers, and the keyed
  digests of RADIUS.

## What is trusted

Calls into other crates stand behind small wrappers whose contracts are not proved:
`core::str::from_utf8`, `String::from_utf8_lossy`, `String::push`, the `Debug` forms of
`str` and `char`, `u16::to_be`, `Duration::from_secs`, and what `rustls` and
`rustls_pemfile` do with providers, PEM texts, trust anchors, client configurations and
server names. Each wrapper's comment says what it claims.
