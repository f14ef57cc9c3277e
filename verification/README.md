# slv_rust

The networking layer of a Second Life viewer as a verified Verus library:
the message template parser, the binary message formats, circuit
reliability (duplicate detection, acknowledgements, bounded resends), ping
health and circuit state, the region-crossing state machine and manager,
login (grids, credentials, the XML-RPC request and reply), capabilities and
LLSD, the event queue, SOCKS5 framing and negotiation, the asset cache and
asset manager, and viewer effects. Every function in `src/` is verified
by Verus, and all but two that read the clock carry a contract; calls into `uuid`, `md5`, `quick-xml`,
`roxmltree`, `serde_json` and `url`, and into `std` where `vstd` gives no specification,
go through small trusted items whose contracts state what those crates
document.

Layout:

- `src/` — the verified library, one module per concern.
- `tests/` — tests of the compiled library.
- `app/` — ordinary Rust around the library: the keychain, sockets to the
  SOCKS5 proxy, probing for a local proxy, the timers of a circuit, serde
  forms of library types, and percentages in floating point.
