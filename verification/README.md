# bitbridge

The connection, relay and signalling logic of the BitBridge transfer stack,
verified with Verus.

- `src/` is the verified library. Each module states its behaviour in
  `requires`/`ensures` over spec functions and proves it. The calls into
  outside crates (base64, sha1, hmac, lz4_flex, str0m, stun, maxminddb) and
  into the parts of std that vstd does not specify stand behind small
  `#[verifier::external_body]` wrappers whose contracts say what the crate's
  source shows.
- `tests/` runs the library on concrete values.
- `app/` is the ordinary Rust around the library: reading the environment and
  files, the STUN server's sockets, and the floating-point upload limits.
