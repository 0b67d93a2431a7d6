# bluetooth_mesh (verified core)

The byte-level core of a Bluetooth Mesh stack, written in Verus and proved
against its contracts.

- `src/bytes.rs`: big/little endian encodings of `u16`, `u32`, `u64`, with the
  roundtrip laws between encoding and decoding.
- `src/mesh.rs`: header fields (IVI, CTL, TTL, NID, 24-bit numbers, sequence
  numbers, MICs), hexadecimal strings, key index validity.
- `src/beacon.rs`: OOB information flags, URI hashes and the unprovisioned
  device beacon with its pack/unpack roundtrip law.
- `src/crypto.rs`: the salt function `s1`, on AES-CMAC from the `cmac` and `aes`
  crates.
- `src/mesh_io.rs`, `src/scheduler.rs`, `src/timestamp.rs`, `src/net.rs`: PDU
  types, raw advertisement PDUs, and the queue of outgoing PDUs that sends, due
  first, whatever is due.
- `src/random.rs`: random bytes and values from `rand`.
- `app/lib.rs`: the command line arguments of the `crypto` subcommand (`clap`).
