# iris_core

The core of IRIS, a LAN screen- and file-sharing engine, written in Verus:
the functions in `src/` carry contracts that Verus proves. Where a result is
the machine's (its host name, its clock, random bytes), the contract says what
holds of every outcome, and the rule applied to the outcome is a separate
function with an exact contract.

UDP carries screen frames split into chunks; TCP carries length-prefixed
control and file-transfer messages; mDNS finds peers on the local network.

## Layout

- `src/protocol.rs`: the message model, the UDP packet and TCP frame byte
  layouts, and their round-trip laws.
- `src/transport/udp.rs`: splitting encoded frames into chunks and the frame
  assembler, with the law that any arrival order (repeats included) rebuilds
  the frame exactly.
- `src/transport/ports.rs`: which ports a transport tries when binding.
- `src/screen/capture.rs`: captured frames and the per-platform capturers.
- `src/screen/encoder.rs`: raw, JPEG and LZ4 encoding and decoding (JPEG and
  LZ4 through the `image` and `lz4_flex` crates) and the H.264 payload framing.
- `src/frame_text.rs`: the base64 text form in which frames cross to Dart.
- `src/file_transfer.rs`: file offers, chunk messages and incoming-transfer
  bookkeeping.
- `src/discovery.rs`: mDNS records to devices, the device registry and the
  advertised names.
- `app/`: the I/O around the library: sockets, the async runtime, mDNS,
  files, the H.264 codec, and the C and Flutter bridges.
- `tests/`: tests of the library on concrete values.

Calls into outside crates from `src/` go through small trusted wrappers whose
contracts name or state what the crate returns; everything else is proved.
