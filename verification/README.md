# vignette_core

Protocol logic for keyboards that speak the Weisheng HID protocol, verified
with Verus.

- `src/protocol/weisheng.rs`: command codes, the frame layout (encoding and
  decoding), fragmentation of a payload into frames, the exchange of one
  command (requests out, answers reassembled into the response data), the
  function-settings record and its encoding, and the laws that tie these
  together (round trips, reassembly undoing fragmentation).
- `src/protocol.rs`: the table of supported interfaces and protocol lookup.
- `src/model.rs`: a keyboard handle bound to its protocol.
- `src/hid.rs`: building output reports and splitting input reports.
- `src/util.rs`, `src/error.rs`: boolean bytes and error types.
- `app/`: the asynchronous HID driver around the library (device
  enumeration, reads and writes, the command loop).
