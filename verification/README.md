# gnss_reader

Reads Hemisphere GNSS binary messages 309 (per-satellite SNR report) from a
receiver on a serial port and writes the decoded message as JSON; also
encodes the receiver information record as a protobuf message.

- `src/` — the verified library:
  - `wire.rs`: little-endian integers (through `byteorder`);
  - `message.rs`: the message layout, its parser and the laws about it;
  - `report.rs`: what is reported of each satellite channel record;
  - `frame.rs`: cutting a message out of the bytes read, and its checksum;
  - `items.rs`, `models.rs`: the information record and its protobuf
    encoding (through `prost`).
- `app/` — the program: serial port, threads, floating-point SNR in dB,
  JSON output, and protobuf decoding through prost's derive.
- `tests/` — tests of the library.
