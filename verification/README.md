# create_oi

A verified library for the iRobot Create / Roomba Open Interface (OI).

- `src/protocol` — wire format: command encoding, sensor packet decoding,
  the sensor stream frame parser.
- `src/requests.rs` — the decisions behind every robot command: which model
  supports it, which arguments are refused, and the exact bytes sent.
- `src/create.rs` — the blocking robot handle with the OI mode as a type
  parameter, stated over the byte histories of its transport.
- `src/midi` — Standard MIDI File to robot song conversion (single track,
  or all tracks merged into one voice with an optional polyphony limit).
- `app/` — what runs around the library: async transports and the async
  robot handle, serial/tokio/smol/Embassy drivers, metric unit types, and
  the C interface of the native driver.

Contracts are checked by Verus; `tests/` runs the library on concrete inputs.
