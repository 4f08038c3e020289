# pv_monitoring

Finds the Sunspec register layout of an inverter over Modbus TCP and writes a Telegraf
configuration for it (see the project's usage notes: run it against `host[:port]` and add the
output to the `[[inputs.modbus]]` section of Telegraf). A second, experimental program opens
an EEBus (SHIP) connection and runs the client's side of the SHIP handshake.

The library in `src/` holds the logic, verified with Verus:

- `registers`: decoding of holding registers (unsigned, signed, bitfields, enumerations, strings).
- `model`: the Sunspec model definitions as plain values, with deep copies and the
  `access`/`mandatory`/`static` flags.
- `sunspec`: processing one block (fields, device addresses, "not implemented" detection).
- `walk`: the walk over all blocks of a device as a state machine (which registers to read,
  which definitions to fetch, and what the replies mean).
- `deviceinfo`: the device identification of the common model.
- `report`: what the log shows of each field.
- `telegraf`: the Telegraf configuration text of a block.
- `target`: the command-line targets; `ship`: the SHIP handshake messages.
- `text`: decimal and hexadecimal text, string search.

`app/` is the program around it: Modbus reads, HTTP fetches of the model definitions, JSON
parsing, websocket and TLS, printing.
