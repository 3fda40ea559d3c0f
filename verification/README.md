# spawn-protocol

A configurator for SONiX-based SPAWN magnetic (Hall-effect) keyboards, built
around a library whose logic is checked by Verus.

## Layout

```
src/          the verified library
  codec.rs        packet framing, chunking and reassembly of replies
  descriptor.rs   output report size from a HID report descriptor
  model.rs        the device records: info, settings, rapid trigger,
                  lighting, per-key colour, keymap, telemetry
  layout.rs       the board's keys and the firmware slot of each
  catalog.rs      effects, polling rates, switch profiles, swatches and
                  assignable actions the board supports
  candidate.rs    which HID interfaces are configuration interfaces
  exchange.rs     the request/response exchange's decisions
  worker.rs       messages to and from the device thread, and its decisions
  editor.rs       the configuration being edited and every edit rule
  report.rs       what the diagnostics print
  text.rs         decimal and hexadecimal renderings
tests/        tests of the library
app/          the program: HID transport, device thread, window, command line
```

What is stated as contracts and proof functions in `src/`:

- Every record that is written reads back unchanged, where its values are
  ones the record holds exactly: rapid-trigger distances on the firmware's
  unit grid (hundredths of a millimetre for the actuation depth, hundredths
  or thousandths for the deltas, as the device reports) that fit the
  record's 16 bits, and dead zones in whole hundredths up to 2.55 mm. Any
  other rapid-trigger distance that fits reads back within half a unit.
- A chunked transfer reassembles to exactly its payload whenever a chunk
  holds at most 255 bytes, which is what the one-byte length field can say;
  every packet's header is stated for any chunk size.
- An output report's size is its Output items added up, in whole bytes; the
  largest report is the one that counts.
- The edit rules keep their promises: an edit reaches the selection or, with
  none, the whole board; remapping needs a selection; lighting levels are
  never written outside 1..=5; a never-configured board is shown with the
  firmware's defaults.

The window and the transport stay in `app/`: they are I/O, threads and the
toolkit's floating-point geometry.
