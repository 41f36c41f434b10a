# dx_gp21

A driver library for the DX-GP21-A multi-constellation GNSS module: NMEA 0183
sentence parsing, receiver state stores, `$PCAS` configuration commands, and the
logic of a terminal monitor, written in Verus. Every function in `src/` is
proved against its contract, except five small trusted wrappers in
`src/embedded.rs` around `heapless::Vec` (`new`, `push`, `retain`,
`as_slice`, and a slot write), whose contracts restate what that crate's
source does.

## Layout

- `src/text.rs`, `src/checksum.rs`: byte-level field grammar and the NMEA XOR
  checksum.
- `src/nmea/`: splitting a sentence into fields and one reader per sentence
  type (GGA, RMC, GSA, GSV, VTG, ZDA, GST, DHV, TXT); `parse_sentence` is
  exact over the spec `sentence_of`.
- `src/types.rs`: times, dates, constellations, fix kinds, satellites and
  coordinates (kept as checked digit text, not as floating point).
- `src/state.rs`: the `GnssStore` interface and `feed_sentence`;
  `src/host_state.rs` (growable list) and `src/embedded.rs` (a 64-slot
  `heapless::Vec`, plus the embedded session and line assembler) implement it.
- `src/command/`: baud and update rates, constellation masks, the `$PCAS`
  builders and the `CommandSink` trait with its command helpers.
- `src/console/`, `src/display.rs`: the monitor's command line, key handling,
  log and reply capture, and what its panels show.
- `src/playback.rs`, `src/sentence_reader.rs`: file replay positions and
  sentence lines.
- `app/`: the terminal monitor, serial and file sessions, async and nRF52840
  glue; ordinary Rust around the library.
- `tests/`: behaviour tests run against the compiled library.

The laws the library states (round trips of the command framing and of the
rate conversions, what each sentence does to a store, the bounds of the log and
history, the order of the satellite table) are public proof functions next to
the code they speak of.
