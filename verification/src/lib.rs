//! Driver logic for the DX-GP21 multi-constellation GNSS module: NMEA 0183
//! sentence parsing, `$PCAS` command building and receiver state tracking.
pub mod text;
pub mod checksum;
pub mod command;
pub mod types;
pub mod nmea;
pub mod state;
pub mod host_state;
pub mod embedded;
pub mod sentence_reader;
pub mod playback;
pub mod console;
pub mod display;
