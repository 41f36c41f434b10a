//! A destination for `$PCAS` commands, with the command helpers built on it.
use vstd::prelude::*;
use super::builder::{
    cmd_query_info, cmd_restart, cmd_save_config, cmd_set_baud, cmd_set_nmea_version,
    cmd_set_systems, cmd_set_update_rate, frame, framed,
    lemma_fixed_lines_are_frames, lemma_frame_verifies, pcas,
    query_info_body, restart_body, save_config_body, save_config_line, set_baud_body,
    set_nmea_version_line, set_systems_body, set_update_rate_body,
};
use crate::checksum::{verify_body, verify_ok};
use crate::text::decimal_text;
use super::{BaudRate, ConstellationMask, InfoField, RestartMode, UpdateRate};

verus! {

/// Anything `$PCAS` commands can be written to (a UART, a serial port, a
/// test harness). Implementors provide `send_raw`; every command helper
/// builds its line in a 32-byte buffer and hands it to `send_raw`.
pub trait CommandSink: Sized {
    type Error;

    /// The byte strings handed to `send_raw` so far, oldest first.
    spec fn sent(&self) -> Seq<Seq<u8>>;

    /// The sink accepts writes.
    spec fn ready(&self) -> bool;

    /// Every write succeeds (the sink reports no errors).
    spec fn infallible(&self) -> bool;

    /// Write raw bytes to the module (e.g. over UART). Must be a complete,
    /// checksummed `$PCAS…*XX\r\n` command.
    fn send_raw(&mut self, bytes: &[u8]) -> (r: Result<(), Self::Error>)
        requires
            old(self).ready(),
        ensures
            final(self).ready(),
            final(self).sent() == old(self).sent().push(bytes@),
            final(self).infallible() == old(self).infallible(),
            old(self).infallible() ==> r is Ok,
    ;

    /// Returns `false` for read-only stubs (e.g. test harnesses).
    fn is_writable(&self) -> (r: bool)
        default_ensures
            r,
    {
        true
    }

    /// Send `$PCAS00*01` (save the configuration to flash).
    fn save_config(&mut self) -> (r: Result<(), Self::Error>)
        requires
            old(self).ready(),
        ensures
            final(self).ready(),
            final(self).sent() == old(self).sent().push(save_config_line()),
            final(self).infallible() == old(self).infallible(),
            old(self).infallible() ==> r is Ok,
    {
        let mut buf = [0u8; 32];
        let n = cmd_save_config(&mut buf);
        self.send_raw(&buf[0..n])
    }

    /// Send the restart command for `mode`.
    fn restart(&mut self, mode: RestartMode) -> (r: Result<(), Self::Error>)
        requires
            old(self).ready(),
        ensures
            final(self).ready(),
            final(self).sent() == old(self).sent().push(framed(restart_body(mode), 32)),
            final(self).infallible() == old(self).infallible(),
            old(self).infallible() ==> r is Ok,
    {
        let mut buf = [0u8; 32];
        let n = cmd_restart(&mut buf, mode);
        self.send_raw(&buf[0..n])
    }

    /// Send the baud-rate command for `rate`.
    fn set_baud(&mut self, rate: BaudRate) -> (r: Result<(), Self::Error>)
        requires
            old(self).ready(),
        ensures
            final(self).ready(),
            final(self).sent() == old(self).sent().push(framed(set_baud_body(rate), 32)),
            final(self).infallible() == old(self).infallible(),
            old(self).infallible() ==> r is Ok,
    {
        let mut buf = [0u8; 32];
        let n = cmd_set_baud(&mut buf, rate);
        self.send_raw(&buf[0..n])
    }

    /// Send the output-rate command for `rate`.
    fn set_update_rate(&mut self, rate: UpdateRate) -> (r: Result<(), Self::Error>)
        requires
            old(self).ready(),
        ensures
            final(self).ready(),
            final(self).sent() == old(self).sent().push(framed(set_update_rate_body(rate), 32)),
            final(self).infallible() == old(self).infallible(),
            old(self).infallible() ==> r is Ok,
    {
        let mut buf = [0u8; 32];
        let n = cmd_set_update_rate(&mut buf, rate);
        self.send_raw(&buf[0..n])
    }

    /// Send the constellation-selection command for `mask`.
    fn set_systems(&mut self, mask: ConstellationMask) -> (r: Result<(), Self::Error>)
        requires
            old(self).ready(),
        ensures
            final(self).ready(),
            final(self).sent() == old(self).sent().push(framed(set_systems_body(mask), 32)),
            final(self).infallible() == old(self).infallible(),
            old(self).infallible() ==> r is Ok,
    {
        let mut buf = [0u8; 32];
        let n = cmd_set_systems(&mut buf, mask);
        self.send_raw(&buf[0..n])
    }

    /// Send the product-information query for `field`.
    fn query_info(&mut self, field: InfoField) -> (r: Result<(), Self::Error>)
        requires
            old(self).ready(),
        ensures
            final(self).ready(),
            final(self).sent() == old(self).sent().push(framed(query_info_body(field), 32)),
            final(self).infallible() == old(self).infallible(),
            old(self).infallible() ==> r is Ok,
    {
        let mut buf = [0u8; 32];
        let n = cmd_query_info(&mut buf, field);
        self.send_raw(&buf[0..n])
    }

    /// Select the NMEA protocol version (4.1+ or dual-mode).
    fn set_nmea_version(&mut self, v41_plus: bool) -> (r: Result<(), Self::Error>)
        requires
            old(self).ready(),
        ensures
            final(self).ready(),
            final(self).sent() == old(self).sent().push(set_nmea_version_line(v41_plus)),
            final(self).infallible() == old(self).infallible(),
            old(self).infallible() ==> r is Ok,
    {
        let mut buf = [0u8; 32];
        let n = cmd_set_nmea_version(&mut buf, v41_plus);
        self.send_raw(&buf[0..n])
    }
}


/// Every line a command helper sends is a complete command frame that
/// `verify` accepts, handing back the command body.
pub proof fn lemma_helper_lines_verify(
    mode: RestartMode,
    rate: BaudRate,
    update: UpdateRate,
    mask: ConstellationMask,
    field: InfoField,
    v41_plus: bool,
)
    ensures
        verify_ok(save_config_line()) && verify_body(save_config_line()) == save_config_body(),
        framed(restart_body(mode), 32) == frame(restart_body(mode)),
        verify_ok(frame(restart_body(mode))) && verify_body(frame(restart_body(mode))) == restart_body(mode),
        framed(set_baud_body(rate), 32) == frame(set_baud_body(rate)),
        verify_ok(frame(set_baud_body(rate))) && verify_body(frame(set_baud_body(rate))) == set_baud_body(rate),
        framed(set_update_rate_body(update), 32) == frame(set_update_rate_body(update)),
        verify_ok(frame(set_update_rate_body(update))) && verify_body(frame(set_update_rate_body(update)))
            == set_update_rate_body(update),
        framed(set_systems_body(mask), 32) == frame(set_systems_body(mask)),
        verify_ok(frame(set_systems_body(mask))) && verify_body(frame(set_systems_body(mask)))
            == set_systems_body(mask),
        framed(query_info_body(field), 32) == frame(query_info_body(field)),
        verify_ok(frame(query_info_body(field))) && verify_body(frame(query_info_body(field)))
            == query_info_body(field),
        verify_ok(set_nmea_version_line(v41_plus)),
{
    lemma_fixed_lines_verify();
    lemma_restart_line_verifies(mode);
    lemma_baud_line_verifies(rate);
    lemma_update_line_verifies(update);
    lemma_systems_line_verifies(mask);
    lemma_query_line_verifies(field);
}

proof fn lemma_restart_line_verifies(mode: RestartMode)
    ensures
        framed(restart_body(mode), 32) == frame(restart_body(mode)),
        verify_ok(frame(restart_body(mode))) && verify_body(frame(restart_body(mode))) == restart_body(mode),
{
    lemma_small_body_verifies(restart_body(mode));
}

proof fn lemma_baud_line_verifies(rate: BaudRate)
    ensures
        framed(set_baud_body(rate), 32) == frame(set_baud_body(rate)),
        verify_ok(frame(set_baud_body(rate))) && verify_body(frame(set_baud_body(rate))) == set_baud_body(rate),
{
    lemma_small_body_verifies(set_baud_body(rate));
}

proof fn lemma_query_line_verifies(field: InfoField)
    ensures
        framed(query_info_body(field), 32) == frame(query_info_body(field)),
        verify_ok(frame(query_info_body(field))) && verify_body(frame(query_info_body(field)))
            == query_info_body(field),
{
    lemma_small_body_verifies(query_info_body(field));
}

proof fn lemma_fixed_lines_verify()
    ensures
        verify_ok(save_config_line()) && verify_body(save_config_line()) == save_config_body(),
        verify_ok(set_nmea_version_line(true)),
        verify_ok(set_nmea_version_line(false)),
{
    lemma_fixed_lines_are_frames();
    let b0 = save_config_body();
    lemma_frame_verifies(b0);
    let v1 = pcas(48, 53) + seq![44u8, 50];
    lemma_frame_verifies(v1);
    let v2 = pcas(48, 53) + seq![44u8, 53];
    lemma_frame_verifies(v2);
}

/// A command `PCASnn,x` with one parameter byte.
proof fn lemma_small_body_verifies(b: Seq<u8>)
    requires
        b.len() == 8,
    ensures
        framed(b, 32) == frame(b),
        verify_ok(frame(b)) && verify_body(frame(b)) == b,
{
    lemma_frame_verifies(b);
}

proof fn lemma_update_line_verifies(update: UpdateRate)
    ensures
        framed(set_update_rate_body(update), 32) == frame(set_update_rate_body(update)),
        verify_ok(frame(set_update_rate_body(update))) && verify_body(frame(set_update_rate_body(update)))
            == set_update_rate_body(update),
{
    let b3 = set_update_rate_body(update);
    let ms = update.spec_period_ms() as nat;
    assert(decimal_text(ms).len() <= 4) by {
        reveal_with_fuel(decimal_text, 5);
    }
    assert(b3.len() <= 11);
    lemma_frame_verifies(b3);
}

proof fn lemma_systems_line_verifies(mask: ConstellationMask)
    ensures
        framed(set_systems_body(mask), 32) == frame(set_systems_body(mask)),
        verify_ok(frame(set_systems_body(mask))) && verify_body(frame(set_systems_body(mask)))
            == set_systems_body(mask),
{
    let b4 = set_systems_body(mask);
    assert(b4.len() <= 9);
    lemma_frame_verifies(b4);
}

} // verus!
