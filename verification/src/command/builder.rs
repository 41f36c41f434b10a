//! Writing `$PCAS` command lines: `$` + body + `*` + two hex checksum digits
//! + `\r\n`, into a caller-provided buffer.
use vstd::prelude::*;
use crate::checksum::{
    checksum_line, compute, hex_char, lemma_checksum_line_verifies, nibble_to_hex, verify_body, verify_ok,
    xor_all,
};
use crate::text::{decimal_text, hex_digit_value, hex_pair_value, lemma_decimal_text_value};
use crate::nmea::{comma_free, comma_join, lemma_split_comma_join, sentence_fields};
use super::{BaudRate, ConstellationMask, InfoField, RestartMode, UpdateRate};

verus! {

// ── Text of numbers ──────────────────────────────────────────────────────────

/// The two upper-case hex digits of a byte.
pub open spec fn hex_text(v: u8) -> Seq<u8> {
    seq![hex_char(v >> 4), hex_char(v & 15)]
}

/// A complete command line around `body`.
pub open spec fn frame(body: Seq<u8>) -> Seq<u8> {
    seq![36u8] + body + seq![42u8] + hex_text(xor_all(body)) + seq![13u8, 10]
}

/// The bytes a builder leaves in a buffer of `cap` bytes for `body`:
/// the whole frame when it fits, nothing otherwise.
pub open spec fn framed(body: Seq<u8>, cap: nat) -> Seq<u8> {
    if body.len() + 6 <= cap {
        frame(body)
    } else {
        seq![]
    }
}

/// A buffer after a builder wrote `body` into it, `old` being what it held
/// before: the frame followed by the untouched rest when the frame fits;
/// otherwise the body bytes that fit, written as they were pushed, followed by
/// the untouched rest.
pub open spec fn written(old: Seq<u8>, body: Seq<u8>) -> Seq<u8> {
    if body.len() + 6 <= old.len() {
        frame(body) + old.skip(body.len() + 6int)
    } else {
        let k = if body.len() <= old.len() { body.len() } else { old.len() };
        body.take(k as int) + old.skip(k as int)
    }
}

/// A buffer after a fixed line was copied into it: the line followed by the
/// untouched rest when it fits, otherwise the buffer unchanged.
pub open spec fn copied(old: Seq<u8>, line: Seq<u8>) -> Seq<u8> {
    if line.len() <= old.len() {
        line + old.skip(line.len() as int)
    } else {
        old
    }
}

/// `"PCAS"` followed by the two-digit command number.
pub open spec fn pcas(d0: u8, d1: u8) -> Seq<u8> {
    seq![80u8, 67, 65, 83, d0, d1]
}

// ── Command bodies ───────────────────────────────────────────────────────────

pub open spec fn save_config_body() -> Seq<u8> {
    pcas(48, 48)
}

pub open spec fn set_baud_body(rate: BaudRate) -> Seq<u8> {
    pcas(48, 49) + seq![44u8, (48 + rate.spec_param()) as u8]
}

pub open spec fn set_update_rate_body(rate: UpdateRate) -> Seq<u8> {
    pcas(48, 50) + seq![44u8] + decimal_text(rate.spec_period_ms() as nat)
}

/// `,` followed by the value when one is given.
pub open spec fn optional_field(v: Option<u8>) -> Seq<u8> {
    match v {
        Some(x) => seq![44u8] + decimal_text(x as nat),
        None => seq![44u8],
    }
}

pub open spec fn set_nmea_output_body(
    gga: Option<u8>,
    gll: Option<u8>,
    gsa: Option<u8>,
    gsv: Option<u8>,
    rmc: Option<u8>,
    vtg: Option<u8>,
    zda: Option<u8>,
    txt: Option<u8>,
    dhv: Option<u8>,
    gst: Option<u8>,
) -> Seq<u8> {
    pcas(48, 51) + optional_field(gga) + optional_field(gll) + optional_field(gsa) + optional_field(
        gsv,
    ) + optional_field(rmc) + optional_field(vtg) + optional_field(zda) + optional_field(txt)
        + optional_field(dhv) + seq![44u8, 44, 44, 44] + optional_field(gst)
}

/// Upper-case hex digits of a byte without a leading zero.
pub open spec fn short_hex_text(v: u8) -> Seq<u8> {
    if v < 16 {
        seq![hex_char(v)]
    } else {
        hex_text(v)
    }
}

pub open spec fn set_systems_body(mask: ConstellationMask) -> Seq<u8> {
    pcas(48, 52) + seq![44u8] + short_hex_text(mask.0)
}

pub open spec fn query_info_body(field: InfoField) -> Seq<u8> {
    pcas(48, 54) + seq![44u8, (48 + field.spec_param()) as u8]
}

pub open spec fn restart_body(mode: RestartMode) -> Seq<u8> {
    pcas(49, 48) + seq![44u8, (48 + mode.spec_param()) as u8]
}

/// `$PCAS05,2*1A\r\n` (NMEA 4.1+) or `$PCAS05,5*1D\r\n` (dual-mode).
pub open spec fn set_nmea_version_line(v41_plus: bool) -> Seq<u8> {
    if v41_plus {
        seq![36u8, 80, 67, 65, 83, 48, 53, 44, 50, 42, 49, 65, 13, 10]
    } else {
        seq![36u8, 80, 67, 65, 83, 48, 53, 44, 53, 42, 49, 68, 13, 10]
    }
}

/// `$PCAS00*01\r\n`
pub open spec fn save_config_line() -> Seq<u8> {
    seq![36u8, 80, 67, 65, 83, 48, 48, 42, 48, 49, 13, 10]
}

// ── Builder ──────────────────────────────────────────────────────────────────

/// Writes a command body into the front of a buffer, dropping bytes once the
/// buffer is full; `content` is everything that was pushed.
struct Builder {
    pos: usize,
    content: Ghost<Seq<u8>>,
    /// The buffer as it was before the builder started.
    orig: Ghost<Seq<u8>>,
}

impl Builder {
    /// The buffer holds the first `pos` bytes of the content, and `pos` is as
    /// many as fit.
    spec fn wf(&self, buf: Seq<u8>) -> bool {
        &&& buf.len() <= isize::MAX
        &&& self.pos as int == if self.content@.len() <= buf.len() {
            self.content@.len() as int
        } else {
            buf.len() as int
        }
        &&& buf.subrange(0, self.pos as int) == self.content@.subrange(0, self.pos as int)
        &&& buf.len() == self.orig@.len()
        &&& forall|k: int| self.pos <= k < buf.len() ==> buf[k] == self.orig@[k]
    }

    fn new(buf: &[u8]) -> (b: Self)
        requires
            buf@.len() <= isize::MAX,
        ensures
            b.wf(buf@),
            b.content@ == Seq::<u8>::empty(),
            b.orig@ == buf@,
    {
        let b = Builder { pos: 0, content: Ghost(Seq::empty()), orig: Ghost(buf@) };
        assert(buf@.subrange(0, 0) =~= b.content@.subrange(0, 0));
        b
    }

    fn push(&mut self, buf: &mut [u8], b: u8)
        requires
            old(self).wf(old(buf)@),
        ensures
            final(self).wf(final(buf)@),
            final(self).content@ == old(self).content@.push(b),
            final(buf)@.len() == old(buf)@.len(),
            final(self).orig@ == old(self).orig@,
    {
        let ghost c = self.content@;
        if self.pos < buf.len() {
            let ghost before = buf@;
            buf[self.pos] = b;
            self.pos += 1;
            proof {
                self.content@ = c.push(b);
                assert(buf@.subrange(0, self.pos as int) =~= self.content@.subrange(0, self.pos as int)) by {
                    assert forall|k: int| 0 <= k < self.pos implies buf@.subrange(0, self.pos as int)[k]
                        == self.content@.subrange(0, self.pos as int)[k] by {
                        if k < self.pos - 1 {
                            assert(before.subrange(0, self.pos - 1)[k] == c.subrange(0, self.pos - 1)[k]);
                        }
                    }
                }
            }
        } else {
            proof {
                self.content@ = c.push(b);
                assert(buf@.subrange(0, self.pos as int) =~= self.content@.subrange(0, self.pos as int)) by {
                    assert forall|k: int| 0 <= k < self.pos implies buf@.subrange(0, self.pos as int)[k]
                        == self.content@.subrange(0, self.pos as int)[k] by {
                        assert(buf@.subrange(0, self.pos as int)[k] == c.subrange(0, self.pos as int)[k]);
                    }
                }
            }
        }
    }

    fn push_bytes(&mut self, buf: &mut [u8], s: &[u8])
        requires
            old(self).wf(old(buf)@),
        ensures
            final(self).wf(final(buf)@),
            final(self).content@ == old(self).content@ + s@,
            final(buf)@.len() == old(buf)@.len(),
            final(self).orig@ == old(self).orig@,
    {
        let ghost c = self.content@;
        let mut i: usize = 0;
        while i < s.len()
            invariant
                i <= s@.len(),
                self.wf(buf@),
                self.content@ == c + s@.subrange(0, i as int),
                buf@.len() == old(buf)@.len(),
                self.orig@ == old(self).orig@,
            decreases s@.len() - i,
        {
            self.push(buf, s[i]);
            assert(c + s@.subrange(0, i + 1) =~= (c + s@.subrange(0, i as int)).push(s@[i as int]));
            i += 1;
        }
        assert(s@.subrange(0, s@.len() as int) =~= s@);
    }

    fn push_u8_decimal(&mut self, buf: &mut [u8], v: u8)
        requires
            old(self).wf(old(buf)@),
        ensures
            final(self).wf(final(buf)@),
            final(self).content@ == old(self).content@ + decimal_text(v as nat),
            final(buf)@.len() == old(buf)@.len(),
            final(self).orig@ == old(self).orig@,
    {
        let ghost c = self.content@;
        proof {
            lemma_decimal_text_u8(v);
        }
        if v >= 100 {
            self.push(buf, 48 + v / 100);
        }
        if v >= 10 {
            self.push(buf, 48 + (v / 10) % 10);
        }
        self.push(buf, 48 + v % 10);
        proof {
            if v >= 100 {
                assert(self.content@ =~= c + seq![(48 + v / 100) as u8, (48 + (v / 10) % 10) as u8, (48 + v % 10) as u8]);
            } else if v >= 10 {
                assert(self.content@ =~= c + seq![(48 + (v / 10) % 10) as u8, (48 + v % 10) as u8]);
            } else {
                assert(self.content@ =~= c + seq![(48 + v % 10) as u8]);
            }
        }
    }

    fn push_u32_decimal(&mut self, buf: &mut [u8], v: u32)
        requires
            old(self).wf(old(buf)@),
        ensures
            final(self).wf(final(buf)@),
            final(self).content@ == old(self).content@ + decimal_text(v as nat),
            final(buf)@.len() == old(buf)@.len(),
            final(self).orig@ == old(self).orig@,
    {
        let ghost c = self.content@;
        let ghost orig = v as nat;
        let mut tmp = [0u8; 10];
        let mut n: usize = 0;
        let mut v = v;
        proof {
            lemma_decimal_text_len_u32(orig);
        }
        // collect digits, least significant first
        tmp[0] = 48 + (v % 10) as u8;
        n = 1;
        v = v / 10;
        proof {
            lemma_decimal_text_split(orig);
            lemma_reversed_single(tmp@[0]);
            assert(tmp@.subrange(0, 1) =~= seq![tmp@[0]]);
            assert(v == orig / 10);
            if v > 0 {
                assert(decimal_text(orig).len() == decimal_text(v as nat).len() + 1);
            } else {
                assert(decimal_text(orig).len() == 1);
            }
        }
        while v > 0
            invariant
                1 <= n <= 10,
                tmp@.len() == 10,
                decimal_text(orig).len() <= 10,
                decimal_text(orig) == (if v == 0 {
                    Seq::<u8>::empty()
                } else {
                    decimal_text(v as nat)
                }) + reversed(tmp@.subrange(0, n as int)),
                v > 0 ==> n + decimal_text(v as nat).len() == decimal_text(orig).len(),
                v == 0 ==> n == decimal_text(orig).len(),
            decreases v,
        {
            proof {
                lemma_decimal_text_split(v as nat);
                lemma_reversed_push(tmp@.subrange(0, n as int), (48 + v % 10) as u8);
            }
            let ghost prev = tmp@.subrange(0, n as int);
            tmp[n] = 48 + (v % 10) as u8;
            assert(tmp@.subrange(0, n + 1) =~= prev.push((48 + v % 10) as u8));
            n += 1;
            v = v / 10;
        }
        // emit most significant first
        let mut i: usize = n;
        while i > 0
            invariant
                i <= n <= 10,
                tmp@.len() == 10,
                decimal_text(orig) == reversed(tmp@.subrange(0, n as int)),
                self.wf(buf@),
                self.content@ == c + reversed(tmp@.subrange(i as int, n as int)),
                buf@.len() == old(buf)@.len(),
                self.orig@ == old(self).orig@,
            decreases i,
        {
            self.push(buf, tmp[i - 1]);
            proof {
                lemma_reversed_prepend(tmp@.subrange(i as int, n as int), tmp@[i - 1]);
                assert(tmp@.subrange(i - 1, n as int) =~= seq![tmp@[i - 1]] + tmp@.subrange(i as int, n as int));
            }
            i -= 1;
        }
    }

    fn push_hex_u8(&mut self, buf: &mut [u8], v: u8)
        requires
            old(self).wf(old(buf)@),
        ensures
            final(self).wf(final(buf)@),
            final(self).content@ == old(self).content@ + hex_text(v),
            final(buf)@.len() == old(buf)@.len(),
            final(self).orig@ == old(self).orig@,
    {
        let ghost c = self.content@;
        assert(v >> 4 <= 15 && v & 15 <= 15) by (bit_vector);
        self.push(buf, nibble_to_hex(v >> 4));
        self.push(buf, nibble_to_hex(v & 0xF));
        assert(self.content@ =~= c + hex_text(v));
    }

    /// Wrap the content as `$…*CS\r\n` when it fits; returns the line length,
    /// or 0 when the buffer is too small.
    fn finalise(self, buf: &mut [u8]) -> (n: usize)
        requires
            self.wf(old(buf)@),
        ensures
            n as int == framed(self.content@, old(buf)@.len() as nat).len(),
            final(buf)@.len() == old(buf)@.len(),
            final(buf)@.subrange(0, n as int) == framed(self.content@, old(buf)@.len() as nat),
            final(buf)@ == written(self.orig@, self.content@),
            n > 0 ==> verify_ok(final(buf)@.subrange(0, n as int)),
            n > 0 ==> verify_body(final(buf)@.subrange(0, n as int)) == self.content@,
    {
        let body_len = self.pos;
        let cs = compute(&buf[0..body_len]);
        if buf.len() < 6 || body_len > buf.len() - 6 {
            assert(buf@.subrange(0, 0) =~= Seq::<u8>::empty());
            assert(buf@ =~= written(self.orig@, self.content@)) by {
                assert(buf@ =~= buf@.subrange(0, body_len as int) + buf@.skip(body_len as int));
                assert(buf@.skip(body_len as int) =~= self.orig@.skip(body_len as int));
                assert(self.content@.take(body_len as int) =~= self.content@.subrange(0, body_len as int));
            }
            return 0;
        }
        let needed = body_len + 6;
        let ghost body = buf@.subrange(0, body_len as int);
        assert(self.content@.subrange(0, body_len as int) =~= self.content@);
        assert(body == self.content@);
        // shift the body right by one to make room for '$'
        let mut i: usize = body_len;
        while i > 0
            invariant
                i <= body_len,
                body_len + 6 <= buf@.len(),
                buf@.len() == old(buf)@.len(),
                body.len() == body_len,
                forall|k: int| 0 <= k < i ==> #[trigger] buf@[k] == body[k],
                forall|k: int| i < k <= body_len ==> #[trigger] buf@[k] == body[k - 1],
                forall|k: int| body_len < k < buf@.len() ==> #[trigger] buf@[k] == self.orig@[k],
            decreases i,
        {
            buf[i] = buf[i - 1];
            i -= 1;
        }
        buf[0] = 36;
        buf[body_len + 1] = 42;
        assert(cs >> 4 <= 15 && cs & 15 <= 15) by (bit_vector);
        buf[body_len + 2] = nibble_to_hex(cs >> 4);
        buf[body_len + 3] = nibble_to_hex(cs & 0xF);
        buf[body_len + 4] = 13;
        buf[body_len + 5] = 10;
        assert(buf@.subrange(0, needed as int) =~= frame(body));
        assert(buf@ =~= written(self.orig@, self.content@)) by {
            assert(buf@ =~= buf@.subrange(0, needed as int) + buf@.skip(needed as int));
            assert(buf@.skip(needed as int) =~= self.orig@.skip(needed as int));
        }
        proof {
            lemma_frame_verifies(body);
        }
        needed
    }
}

pub open spec fn reversed(s: Seq<u8>) -> Seq<u8>
    decreases s.len(),
{
    if s.len() == 0 {
        seq![]
    } else {
        seq![s.last()] + reversed(s.drop_last())
    }
}

proof fn lemma_reversed_single(x: u8)
    ensures
        reversed(seq![x]) == seq![x],
{
    assert(seq![x].drop_last() =~= Seq::<u8>::empty());
    assert(reversed(Seq::<u8>::empty()) =~= Seq::<u8>::empty());
    assert(reversed(seq![x]) =~= seq![x] + reversed(Seq::<u8>::empty()));
}

proof fn lemma_reversed_push(s: Seq<u8>, x: u8)
    ensures
        reversed(s.push(x)) == seq![x] + reversed(s),
{
    assert(s.push(x).drop_last() =~= s);
}

proof fn lemma_reversed_prepend(s: Seq<u8>, x: u8)
    ensures
        reversed(seq![x] + s) == reversed(s).push(x),
    decreases s.len(),
{
    if s.len() == 0 {
        lemma_reversed_single(x);
        assert(seq![x] + s =~= seq![x]);
        assert(reversed(s) =~= Seq::<u8>::empty());
        assert(reversed(s).push(x) =~= seq![x]);
    } else {
        lemma_reversed_prepend(s.drop_last(), x);
        assert((seq![x] + s).drop_last() =~= seq![x] + s.drop_last());
        assert((seq![x] + s).last() == s.last());
        assert(reversed(seq![x] + s) =~= seq![s.last()] + reversed(seq![x] + s.drop_last()));
        assert(reversed(s) =~= seq![s.last()] + reversed(s.drop_last()));
    }
}

proof fn lemma_decimal_text_split(v: nat)
    ensures
        decimal_text(v) == (if v / 10 == 0 {
            Seq::<u8>::empty()
        } else {
            decimal_text(v / 10)
        }) + seq![(48 + v % 10) as u8],
{
    if v < 10 {
        assert(decimal_text(v) =~= seq![(48 + v % 10) as u8]);
    } else {
        assert(decimal_text(v) =~= decimal_text(v / 10) + seq![(48 + v % 10) as u8]);
    }
}

proof fn lemma_decimal_text_u8(v: u8)
    ensures
        v < 10 ==> decimal_text(v as nat) == seq![(48 + v % 10) as u8],
        10 <= v < 100 ==> decimal_text(v as nat) == seq![(48 + (v / 10) % 10) as u8, (48 + v % 10) as u8],
        100 <= v ==> decimal_text(v as nat) == seq![(48 + v / 100) as u8, (48 + (v / 10) % 10) as u8, (48 + v % 10) as u8],
{
    reveal_with_fuel(decimal_text, 3);
    if 10 <= v < 100 {
        assert(decimal_text(v as nat) =~= seq![(48 + (v / 10) % 10) as u8, (48 + v % 10) as u8]);
    } else if 100 <= v {
        assert((v as nat / 10) / 10 == v / 100);
        assert(decimal_text(v as nat) =~= seq![(48 + v / 100) as u8, (48 + (v / 10) % 10) as u8, (48 + v % 10) as u8]);
    }
}

proof fn lemma_decimal_text_len_bound(v: nat, k: nat, p: nat)
    requires
        v < p,
        p == pow10(k),
        k >= 1,
    ensures
        decimal_text(v).len() <= k,
    decreases k,
{
    if v >= 10 {
        assert(k >= 2) by {
            if k == 1 {
                assert(pow10(1) == 10) by {
                    reveal_with_fuel(pow10, 2);
                }
            }
        }
        assert(pow10(k) == 10 * pow10((k - 1) as nat));
        assert(v / 10 < pow10((k - 1) as nat)) by (nonlinear_arith)
            requires
                v < p,
                p == 10 * pow10((k - 1) as nat),
        ;
        lemma_decimal_text_len_bound(v / 10, (k - 1) as nat, pow10((k - 1) as nat));
    }
}

pub open spec fn pow10(k: nat) -> nat
    decreases k,
{
    if k == 0 {
        1
    } else {
        10 * pow10((k - 1) as nat)
    }
}

proof fn lemma_decimal_text_len_u32(v: nat)
    requires
        v <= u32::MAX,
    ensures
        decimal_text(v).len() <= 10,
{
    reveal_with_fuel(pow10, 11);
    assert(pow10(10) == 10000000000);
    lemma_decimal_text_len_bound(v, 10, pow10(10));
}

// ── Laws ─────────────────────────────────────────────────────────────────────

/// Every command line the builders write is accepted by [`verify`]
/// (`crate::checksum::verify`), which hands back exactly the command body.
pub proof fn lemma_frame_verifies(body: Seq<u8>)
    ensures
        verify_ok(frame(body)),
        verify_body(frame(body)) == body,
{
    assert(frame(body) =~= checksum_line(body, false, true));
    lemma_checksum_line_verifies(body, false, true);
}

/// Decimal text is made of digits only.
pub proof fn lemma_decimal_text_digits(v: nat)
    ensures
        forall|i: int| 0 <= i < decimal_text(v).len() ==> 48 <= #[trigger] decimal_text(v)[i] <= 57,
    decreases v,
{
    if v >= 10 {
        lemma_decimal_text_digits(v / 10);
        let d = decimal_text(v / 10);
        assert forall|i: int| 0 <= i < decimal_text(v).len() implies 48 <= #[trigger] decimal_text(v)[i] <= 57 by {
            if i < d.len() {
                assert(decimal_text(v)[i] == d[i]);
            }
        }
    }
}

proof fn lemma_xor_push(s: Seq<u8>, x: u8)
    ensures
        xor_all(s.push(x)) == xor_all(s) ^ x,
{
    assert(s.push(x).drop_last() =~= s);
}

/// The fixed command lines are the framed bodies they stand for.
pub proof fn lemma_fixed_lines_are_frames()
    ensures
        save_config_line() == frame(save_config_body()),
        set_nmea_version_line(true) == frame(pcas(48, 53) + seq![44u8, 50]),
        set_nmea_version_line(false) == frame(pcas(48, 53) + seq![44u8, 53]),
{
    let e = Seq::<u8>::empty();
    lemma_xor_push(e, 80);
    lemma_xor_push(e.push(80), 67);
    lemma_xor_push(e.push(80).push(67), 65);
    lemma_xor_push(e.push(80).push(67).push(65), 83);
    lemma_xor_push(e.push(80).push(67).push(65).push(83), 48);
    let p0 = e.push(80).push(67).push(65).push(83).push(48);
    lemma_xor_push(p0, 48);
    lemma_xor_push(p0, 53);
    lemma_xor_push(p0.push(53), 44);
    lemma_xor_push(p0.push(53).push(44), 50);
    lemma_xor_push(p0.push(53).push(44), 53);
    assert(p0.push(48) =~= save_config_body());
    assert(p0.push(53).push(44).push(50) =~= pcas(48, 53) + seq![44u8, 50]);
    assert(p0.push(53).push(44).push(53) =~= pcas(48, 53) + seq![44u8, 53]);
    assert(0u8 ^ 80u8 ^ 67u8 ^ 65u8 ^ 83u8 ^ 48u8 ^ 48u8 == 1u8) by (bit_vector);
    assert(0u8 ^ 80u8 ^ 67u8 ^ 65u8 ^ 83u8 ^ 48u8 ^ 53u8 ^ 44u8 ^ 50u8 == 0x1au8) by (bit_vector);
    assert(0u8 ^ 80u8 ^ 67u8 ^ 65u8 ^ 83u8 ^ 48u8 ^ 53u8 ^ 44u8 ^ 53u8 == 0x1du8) by (bit_vector);
    assert(1u8 >> 4u8 == 0u8 && 1u8 & 15u8 == 1u8) by (bit_vector);
    assert(0x1au8 >> 4u8 == 1u8 && 0x1au8 & 15u8 == 10u8) by (bit_vector);
    assert(0x1du8 >> 4u8 == 1u8 && 0x1du8 & 15u8 == 13u8) by (bit_vector);
    assert(save_config_line() =~= frame(save_config_body()));
    assert(set_nmea_version_line(true) =~= frame(pcas(48, 53) + seq![44u8, 50]));
    assert(set_nmea_version_line(false) =~= frame(pcas(48, 53) + seq![44u8, 53]));
}

// ── Public API ───────────────────────────────────────────────────────────────

/// Write a pre-formed command line; returns its length, or 0 when it does not fit.
fn write_fixed(buf: &mut [u8], cmd: &[u8]) -> (n: usize)
    ensures
        final(buf)@ == copied(old(buf)@, cmd@),
        final(buf)@.len() == old(buf)@.len(),
        n == (if old(buf)@.len() >= cmd@.len() {
            cmd@.len()
        } else {
            0
        }),
        final(buf)@.subrange(0, n as int) == (if old(buf)@.len() >= cmd@.len() {
            cmd@
        } else {
            Seq::<u8>::empty()
        }),
{
    if buf.len() < cmd.len() {
        assert(buf@.subrange(0, 0) =~= Seq::<u8>::empty());
        return 0;
    }
    let mut i: usize = 0;
    while i < cmd.len()
        invariant
            i <= cmd@.len() <= buf@.len(),
            buf@.len() == old(buf)@.len(),
            forall|k: int| 0 <= k < i ==> #[trigger] buf@[k] == cmd@[k],
            forall|k: int| i <= k < buf@.len() ==> #[trigger] buf@[k] == old(buf)@[k],
        decreases cmd@.len() - i,
    {
        buf[i] = cmd[i];
        i += 1;
    }
    assert(buf@.subrange(0, cmd@.len() as int) =~= cmd@);
    assert(buf@ =~= copied(old(buf)@, cmd@));
    cmd.len()
}

pub fn cmd_save_config(buf: &mut [u8]) -> (n: usize)
    ensures
        final(buf)@ == copied(old(buf)@, save_config_line()),
        final(buf)@.len() == old(buf)@.len(),
        n == (if old(buf)@.len() >= 12 { 12usize } else { 0 }),
        final(buf)@.subrange(0, n as int) == (if old(buf)@.len() >= 12 {
            save_config_line()
        } else {
            Seq::<u8>::empty()
        }),
{
    let line = [36u8, 80, 67, 65, 83, 48, 48, 42, 48, 49, 13, 10];
    assert(line@ == save_config_line());
    write_fixed(buf, line.as_slice())
}

pub fn cmd_set_baud(buf: &mut [u8], rate: BaudRate) -> (n: usize)
    requires
        old(buf)@.len() <= isize::MAX,
    ensures
        final(buf)@ == written(old(buf)@, set_baud_body(rate)),
        final(buf)@.len() == old(buf)@.len(),
        final(buf)@.subrange(0, n as int) == framed(set_baud_body(rate), old(buf)@.len() as nat),
        n as int == framed(set_baud_body(rate), old(buf)@.len() as nat).len(),
{
    let mut b = Builder::new(buf);
    let prefix = [80u8, 67, 65, 83, 48, 49, 44];
    b.push_bytes(buf, prefix.as_slice());
    b.push(buf, 48 + rate.param());
    assert(b.content@ =~= set_baud_body(rate));
    b.finalise(buf)
}

pub fn cmd_set_update_rate(buf: &mut [u8], rate: UpdateRate) -> (n: usize)
    requires
        old(buf)@.len() <= isize::MAX,
    ensures
        final(buf)@ == written(old(buf)@, set_update_rate_body(rate)),
        final(buf)@.len() == old(buf)@.len(),
        final(buf)@.subrange(0, n as int) == framed(set_update_rate_body(rate), old(buf)@.len() as nat),
        n as int == framed(set_update_rate_body(rate), old(buf)@.len() as nat).len(),
{
    let mut b = Builder::new(buf);
    let prefix = [80u8, 67, 65, 83, 48, 50, 44];
    b.push_bytes(buf, prefix.as_slice());
    b.push_u32_decimal(buf, rate.period_ms());
    assert(b.content@ =~= set_update_rate_body(rate));
    b.finalise(buf)
}

fn push_optional(b: &mut Builder, buf: &mut [u8], v: Option<u8>)
    requires
        old(b).wf(old(buf)@),
    ensures
        final(b).wf(final(buf)@),
        final(b).content@ == old(b).content@ + optional_field(v),
        final(buf)@.len() == old(buf)@.len(),
        final(b).orig@ == old(b).orig@,
{
    let ghost c = b.content@;
    b.push(buf, 44);
    if let Some(x) = v {
        b.push_u8_decimal(buf, x);
    }
    assert(b.content@ =~= c + optional_field(v));
}

/// Configure NMEA output. Each field is `Some(n)` = output every n fixes, `None` = keep current.
pub fn cmd_set_nmea_output(
    buf: &mut [u8],
    gga: Option<u8>,
    gll: Option<u8>,
    gsa: Option<u8>,
    gsv: Option<u8>,
    rmc: Option<u8>,
    vtg: Option<u8>,
    zda: Option<u8>,
    txt: Option<u8>,
    dhv: Option<u8>,
    gst: Option<u8>,
) -> (n: usize)
    requires
        old(buf)@.len() <= isize::MAX,
    ensures
        final(buf)@ == written(old(buf)@, set_nmea_output_body(gga, gll, gsa, gsv, rmc, vtg, zda, txt, dhv, gst)),
        final(buf)@.len() == old(buf)@.len(),
        final(buf)@.subrange(0, n as int) == framed(
            set_nmea_output_body(gga, gll, gsa, gsv, rmc, vtg, zda, txt, dhv, gst),
            old(buf)@.len() as nat,
        ),
        n as int == framed(
            set_nmea_output_body(gga, gll, gsa, gsv, rmc, vtg, zda, txt, dhv, gst),
            old(buf)@.len() as nat,
        ).len(),
{
    let mut b = Builder::new(buf);
    let prefix = [80u8, 67, 65, 83, 48, 51];
    b.push_bytes(buf, prefix.as_slice());
    let ghost c0 = b.content@;
    push_optional(&mut b, buf, gga);
    push_optional(&mut b, buf, gll);
    push_optional(&mut b, buf, gsa);
    push_optional(&mut b, buf, gsv);
    push_optional(&mut b, buf, rmc);
    let ghost c5 = b.content@;
    assert(c5 =~= c0 + optional_field(gga) + optional_field(gll) + optional_field(gsa)
        + optional_field(gsv) + optional_field(rmc));
    push_optional(&mut b, buf, vtg);
    push_optional(&mut b, buf, zda);
    push_optional(&mut b, buf, txt);
    push_optional(&mut b, buf, dhv);
    let ghost c9 = b.content@;
    assert(c9 =~= c5 + optional_field(vtg) + optional_field(zda) + optional_field(txt)
        + optional_field(dhv));
    let reserved = [44u8, 44, 44, 44];
    b.push_bytes(buf, reserved.as_slice());
    push_optional(&mut b, buf, gst);
    assert(b.content@ =~= c9 + reserved@ + optional_field(gst));
    assert(b.content@ =~= set_nmea_output_body(gga, gll, gsa, gsv, rmc, vtg, zda, txt, dhv, gst));
    b.finalise(buf)
}

pub fn cmd_set_systems(buf: &mut [u8], mask: ConstellationMask) -> (n: usize)
    requires
        old(buf)@.len() <= isize::MAX,
    ensures
        final(buf)@ == written(old(buf)@, set_systems_body(mask)),
        final(buf)@.len() == old(buf)@.len(),
        final(buf)@.subrange(0, n as int) == framed(set_systems_body(mask), old(buf)@.len() as nat),
        n as int == framed(set_systems_body(mask), old(buf)@.len() as nat).len(),
{
    let mut b = Builder::new(buf);
    let prefix = [80u8, 67, 65, 83, 48, 52, 44];
    b.push_bytes(buf, prefix.as_slice());
    let v = mask.as_u8();
    if v < 16 {
        let ghost c = b.content@;
        b.push(buf, nibble_to_hex(v));
        assert(b.content@ =~= c + short_hex_text(v));
    } else {
        b.push_hex_u8(buf, v);
    }
    assert(b.content@ =~= set_systems_body(mask));
    b.finalise(buf)
}

pub fn cmd_set_nmea_version(buf: &mut [u8], v41_plus: bool) -> (n: usize)
    ensures
        final(buf)@ == copied(old(buf)@, set_nmea_version_line(v41_plus)),
        final(buf)@.len() == old(buf)@.len(),
        n == (if old(buf)@.len() >= 14 { 14usize } else { 0 }),
        final(buf)@.subrange(0, n as int) == (if old(buf)@.len() >= 14 {
            set_nmea_version_line(v41_plus)
        } else {
            Seq::<u8>::empty()
        }),
{
    if v41_plus {
        let line = [36u8, 80, 67, 65, 83, 48, 53, 44, 50, 42, 49, 65, 13, 10];
        assert(line@ == set_nmea_version_line(true));
        write_fixed(buf, line.as_slice())
    } else {
        let line = [36u8, 80, 67, 65, 83, 48, 53, 44, 53, 42, 49, 68, 13, 10];
        assert(line@ == set_nmea_version_line(false));
        write_fixed(buf, line.as_slice())
    }
}

pub fn cmd_query_info(buf: &mut [u8], field: InfoField) -> (n: usize)
    requires
        old(buf)@.len() <= isize::MAX,
    ensures
        final(buf)@ == written(old(buf)@, query_info_body(field)),
        final(buf)@.len() == old(buf)@.len(),
        final(buf)@.subrange(0, n as int) == framed(query_info_body(field), old(buf)@.len() as nat),
        n as int == framed(query_info_body(field), old(buf)@.len() as nat).len(),
{
    let mut b = Builder::new(buf);
    let prefix = [80u8, 67, 65, 83, 48, 54, 44];
    b.push_bytes(buf, prefix.as_slice());
    b.push(buf, 48 + field.param());
    assert(b.content@ =~= query_info_body(field));
    b.finalise(buf)
}

pub fn cmd_restart(buf: &mut [u8], mode: RestartMode) -> (n: usize)
    requires
        old(buf)@.len() <= isize::MAX,
    ensures
        final(buf)@ == written(old(buf)@, restart_body(mode)),
        final(buf)@.len() == old(buf)@.len(),
        final(buf)@.subrange(0, n as int) == framed(restart_body(mode), old(buf)@.len() as nat),
        n as int == framed(restart_body(mode), old(buf)@.len() as nat).len(),
{
    let mut b = Builder::new(buf);
    let prefix = [80u8, 67, 65, 83, 49, 48, 44];
    b.push_bytes(buf, prefix.as_slice());
    b.push(buf, 48 + mode.param());
    assert(b.content@ =~= restart_body(mode));
    b.finalise(buf)
}


/// The text of an output rate: its decimal digits, or nothing to keep the
/// module's current setting.
pub open spec fn rate_text(v: Option<u8>) -> Seq<u8> {
    match v {
        Some(x) => decimal_text(x as nat),
        None => Seq::empty(),
    }
}

proof fn lemma_rate_field(v: Option<u8>)
    ensures
        optional_field(v) == seq![44u8] + rate_text(v),
        comma_free(rate_text(v)),
{
    match v {
        Some(x) => {
            lemma_decimal_text_value(x as nat);
            let t = decimal_text(x as nat);
            assert forall|i: int| 0 <= i < t.len() implies #[trigger] t[i] != 44 by {
                assert(crate::text::is_digit(t[i]));
            }
        },
        None => {
            assert(optional_field(v) =~= seq![44u8] + rate_text(v));
        },
    }
}

/// The rate fields of a `$PCAS03` body, in the module's order.
pub open spec fn nmea_output_rates(
    gga: Option<u8>,
    gll: Option<u8>,
    gsa: Option<u8>,
    gsv: Option<u8>,
    rmc: Option<u8>,
    vtg: Option<u8>,
    zda: Option<u8>,
    txt: Option<u8>,
    dhv: Option<u8>,
    gst: Option<u8>,
) -> Seq<Seq<u8>> {
    seq![
        rate_text(gga),
        rate_text(gll),
        rate_text(gsa),
        rate_text(gsv),
        rate_text(rmc),
        rate_text(vtg),
        rate_text(zda),
        rate_text(txt),
        rate_text(dhv),
        Seq::<u8>::empty(),
        Seq::<u8>::empty(),
        Seq::<u8>::empty(),
        Seq::<u8>::empty(),
        rate_text(gst),
    ]
}

proof fn lemma_comma_join_push(ts: Seq<Seq<u8>>, t: Seq<u8>)
    ensures
        comma_join(ts.push(t)) == comma_join(ts) + seq![44u8] + t,
    decreases ts.len(),
{
    if ts.len() == 0 {
        assert(ts.push(t).drop_first() =~= Seq::<Seq<u8>>::empty());
        assert(comma_join(Seq::<Seq<u8>>::empty()) =~= Seq::<u8>::empty());
        assert(comma_join(ts) =~= Seq::<u8>::empty());
        assert(comma_join(ts.push(t)) =~= comma_join(ts) + seq![44u8] + t);
    } else {
        lemma_comma_join_push(ts.drop_first(), t);
        assert(ts.push(t).drop_first() =~= ts.drop_first().push(t));
        assert(ts.push(t)[0] == ts[0]);
        assert(comma_join(ts.push(t)) =~= comma_join(ts) + seq![44u8] + t);
    }
}

proof fn lemma_join_step(b: Seq<u8>, p: Seq<u8>, u: Seq<Seq<u8>>, t: Seq<u8>)
    requires
        b == p + comma_join(u),
    ensures
        b + (seq![44u8] + t) == p + comma_join(u.push(t)),
{
    lemma_comma_join_push(u, t);
    assert(b + (seq![44u8] + t) =~= p + comma_join(u.push(t)));
}

proof fn lemma_nmea_output_join(
    gga: Option<u8>,
    gll: Option<u8>,
    gsa: Option<u8>,
    gsv: Option<u8>,
    rmc: Option<u8>,
    vtg: Option<u8>,
    zda: Option<u8>,
    txt: Option<u8>,
    dhv: Option<u8>,
    gst: Option<u8>,
)
    ensures
        set_nmea_output_body(gga, gll, gsa, gsv, rmc, vtg, zda, txt, dhv, gst) == pcas(48, 51) + comma_join(
            nmea_output_rates(gga, gll, gsa, gsv, rmc, vtg, zda, txt, dhv, gst),
        ),
{
    let p = pcas(48, 51);
    let u0 = Seq::<Seq<u8>>::empty();
    assert(comma_join(u0) =~= Seq::<u8>::empty());
    let b0 = p;
    assert(b0 =~= p + comma_join(u0));
    lemma_rate_field(gga);
    lemma_rate_field(gll);
    lemma_rate_field(gsa);
    lemma_rate_field(gsv);
    lemma_rate_field(rmc);
    lemma_rate_field(vtg);
    lemma_rate_field(zda);
    lemma_rate_field(txt);
    lemma_rate_field(dhv);
    lemma_rate_field(gst);
    let u1 = u0.push(rate_text(gga));
    let b1 = b0 + (seq![44u8] + rate_text(gga));
    lemma_join_step(b0, p, u0, rate_text(gga));
    let u2 = u1.push(rate_text(gll));
    let b2 = b1 + (seq![44u8] + rate_text(gll));
    lemma_join_step(b1, p, u1, rate_text(gll));
    let u3 = u2.push(rate_text(gsa));
    let b3 = b2 + (seq![44u8] + rate_text(gsa));
    lemma_join_step(b2, p, u2, rate_text(gsa));
    let u4 = u3.push(rate_text(gsv));
    let b4 = b3 + (seq![44u8] + rate_text(gsv));
    lemma_join_step(b3, p, u3, rate_text(gsv));
    let u5 = u4.push(rate_text(rmc));
    let b5 = b4 + (seq![44u8] + rate_text(rmc));
    lemma_join_step(b4, p, u4, rate_text(rmc));
    let u6 = u5.push(rate_text(vtg));
    let b6 = b5 + (seq![44u8] + rate_text(vtg));
    lemma_join_step(b5, p, u5, rate_text(vtg));
    let u7 = u6.push(rate_text(zda));
    let b7 = b6 + (seq![44u8] + rate_text(zda));
    lemma_join_step(b6, p, u6, rate_text(zda));
    let u8 = u7.push(rate_text(txt));
    let b8 = b7 + (seq![44u8] + rate_text(txt));
    lemma_join_step(b7, p, u7, rate_text(txt));
    let u9 = u8.push(rate_text(dhv));
    let b9 = b8 + (seq![44u8] + rate_text(dhv));
    lemma_join_step(b8, p, u8, rate_text(dhv));
    let u10 = u9.push(Seq::<u8>::empty());
    let b10 = b9 + (seq![44u8] + Seq::<u8>::empty());
    lemma_join_step(b9, p, u9, Seq::<u8>::empty());
    let u11 = u10.push(Seq::<u8>::empty());
    let b11 = b10 + (seq![44u8] + Seq::<u8>::empty());
    lemma_join_step(b10, p, u10, Seq::<u8>::empty());
    let u12 = u11.push(Seq::<u8>::empty());
    let b12 = b11 + (seq![44u8] + Seq::<u8>::empty());
    lemma_join_step(b11, p, u11, Seq::<u8>::empty());
    let u13 = u12.push(Seq::<u8>::empty());
    let b13 = b12 + (seq![44u8] + Seq::<u8>::empty());
    lemma_join_step(b12, p, u12, Seq::<u8>::empty());
    let u14 = u13.push(rate_text(gst));
    let b14 = b13 + (seq![44u8] + rate_text(gst));
    lemma_join_step(b13, p, u13, rate_text(gst));
    assert(u14 =~= nmea_output_rates(gga, gll, gsa, gsv, rmc, vtg, zda, txt, dhv, gst));
    assert(seq![44u8, 44, 44, 44] =~= (seq![44u8] + Seq::<u8>::empty()) + (seq![44u8] + Seq::<u8>::empty()) + (seq![44u8] + Seq::<u8>::empty()) + (seq![44u8] + Seq::<u8>::empty()));
    assert(set_nmea_output_body(gga, gll, gsa, gsv, rmc, vtg, zda, txt, dhv, gst) =~= b14);
}

/// The fields of a `$PCAS03` body in the module's order: the command, then
/// the output rate of GGA, GLL, GSA, GSV, RMC, VTG, ZDA, TXT and DHV, four
/// empty reserved fields, and the rate of GST; a rate left out is an empty
/// field.
pub proof fn lemma_nmea_output_fields(
    gga: Option<u8>,
    gll: Option<u8>,
    gsa: Option<u8>,
    gsv: Option<u8>,
    rmc: Option<u8>,
    vtg: Option<u8>,
    zda: Option<u8>,
    txt: Option<u8>,
    dhv: Option<u8>,
    gst: Option<u8>,
)
    ensures
        sentence_fields(set_nmea_output_body(gga, gll, gsa, gsv, rmc, vtg, zda, txt, dhv, gst)) == seq![
            pcas(48, 51),
            rate_text(gga),
            rate_text(gll),
            rate_text(gsa),
            rate_text(gsv),
            rate_text(rmc),
            rate_text(vtg),
            rate_text(zda),
            rate_text(txt),
            rate_text(dhv),
            Seq::<u8>::empty(),
            Seq::<u8>::empty(),
            Seq::<u8>::empty(),
            Seq::<u8>::empty(),
            rate_text(gst),
        ],
{
    lemma_nmea_output_join(gga, gll, gsa, gsv, rmc, vtg, zda, txt, dhv, gst);
    lemma_rate_field(gga);
    lemma_rate_field(gll);
    lemma_rate_field(gsa);
    lemma_rate_field(gsv);
    lemma_rate_field(rmc);
    lemma_rate_field(vtg);
    lemma_rate_field(zda);
    lemma_rate_field(txt);
    lemma_rate_field(dhv);
    lemma_rate_field(gst);
    let p = pcas(48, 51);
    let ts = nmea_output_rates(gga, gll, gsa, gsv, rmc, vtg, zda, txt, dhv, gst);
    assert(comma_free(p));
    assert(comma_free(Seq::<u8>::empty()));
    assert forall|j: int| 0 <= j < ts.len() implies comma_free(#[trigger] ts[j]) by {}
    lemma_split_comma_join(p, ts);
    assert(seq![p] + ts =~= seq![
            pcas(48, 51),
            rate_text(gga),
            rate_text(gll),
            rate_text(gsa),
            rate_text(gsv),
            rate_text(rmc),
            rate_text(vtg),
            rate_text(zda),
            rate_text(txt),
            rate_text(dhv),
            Seq::<u8>::empty(),
            Seq::<u8>::empty(),
            Seq::<u8>::empty(),
            Seq::<u8>::empty(),
            rate_text(gst),
        ]);
}


proof fn lemma_one_parameter(p: Seq<u8>, x: Seq<u8>)
    requires
        comma_free(p),
        comma_free(x),
    ensures
        sentence_fields(p + seq![44u8] + x) == seq![p, x],
{
    let ts = seq![x];
    assert(ts.drop_first() =~= Seq::<Seq<u8>>::empty());
    assert(comma_join(Seq::<Seq<u8>>::empty()) =~= Seq::<u8>::empty());
    assert(comma_join(ts) =~= seq![44u8] + x);
    assert forall|j: int| 0 <= j < ts.len() implies comma_free(#[trigger] ts[j]) by {}
    lemma_split_comma_join(p, ts);
    assert(p + seq![44u8] + x =~= p + comma_join(ts));
    assert(seq![p] + ts =~= seq![p, x]);
}

proof fn lemma_digits_comma_free(v: nat)
    ensures
        comma_free(decimal_text(v)),
{
    lemma_decimal_text_value(v);
    let t = decimal_text(v);
    assert forall|i: int| 0 <= i < t.len() implies #[trigger] t[i] != 44 by {
        assert(crate::text::is_digit(t[i]));
    }
}

/// Each one-parameter command is its name followed by one field: `PCAS01`
/// with the baud-rate parameter, `PCAS02` with the fix period in
/// milliseconds, `PCAS04` with the constellation mask in hex, `PCAS06` with
/// the query parameter and `PCAS10` with the restart parameter.
pub proof fn lemma_command_fields(rate: BaudRate, update: UpdateRate, mask: ConstellationMask, field: InfoField, mode: RestartMode)
    ensures
        sentence_fields(set_baud_body(rate)) == seq![
            seq![80u8, 67, 65, 83, 48, 49],
            decimal_text(rate.spec_param() as nat),
        ],
        sentence_fields(set_update_rate_body(update)) == seq![
            seq![80u8, 67, 65, 83, 48, 50],
            decimal_text(update.spec_period_ms() as nat),
        ],
        sentence_fields(set_systems_body(mask)) == seq![seq![80u8, 67, 65, 83, 48, 52], short_hex_text(mask.0)],
        sentence_fields(query_info_body(field)) == seq![
            seq![80u8, 67, 65, 83, 48, 54],
            decimal_text(field.spec_param() as nat),
        ],
        sentence_fields(restart_body(mode)) == seq![
            seq![80u8, 67, 65, 83, 49, 48],
            decimal_text(mode.spec_param() as nat),
        ],
{
    assert(comma_free(seq![80u8, 67, 65, 83, 48, 49]));
    assert(comma_free(seq![80u8, 67, 65, 83, 48, 50]));
    assert(comma_free(seq![80u8, 67, 65, 83, 48, 52]));
    assert(comma_free(seq![80u8, 67, 65, 83, 48, 54]));
    assert(comma_free(seq![80u8, 67, 65, 83, 49, 48]));
    assert(decimal_text(rate.spec_param() as nat) =~= seq![(48 + rate.spec_param()) as u8]);
    assert(decimal_text(field.spec_param() as nat) =~= seq![(48 + field.spec_param()) as u8]);
    assert(decimal_text(mode.spec_param() as nat) =~= seq![(48 + mode.spec_param()) as u8]);
    lemma_digits_comma_free(rate.spec_param() as nat);
    lemma_digits_comma_free(update.spec_period_ms() as nat);
    lemma_digits_comma_free(field.spec_param() as nat);
    lemma_digits_comma_free(mode.spec_param() as nat);
    let v = mask.0;
    assert((v >> 4) <= 15 && (v & 15) <= 15) by (bit_vector);
    assert(comma_free(short_hex_text(v)));
    assert(set_baud_body(rate) =~= seq![80u8, 67, 65, 83, 48, 49] + seq![44u8] + decimal_text(rate.spec_param() as nat));
    assert(set_update_rate_body(update) =~= seq![80u8, 67, 65, 83, 48, 50] + seq![44u8] + decimal_text(
        update.spec_period_ms() as nat,
    ));
    assert(set_systems_body(mask) =~= seq![80u8, 67, 65, 83, 48, 52] + seq![44u8] + short_hex_text(v));
    assert(query_info_body(field) =~= seq![80u8, 67, 65, 83, 48, 54] + seq![44u8] + decimal_text(
        field.spec_param() as nat,
    ));
    assert(restart_body(mode) =~= seq![80u8, 67, 65, 83, 49, 48] + seq![44u8] + decimal_text(mode.spec_param() as nat));
    lemma_one_parameter(seq![80u8, 67, 65, 83, 48, 49], decimal_text(rate.spec_param() as nat));
    lemma_one_parameter(seq![80u8, 67, 65, 83, 48, 50], decimal_text(update.spec_period_ms() as nat));
    lemma_one_parameter(seq![80u8, 67, 65, 83, 48, 52], short_hex_text(v));
    lemma_one_parameter(seq![80u8, 67, 65, 83, 48, 54], decimal_text(field.spec_param() as nat));
    lemma_one_parameter(seq![80u8, 67, 65, 83, 49, 48], decimal_text(mode.spec_param() as nat));
}


/// The mask text reads back as the mask in base 16: one digit below 16,
/// two digits from 16 on.
pub proof fn lemma_short_hex_reads_back(v: u8)
    ensures
        v < 16 ==> short_hex_text(v).len() == 1 && hex_digit_value(short_hex_text(v)[0]) == Some(v),
        v >= 16 ==> short_hex_text(v).len() == 2 && hex_pair_value(short_hex_text(v)[0], short_hex_text(v)[1])
            == Some(v),
{
    assert((v >> 4) <= 15 && (v & 15) <= 15 && (v >> 4) * 16 + (v & 15) == v) by (bit_vector);
    assert(v >= 16 ==> (v >> 4) >= 1) by (bit_vector);
}

} // verus!
