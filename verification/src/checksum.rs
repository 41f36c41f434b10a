//! The NMEA checksum: XOR of every byte between `$` and `*`, written as two
//! hexadecimal digits after the `*`.
use vstd::prelude::*;
use vstd::utf8::*;
use crate::text::{at_boundary, hex_digit_value, hex_pair, hex_pair_value, is_valid_utf8, last_index_of, on_boundary, rfind_byte, trim_crlf, trimmed_len};

verus! {

/// XOR of all bytes.
pub open spec fn xor_all(s: Seq<u8>) -> u8
    decreases s.len(),
{
    if s.len() == 0 {
        0
    } else {
        xor_all(s.drop_last()) ^ s.last()
    }
}

/// Compute XOR checksum of all bytes (used for the body between '$' and '*').
pub fn compute(body: &[u8]) -> (cs: u8)
    ensures
        cs == xor_all(body@),
{
    let mut acc: u8 = 0;
    let mut i: usize = 0;
    while i < body.len()
        invariant
            i <= body@.len(),
            acc == xor_all(body@.subrange(0, i as int)),
        decreases body@.len() - i,
    {
        assert(body@.subrange(0, i as int + 1).drop_last() =~= body@.subrange(0, i as int));
        acc = acc ^ body[i];
        i += 1;
    }
    assert(body@.subrange(0, body@.len() as int) =~= body@);
    acc
}

/// Position of the `*` that ends the body, when the line starts with `$`.
pub open spec fn star_position(line: Seq<u8>) -> Option<int> {
    if line.len() > 0 && line[0] == 36 {
        last_index_of(line, 42)
    } else {
        None
    }
}

/// The checksum field after the `*` with trailing `\r` / `\n` removed.
pub open spec fn checksum_field(line: Seq<u8>, star: int) -> Seq<u8> {
    trim_crlf(line.subrange(star + 1, line.len() as int))
}

/// The line checks out: it starts with `$`, has a `*`, the text after the
/// last `*` is UTF-8 whose first two bytes read as the body's checksum in hex
/// (and end a character, so that they can be taken apart from the rest).
pub open spec fn verify_ok(line: Seq<u8>) -> bool {
    match star_position(line) {
        Some(star) => {
            let cs = checksum_field(line, star);
            &&& valid_utf8(line.subrange(star + 1, line.len() as int))
            &&& cs.len() >= 2
            &&& on_boundary(cs, 2)
            &&& hex_pair_value(cs[0], cs[1]) == Some(xor_all(line.subrange(1, star)))
        },
        None => false,
    }
}

/// The body between `$` and the last `*`.
pub open spec fn verify_body(line: Seq<u8>) -> Seq<u8> {
    line.subrange(1, star_position(line).unwrap())
}

/// Verify an NMEA sentence line. Returns the body slice (between '$' and '*') on success.
pub fn verify(line: &[u8]) -> (r: Option<&[u8]>)
    ensures
        r.is_some() == verify_ok(line@),
        r.is_some() ==> r.unwrap()@ == verify_body(line@),
{
    if line.len() == 0 || line[0] != 36 {
        return None;
    }
    let star = match rfind_byte(line, 42) {
        Some(k) => k,
        None => return None,
    };
    let body = &line[1..star];
    let cs_slice = &line[star + 1..line.len()];
    if !is_valid_utf8(cs_slice) {
        return None;
    }
    let n = trimmed_len(cs_slice);
    if n < 2 {
        return None;
    }
    let ghost cs = checksum_field(line@, star as int);
    assert(cs =~= cs_slice@.subrange(0, n as int));
    if !at_boundary(&cs_slice[0..n], 2) {
        return None;
    }
    let expected = match hex_pair(cs_slice[0], cs_slice[1]) {
        Some(v) => v,
        None => return None,
    };
    if compute(body) == expected {
        Some(body)
    } else {
        None
    }
}

/// The ASCII hex digit written for a nibble (upper case).
pub open spec fn hex_char(n: u8) -> u8 {
    if n <= 9 {
        (48 + n) as u8
    } else {
        (55 + n) as u8
    }
}

pub(crate) fn nibble_to_hex(n: u8) -> (c: u8)
    requires
        n <= 190,
    ensures
        c == hex_char(n),
{
    if n <= 9 {
        48 + n
    } else {
        65 + n - 10
    }
}


// ── Laws ─────────────────────────────────────────────────────────────────────

pub(crate) proof fn lemma_ascii_valid_utf8(s: Seq<u8>)
    requires
        forall|i: int| 0 <= i < s.len() ==> #[trigger] s[i] < 0x80,
    ensures
        valid_utf8(s),
    decreases s.len(),
{
    if s.len() > 0 {
        let t = s.subrange(1, s.len() as int);
        assert forall|i: int| 0 <= i < t.len() implies #[trigger] t[i] < 0x80 by {
            assert(t[i] == s[i + 1]);
        }
        lemma_ascii_valid_utf8(t);
        let b = s[0];
        assert(b & 0x7f == b) by (bit_vector)
            requires
                b < 0x80,
        ;
        assert(pop_first_scalar(s) =~= t);
    }
}

/// The hex digit written for a nibble, in lower or upper case.
pub open spec fn hex_digit_of(n: u8, lower: bool) -> u8 {
    if n <= 9 {
        (48 + n) as u8
    } else if lower {
        (87 + n) as u8
    } else {
        (55 + n) as u8
    }
}

/// `$` + body + `*` + the body's checksum in two hex digits of either case,
/// with or without a closing `\r\n`.
pub open spec fn checksum_line(body: Seq<u8>, lower: bool, crlf: bool) -> Seq<u8> {
    let cs = xor_all(body);
    seq![36u8] + body + seq![42u8, hex_digit_of(cs >> 4, lower), hex_digit_of(cs & 15, lower)] + (if crlf {
        seq![13u8, 10]
    } else {
        Seq::<u8>::empty()
    })
}

/// A line made of `$`, any body (a `*` in it too: the last `*` ends the
/// body), `*`, the body's checksum in hex of either case and an optional
/// `\r\n` verifies, handing back the body.
pub proof fn lemma_checksum_line_verifies(body: Seq<u8>, lower: bool, crlf: bool)
    ensures
        verify_ok(checksum_line(body, lower, crlf)),
        verify_body(checksum_line(body, lower, crlf)) == body,
{
    let line = checksum_line(body, lower, crlf);
    let cs = xor_all(body);
    let hi = cs >> 4;
    let lo = cs & 15;
    assert((cs >> 4) <= 15 && (cs & 15) <= 15 && (cs >> 4) * 16 + (cs & 15) == cs) by (bit_vector);
    let a = hex_digit_of(hi, lower);
    let b = hex_digit_of(lo, lower);
    assert(hex_digit_value(a) == Some(hi));
    assert(hex_digit_value(b) == Some(lo));
    assert(hex_pair_value(a, b) == Some(cs));
    let star: int = body.len() as int + 1;
    assert(line[0] == 36);
    assert(line[star] == 42);
    assert forall|j: int| star < j < line.len() implies line[j] != 42 by {}
    let w = choose|i: int|
        0 <= i < line.len() && line[i] == 42 && forall|j: int| i < j < line.len() ==> line[j] != 42;
    assert(w == star) by {
        if w < star {
            assert(line[star] != 42);
        } else if w > star {
            assert(line[w] != 42);
        }
    }
    let tail = line.subrange(star + 1, line.len() as int);
    if crlf {
        assert(tail =~= seq![a, b, 13u8, 10u8]);
        assert(tail.drop_last() =~= seq![a, b, 13u8]);
        assert(tail.drop_last().drop_last() =~= seq![a, b]);
        assert(trim_crlf(tail) == trim_crlf(tail.drop_last()));
        assert(trim_crlf(tail.drop_last()) == trim_crlf(tail.drop_last().drop_last()));
    } else {
        assert(tail =~= seq![a, b]);
    }
    assert(trim_crlf(seq![a, b]) == seq![a, b]);
    lemma_ascii_valid_utf8(tail);
    assert(line.subrange(1, star) =~= body);
}

proof fn lemma_xor_concat(a: Seq<u8>, b: Seq<u8>)
    ensures
        xor_all(a + b) == xor_all(a) ^ xor_all(b),
    decreases b.len(),
{
    if b.len() == 0 {
        assert(a + b =~= a);
        let p = xor_all(a);
        assert(p ^ 0u8 == p) by (bit_vector);
    } else {
        lemma_xor_concat(a, b.drop_last());
        assert((a + b).drop_last() =~= a + b.drop_last());
        assert((a + b).last() == b.last());
        let p = xor_all(a);
        let q = xor_all(b.drop_last());
        let y = b.last();
        assert((p ^ q) ^ y == p ^ (q ^ y)) by (bit_vector);
    }
}

/// The checksum is the XOR of the bytes: nothing gives 0, one byte gives
/// itself, and a concatenation gives the XOR of the parts' checksums, in
/// either order.
pub proof fn lemma_xor_all_concat(a: Seq<u8>, b: Seq<u8>, x: u8)
    ensures
        xor_all(Seq::<u8>::empty()) == 0,
        xor_all(seq![x]) == x,
        xor_all(a + b) == xor_all(a) ^ xor_all(b),
        xor_all(a + b) == xor_all(b + a),
{
    assert(seq![x].drop_last() =~= Seq::<u8>::empty());
    assert(0u8 ^ x == x) by (bit_vector);
    lemma_xor_concat(a, b);
    lemma_xor_concat(b, a);
    let p = xor_all(a);
    let r = xor_all(b);
    assert(p ^ r == r ^ p) by (bit_vector);
}

} // verus!
