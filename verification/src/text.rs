//! Byte-level primitives shared by the sentence parsers: decimal and hex
//! number fields, the decimal-float literal grammar, UTF-8 validation,
//! searching and trimming.
use vstd::prelude::*;
use vstd::utf8::*;

verus! {

// ── Digits and decimal values ────────────────────────────────────────────────

pub open spec fn is_digit(b: u8) -> bool {
    48 <= b <= 57
}

pub open spec fn all_digits(s: Seq<u8>) -> bool {
    forall|i: int| 0 <= i < s.len() ==> #[trigger] is_digit(s[i])
}

/// The value of a run of decimal digits (most significant first).
pub open spec fn decimal_value(s: Seq<u8>) -> nat
    decreases s.len(),
{
    if s.len() == 0 {
        0
    } else {
        decimal_value(s.drop_last()) * 10 + (s.last() - 48) as nat
    }
}

/// Decimal digits of `v`, without leading zeros.
pub open spec fn decimal_text(v: nat) -> Seq<u8>
    decreases v,
{
    if v < 10 {
        seq![(48 + v) as u8]
    } else {
        decimal_text(v / 10).push((48 + v % 10) as u8)
    }
}

/// The decimal text of `v` is a non-empty run of digits whose value is `v`.
pub proof fn lemma_decimal_text_value(v: nat)
    ensures
        decimal_text(v).len() > 0,
        all_digits(decimal_text(v)),
        decimal_value(decimal_text(v)) == v,
    decreases v,
{
    if v < 10 {
        let t = decimal_text(v);
        assert(t.drop_last() =~= Seq::<u8>::empty());
        assert(decimal_value(t.drop_last()) == 0);
        assert(t.last() == (48 + v) as u8);
        assert(decimal_value(t) == decimal_value(t.drop_last()) * 10 + (t.last() - 48) as nat);
        assert(is_digit(t[0]));
    } else {
        lemma_decimal_text_value(v / 10);
        let t = decimal_text(v);
        let d = decimal_text(v / 10);
        assert(t.drop_last() =~= d);
        assert(t.last() == (48 + v % 10) as u8);
        assert((t.last() - 48) as nat == v % 10);
        assert(decimal_value(t) == decimal_value(d) * 10 + (t.last() - 48) as nat);
        assert((v / 10) * 10 + v % 10 == v);
        assert forall|i: int| 0 <= i < t.len() implies #[trigger] is_digit(t[i]) by {
            if i < d.len() {
                assert(t[i] == d[i]);
            }
        }
    }
}

/// A number written in decimal reads back as itself: as an unsigned field up
/// to its bound, and as a signed 8-bit field up to 127.
pub proof fn lemma_decimal_text_reads(v: nat)
    ensures
        v <= 255 ==> parse_u8_spec(decimal_text(v)) == Some(v as u8),
        v <= 65535 ==> parse_u16_spec(decimal_text(v)) == Some(v as u16),
        v <= 127 ==> parse_i8_spec(decimal_text(v)) == Some(v as i8),
{
    lemma_decimal_text_value(v);
    let t = decimal_text(v);
    assert(is_digit(t[0]));
    assert(unsigned_digits(t) == t);
    reveal(parse_u8_spec);
    reveal(parse_u16_spec);
    reveal(parse_i8_spec);
}

/// The digits of an unsigned integer field: an optional leading `+` is dropped.
pub open spec fn unsigned_digits(s: Seq<u8>) -> Seq<u8> {
    if s.len() > 0 && s[0] == 43 {
        s.drop_first()
    } else {
        s
    }
}

/// Reading of an unsigned integer field whose largest value is `max`: an
/// optional `+`, then one or more decimal digits, with no overflow.
pub open spec fn parse_unsigned(s: Seq<u8>, max: nat) -> Option<nat> {
    let d = unsigned_digits(s);
    if d.len() > 0 && all_digits(d) && decimal_value(d) <= max {
        Some(decimal_value(d))
    } else {
        None
    }
}

#[verifier::opaque]
pub open spec fn parse_u8_spec(s: Seq<u8>) -> Option<u8> {
    match parse_unsigned(s, 255) {
        Some(v) => Some(v as u8),
        None => None,
    }
}

#[verifier::opaque]
pub open spec fn parse_u16_spec(s: Seq<u8>) -> Option<u16> {
    match parse_unsigned(s, 65535) {
        Some(v) => Some(v as u16),
        None => None,
    }
}

/// Reading of a signed 8-bit integer field: an optional sign, then one or
/// more decimal digits, within `-128..=127`.
#[verifier::opaque]
pub open spec fn parse_i8_spec(s: Seq<u8>) -> Option<i8> {
    if s.len() > 0 && s[0] == 45 {
        let d = s.drop_first();
        if d.len() > 0 && all_digits(d) && decimal_value(d) <= 128 {
            Some((0 - decimal_value(d)) as i8)
        } else {
            None
        }
    } else {
        match parse_unsigned(s, 127) {
            Some(v) => Some(v as i8),
            None => None,
        }
    }
}

proof fn lemma_decimal_step(s: Seq<u8>, i: int)
    requires
        0 <= i < s.len(),
    ensures
        decimal_value(s.subrange(0, i + 1)) == decimal_value(s.subrange(0, i)) * 10 + (s[i] - 48) as nat,
{
    assert(s.subrange(0, i + 1).drop_last() =~= s.subrange(0, i));
}

/// Reads a run of decimal digits, saturating at `max + 1`.
/// Returns `None` when a byte is not a digit.
fn digits_value_capped(s: &[u8], start: usize, max: u32) -> (r: Option<u32>)
    requires
        start <= s@.len(),
        max < 0xffff_ffff,
    ensures
        match r {
            Some(v) => all_digits(s@.subrange(start as int, s@.len() as int)) && v as int == if decimal_value(
                s@.subrange(start as int, s@.len() as int),
            ) <= max {
                decimal_value(s@.subrange(start as int, s@.len() as int)) as int
            } else {
                max + 1
            },
            None => !all_digits(s@.subrange(start as int, s@.len() as int)),
        },
{
    let ghost d = s@.subrange(start as int, s@.len() as int);
    let cap: u32 = max + 1;
    let mut acc: u32 = 0;
    let mut i: usize = start;
    while i < s.len()
        invariant
            start <= i <= s@.len(),
            cap == max + 1,
            max < 0xffff_ffff,
            d == s@.subrange(start as int, s@.len() as int),
            all_digits(d.subrange(0, i - start)),
            acc as int == if decimal_value(d.subrange(0, i - start)) < cap {
                decimal_value(d.subrange(0, i - start)) as int
            } else {
                cap as int
            },
        decreases s@.len() - i,
    {
        let b = s[i];
        if b < 48 || b > 57 {
            assert(d[i - start] == b);
            assert(!is_digit(d[i - start]));
            return None;
        }
        proof {
            lemma_decimal_step(d, i - start);
            assert forall|k: int| 0 <= k < i + 1 - start implies #[trigger] is_digit(
                d.subrange(0, i + 1 - start)[k],
            ) by {
                if k < i - start {
                    assert(d.subrange(0, i + 1 - start)[k] == d.subrange(0, i - start)[k]);
                }
            }
        }
        let digit: u32 = (b - 48) as u32;
        if acc >= cap {
            acc = cap;
        } else {
            let next: u64 = acc as u64 * 10 + digit as u64;
            if next >= cap as u64 {
                acc = cap;
            } else {
                acc = next as u32;
            }
        }
        i += 1;
    }
    assert(d.subrange(0, i - start) =~= d);
    Some(acc)
}

/// Parses an unsigned field with the given largest value; see [`parse_unsigned`].
fn parse_unsigned_field(s: &[u8], max: u32) -> (r: Option<u32>)
    requires
        max < 0xffff_ffff,
    ensures
        match parse_unsigned(s@, max as nat) {
            Some(v) => r == Some(v as u32),
            None => r.is_none(),
        },
{
    let start: usize = if s.len() > 0 && s[0] == 43 { 1 } else { 0 };
    assert(unsigned_digits(s@) =~= s@.subrange(start as int, s@.len() as int));
    if start == s.len() {
        return None;
    }
    match digits_value_capped(s, start, max) {
        Some(v) => {
            if v <= max {
                Some(v)
            } else {
                None
            }
        },
        None => None,
    }
}

/// Reads a `u8` field as `str::parse::<u8>` does.
pub fn parse_u8(s: &[u8]) -> (r: Option<u8>)
    ensures
        r == parse_u8_spec(s@),
{
    reveal(parse_u8_spec);
    match parse_unsigned_field(s, 255) {
        Some(v) => Some(v as u8),
        None => None,
    }
}

/// Reads a `u16` field as `str::parse::<u16>` does.
pub fn parse_u16(s: &[u8]) -> (r: Option<u16>)
    ensures
        r == parse_u16_spec(s@),
{
    reveal(parse_u16_spec);
    match parse_unsigned_field(s, 65535) {
        Some(v) => Some(v as u16),
        None => None,
    }
}

/// Reads an `i8` field as `str::parse::<i8>` does.
pub fn parse_i8(s: &[u8]) -> (r: Option<i8>)
    ensures
        r == parse_i8_spec(s@),
{
    reveal(parse_i8_spec);
    if s.len() > 0 && s[0] == 45 {
        assert(s@.drop_first() =~= s@.subrange(1, s@.len() as int));
        if s.len() == 1 {
            return None;
        }
        match digits_value_capped(s, 1, 128) {
            Some(v) => {
                if v <= 128 {
                    let r: i8 = if v == 128 { -128i8 } else { 0i8 - (v as i8) };
                    Some(r)
                } else {
                    None
                }
            },
            None => None,
        }
    } else {
        match parse_unsigned_field(s, 127) {
            Some(v) => Some(v as i8),
            None => None,
        }
    }
}

// ── Hexadecimal ──────────────────────────────────────────────────────────────

/// The value of a hexadecimal digit of either case.
pub open spec fn hex_digit_value(b: u8) -> Option<u8> {
    if 48 <= b <= 57 {
        Some((b - 48) as u8)
    } else if 97 <= b <= 102 {
        Some((b - 87) as u8)
    } else if 65 <= b <= 70 {
        Some((b - 55) as u8)
    } else {
        None
    }
}

/// Reading of a two-byte field as a base-16 `u8` (`u8::from_str_radix(_, 16)`):
/// either two hex digits, or `+` followed by one hex digit.
pub open spec fn hex_pair_value(a: u8, b: u8) -> Option<u8> {
    if a == 43 {
        hex_digit_value(b)
    } else {
        match (hex_digit_value(a), hex_digit_value(b)) {
            (Some(x), Some(y)) => Some((x * 16 + y) as u8),
            _ => None,
        }
    }
}

pub fn hex_digit(b: u8) -> (r: Option<u8>)
    ensures
        r == hex_digit_value(b),
{
    if 48 <= b && b <= 57 {
        Some(b - 48)
    } else if 97 <= b && b <= 102 {
        Some(b - 87)
    } else if 65 <= b && b <= 70 {
        Some(b - 55)
    } else {
        None
    }
}

pub fn hex_pair(a: u8, b: u8) -> (r: Option<u8>)
    ensures
        r == hex_pair_value(a, b),
{
    if a == 43 {
        hex_digit(b)
    } else {
        match (hex_digit(a), hex_digit(b)) {
            (Some(x), Some(y)) => Some(x * 16 + y),
            _ => None,
        }
    }
}

// ── Decimal floating-point literals ──────────────────────────────────────────

/// ASCII lower-casing of one byte.
pub open spec fn lower(b: u8) -> u8 {
    if 65 <= b <= 90 {
        (b + 32) as u8
    } else {
        b
    }
}

/// Case-insensitive equality with a lower-case ASCII word.
pub open spec fn eq_ignore_case(s: Seq<u8>, word: Seq<u8>) -> bool {
    s.len() == word.len() && forall|i: int| 0 <= i < s.len() ==> lower(#[trigger] s[i]) == word[i]
}

/// Number of consecutive digits of `s` starting at `k`.
pub open spec fn digit_run(s: Seq<u8>, k: int) -> nat
    decreases s.len() - k,
{
    if 0 <= k < s.len() && is_digit(s[k]) {
        1 + digit_run(s, k + 1)
    } else {
        0
    }
}

pub open spec fn is_sign(b: u8) -> bool {
    b == 43 || b == 45
}

/// `Exp ::= ('e' | 'E') Sign? Digit+`, or nothing.
pub open spec fn exponent_ok(e: Seq<u8>) -> bool {
    e.len() == 0 || (lower(e[0]) == 101 && {
        let r = e.drop_first();
        let d = if r.len() > 0 && is_sign(r[0]) {
            r.drop_first()
        } else {
            r
        };
        d.len() > 0 && all_digits(d)
    })
}

/// `Number ::= (Digit+ | Digit+ '.' Digit* | Digit* '.' Digit+) Exp?`
pub open spec fn is_decimal_number(s: Seq<u8>) -> bool {
    let a = digit_run(s, 0) as int;
    if a < s.len() && s[a] == 46 {
        let b = digit_run(s, a + 1) as int;
        a + b > 0 && exponent_ok(s.subrange(a + 1 + b, s.len() as int))
    } else {
        a > 0 && exponent_ok(s.subrange(a, s.len() as int))
    }
}

/// The strings that the standard library reads as `f32` or `f64`:
/// `Sign? ('inf' | 'infinity' | 'nan' | Number)`, letters in either case.
#[verifier::opaque]
pub open spec fn is_float_literal(s: Seq<u8>) -> bool {
    let body = if s.len() > 0 && is_sign(s[0]) {
        s.drop_first()
    } else {
        s
    };
    eq_ignore_case(body, seq![105u8, 110, 102]) || eq_ignore_case(
        body,
        seq![105u8, 110, 102, 105, 110, 105, 116, 121],
    ) || eq_ignore_case(body, seq![110u8, 97, 110]) || is_decimal_number(body)
}

/// Counts the digits of `s` starting at `k`.
fn count_digits(s: &[u8], k: usize) -> (n: usize)
    requires
        k <= s@.len(),
    ensures
        n == digit_run(s@, k as int),
        k + n <= s@.len(),
{
    let mut i: usize = k;
    while i < s.len() && s[i] >= 48 && s[i] <= 57
        invariant
            k <= i <= s@.len(),
            digit_run(s@, k as int) == (i - k) + digit_run(s@, i as int),
        decreases s@.len() - i,
    {
        i += 1;
    }
    i - k
}

fn byte_lower(b: u8) -> (r: u8)
    ensures
        r == lower(b),
{
    if 65 <= b && b <= 90 {
        b + 32
    } else {
        b
    }
}

fn eq_word_ignore_case(s: &[u8], start: usize, word: &[u8]) -> (r: bool)
    requires
        start <= s@.len(),
    ensures
        r == eq_ignore_case(s@.subrange(start as int, s@.len() as int), word@),
{
    let ghost t = s@.subrange(start as int, s@.len() as int);
    let n = s.len();
    if n - start != word.len() {
        return false;
    }
    let mut i: usize = 0;
    while i < word.len()
        invariant
            n == s@.len(),
            t == s@.subrange(start as int, s@.len() as int),
            t.len() == word@.len(),
            start + word@.len() == s@.len(),
            i <= word@.len(),
            forall|j: int| 0 <= j < i ==> lower(#[trigger] t[j]) == word@[j],
        decreases word@.len() - i,
    {
        if byte_lower(s[start + i]) != word[i] {
            assert(t[i as int] == s@[start + i]);
            return false;
        }
        i += 1;
    }
    true
}

fn all_digits_from(s: &[u8], start: usize) -> (r: bool)
    requires
        start <= s@.len(),
    ensures
        r == all_digits(s@.subrange(start as int, s@.len() as int)),
{
    let ghost t = s@.subrange(start as int, s@.len() as int);
    let mut i: usize = start;
    while i < s.len()
        invariant
            start <= i <= s@.len(),
            t == s@.subrange(start as int, s@.len() as int),
            forall|j: int| 0 <= j < i - start ==> #[trigger] is_digit(t[j]),
        decreases s@.len() - i,
    {
        if s[i] < 48 || s[i] > 57 {
            assert(t[i - start] == s@[i as int]);
            assert(!is_digit(t[i - start]));
            return false;
        }
        i += 1;
    }
    true
}

fn exponent_ok_from(s: &[u8], start: usize) -> (r: bool)
    requires
        start <= s@.len(),
    ensures
        r == exponent_ok(s@.subrange(start as int, s@.len() as int)),
{
    let ghost e = s@.subrange(start as int, s@.len() as int);
    if start == s.len() {
        return true;
    }
    if byte_lower(s[start]) != 101 {
        return false;
    }
    let ghost r0 = e.drop_first();
    assert(r0 =~= s@.subrange(start + 1, s@.len() as int));
    let mut k: usize = start + 1;
    if k < s.len() && (s[k] == 43 || s[k] == 45) {
        k += 1;
        assert(r0.drop_first() =~= s@.subrange(k as int, s@.len() as int));
    }
    if k == s.len() {
        return false;
    }
    all_digits_from(s, k)
}

/// Whether `s[start..]` is a decimal number per [`is_decimal_number`].
fn decimal_number_from(s: &[u8], start: usize) -> (r: bool)
    requires
        start <= s@.len(),
    ensures
        r == is_decimal_number(s@.subrange(start as int, s@.len() as int)),
{
    let ghost t = s@.subrange(start as int, s@.len() as int);
    proof {
        lemma_digit_run_shift(s@, start as int, start as int);
    }
    let n = s.len();
    let a = count_digits(s, start);
    let p = start + a;
    if p < s.len() && s[p] == 46 {
        proof {
            lemma_digit_run_shift(s@, start as int, p + 1);
        }
        let b = count_digits(s, p + 1);
        assert(t.subrange(a + 1 + b, t.len() as int) =~= s@.subrange(p + 1 + b, s@.len() as int));
        a + b > 0 && exponent_ok_from(s, p + 1 + b)
    } else {
        assert(t.subrange(a as int, t.len() as int) =~= s@.subrange(p as int, s@.len() as int));
        a > 0 && exponent_ok_from(s, p)
    }
}

proof fn lemma_digit_run_shift(s: Seq<u8>, start: int, k: int)
    requires
        0 <= start <= k <= s.len(),
    ensures
        digit_run(s.subrange(start, s.len() as int), k - start) == digit_run(s, k),
    decreases s.len() - k,
{
    if k < s.len() {
        lemma_digit_run_shift(s, start, k + 1);
    }
}

/// Whether the field would be read successfully as `f32` / `f64`.
pub fn float_literal_ok(s: &[u8]) -> (r: bool)
    ensures
        r == is_float_literal(s@),
{
    reveal(is_float_literal);
    let start: usize = if s.len() > 0 && (s[0] == 43 || s[0] == 45) { 1 } else { 0 };
    assert(s@.subrange(0, s@.len() as int) =~= s@);
    assert(start == 1 ==> s@.drop_first() =~= s@.subrange(1, s@.len() as int));
    let inf: [u8; 3] = [105u8, 110, 102];
    let infinity: [u8; 8] = [105u8, 110, 102, 105, 110, 105, 116, 121];
    let nan: [u8; 3] = [110u8, 97, 110];
    assert(inf@ =~= seq![105u8, 110, 102]);
    assert(infinity@ =~= seq![105u8, 110, 102, 105, 110, 105, 116, 121]);
    assert(nan@ =~= seq![110u8, 97, 110]);
    eq_word_ignore_case(s, start, inf.as_slice()) || eq_word_ignore_case(s, start, infinity.as_slice())
        || eq_word_ignore_case(s, start, nan.as_slice()) || decimal_number_from(s, start)
}

// ── Searching, trimming, comparing ───────────────────────────────────────────

/// Index of the first occurrence of `b`, if any.
pub open spec fn first_index_of(s: Seq<u8>, b: u8) -> Option<int> {
    if exists|i: int| 0 <= i < s.len() && s[i] == b {
        Some(choose|i: int| 0 <= i < s.len() && s[i] == b && forall|j: int| 0 <= j < i ==> s[j] != b)
    } else {
        None
    }
}

/// The first `b` in `s` is at `i` when `s[i]` is `b` and no earlier byte is.
pub proof fn lemma_first_index_at(s: Seq<u8>, b: u8, i: int)
    requires
        0 <= i < s.len(),
        s[i] == b,
        forall|j: int| 0 <= j < i ==> s[j] != b,
    ensures
        first_index_of(s, b) == Some(i),
{
    let w = choose|k: int| 0 <= k < s.len() && s[k] == b && forall|j: int| 0 <= j < k ==> s[j] != b;
    assert(w == i) by {
        if w < i {
            assert(s[w] != b);
        } else if w > i {
            assert(s[i] != b);
        }
    }
}

/// Index of the last occurrence of `b`, if any.
pub open spec fn last_index_of(s: Seq<u8>, b: u8) -> Option<int> {
    if exists|i: int| 0 <= i < s.len() && s[i] == b {
        Some(
            choose|i: int|
                0 <= i < s.len() && s[i] == b && forall|j: int| i < j < s.len() ==> s[j] != b,
        )
    } else {
        None
    }
}

pub fn find_byte(s: &[u8], b: u8) -> (r: Option<usize>)
    ensures
        match r {
            Some(i) => i < s@.len() && s@[i as int] == b && forall|j: int|
                0 <= j < i ==> s@[j] != b,
            None => forall|j: int| 0 <= j < s@.len() ==> s@[j] != b,
        },
        r.is_some() == first_index_of(s@, b).is_some(),
        r.is_some() ==> first_index_of(s@, b) == Some(r.unwrap() as int),
{
    let mut i: usize = 0;
    while i < s.len()
        invariant
            i <= s@.len(),
            forall|j: int| 0 <= j < i ==> s@[j] != b,
        decreases s@.len() - i,
    {
        if s[i] == b {
            proof {
                let w = choose|k: int|
                    0 <= k < s@.len() && s@[k] == b && forall|j: int| 0 <= j < k ==> s@[j] != b;
                assert(0 <= i < s@.len() && s@[i as int] == b);
                if w < i {
                } else if w > i {
                    assert(s@[i as int] != b);
                }
            }
            return Some(i);
        }
        i += 1;
    }
    None
}

pub fn rfind_byte(s: &[u8], b: u8) -> (r: Option<usize>)
    ensures
        match r {
            Some(i) => i < s@.len() && s@[i as int] == b && forall|j: int|
                i < j < s@.len() ==> s@[j] != b,
            None => forall|j: int| 0 <= j < s@.len() ==> s@[j] != b,
        },
        r.is_some() == last_index_of(s@, b).is_some(),
        r.is_some() ==> last_index_of(s@, b) == Some(r.unwrap() as int),
{
    let mut i: usize = s.len();
    while i > 0
        invariant
            i <= s@.len(),
            forall|j: int| i <= j < s@.len() ==> s@[j] != b,
        decreases i,
    {
        if s[i - 1] == b {
            proof {
                let k = (i - 1) as int;
                let w = choose|m: int|
                    0 <= m < s@.len() && s@[m] == b && forall|j: int| m < j < s@.len() ==> s@[j]
                        != b;
                assert(0 <= k < s@.len() && s@[k] == b);
                if w < k {
                    assert(s@[k] != b);
                } else if w > k {
                }
            }
            return Some(i - 1);
        }
        i -= 1;
    }
    None
}

/// `s` with every trailing `\r` and `\n` removed.
pub open spec fn trim_crlf(s: Seq<u8>) -> Seq<u8>
    decreases s.len(),
{
    if s.len() > 0 && (s.last() == 13 || s.last() == 10) {
        trim_crlf(s.drop_last())
    } else {
        s
    }
}

/// Length of `s` once trailing `\r` / `\n` bytes are removed.
pub fn trimmed_len(s: &[u8]) -> (n: usize)
    ensures
        n <= s@.len(),
        trim_crlf(s@) == s@.subrange(0, n as int),
        forall|i: int| n <= i < s@.len() ==> s@[i] == 13 || s@[i] == 10,
{
    let mut n: usize = s.len();
    assert(s@.subrange(0, n as int) =~= s@);
    while n > 0 && (s[n - 1] == 13 || s[n - 1] == 10)
        invariant
            n <= s@.len(),
            trim_crlf(s@) == trim_crlf(s@.subrange(0, n as int)),
            forall|i: int| n <= i < s@.len() ==> s@[i] == 13 || s@[i] == 10,
        decreases n,
    {
        assert(s@.subrange(0, n as int).drop_last() =~= s@.subrange(0, n - 1));
        n -= 1;
    }
    n
}

/// Whether `needle` occurs in `hay` at position `i`.
pub open spec fn occurs_at(hay: Seq<u8>, needle: Seq<u8>, i: int) -> bool {
    0 <= i && i + needle.len() <= hay.len() && hay.subrange(i, i + needle.len()) == needle
}

/// Whether `needle` occurs anywhere in `hay`.
pub open spec fn contains_seq(hay: Seq<u8>, needle: Seq<u8>) -> bool {
    exists|i: int| occurs_at(hay, needle, i)
}

pub fn contains_bytes(hay: &[u8], needle: &[u8]) -> (r: bool)
    ensures
        r == contains_seq(hay@, needle@),
{
    let hn = hay.len();
    if needle.len() > hn {
        assert forall|i: int| !occurs_at(hay@, needle@, i) by {}
        return false;
    }
    if needle.len() == 0 {
        assert(hay@.subrange(0, 0) =~= needle@);
        assert(occurs_at(hay@, needle@, 0));
        return true;
    }
    let last = hn - needle.len();
    let mut i: usize = 0;
    while i <= last
        invariant
            hn == hay@.len(),
            needle@.len() > 0,
            last == hay@.len() - needle@.len(),
            needle@.len() <= hay@.len(),
            i <= last + 1,
            forall|k: int| 0 <= k < i ==> !occurs_at(hay@, needle@, k),
        decreases last + 1 - i,
    {
        let mut j: usize = 0;
        let mut same = true;
        while j < needle.len()
            invariant
                hn == hay@.len(),
                i <= last,
                last == hay@.len() - needle@.len(),
                j <= needle@.len(),
                same == forall|m: int| 0 <= m < j ==> hay@[i + m] == needle@[m],
            decreases needle@.len() - j,
        {
            if hay[i + j] != needle[j] {
                same = false;
            }
            j += 1;
        }
        if same {
            assert(hay@.subrange(i as int, i + needle@.len()) =~= needle@);
            assert(occurs_at(hay@, needle@, i as int));
            return true;
        }
        assert(!occurs_at(hay@, needle@, i as int)) by {
            if hay@.subrange(i as int, i + needle@.len()) == needle@ {
                let m = choose|m: int| 0 <= m < needle@.len() && hay@[i + m] != needle@[m];
                assert(hay@.subrange(i as int, i + needle@.len())[m] == hay@[i + m]);
            }
        }
        i += 1;
    }
    assert forall|k: int| !occurs_at(hay@, needle@, k) by {
        if 0 <= k && k + needle@.len() <= hay@.len() {
            assert(k < i);
        }
    }
    false
}

pub fn bytes_eq(a: &[u8], b: &[u8]) -> (r: bool)
    ensures
        r == (a@ == b@),
{
    if a.len() != b.len() {
        return false;
    }
    let mut i: usize = 0;
    while i < a.len()
        invariant
            a@.len() == b@.len(),
            i <= a@.len(),
            forall|j: int| 0 <= j < i ==> a@[j] == b@[j],
        decreases a@.len() - i,
    {
        if a[i] != b[i] {
            return false;
        }
        i += 1;
    }
    assert(a@ =~= b@);
    true
}

/// Copies a byte slice into a new vector.
pub fn to_vec(s: &[u8]) -> (v: Vec<u8>)
    ensures
        v@ == s@,
{
    let mut v: Vec<u8> = Vec::new();
    let mut i: usize = 0;
    while i < s.len()
        invariant
            i <= s@.len(),
            v@ == s@.subrange(0, i as int),
        decreases s@.len() - i,
    {
        v.push(s[i]);
        i += 1;
    }
    assert(s@.subrange(0, s@.len() as int) =~= s@);
    v
}

// ── UTF-8 ────────────────────────────────────────────────────────────────────

/// Whether index `i` of a valid UTF-8 byte string falls on a character
/// boundary: the start, the end, or any byte that is not a continuation byte.
pub open spec fn on_boundary(s: Seq<u8>, i: int) -> bool {
    i == 0 || i == s.len() || (0 < i < s.len() && !is_continuation_byte(s[i]))
}

/// Whether index `i` falls on a character boundary.
pub fn at_boundary(s: &[u8], i: usize) -> (r: bool)
    ensures
        r == on_boundary(s@, i as int),
{
    if i == 0 || i == s.len() {
        true
    } else if i < s.len() {
        !(0x80 <= s[i] && s[i] <= 0xbf)
    } else {
        false
    }
}

proof fn lemma_valid_utf8_step(s: Seq<u8>, i: int, w: int)
    requires
        0 <= i < s.len(),
        valid_first_scalar(s.subrange(i, s.len() as int)),
        w == length_of_first_scalar(s.subrange(i, s.len() as int)),
    ensures
        i + w <= s.len(),
        pop_first_scalar(s.subrange(i, s.len() as int)) == s.subrange(i + w, s.len() as int),
        valid_utf8(s.subrange(i, s.len() as int)) == valid_utf8(s.subrange(i + w, s.len() as int)),
{
    let t = s.subrange(i, s.len() as int);
    assert(pop_first_scalar(t) =~= s.subrange(i + w, s.len() as int));
}

/// Whether the bytes are valid UTF-8 (what `str::from_utf8` accepts).
pub fn is_valid_utf8(s: &[u8]) -> (r: bool)
    ensures
        r == valid_utf8(s@),
{
    let mut i: usize = 0;
    assert(s@.subrange(0, s@.len() as int) =~= s@);
    while i < s.len()
        invariant
            i <= s@.len(),
            valid_utf8(s@) == valid_utf8(s@.subrange(i as int, s@.len() as int)),
        decreases s@.len() - i,
    {
        let ghost t = s@.subrange(i as int, s@.len() as int);
        let rem = s.len() - i;
        let b0 = s[i];
        assert(t[0] == b0);
        let w: usize;
        if b0 <= 0x7f {
            assert((b0 & 0x7f) as u32 <= 0x7f) by (bit_vector);
            w = 1;
        } else if 0xc0 <= b0 && b0 <= 0xdf {
            if rem < 2 {
                return false;
            }
            let b1 = s[i + 1];
            assert(t[1] == b1);
            if !(0x80 <= b1 && b1 <= 0xbf) {
                return false;
            }
            let cp: u32 = (((b0 & 0x1f) as u32) << 6u32) | ((b1 & 0x3f) as u32);
            assert(cp == decode_first_codepoint(t));
            if cp < 0x80 {
                return false;
            }
            assert((((b0 & 0x1f) as u32) << 6u32) | ((b1 & 0x3f) as u32) <= 0x7ff) by (bit_vector);
            w = 2;
        } else if 0xe0 <= b0 && b0 <= 0xef {
            if rem < 3 {
                return false;
            }
            let b1 = s[i + 1];
            let b2 = s[i + 2];
            assert(t[1] == b1 && t[2] == b2);
            if !(0x80 <= b1 && b1 <= 0xbf) || !(0x80 <= b2 && b2 <= 0xbf) {
                return false;
            }
            let cp: u32 = (((b0 & 0x0f) as u32) << 12u32) | (((b1 & 0x3f) as u32) << 6u32) | ((b2
                & 0x3f) as u32);
            assert(cp == decode_first_codepoint(t));
            if cp < 0x800 || (0xd800 <= cp && cp <= 0xdfff) {
                return false;
            }
            w = 3;
        } else if 0xf0 <= b0 && b0 <= 0xf7 {
            if rem < 4 {
                return false;
            }
            let b1 = s[i + 1];
            let b2 = s[i + 2];
            let b3 = s[i + 3];
            assert(t[1] == b1 && t[2] == b2 && t[3] == b3);
            if !(0x80 <= b1 && b1 <= 0xbf) || !(0x80 <= b2 && b2 <= 0xbf) || !(0x80 <= b3 && b3
                <= 0xbf) {
                return false;
            }
            let cp: u32 = (((b0 & 0x07) as u32) << 18u32) | (((b1 & 0x3f) as u32) << 12u32) | (((b2
                & 0x3f) as u32) << 6u32) | ((b3 & 0x3f) as u32);
            assert(cp == decode_first_codepoint(t));
            if cp < 0x10000 || cp > 0x10ffff {
                return false;
            }
            w = 4;
        } else {
            return false;
        }
        proof {
            assert(valid_first_scalar(t));
            lemma_valid_utf8_step(s@, i as int, w as int);
        }
        i += w;
    }
    assert(s@.subrange(i as int, s@.len() as int).len() == 0);
    true
}

} // verus!
