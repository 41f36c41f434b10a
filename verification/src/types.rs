//! Values shared by the sentence parsers and the receiver state: time, date,
//! constellation, fix and antenna status, satellites, and the decimal fields
//! whose numeric value is a floating-point number.
use vstd::prelude::*;
use crate::text::{
    all_digits, at_boundary, decimal_value, find_byte, lemma_first_index_at, first_index_of, float_literal_ok, is_digit, is_float_literal, on_boundary, parse_u16,
    parse_u16_spec, parse_u8, parse_u8_spec, to_vec,
};

verus! {

// ── Time and date ────────────────────────────────────────────────────────────

#[derive(Clone, Copy, Debug, PartialEq, Eq, Structural)]
pub struct NmeaTime {
    pub hour: u8,
    pub minute: u8,
    pub second: u8,
    pub millis: u16,
}

impl Default for NmeaTime {
    fn default() -> (r: Self)
        ensures
            r == (NmeaTime { hour: 0, minute: 0, second: 0, millis: 0 }),
    {
        NmeaTime { hour: 0, minute: 0, second: 0, millis: 0 }
    }
}

#[derive(Clone, Copy, Debug, PartialEq, Eq, Structural)]
pub struct NmeaDate {
    pub day: u8,
    pub month: u8,
    pub year: u16,
}

impl Default for NmeaDate {
    fn default() -> (r: Self)
        ensures
            r == (NmeaDate { day: 0, month: 0, year: 0 }),
    {
        NmeaDate { day: 0, month: 0, year: 0 }
    }
}

pub open spec fn slice_of(s: Seq<u8>, a: int, b: int) -> Seq<u8> {
    s.subrange(a, b)
}

/// The milliseconds the digits after a time's decimal point stand for: they
/// are a fraction of a second, so `5`, `50` and `500` all give 500; digits
/// past the third are dropped, and an empty or non-digit fraction gives 0.
pub open spec fn fraction_millis(f: Seq<u8>) -> u16 {
    if f.len() == 0 || !all_digits(f) {
        0
    } else {
        let d0 = f[0] - 48;
        let d1 = if f.len() > 1 { f[1] - 48 } else { 0 };
        let d2 = if f.len() > 2 { f[2] - 48 } else { 0 };
        (d0 * 100 + d1 * 10 + d2) as u16
    }
}

fn fraction_millis_of(f: &[u8]) -> (r: u16)
    ensures
        r == fraction_millis(f@),
{
    let n = f.len();
    if n == 0 {
        return 0;
    }
    let mut i: usize = 0;
    while i < n
        invariant
            i <= n == f@.len(),
            forall|j: int| 0 <= j < i ==> #[trigger] is_digit(f@[j]),
        decreases n - i,
    {
        if !(48 <= f[i] && f[i] <= 57) {
            assert(!is_digit(f@[i as int]));
            return 0;
        }
        i += 1;
    }
    assert(is_digit(f@[0]));
    assert(n > 1 ==> is_digit(f@[1]));
    assert(n > 2 ==> is_digit(f@[2]));
    assert(all_digits(f@));
    let d0 = (f[0] - 48) as u16;
    let d1: u16 = if n > 1 { (f[1] - 48) as u16 } else { 0 };
    let d2: u16 = if n > 2 { (f[2] - 48) as u16 } else { 0 };
    d0 * 100 + d1 * 10 + d2
}

/// Reading of an NMEA time field `hhmmss[.sss]`: two-digit hour, minute and
/// second; the digits after the seventh byte are the fraction of a second
/// (see [`fraction_millis`]; 0 when absent).
#[verifier::opaque]
pub open spec fn time_field(s: Seq<u8>) -> Option<NmeaTime> {
    if s.len() < 6 {
        None
    } else {
        match (
            parse_u8_spec(slice_of(s, 0, 2)),
            parse_u8_spec(slice_of(s, 2, 4)),
            parse_u8_spec(slice_of(s, 4, 6)),
        ) {
            (Some(h), Some(m), Some(sec)) => Some(
                NmeaTime {
                    hour: h,
                    minute: m,
                    second: sec,
                    millis: if s.len() > 7 {
                        fraction_millis(slice_of(s, 7, s.len() as int))
                    } else {
                        0
                    },
                },
            ),
            _ => None,
        }
    }
}

/// Time fields that cut a UTF-8 character at one of the positions the reading
/// splits at (2, 4, 6, 7), reached before an earlier part already failed.
#[verifier::opaque]
pub open spec fn time_field_aborts(s: Seq<u8>) -> bool {
    s.len() >= 6 && (!on_boundary(s, 2) || (parse_u8_spec(slice_of(s, 0, 2)).is_some() && (!on_boundary(
        s,
        4,
    ) || (parse_u8_spec(slice_of(s, 2, 4)).is_some() && (!on_boundary(s, 6) || (parse_u8_spec(
        slice_of(s, 4, 6),
    ).is_some() && s.len() > 7 && !on_boundary(s, 7)))))))
}

/// Reading of an NMEA date field `ddmmyy`; the two-digit year is taken as 20yy.
#[verifier::opaque]
pub open spec fn date_field(s: Seq<u8>) -> Option<NmeaDate> {
    if s.len() < 6 {
        None
    } else {
        match (
            parse_u8_spec(slice_of(s, 0, 2)),
            parse_u8_spec(slice_of(s, 2, 4)),
            parse_u16_spec(slice_of(s, 4, 6)),
        ) {
            (Some(d), Some(m), Some(y)) => Some(NmeaDate { day: d, month: m, year: (2000 + y) as u16 }),
            _ => None,
        }
    }
}

#[verifier::opaque]
pub open spec fn date_field_aborts(s: Seq<u8>) -> bool {
    s.len() >= 6 && (!on_boundary(s, 2) || (parse_u8_spec(slice_of(s, 0, 2)).is_some() && (!on_boundary(
        s,
        4,
    ) || (parse_u8_spec(slice_of(s, 2, 4)).is_some() && !on_boundary(s, 6)))))
}

proof fn lemma_two_byte_number_small(s: Seq<u8>)
    requires
        s.len() == 2,
        parse_u16_spec(s).is_some(),
    ensures
        parse_u16_spec(s).unwrap() <= 99,
{
    let d = crate::text::unsigned_digits(s);
    reveal(parse_u16_spec);
    reveal_with_fuel(crate::text::decimal_value, 3);
    assert(d.len() <= 2);
    if d.len() == 2 {
        assert(d.drop_last().drop_last() =~= Seq::<u8>::empty());
        assert(crate::text::is_digit(d[0]) && crate::text::is_digit(d[1]));
        assert(d.drop_last()[0] == d[0]);
    } else if d.len() == 1 {
        assert(d.drop_last() =~= Seq::<u8>::empty());
        assert(crate::text::is_digit(d[0]));
    }
}

/// The two decimal digits of `v` (below 100), with a leading zero.
pub open spec fn two_digits(v: nat) -> Seq<u8> {
    seq![(48 + v / 10) as u8, (48 + v % 10) as u8]
}

/// The three decimal digits of `v` (below 1000), with leading zeros.
pub open spec fn three_digits(v: nat) -> Seq<u8> {
    seq![(48 + v / 100) as u8, (48 + (v / 10) % 10) as u8, (48 + v % 10) as u8]
}

proof fn lemma_two_digits_read(v: nat)
    requires
        v < 100,
    ensures
        parse_u8_spec(two_digits(v)) == Some(v as u8),
        parse_u16_spec(two_digits(v)) == Some(v as u16),
{
    let t = two_digits(v);
    assert(t.drop_last() =~= seq![t[0]]);
    assert(t.drop_last().drop_last() =~= Seq::<u8>::empty());
    assert(decimal_value(t.drop_last().drop_last()) == 0);
    assert(decimal_value(t.drop_last()) == (v / 10) as nat);
    assert(decimal_value(t) == (v / 10) * 10 + v % 10);
    assert(is_digit(t[0]) && is_digit(t[1]));
    assert(all_digits(t));
    reveal(parse_u8_spec);
    reveal(parse_u16_spec);
}

/// A time written `hhmmss` reads as that hour, minute and second, and with a
/// three-digit fraction `.fff` as that many milliseconds.
pub proof fn lemma_time_field_reads(hour: nat, minute: nat, second: nat, millis: nat)
    requires
        hour < 100,
        minute < 100,
        second < 100,
        millis < 1000,
    ensures
        time_field(two_digits(hour) + two_digits(minute) + two_digits(second)) == Some(
            NmeaTime { hour: hour as u8, minute: minute as u8, second: second as u8, millis: 0 },
        ),
        time_field(two_digits(hour) + two_digits(minute) + two_digits(second) + seq![46u8] + three_digits(millis))
            == Some(
            NmeaTime { hour: hour as u8, minute: minute as u8, second: second as u8, millis: millis as u16 },
        ),
{
    reveal(time_field);
    lemma_two_digits_read(hour);
    lemma_two_digits_read(minute);
    lemma_two_digits_read(second);
    let a = two_digits(hour) + two_digits(minute) + two_digits(second);
    assert(slice_of(a, 0, 2) =~= two_digits(hour));
    assert(slice_of(a, 2, 4) =~= two_digits(minute));
    assert(slice_of(a, 4, 6) =~= two_digits(second));
    let b = a + seq![46u8] + three_digits(millis);
    assert(slice_of(b, 0, 2) =~= two_digits(hour));
    assert(slice_of(b, 2, 4) =~= two_digits(minute));
    assert(slice_of(b, 4, 6) =~= two_digits(second));
    let fr = slice_of(b, 7, b.len() as int);
    assert(fr =~= three_digits(millis));
    assert(is_digit(fr[0]) && is_digit(fr[1]) && is_digit(fr[2]));
    assert(all_digits(fr));
    assert(fraction_millis(fr) == millis);
}

/// A date written `ddmmyy` reads as that day and month of the year 20yy.
pub proof fn lemma_date_field_reads(day: nat, month: nat, year: nat)
    requires
        day < 100,
        month < 100,
        year < 100,
    ensures
        date_field(two_digits(day) + two_digits(month) + two_digits(year)) == Some(
            NmeaDate { day: day as u8, month: month as u8, year: (2000 + year) as u16 },
        ),
{
    reveal(date_field);
    lemma_two_digits_read(day);
    lemma_two_digits_read(month);
    lemma_two_digits_read(year);
    let a = two_digits(day) + two_digits(month) + two_digits(year);
    assert(slice_of(a, 0, 2) =~= two_digits(day));
    assert(slice_of(a, 2, 4) =~= two_digits(month));
    assert(slice_of(a, 4, 6) =~= two_digits(year));
}

impl NmeaTime {
    /// Parse an NMEA time field `"hhmmss.sss"`.
    /// A field whose two-digit parts would end inside a UTF-8 character is
    /// refused.
    pub fn parse_field(s: &[u8]) -> (r: Result<NmeaTime, ()>)
        ensures
            match time_field(s@) {
                Some(t) if !time_field_aborts(s@) => r == Ok::<NmeaTime, ()>(t),
                _ => r.is_err(),
            },
    {
        if time_field_would_abort(s) {
            return Err(());
        }
        reveal(time_field);
        reveal(time_field_aborts);
        let n = s.len();
        if n < 6 {
            return Err(());
        }
        let hour = match parse_u8(&s[0..2]) {
            Some(v) => v,
            None => return Err(()),
        };
        let minute = match parse_u8(&s[2..4]) {
            Some(v) => v,
            None => return Err(()),
        };
        let second = match parse_u8(&s[4..6]) {
            Some(v) => v,
            None => return Err(()),
        };
        let millis: u16 = if n > 7 {
            fraction_millis_of(&s[7..n])
        } else {
            0
        };
        Ok(NmeaTime { hour, minute, second, millis })
    }
}

impl NmeaDate {
    /// Parse an NMEA date field `"ddmmyy"` (two-digit year → 20xx).
    /// A field whose two-digit parts would end inside a UTF-8 character is
    /// refused.
    pub fn parse_field(s: &[u8]) -> (r: Result<NmeaDate, ()>)
        ensures
            match date_field(s@) {
                Some(d) if !date_field_aborts(s@) => r == Ok::<NmeaDate, ()>(d),
                _ => r.is_err(),
            },
    {
        if date_field_would_abort(s) {
            return Err(());
        }
        reveal(date_field);
        reveal(date_field_aborts);
        if s.len() < 6 {
            return Err(());
        }
        let day = match parse_u8(&s[0..2]) {
            Some(v) => v,
            None => return Err(()),
        };
        let month = match parse_u8(&s[2..4]) {
            Some(v) => v,
            None => return Err(()),
        };
        let year_short = match parse_u16(&s[4..6]) {
            Some(v) => v,
            None => return Err(()),
        };
        proof {
            lemma_two_byte_number_small(s@.subrange(4, 6));
        }
        Ok(NmeaDate { day, month, year: 2000 + year_short })
    }
}

/// Whether reading `s` as a time field would cut a UTF-8 character.
pub(crate) fn time_field_would_abort(s: &[u8]) -> (r: bool)
    ensures
        r == time_field_aborts(s@),
{
    reveal(time_field_aborts);
    let n = s.len();
    if n < 6 {
        return false;
    }
    if !at_boundary(s, 2) {
        return true;
    }
    if parse_u8(&s[0..2]).is_none() {
        return false;
    }
    if !at_boundary(s, 4) {
        return true;
    }
    if parse_u8(&s[2..4]).is_none() {
        return false;
    }
    if !at_boundary(s, 6) {
        return true;
    }
    if parse_u8(&s[4..6]).is_none() {
        return false;
    }
    n > 7 && !at_boundary(s, 7)
}

/// Whether reading `s` as a date field would cut a UTF-8 character.
pub(crate) fn date_field_would_abort(s: &[u8]) -> (r: bool)
    ensures
        r == date_field_aborts(s@),
{
    reveal(date_field_aborts);
    if s.len() < 6 {
        return false;
    }
    if !at_boundary(s, 2) {
        return true;
    }
    if parse_u8(&s[0..2]).is_none() {
        return false;
    }
    if !at_boundary(s, 4) {
        return true;
    }
    if parse_u8(&s[2..4]).is_none() {
        return false;
    }
    !at_boundary(s, 6)
}

// ── Decimal text ─────────────────────────────────────────────────────────────

pub open spec fn digit_char(d: nat) -> char {
    (48 + d) as char
}

/// The decimal digits of `v`.
pub open spec fn dec_chars(v: nat) -> Seq<char>
    decreases v,
{
    if v < 10 {
        seq![digit_char(v)]
    } else {
        dec_chars(v / 10).push(digit_char(v % 10))
    }
}

/// The decimal digits of `v`, left-padded with `0` to `width` characters.
pub open spec fn padded(v: nat, width: nat) -> Seq<char> {
    let d = dec_chars(v);
    if d.len() < width {
        Seq::new((width - d.len()) as nat, |i: int| '0') + d
    } else {
        d
    }
}

fn push_digit(s: &mut String, d: u16)
    requires
        d < 10,
    ensures
        final(s)@ == old(s)@.push(digit_char(d as nat)),
{
    proof {
        reveal_strlit("0");
        reveal_strlit("1");
        reveal_strlit("2");
        reveal_strlit("3");
        reveal_strlit("4");
        reveal_strlit("5");
        reveal_strlit("6");
        reveal_strlit("7");
        reveal_strlit("8");
        reveal_strlit("9");
    }
    let t = match d {
        0 => "0",
        1 => "1",
        2 => "2",
        3 => "3",
        4 => "4",
        5 => "5",
        6 => "6",
        7 => "7",
        8 => "8",
        _ => "9",
    };
    s.append(t);
    assert(s@ =~= old(s)@.push(digit_char(d as nat)));
}

fn push_decimal(s: &mut String, v: u16)
    ensures
        final(s)@ == old(s)@ + dec_chars(v as nat),
    decreases v,
{
    if v >= 10 {
        push_decimal(s, v / 10);
    }
    push_digit(s, v % 10);
    assert(s@ =~= old(s)@ + dec_chars(v as nat));
}

fn decimal_len(v: u16) -> (r: usize)
    ensures
        r == dec_chars(v as nat).len(),
        r <= v + 1,
    decreases v,
{
    if v >= 10 {
        decimal_len(v / 10) + 1
    } else {
        1
    }
}

/// Append `v` in decimal, left-padded with `0` to `width` characters.
fn push_padded(s: &mut String, v: u16, width: usize)
    ensures
        final(s)@ == old(s)@ + padded(v as nat, width as nat),
{
    proof {
        reveal_strlit("0");
    }
    let n = decimal_len(v);
    let ghost start = s@;
    if n < width {
        let mut k: usize = 0;
        while k < width - n
            invariant
                n < width,
                k <= width - n,
                "0"@ == seq!['0'],
                s@ == start + Seq::new(k as nat, |i: int| '0'),
            decreases width - n - k,
        {
            s.append("0");
            k += 1;
            assert(s@ =~= start + Seq::new(k as nat, |i: int| '0'));
        }
    }
    let ghost mid = s@;
    push_decimal(s, v);
    assert(s@ =~= old(s)@ + padded(v as nat, width as nat));
}

impl NmeaTime {
    /// `hh:mm:ss`, each at least two digits.
    pub open spec fn spec_text(self) -> Seq<char> {
        padded(self.hour as nat, 2) + seq![':'] + padded(self.minute as nat, 2) + seq![':'] + padded(
            self.second as nat,
            2,
        )
    }

    /// The time as `hh:mm:ss`.
    pub fn to_string(&self) -> (s: String)
        ensures
            s@ == self.spec_text(),
    {
        proof {
            reveal_strlit(":");
        }
        let mut s = String::new();
        push_padded(&mut s, self.hour as u16, 2);
        s.append(":");
        push_padded(&mut s, self.minute as u16, 2);
        s.append(":");
        push_padded(&mut s, self.second as u16, 2);
        assert(s@ =~= self.spec_text());
        s
    }
}

impl NmeaDate {
    /// `yyyy-mm-dd`, zero-padded.
    pub open spec fn spec_text(self) -> Seq<char> {
        padded(self.year as nat, 4) + seq!['-'] + padded(self.month as nat, 2) + seq!['-'] + padded(
            self.day as nat,
            2,
        )
    }

    /// The date as `yyyy-mm-dd`.
    pub fn to_string(&self) -> (s: String)
        ensures
            s@ == self.spec_text(),
    {
        proof {
            reveal_strlit("-");
        }
        let mut s = String::new();
        push_padded(&mut s, self.year, 4);
        s.append("-");
        push_padded(&mut s, self.month as u16, 2);
        s.append("-");
        push_padded(&mut s, self.day as u16, 2);
        assert(s@ =~= self.spec_text());
        s
    }
}

// ── Constellations ───────────────────────────────────────────────────────────

#[derive(Clone, Copy, Debug, PartialEq, Eq, Structural)]
pub enum GnssSystem {
    Gps,
    Beidou,
    Glonass,
    Galileo,
    Qzss,
    Multi,
}

impl Default for GnssSystem {
    fn default() -> (r: Self)
        ensures
            r == GnssSystem::Multi,
    {
        GnssSystem::Multi
    }
}

/// The constellation a two-letter talker id names; anything else is `Multi`.
pub open spec fn system_of_talker(t: Seq<u8>) -> GnssSystem {
    if t == seq![71u8, 80] {
        GnssSystem::Gps
    } else if t == seq![71u8, 66] || t == seq![66u8, 68] {
        GnssSystem::Beidou
    } else if t == seq![71u8, 76] {
        GnssSystem::Glonass
    } else if t == seq![71u8, 65] {
        GnssSystem::Galileo
    } else if t == seq![71u8, 81] {
        GnssSystem::Qzss
    } else {
        GnssSystem::Multi
    }
}

/// The standard talker ids name their constellations: `GP` GPS, `GB` and
/// `BD` BeiDou, `GL` GLONASS, `GA` Galileo, `GQ` QZSS; any other id
/// (`GN` among them) stands for several constellations at once.
pub proof fn lemma_talker_systems(t: Seq<u8>)
    ensures
        system_of_talker(seq![71u8, 80]) == GnssSystem::Gps,
        system_of_talker(seq![71u8, 66]) == GnssSystem::Beidou,
        system_of_talker(seq![66u8, 68]) == GnssSystem::Beidou,
        system_of_talker(seq![71u8, 76]) == GnssSystem::Glonass,
        system_of_talker(seq![71u8, 65]) == GnssSystem::Galileo,
        system_of_talker(seq![71u8, 81]) == GnssSystem::Qzss,
        t != seq![71u8, 80] && t != seq![71u8, 66] && t != seq![66u8, 68] && t != seq![71u8, 76] && t
            != seq![71u8, 65] && t != seq![71u8, 81] ==> system_of_talker(t) == GnssSystem::Multi,
{
    let gp = seq![71u8, 80];
    let gb = seq![71u8, 66];
    let bd = seq![66u8, 68];
    let gl = seq![71u8, 76];
    let ga = seq![71u8, 65];
    let gq = seq![71u8, 81];
    assert(gb[1] != gp[1] && bd[0] != gp[0]);
    assert(gl[1] != gp[1] && gl[1] != gb[1] && gl[0] != bd[0]);
    assert(ga[1] != gp[1] && ga[1] != gb[1] && ga[0] != bd[0] && ga[1] != gl[1]);
    assert(gq[1] != gp[1] && gq[1] != gb[1] && gq[0] != bd[0] && gq[1] != gl[1] && gq[1] != ga[1]);
}

impl GnssSystem {
    /// `GP` → GPS, `GB`/`BD` → BeiDou, `GL` → GLONASS, `GA` → Galileo,
    /// `GQ` → QZSS, anything else → `Multi`.
    pub fn from_talker(talker: &[u8]) -> (r: Self)
        ensures
            r == system_of_talker(talker@),
    {
        if talker.len() != 2 {
            assert(talker@ != seq![71u8, 80] && talker@ != seq![71u8, 66] && talker@ != seq![66u8, 68]
                && talker@ != seq![71u8, 76] && talker@ != seq![71u8, 65] && talker@ != seq![71u8, 81]);
            return Self::Multi;
        }
        let a = talker[0];
        let b = talker[1];
        assert(talker@ == seq![a, b]);
        if a == 71 && b == 80 {
            Self::Gps
        } else if (a == 71 && b == 66) || (a == 66 && b == 68) {
            Self::Beidou
        } else if a == 71 && b == 76 {
            Self::Glonass
        } else if a == 71 && b == 65 {
            Self::Galileo
        } else if a == 71 && b == 81 {
            Self::Qzss
        } else {
            Self::Multi
        }
    }

    pub open spec fn spec_label(self) -> Seq<char> {
        match self {
            GnssSystem::Gps => "GPS"@,
            GnssSystem::Beidou => "BDS"@,
            GnssSystem::Glonass => "GLO"@,
            GnssSystem::Galileo => "GAL"@,
            GnssSystem::Qzss => "QZS"@,
            GnssSystem::Multi => "MUL"@,
        }
    }

    /// The label, as text.
    pub fn to_string(self) -> (s: String)
        ensures
            s@ == self.spec_label(),
    {
        String::from_str(self.label())
    }

    /// Short uppercase label suitable for narrow display columns.
    pub fn label(self) -> (r: &'static str)
        ensures
            r@ == self.spec_label(),
    {
        match self {
            Self::Gps => "GPS",
            Self::Beidou => "BDS",
            Self::Glonass => "GLO",
            Self::Galileo => "GAL",
            Self::Qzss => "QZS",
            Self::Multi => "MUL",
        }
    }
}

// ── Fix and antenna status ───────────────────────────────────────────────────

#[derive(Clone, Copy, Debug, PartialEq, Eq, Structural)]
pub enum FixQuality {
    Invalid,
    Sps,
    Estimated,
}

impl Default for FixQuality {
    fn default() -> (r: Self)
        ensures
            r == FixQuality::Invalid,
    {
        FixQuality::Invalid
    }
}

impl FixQuality {
    pub open spec fn spec_label(self) -> Seq<char> {
        match self {
            FixQuality::Invalid => "invalid"@,
            FixQuality::Sps => "SPS fix"@,
            FixQuality::Estimated => "estimated (DR)"@,
        }
    }

    /// Human-readable form.
    pub fn to_string(self) -> (s: String)
        ensures
            s@ == self.spec_label(),
    {
        match self {
            Self::Invalid => String::from_str("invalid"),
            Self::Sps => String::from_str("SPS fix"),
            Self::Estimated => String::from_str("estimated (DR)"),
        }
    }
}

#[derive(Clone, Copy, Debug, PartialEq, Eq, Structural)]
pub enum FixMode {
    NoFix,
    Fix2D,
    Fix3D,
}

impl Default for FixMode {
    fn default() -> (r: Self)
        ensures
            r == FixMode::NoFix,
    {
        FixMode::NoFix
    }
}

impl FixMode {
    pub open spec fn spec_label(self) -> Seq<char> {
        match self {
            FixMode::NoFix => "no fix"@,
            FixMode::Fix2D => "2D fix"@,
            FixMode::Fix3D => "3D fix"@,
        }
    }

    /// Human-readable form.
    pub fn to_string(self) -> (s: String)
        ensures
            s@ == self.spec_label(),
    {
        match self {
            Self::NoFix => String::from_str("no fix"),
            Self::Fix2D => String::from_str("2D fix"),
            Self::Fix3D => String::from_str("3D fix"),
        }
    }
}

#[derive(Clone, Copy, Debug, PartialEq, Eq, Structural)]
pub enum AntennaStatus {
    Unknown,
    /// The module reports `ANTENNA OK`.
    Good,
    Open,
    Short,
}

impl Default for AntennaStatus {
    fn default() -> (r: Self)
        ensures
            r == AntennaStatus::Unknown,
    {
        AntennaStatus::Unknown
    }
}

impl AntennaStatus {
    pub open spec fn spec_label(self) -> Seq<char> {
        match self {
            AntennaStatus::Unknown => "unknown"@,
            AntennaStatus::Good => "OK"@,
            AntennaStatus::Open => "open"@,
            AntennaStatus::Short => "short"@,
        }
    }

    /// Human-readable form.
    pub fn to_string(self) -> (s: String)
        ensures
            s@ == self.spec_label(),
    {
        match self {
            Self::Unknown => String::from_str("unknown"),
            Self::Good => String::from_str("OK"),
            Self::Open => String::from_str("open"),
            Self::Short => String::from_str("short"),
        }
    }
}

// ── Satellites ───────────────────────────────────────────────────────────────

#[derive(Clone, Copy, Debug, PartialEq, Eq, Structural)]
pub struct SatInfo {
    pub svid: u16,
    pub system: GnssSystem,
    pub elevation: Option<i8>,
    pub azimuth: Option<u16>,
    pub snr: Option<u8>,
    pub used: bool,
}

// ── Decimal fields ───────────────────────────────────────────────────────────

/// A decimal field kept as its text. The text always reads as a
/// floating-point number (`str::parse::<f32>` / `f64` succeed on it); its
/// value is the quantity the field stands for.
#[derive(Debug, PartialEq, Eq)]
pub struct FloatText {
    pub text: Vec<u8>,
}

impl DeepView for FloatText {
    type V = Seq<u8>;

    open spec fn deep_view(&self) -> Seq<u8> {
        self.text@
    }
}

impl Clone for FloatText {
    fn clone(&self) -> (r: Self)
        ensures
            r.deep_view() == self.deep_view(),
    {
        FloatText { text: self.text.clone() }
    }
}

/// `"0.0"`
pub open spec fn zero_text() -> Seq<u8> {
    seq![48u8, 46, 48]
}

/// `"99.9"`, the value a receiver reports for an unknown dilution of precision.
pub open spec fn unknown_dop_text() -> Seq<u8> {
    seq![57u8, 57, 46, 57]
}

/// The text kept for a decimal field: the field itself when it reads as a
/// number, otherwise the fallback.
pub open spec fn float_or(field: Seq<u8>, fallback: Seq<u8>) -> Seq<u8> {
    if is_float_literal(field) {
        field
    } else {
        fallback
    }
}

impl FloatText {
    /// The text reads as a floating-point number.
    pub open spec fn wf(&self) -> bool {
        is_float_literal(self.text@)
    }

    /// `0.0`
    pub fn zero() -> (r: FloatText)
        ensures
            r.deep_view() == zero_text(),
            r.wf(),
    {
        let mut text: Vec<u8> = Vec::new();
        text.push(48);
        text.push(46);
        text.push(48);
        assert(text@ =~= zero_text());
        proof {
            lemma_fallbacks_read();
        }
        FloatText { text }
    }

    /// The field's text when it reads as a number, else the fallback.
    pub fn from_field_or(field: &[u8], fallback: &[u8]) -> (r: FloatText)
        requires
            is_float_literal(fallback@),
        ensures
            r.deep_view() == float_or(field@, fallback@),
            r.wf(),
    {
        if float_literal_ok(field) {
            FloatText { text: to_vec(field) }
        } else {
            FloatText { text: to_vec(fallback) }
        }
    }

    /// The text of the number.
    pub fn as_bytes(&self) -> (r: &[u8])
        ensures
            r@ == self.text@,
    {
        self.text.as_slice()
    }
}

/// `"0.0"` and `"99.9"` read as numbers.
pub proof fn lemma_fallbacks_read()
    ensures
        is_float_literal(zero_text()),
        is_float_literal(unknown_dop_text()),
{
    reveal(is_float_literal);
    let z = zero_text();
    assert(crate::text::digit_run(z, 2) == 1) by {
        assert(crate::text::digit_run(z, 3) == 0);
    }
    assert(crate::text::digit_run(z, 0) == 1) by {
        assert(crate::text::digit_run(z, 1) == 0);
    }
    assert(z.subrange(3, 3) =~= Seq::<u8>::empty());
    assert(!(z.len() > 0 && crate::text::is_sign(z[0])));
    assert(crate::text::is_decimal_number(z));
    let u = unknown_dop_text();
    assert(crate::text::digit_run(u, 3) == 1) by {
        assert(crate::text::digit_run(u, 4) == 0);
    }
    assert(crate::text::digit_run(u, 0) == 2) by {
        assert(crate::text::digit_run(u, 2) == 0);
        assert(crate::text::digit_run(u, 1) == 1);
    }
    assert(u.subrange(4, 4) =~= Seq::<u8>::empty());
    assert(crate::text::is_decimal_number(u));
}

/// An NMEA latitude or longitude `(d)ddmm.mmmm` with its hemisphere: the
/// degrees text, the minutes text, and whether the hemisphere is south or
/// west. Its value in decimal degrees is `±(degrees + minutes / 60)`.
#[derive(Debug, PartialEq, Eq)]
pub struct Coordinate {
    pub degrees: FloatText,
    pub minutes: FloatText,
    pub negative: bool,
}

pub ghost struct CoordinateModel {
    pub degrees: Seq<u8>,
    pub minutes: Seq<u8>,
    pub negative: bool,
}

impl DeepView for Coordinate {
    type V = CoordinateModel;

    open spec fn deep_view(&self) -> CoordinateModel {
        CoordinateModel {
            degrees: self.degrees.deep_view(),
            minutes: self.minutes.deep_view(),
            negative: self.negative,
        }
    }
}

impl Clone for Coordinate {
    fn clone(&self) -> (r: Self)
        ensures
            r.deep_view() == self.deep_view(),
            r.wf() == self.wf(),
    {
        Coordinate {
            degrees: self.degrees.clone(),
            minutes: self.minutes.clone(),
            negative: self.negative,
        }
    }
}

/// `"S"` or `"W"`.
pub open spec fn is_negative_hemisphere(h: Seq<u8>) -> bool {
    h == seq![83u8] || h == seq![87u8]
}

/// The field holds a coordinate: non-empty, with a `.` at index 2 or later,
/// and both the degrees (everything up to two bytes before the `.`) and the
/// minutes (the rest) read as numbers.
#[verifier::opaque]
pub open spec fn coordinate_ok(val: Seq<u8>) -> bool {
    val.len() > 0 && match first_index_of(val, 46) {
        Some(dot) => dot >= 2 && is_float_literal(slice_of(val, 0, dot - 2)) && is_float_literal(
            slice_of(val, dot - 2, val.len() as int),
        ),
        None => false,
    }
}

/// Coordinate fields whose split point (two bytes before the `.`) cuts a
/// UTF-8 character.
#[verifier::opaque]
pub open spec fn coordinate_aborts(val: Seq<u8>) -> bool {
    val.len() > 0 && match first_index_of(val, 46) {
        Some(dot) => dot >= 2 && !on_boundary(val, dot - 2),
        None => false,
    }
}

/// The coordinate read from `val` / `hemi`, when there is one.
#[verifier::opaque]
pub open spec fn coordinate_field(val: Seq<u8>, hemi: Seq<u8>) -> Option<CoordinateModel> {
    if coordinate_ok(val) {
        let dot = first_index_of(val, 46).unwrap();
        Some(
            CoordinateModel {
                degrees: slice_of(val, 0, dot - 2),
                minutes: slice_of(val, dot - 2, val.len() as int),
                negative: is_negative_hemisphere(hemi),
            },
        )
    } else {
        None
    }
}

/// A coordinate written as whole degrees, then two-digit minutes with a
/// decimal fraction (`dddmm.mmmm`), reads as those degrees and minutes; it
/// is south or west (negative) exactly when the hemisphere is `S` or `W`.
pub proof fn lemma_coordinate_field_reads(degrees: Seq<u8>, minutes: nat, fraction: Seq<u8>, hemi: Seq<u8>)
    requires
        degrees.len() > 0,
        all_digits(degrees),
        minutes < 100,
        is_float_literal(degrees),
        is_float_literal(two_digits(minutes) + seq![46u8] + fraction),
    ensures
        coordinate_field(degrees + two_digits(minutes) + seq![46u8] + fraction, hemi) == Some(
            CoordinateModel {
                degrees,
                minutes: two_digits(minutes) + seq![46u8] + fraction,
                negative: hemi == seq![83u8] || hemi == seq![87u8],
            },
        ),
{
    let m = two_digits(minutes) + seq![46u8] + fraction;
    let val = degrees + m;
    assert(degrees + two_digits(minutes) + seq![46u8] + fraction =~= val);
    let dot: int = degrees.len() as int + 2;
    assert(val[dot] == 46);
    assert forall|j: int| 0 <= j < dot implies val[j] != 46 by {
        if j < degrees.len() {
            assert(val[j] == degrees[j]);
            assert(is_digit(degrees[j]));
        } else {
            assert(val[j] == m[j - degrees.len()]);
        }
    }
    lemma_first_index_at(val, 46, dot);
    assert(slice_of(val, 0, dot - 2) =~= degrees);
    assert(slice_of(val, dot - 2, val.len() as int) =~= m);
    reveal(coordinate_ok);
    assert(coordinate_ok(val));
    reveal(coordinate_field);
}

/// The coordinate `0°` north / east.
pub open spec fn zero_coordinate() -> CoordinateModel {
    CoordinateModel { degrees: zero_text(), minutes: zero_text(), negative: false }
}

impl Coordinate {
    /// Both texts read as numbers.
    pub open spec fn wf(&self) -> bool {
        self.degrees.wf() && self.minutes.wf()
    }

    pub fn zero() -> (c: Coordinate)
        ensures
            c.deep_view() == zero_coordinate(),
            c.wf(),
    {
        Coordinate { degrees: FloatText::zero(), minutes: FloatText::zero(), negative: false }
    }
}

/// Whether reading `val` as a coordinate would cut a UTF-8 character.
pub(crate) fn coordinate_would_abort(val: &[u8]) -> (r: bool)
    ensures
        r == coordinate_aborts(val@),
{
    reveal(coordinate_aborts);
    if val.len() == 0 {
        return false;
    }
    match find_byte(val, 46) {
        Some(dot) => dot >= 2 && !at_boundary(val, dot - 2),
        None => false,
    }
}

/// Parse an NMEA lat/lon field pair `(value, hemisphere)`; a value whose
/// degrees would end inside a UTF-8 character is refused.
pub fn parse_latlon(val: &[u8], hemi: &[u8]) -> (r: Option<Coordinate>)
    ensures
        r.deep_view() == (if coordinate_aborts(val@) { None } else { coordinate_field(val@, hemi@) }),
        r matches Some(c) ==> c.wf(),
{
    if coordinate_would_abort(val) {
        return None;
    }
    reveal(coordinate_field);
    reveal(coordinate_ok);
    reveal(coordinate_aborts);
    if val.len() == 0 {
        return None;
    }
    let dot = match find_byte(val, 46) {
        Some(d) => d,
        None => return None,
    };
    if dot < 2 {
        return None;
    }
    let deg = &val[0..dot - 2];
    let min = &val[dot - 2..val.len()];
    if !float_literal_ok(deg) || !float_literal_ok(min) {
        return None;
    }
    let negative = hemi.len() == 1 && (hemi[0] == 83 || hemi[0] == 87);
    assert(negative == is_negative_hemisphere(hemi@)) by {
        if hemi@.len() == 1 {
            assert(hemi@ == seq![hemi@[0]]);
        }
    }
    Some(
        Coordinate {
            degrees: FloatText { text: to_vec(deg) },
            minutes: FloatText { text: to_vec(min) },
            negative,
        },
    )
}

// ── Dilution of precision ────────────────────────────────────────────────────

#[derive(Debug, PartialEq, Eq)]
pub struct DopValues {
    pub pdop: FloatText,
    pub hdop: FloatText,
    pub vdop: FloatText,
}

pub ghost struct DopModel {
    pub pdop: Seq<u8>,
    pub hdop: Seq<u8>,
    pub vdop: Seq<u8>,
}

impl DeepView for DopValues {
    type V = DopModel;

    open spec fn deep_view(&self) -> DopModel {
        DopModel {
            pdop: self.pdop.deep_view(),
            hdop: self.hdop.deep_view(),
            vdop: self.vdop.deep_view(),
        }
    }
}

impl Clone for DopValues {
    fn clone(&self) -> (r: Self)
        ensures
            r.deep_view() == self.deep_view(),
            r.wf() == self.wf(),
    {
        DopValues { pdop: self.pdop.clone(), hdop: self.hdop.clone(), vdop: self.vdop.clone() }
    }
}

/// All three values 0.0, as before any GSA sentence.
pub open spec fn zero_dop() -> DopModel {
    DopModel { pdop: zero_text(), hdop: zero_text(), vdop: zero_text() }
}

impl DopValues {
    pub open spec fn wf(&self) -> bool {
        self.pdop.wf() && self.hdop.wf() && self.vdop.wf()
    }
}

impl Default for DopValues {
    fn default() -> (r: Self)
        ensures
            r.deep_view() == zero_dop(),
            r.wf(),
    {
        DopValues { pdop: FloatText::zero(), hdop: FloatText::zero(), vdop: FloatText::zero() }
    }
}

} // verus!
