//! ZDA — UTC time and date.
use vstd::prelude::*;
use crate::text::{decimal_text, lemma_decimal_text_reads, parse_u16, parse_u16_spec, parse_u8, parse_u8_spec};
use crate::types::{time_field, time_field_aborts, time_field_would_abort, NmeaDate, NmeaTime};
use super::fields_of;

verus! {

#[derive(Clone, Copy, Debug, PartialEq, Eq, Structural)]
pub struct ZdaData {
    pub time: NmeaTime,
    pub date: NmeaDate,
}

impl DeepView for ZdaData {
    type V = ZdaData;

    open spec fn deep_view(&self) -> ZdaData {
        *self
    }
}

/// Reading of the ZDA fields (UTC time, day, month, four-digit year, …); all
/// four are required.
pub open spec fn zda_fields(f: Seq<Seq<u8>>) -> Option<ZdaData> {
    if f.len() < 4 {
        None
    } else {
        match (time_field(f[0]), parse_u8_spec(f[1]), parse_u8_spec(f[2]), parse_u16_spec(f[3])) {
            (Some(time), Some(day), Some(month), Some(year)) => Some(
                ZdaData { time, date: NmeaDate { day, month, year } },
            ),
            _ => None,
        }
    }
}

pub open spec fn zda_aborts(f: Seq<Seq<u8>>) -> bool {
    f.len() >= 4 && time_field_aborts(f[0])
}

/// Whether reading the ZDA fields would cut a UTF-8 character.
pub(crate) fn would_abort(f: &[Vec<u8>]) -> (r: bool)
    ensures
        r == zda_aborts(fields_of(f@)),
{
    f.len() >= 4 && time_field_would_abort(f[0].as_slice())
}

pub(crate) fn parse(f: &[Vec<u8>]) -> (r: Option<ZdaData>)
    requires
        !zda_aborts(fields_of(f@)),
    ensures
        r == zda_fields(fields_of(f@)),
{
    if f.len() < 4 {
        return None;
    }
    let time = match NmeaTime::parse_field(f[0].as_slice()) {
        Ok(t) => t,
        Err(_) => return None,
    };
    let day = match parse_u8(f[1].as_slice()) {
        Some(v) => v,
        None => return None,
    };
    let month = match parse_u8(f[2].as_slice()) {
        Some(v) => v,
        None => return None,
    };
    let year = match parse_u16(f[3].as_slice()) {
        Some(v) => v,
        None => return None,
    };
    Some(ZdaData { time, date: NmeaDate { day, month, year } })
}


// ── Laws ─────────────────────────────────────────────────────────────────────

/// A ZDA sentence (time, day, month, four-digit year, …) reads back the
/// date written in its day, month and year fields, in that order.
pub proof fn lemma_zda_reads_layout(time: Seq<u8>, day: nat, month: nat, year: nat, rest: Seq<Seq<u8>>)
    requires
        time_field(time) is Some,
        day <= 255,
        month <= 255,
        year <= 65535,
    ensures
        zda_fields(seq![time, decimal_text(day), decimal_text(month), decimal_text(year)] + rest) == Some(
            ZdaData {
                time: time_field(time).unwrap(),
                date: NmeaDate { day: day as u8, month: month as u8, year: year as u16 },
            },
        ),
{
    let f = seq![time, decimal_text(day), decimal_text(month), decimal_text(year)] + rest;
    assert(f[0] == time && f[1] == decimal_text(day) && f[2] == decimal_text(month));
    assert(f[3] == decimal_text(year));
    lemma_decimal_text_reads(day);
    lemma_decimal_text_reads(month);
    lemma_decimal_text_reads(year);
}

} // verus!
