//! TXT — text messages; the module reports its antenna status this way.
use vstd::prelude::*;
use crate::text::{contains_bytes, contains_seq};
use crate::types::AntennaStatus;
use super::fields_of;

verus! {

#[derive(Clone, Copy, Debug, PartialEq, Eq, Structural)]
pub struct TxtData {
    pub antenna_status: AntennaStatus,
}

/// The antenna status a text mentions: `OK`, else `OPEN`, else `SHORT`.
pub open spec fn antenna_of_text(t: Seq<u8>) -> AntennaStatus {
    if contains_seq(t, seq![79u8, 75]) {
        AntennaStatus::Good
    } else if contains_seq(t, seq![79u8, 80, 69, 78]) {
        AntennaStatus::Open
    } else if contains_seq(t, seq![83u8, 72, 79, 82, 84]) {
        AntennaStatus::Short
    } else {
        AntennaStatus::Unknown
    }
}

/// Reading of the TXT fields (total, number, type, text).
pub open spec fn txt_fields(f: Seq<Seq<u8>>) -> Option<TxtData> {
    if f.len() < 4 {
        None
    } else {
        Some(TxtData { antenna_status: antenna_of_text(f[3]) })
    }
}

pub(crate) fn parse(f: &[Vec<u8>]) -> (r: Option<TxtData>)
    ensures
        r == txt_fields(fields_of(f@)),
{
    if f.len() < 4 {
        return None;
    }
    let info = f[3].as_slice();
    let ok = [79u8, 75];
    let open = [79u8, 80, 69, 78];
    let short = [83u8, 72, 79, 82, 84];
    assert(ok@ == seq![79u8, 75]);
    assert(open@ == seq![79u8, 80, 69, 78]);
    assert(short@ == seq![83u8, 72, 79, 82, 84]);
    let antenna_status = if contains_bytes(info, ok.as_slice()) {
        AntennaStatus::Good
    } else if contains_bytes(info, open.as_slice()) {
        AntennaStatus::Open
    } else if contains_bytes(info, short.as_slice()) {
        AntennaStatus::Short
    } else {
        AntennaStatus::Unknown
    };
    Some(TxtData { antenna_status })
}


// ── Laws ─────────────────────────────────────────────────────────────────────

/// A TXT sentence's antenna status comes from its fourth field (the text
/// after count, number and type): a text mentioning `OK` reports a good
/// antenna; else one mentioning `OPEN` an open circuit; else one mentioning
/// `SHORT` a short circuit; any other text leaves it unknown.
pub proof fn lemma_txt_antenna(total: Seq<u8>, num: Seq<u8>, kind: Seq<u8>, text: Seq<u8>, rest: Seq<Seq<u8>>)
    ensures
        txt_fields(seq![total, num, kind, text] + rest) is Some,
        contains_seq(text, seq![79u8, 75]) ==> txt_fields(seq![total, num, kind, text] + rest).unwrap().antenna_status
            == AntennaStatus::Good,
        !contains_seq(text, seq![79u8, 75]) && contains_seq(text, seq![79u8, 80, 69, 78]) ==> txt_fields(
            seq![total, num, kind, text] + rest,
        ).unwrap().antenna_status == AntennaStatus::Open,
        !contains_seq(text, seq![79u8, 75]) && !contains_seq(text, seq![79u8, 80, 69, 78]) && contains_seq(
            text,
            seq![83u8, 72, 79, 82, 84],
        ) ==> txt_fields(seq![total, num, kind, text] + rest).unwrap().antenna_status == AntennaStatus::Short,
        !contains_seq(text, seq![79u8, 75]) && !contains_seq(text, seq![79u8, 80, 69, 78]) && !contains_seq(
            text,
            seq![83u8, 72, 79, 82, 84],
        ) ==> txt_fields(seq![total, num, kind, text] + rest).unwrap().antenna_status == AntennaStatus::Unknown,
{
    let f = seq![total, num, kind, text] + rest;
    assert(f[3] == text);
}

} // verus!
